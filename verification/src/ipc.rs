//! The queue that carries values from one process to the next.
use std::collections::VecDeque;
use vstd::prelude::*;

verus! {

/// What the queue of notifications tells a receiver that asks it.
#[derive(Debug, Clone, Copy, PartialEq, Eq, Structural)]
pub enum Notice {
    /// A notification was taken: a value was sent and not yet received.
    Arrived,
    /// No notification is pending and no sender is left.
    Closed,
    /// No notification is pending. Only a receiver that does not wait is
    /// told so.
    Empty,
}

/// What a receiver gets from a channel.
#[derive(Debug, Clone, Copy, PartialEq, Eq, Structural)]
pub enum Received {
    /// The oldest value of the buffer.
    Value(isize),
    /// Nothing: the channel is closed.
    Closed,
    /// Nothing: the channel is empty.
    Empty,
}

impl Received {
    /// The value received, if one was.
    pub open spec fn value_of(self) -> Option<isize> {
        match self {
            Received::Value(value) => Some(value),
            _ => None,
        }
    }

    /// The value received, if one was.
    pub fn value(self) -> (value: Option<isize>)
        ensures
            value == self.value_of(),
    {
        match self {
            Received::Value(value) => Some(value),
            _ => None,
        }
    }
}

/// What a receiver gets from a channel that holds `buffer` after the queue
/// of notifications told it `notice`, and what the channel holds then. A
/// notification hands over the oldest value, which leaves the buffer; a
/// notification without a value in the buffer hands over nothing.
pub open spec fn receive(buffer: Seq<isize>, notice: Notice) -> (Received, Seq<isize>) {
    match notice {
        Notice::Arrived => if buffer.len() > 0 {
            (Received::Value(buffer.first()), buffer.drop_first())
        } else {
            (Received::Empty, buffer)
        },
        Notice::Closed => (Received::Closed, buffer),
        Notice::Empty => (Received::Empty, buffer),
    }
}

/// An extremely simple implementation of a channel for use with the Intcode
/// computer: a first-in-first-out buffer whose contents can be looked at
/// while it is in use. Waking a waiting receiver is the host's business.
#[derive(Debug)]
pub struct Channel {
    buffer: VecDeque<isize>,
}

impl View for Channel {
    type V = Seq<isize>;

    /// The values that were sent and not yet received, oldest first.
    closed spec fn view(&self) -> Seq<isize> {
        self.buffer@
    }
}

impl Channel {
    /// Create a new channel, with nothing in its buffer.
    pub fn new() -> (channel: Self)
        ensures
            channel@ == Seq::<isize>::empty(),
    {
        Channel { buffer: VecDeque::new() }
    }

    /// Send a value to the channel: it goes to the end of the buffer.
    pub fn send(&mut self, value: isize)
        ensures
            final(self)@ == old(self)@.push(value),
    {
        self.buffer.push_back(value);
    }

    /// Receive a value from the channel: the oldest in the buffer, which
    /// leaves it. An empty buffer gives `None` and stays as it is.
    pub fn recv(&mut self) -> (value: Option<isize>)
        ensures
            value == if old(self)@.len() > 0 {
                Some(old(self)@.first())
            } else {
                None
            },
            final(self)@ == if old(self)@.len() > 0 {
                old(self)@.drop_first()
            } else {
                old(self)@
            },
    {
        self.buffer.pop_front()
    }

    /// Receive from the channel what the queue of notifications allows:
    /// the oldest value of the buffer after a notification, nothing from a
    /// channel that is closed or empty.
    pub fn receive(&mut self, notice: Notice) -> (received: Received)
        ensures
            (received, final(self)@) == self::receive(old(self)@, notice),
    {
        match notice {
            Notice::Arrived => match self.buffer.pop_front() {
                Some(value) => Received::Value(value),
                None => Received::Empty,
            },
            Notice::Closed => Received::Closed,
            Notice::Empty => Received::Empty,
        }
    }

    /// The number of values in the buffer.
    pub fn len(&self) -> (len: usize)
        ensures
            len == self@.len(),
    {
        self.buffer.len()
    }

    /// Whether the buffer holds nothing.
    pub fn is_empty(&self) -> (empty: bool)
        ensures
            empty == (self@.len() == 0),
    {
        self.buffer.len() == 0
    }

    /// Get a copy of this channel's buffer, oldest value first. The channel
    /// is left as it is.
    pub fn buffer(&self) -> (copy: Vec<isize>)
        ensures
            copy@ == self@,
    {
        let mut copy: Vec<isize> = Vec::new();
        let mut next: usize = 0;
        while next < self.buffer.len()
            invariant
                next <= self.buffer@.len(),
                copy@ == self.buffer@.take(next as int),
            decreases self.buffer@.len() - next,
        {
            copy.push(self.buffer[next]);
            proof {
                assert(self.buffer@.take(next + 1) =~= self.buffer@.take(next as int).push(
                    self.buffer@[next as int],
                ));
            }
            next = next + 1;
        }
        assert(self.buffer@.take(next as int) =~= self.buffer@);
        copy
    }
}

/// One use of a channel.
pub enum Operation {
    /// A value is sent.
    Send(isize),
    /// The receiver asks for a value.
    Receive,
}

/// What a channel has seen: the values sent, the values received, and what
/// its buffer holds.
pub struct History {
    /// Every value that was sent, in the order of sending.
    pub sent: Seq<isize>,
    /// Every value that a receive gave, in the order of receiving.
    pub received: Seq<isize>,
    /// The contents of the buffer.
    pub buffer: Seq<isize>,
}

/// The history of a channel that started empty and was used as `operations`
/// say, in that order. Each operation does to the buffer what `send` and
/// `recv` do.
pub open spec fn replay(operations: Seq<Operation>) -> History
    decreases operations.len(),
{
    if operations.len() == 0 {
        History { sent: Seq::empty(), received: Seq::empty(), buffer: Seq::empty() }
    } else {
        let before = replay(operations.drop_last());
        match operations.last() {
            Operation::Send(value) => History {
                sent: before.sent.push(value),
                buffer: before.buffer.push(value),
                ..before
            },
            Operation::Receive => if before.buffer.len() > 0 {
                History {
                    received: before.received.push(before.buffer.first()),
                    buffer: before.buffer.drop_first(),
                    ..before
                }
            } else {
                before
            },
        }
    }
}

/// A channel is first in, first out: whatever it was used for, the values
/// received followed by the values still in the buffer are the values sent.
/// So the values received are a prefix of the values sent, and the number of
/// sends equals the number of successful receives plus the length of the
/// buffer.
pub proof fn lemma_fifo(operations: Seq<Operation>)
    ensures
        replay(operations).received + replay(operations).buffer == replay(operations).sent,
        replay(operations).received.is_prefix_of(replay(operations).sent),
        replay(operations).sent.len() == replay(operations).received.len() + replay(
            operations,
        ).buffer.len(),
    decreases operations.len(),
{
    let now = replay(operations);
    if operations.len() > 0 {
        lemma_fifo(operations.drop_last());
        let before = replay(operations.drop_last());
        match operations.last() {
            Operation::Send(value) => {
                assert(now.received + now.buffer =~= now.sent);
            },
            Operation::Receive => {
                if before.buffer.len() > 0 {
                    assert(now.received + now.buffer =~= before.received + before.buffer);
                }
            },
        }
    } else {
        assert(now.received + now.buffer =~= now.sent);
    }
    assert(now.sent.subrange(0, now.received.len() as int) =~= now.received);
}

} // verus!
