//! Processes wired together by channels, stepped one at a time from
//! outside.
use vstd::prelude::*;
use crate::breakpoint::Breakpoint;
use crate::breakpoint::Breakpoints;
use crate::breakpoint::any_matches;
use crate::fault::Fault;
use crate::ipc::Channel;
use crate::machine::Machine;
use crate::machine::Progress;
use crate::machine::Reply;
use crate::machine::Request;
use crate::machine::Stop;
use crate::machine::lemma_request_guards;
use crate::machine::lemma_stall;
use crate::process::Process;
use crate::process::State;

verus! {

/// The type of notification to send to the process.
#[derive(Debug)]
pub enum Notification {
    /// Make one step.
    Step,
    /// Run until one of the breakpoints matches.
    StepUntil(Breakpoints),
}

/// The channels that a process is attached to, by their indices.
#[derive(Debug, Clone, Copy, PartialEq, Eq, Structural)]
pub struct Wiring {
    /// The channel that the process receives from.
    pub input: usize,
    /// The channel that the process sends to.
    pub output: usize,
}

/// Processes and the channels between them as a mathematical value.
pub struct Board {
    /// The machines, one for each process.
    pub machines: Seq<Machine>,
    /// What each channel holds.
    pub buffers: Seq<Seq<isize>>,
    /// The channels of each process.
    pub wiring: Seq<Wiring>,
}

impl Board {
    /// Whether every process is wired to channels that exist.
    pub open spec fn wired(self) -> bool {
        &&& self.wiring.len() == self.machines.len()
        &&& forall|i: int|
            0 <= i < self.wiring.len() ==> (#[trigger] self.wiring[i]).input < self.buffers.len()
                && self.wiring[i].output < self.buffers.len()
    }

    /// The board after the value `value` is sent to the channel `channel`.
    pub open spec fn send(self, channel: int, value: isize) -> Board {
        Board { buffers: self.buffers.update(channel, self.buffers[channel].push(value)), ..self }
    }

    /// The board after the oldest value, if any, is taken from the channel
    /// `channel`.
    pub open spec fn take(self, channel: int) -> Board {
        if self.buffers[channel].len() > 0 {
            Board {
                buffers: self.buffers.update(channel, self.buffers[channel].drop_first()),
                ..self
            }
        } else {
            self
        }
    }

    /// The board after the channels answered `request` for the process
    /// `index`: a value received has left its input channel, a value sent
    /// is at the end of its output channel.
    pub open spec fn served(self, index: int, request: Request) -> Board {
        match request {
            Request::Nothing => self,
            Request::Receive => self.take(self.wiring[index].input as int),
            Request::Send(value) => self.send(self.wiring[index].output as int, value),
        }
    }

    /// One step of the process `index`: its request is answered by its
    /// channels and the step is made with that answer. A fault leaves no
    /// board; the caller keeps the one it had.
    pub open spec fn step(self, index: int) -> Result<(Board, Progress), Fault> {
        let machine = self.machines[index];
        match machine.request() {
            Err(fault) => Err(fault),
            Ok(request) => match machine.step(
                Machine::answer(request, self.buffers[self.wiring[index].input as int]),
            ) {
                Err(fault) => Err(fault),
                Ok((after, progress)) => Ok(
                    (
                        Board {
                            machines: self.machines.update(index, after),
                            ..self.served(index, request)
                        },
                        progress,
                    ),
                ),
            },
        }
    }

    /// A run of at most `limit` steps of the process `index`. Before each
    /// step the run ends if the process is halted or one of `breakpoints`
    /// matches its next instruction; after a step it ends if the step
    /// stalled. A fault ends it with the board as the faulty step found it.
    pub open spec fn step_until(self, index: int, breakpoints: Seq<Breakpoint>, limit: nat) -> (
        Board,
        Result<Stop, Fault>,
    )
        decreases limit,
    {
        match self.machines[index].rest(breakpoints) {
            Err(fault) => (self, Err(fault)),
            Ok(Some(stop)) => (self, Ok(stop)),
            Ok(None) => if limit == 0 {
                (self, Ok(Stop::Limit))
            } else {
                match self.step(index) {
                    Err(fault) => (self, Err(fault)),
                    Ok((after, progress)) => if progress == Progress::Stalled {
                        (after, Ok(Stop::Stalled))
                    } else {
                        after.step_until(index, breakpoints, (limit - 1) as nat)
                    },
                }
            },
        }
    }

    /// What the process `index` makes of a notification. A halted process
    /// is left alone. A step ends with `Stop::Stalled` where it stalled,
    /// with `Stop::Halted` where it halted the process, and with
    /// `Stop::Limit` otherwise; a run ends as `step_until` says.
    pub open spec fn notify(self, index: int, notification: Notification, limit: nat) -> (
        Board,
        Result<Stop, Fault>,
    ) {
        if self.machines[index].halted {
            (self, Ok(Stop::Halted))
        } else {
            match notification {
                Notification::Step => match self.step(index) {
                    Err(fault) => (self, Err(fault)),
                    Ok((after, progress)) => (
                        after,
                        Ok(
                            if progress == Progress::Stalled {
                                Stop::Stalled
                            } else if progress == Progress::Halted {
                                Stop::Halted
                            } else {
                                Stop::Limit
                            },
                        ),
                    ),
                },
                Notification::StepUntil(breakpoints) => self.step_until(
                    index,
                    breakpoints@,
                    limit,
                ),
            }
        }
    }

    /// The board of `machines` in a row: each receives from the channel of
    /// its own index and sends to the next, so that what the first is sent
    /// on channel 0 comes out, worked on by each in turn, on the channel
    /// after the last. All channels start empty.
    pub open spec fn pipeline(machines: Seq<Machine>) -> Board {
        Board {
            machines,
            buffers: Seq::new(machines.len() + 1, |i: int| Seq::<isize>::empty()),
            wiring: Seq::new(
                machines.len(),
                |i: int| Wiring { input: i as usize, output: (i + 1) as usize },
            ),
        }
    }

    /// The board of `machines` in a ring: each receives from the channel
    /// of its own index and sends to the channel of the next, the last to
    /// the channel of the first. All channels start empty.
    pub open spec fn ring(machines: Seq<Machine>) -> Board {
        Board {
            machines,
            buffers: Seq::new(machines.len(), |i: int| Seq::<isize>::empty()),
            wiring: Seq::new(
                machines.len(),
                |i: int|
                    Wiring {
                        input: i as usize,
                        output: if i + 1 == machines.len() {
                            0usize
                        } else {
                            (i + 1) as usize
                        },
                    },
            ),
        }
    }
}

/// A step of a wired board leaves it wired, with as many machines and
/// channels as before.
pub proof fn lemma_step_keeps_wiring(board: Board, index: int)
    requires
        board.wired(),
        0 <= index < board.machines.len(),
        board.step(index) is Ok,
    ensures
        board.step(index)->Ok_0.0.wired(),
        board.step(index)->Ok_0.0.wiring == board.wiring,
        board.step(index)->Ok_0.0.machines.len() == board.machines.len(),
        board.step(index)->Ok_0.0.buffers.len() == board.buffers.len(),
{
    assert(board.wiring[index].input < board.buffers.len());
}

/// A step of a process touches nothing but the process itself and its own
/// two channels: every other machine and every other channel stay as they
/// were.
pub proof fn lemma_step_frame(board: Board, index: int, machine: int, channel: int)
    requires
        board.wired(),
        0 <= index < board.machines.len(),
        board.step(index) is Ok,
    ensures
        0 <= machine < board.machines.len() && machine != index ==> board.step(
            index,
        )->Ok_0.0.machines[machine] == board.machines[machine],
        0 <= channel < board.buffers.len() && channel != board.wiring[index].input && channel
            != board.wiring[index].output ==> board.step(index)->Ok_0.0.buffers[channel]
            == board.buffers[channel],
{
    assert(board.wiring[index].input < board.buffers.len());
}

/// Between two different channels, a step on the board is the step of the
/// machine between its input and its output.
pub proof fn lemma_step_exchanges(board: Board, index: int)
    requires
        board.wired(),
        0 <= index < board.machines.len(),
        board.wiring[index].input != board.wiring[index].output,
    ensures
        ({
            let input = board.wiring[index].input as int;
            let output = board.wiring[index].output as int;
            match board.machines[index].exchange(board.buffers[input], board.buffers[output]) {
                Err(fault) => board.step(index) == Err::<(Board, Progress), Fault>(fault),
                Ok((machine, input_after, output_after, progress)) => {
                    &&& board.step(index) is Ok
                    &&& board.step(index)->Ok_0.1 == progress
                    &&& board.step(index)->Ok_0.0.machines[index] == machine
                    &&& board.step(index)->Ok_0.0.buffers[input] == input_after
                    &&& board.step(index)->Ok_0.0.buffers[output] == output_after
                },
            }
        }),
{
    assert(board.wiring[index].input < board.buffers.len());
}

/// A run of a wired board leaves it wired, with as many machines and
/// channels as before.
pub proof fn lemma_run_keeps_wiring(
    board: Board,
    index: int,
    breakpoints: Seq<Breakpoint>,
    limit: nat,
)
    requires
        board.wired(),
        0 <= index < board.machines.len(),
    ensures
        board.step_until(index, breakpoints, limit).0.wired(),
        board.step_until(index, breakpoints, limit).0.wiring == board.wiring,
        board.step_until(index, breakpoints, limit).0.machines.len() == board.machines.len(),
        board.step_until(index, breakpoints, limit).0.buffers.len() == board.buffers.len(),
    decreases limit,
{
    if board.machines[index].rest(breakpoints) == Ok::<Option<Stop>, Fault>(None) && limit > 0 {
        if let Ok((after, progress)) = board.step(index) {
            lemma_step_keeps_wiring(board, index);
            if progress != Progress::Stalled {
                lemma_run_keeps_wiring(after, index, breakpoints, (limit - 1) as nat);
            }
        }
    }
}

/// Where a run of a process on a board comes to rest: on a halted
/// process, or before an instruction that one of the breakpoints matches,
/// or on an input instruction whose channel is empty, or at the end of its
/// allowance, or on the fault that the next step meets.
pub proof fn lemma_step_until(board: Board, index: int, breakpoints: Seq<Breakpoint>, limit: nat)
    requires
        board.wired(),
        0 <= index < board.machines.len(),
    ensures
        ({
            let (after, end) = board.step_until(index, breakpoints, limit);
            let machine = after.machines[index];
            match end {
                Ok(Stop::Halted) => machine.halted,
                Ok(Stop::Breakpoint) => !machine.halted && machine.decode() is Ok && any_matches(
                    breakpoints,
                    machine,
                    machine.decode()->Ok_0->Some_0.0,
                ),
                Ok(Stop::Stalled) => !machine.halted && machine.request() == Ok::<Request, Fault>(
                    Request::Receive,
                ) && after.buffers[after.wiring[index].input as int].len() == 0,
                Ok(Stop::Limit) => !machine.halted,
                Err(fault) => !machine.halted && (machine.rest(breakpoints) == Err::<
                    Option<Stop>,
                    Fault,
                >(fault) || after.step(index) == Err::<(Board, Progress), Fault>(fault)),
            }
        }),
    decreases limit,
{
    if board.machines[index].rest(breakpoints) == Ok::<Option<Stop>, Fault>(None) && limit > 0 {
        match board.step(index) {
            Ok((after, progress)) => {
                lemma_step_keeps_wiring(board, index);
                assert(board.wiring[index].input < board.buffers.len());
                if progress == Progress::Stalled {
                    let machine = board.machines[index];
                    let request = machine.request()->Ok_0;
                    let input = board.buffers[board.wiring[index].input as int];
                    lemma_stall(machine, Machine::answer(request, input));
                } else {
                    lemma_step_until(after, index, breakpoints, (limit - 1) as nat);
                }
            },
            Err(_) => {},
        }
    }
}

/// The application: processes, the channels between them, and which
/// process is attached to which channels.
pub struct App {
    channels: Vec<Channel>,
    processes: Vec<Process>,
    wiring: Vec<Wiring>,
}

impl View for App {
    type V = Board;

    closed spec fn view(&self) -> Board {
        Board {
            machines: self.processes@.map_values(|process: Process| process@),
            buffers: self.channels@.map_values(|channel: Channel| channel@),
            wiring: self.wiring@,
        }
    }
}

/// The machines of `processes`.
pub open spec fn machines_of(processes: Seq<Process>) -> Seq<Machine> {
    processes.map_values(|process: Process| process@)
}

/// What `channels` hold.
pub open spec fn buffers_of(channels: Seq<Channel>) -> Seq<Seq<isize>> {
    channels.map_values(|channel: Channel| channel@)
}

impl App {
    #[verifier::type_invariant]
    spec fn wired(&self) -> bool {
        self@.wired()
    }

    /// Wire `processes` to `channels` as `wiring` says, one entry for each
    /// process. Wiring that does not fit gives no application.
    pub fn new(channels: Vec<Channel>, processes: Vec<Process>, wiring: Vec<Wiring>) -> (app:
        Option<Self>)
        ensures
            ({
                let board = Board {
                    machines: machines_of(processes@),
                    buffers: buffers_of(channels@),
                    wiring: wiring@,
                };
                match app {
                    Some(app) => board.wired() && app@ == board,
                    None => !board.wired(),
                }
            }),
    {
        if wiring.len() != processes.len() {
            return None;
        }
        let mut next: usize = 0;
        while next < wiring.len()
            invariant
                next <= wiring@.len(),
                forall|i: int|
                    0 <= i < next ==> (#[trigger] wiring@[i]).input < channels@.len() && wiring@[i].output
                        < channels@.len(),
            decreases wiring@.len() - next,
        {
            if wiring[next].input >= channels.len() || wiring[next].output >= channels.len() {
                return None;
            }
            next = next + 1;
        }
        Some(App { channels, processes, wiring })
    }

    /// Put `processes` in a row, with a channel before the first, between
    /// each two, and after the last.
    pub fn pipeline(processes: Vec<Process>) -> (app: Option<Self>)
        ensures
            match app {
                Some(app) => app@ == Board::pipeline(machines_of(processes@)),
                None => processes@.len() == usize::MAX,
            },
    {
        let count = processes.len();
        if count == usize::MAX {
            return None;
        }
        let mut channels: Vec<Channel> = Vec::new();
        let mut wiring: Vec<Wiring> = Vec::new();
        channels.push(Channel::new());
        let mut next: usize = 0;
        while next < count
            invariant
                next <= count < usize::MAX,
                channels@.len() == next + 1,
                wiring@.len() == next,
                forall|i: int| 0 <= i < channels@.len() ==> (#[trigger] channels@[i])@.len() == 0,
                forall|i: int|
                    0 <= i < next ==> #[trigger] wiring@[i] == (Wiring {
                        input: i as usize,
                        output: (i + 1) as usize,
                    }),
            decreases count - next,
        {
            channels.push(Channel::new());
            wiring.push(Wiring { input: next, output: next + 1 });
            next = next + 1;
        }
        let ghost board = Board::pipeline(machines_of(processes@));
        assert(buffers_of(channels@) =~= board.buffers) by {
            assert forall|i: int| 0 <= i < channels@.len() implies buffers_of(channels@)[i]
                == board.buffers[i] by {
                assert(channels@[i]@ =~= Seq::<isize>::empty());
            }
        }
        assert(wiring@ =~= board.wiring);
        Some(App { channels, processes, wiring })
    }

    /// Put `processes` in a ring: a channel before each, and each sends to
    /// the channel of the next, the last to the channel of the first.
    pub fn ring(processes: Vec<Process>) -> (app: Self)
        ensures
            app@ == Board::ring(machines_of(processes@)),
    {
        let count = processes.len();
        let mut channels: Vec<Channel> = Vec::new();
        let mut wiring: Vec<Wiring> = Vec::new();
        let mut next: usize = 0;
        while next < count
            invariant
                next <= count,
                channels@.len() == next,
                wiring@.len() == next,
                forall|i: int| 0 <= i < channels@.len() ==> (#[trigger] channels@[i])@.len() == 0,
                forall|i: int|
                    0 <= i < next ==> #[trigger] wiring@[i] == (Wiring {
                        input: i as usize,
                        output: if i + 1 == count {
                            0usize
                        } else {
                            (i + 1) as usize
                        },
                    }),
            decreases count - next,
        {
            channels.push(Channel::new());
            wiring.push(
                Wiring {
                    input: next,
                    output: if next + 1 == count {
                        0
                    } else {
                        next + 1
                    },
                },
            );
            next = next + 1;
        }
        let ghost board = Board::ring(machines_of(processes@));
        assert(buffers_of(channels@) =~= board.buffers) by {
            assert forall|i: int| 0 <= i < channels@.len() implies buffers_of(channels@)[i]
                == board.buffers[i] by {
                assert(channels@[i]@ =~= Seq::<isize>::empty());
            }
        }
        assert(wiring@ =~= board.wiring);
        App { channels, processes, wiring }
    }

    /// The number of processes.
    pub fn len(&self) -> (count: usize)
        ensures
            count == self@.machines.len(),
            count == self@.wiring.len(),
    {
        proof {
            use_type_invariant(self);
        }
        self.processes.len()
    }

    /// The number of channels.
    pub fn channels(&self) -> (count: usize)
        ensures
            count == self@.buffers.len(),
    {
        self.channels.len()
    }

    /// The channels of the process `index`, if there is such a process.
    pub fn wiring(&self, index: usize) -> (wiring: Option<Wiring>)
        ensures
            wiring == if index < self@.wiring.len() {
                Some(self@.wiring[index as int])
            } else {
                None
            },
    {
        if index < self.wiring.len() {
            Some(self.wiring[index])
        } else {
            None
        }
    }

    /// Send `value` to the channel `channel`. Where there is no such
    /// channel nothing happens, and the answer is `false`.
    pub fn send(&mut self, channel: usize, value: isize) -> (sent: bool)
        ensures
            sent == (channel < old(self)@.buffers.len()),
            final(self)@ == if sent {
                old(self)@.send(channel as int, value)
            } else {
                old(self)@
            },
    {
        proof {
            use_type_invariant(&*self);
        }
        if channel >= self.channels.len() {
            return false;
        }
        self.channels[channel].send(value);
        proof {
            assert(self@.buffers =~= old(self)@.send(channel as int, value).buffers);
        }
        true
    }

    /// Take the oldest value from the channel `channel`, if the channel
    /// exists and holds one.
    pub fn recv(&mut self, channel: usize) -> (value: Option<isize>)
        ensures
            value == if channel < old(self)@.buffers.len() && old(self)@.buffers[channel as int].len()
                > 0 {
                Some(old(self)@.buffers[channel as int].first())
            } else {
                None
            },
            final(self)@ == if channel < old(self)@.buffers.len() {
                old(self)@.take(channel as int)
            } else {
                old(self)@
            },
    {
        proof {
            use_type_invariant(&*self);
        }
        if channel >= self.channels.len() {
            return None;
        }
        let value = self.channels[channel].recv();
        proof {
            assert(self@.buffers =~= old(self)@.take(channel as int).buffers);
        }
        value
    }

    /// Have the process at the given index take a step. A process that has
    /// halted stays as it is. A fault leaves everything as it was.
    pub fn step(&mut self, index: usize) -> (progress: Result<Progress, Fault>)
        requires
            index < old(self)@.machines.len(),
        ensures
            match old(self)@.step(index as int) {
                Ok((after, made)) => progress == Ok::<Progress, Fault>(made) && final(self)@
                    == after,
                Err(fault) => progress == Err::<Progress, Fault>(fault) && final(self)@ == old(
                    self,
                )@,
            },
    {
        proof {
            use_type_invariant(&*self);
        }
        let wiring = self.wiring[index];
        assert(wiring.input < self.channels@.len() && wiring.output < self.channels@.len());
        let request = match self.processes[index].request() {
            Ok(request) => request,
            Err(fault) => return Err(fault),
        };
        let reply = match request {
            Request::Nothing => Reply::Nothing,
            Request::Receive => Reply::Received(self.channels[wiring.input].recv()),
            Request::Send(value) => {
                self.channels[wiring.output].send(value);
                Reply::Sent(true)
            },
        };
        proof {
            assert(self@.buffers =~= old(self)@.served(index as int, request).buffers);
            if request != Request::Nothing {
                lemma_request_guards(old(self)@.machines[index as int], reply);
            }
        }
        let progress = self.processes[index].step(reply);
        proof {
            if let Ok((after, made)) = old(self)@.step(index as int) {
                assert(self@.machines =~= after.machines);
                lemma_step_keeps_wiring(old(self)@, index as int);
            } else {
                assert(self@.machines =~= old(self)@.machines);
            }
        }
        progress
    }

    /// Have the process at the given index run until one of `breakpoints`
    /// matches the instruction that it would run next. The run also ends
    /// where the process halts, stalls on an empty input channel, or has
    /// made `limit` steps.
    pub fn step_until(&mut self, index: usize, breakpoints: &Breakpoints, limit: usize) -> (end:
        Result<Stop, Fault>)
        requires
            index < old(self)@.machines.len(),
        ensures
            (final(self)@, end) == old(self)@.step_until(index as int, breakpoints@, limit as nat),
    {
        let mut left: usize = limit;
        loop
            invariant
                index < self@.machines.len(),
                old(self)@.step_until(index as int, breakpoints@, limit as nat) == self@.step_until(
                    index as int,
                    breakpoints@,
                    left as nat,
                ),
            decreases left,
        {
            match self.processes[index].rest(breakpoints) {
                Err(fault) => return Err(fault),
                Ok(Some(stop)) => return Ok(stop),
                Ok(None) => {
                    if left == 0 {
                        return Ok(Stop::Limit);
                    }
                    proof {
                        use_type_invariant(&*self);
                        if self@.step(index as int) is Ok {
                            lemma_step_keeps_wiring(self@, index as int);
                        }
                    }
                    match self.step(index) {
                        Err(fault) => return Err(fault),
                        Ok(Progress::Stalled) => return Ok(Stop::Stalled),
                        Ok(_) => {
                            left = left - 1;
                        },
                    }
                },
            }
        }
    }

    /// Hand a notification to the process at the given index: nothing
    /// happens if the process has halted, else it makes one step, or runs
    /// for at most `limit` steps until a breakpoint matches. The answer
    /// says where the process came to rest.
    pub fn notify(&mut self, index: usize, notification: &Notification, limit: usize) -> (end:
        Result<Stop, Fault>)
        requires
            index < old(self)@.machines.len(),
        ensures
            (final(self)@, end) == old(self)@.notify(index as int, *notification, limit as nat),
    {
        if self.processes[index].halted() {
            return Ok(Stop::Halted);
        }
        match notification {
            Notification::Step => match self.step(index) {
                Err(fault) => Err(fault),
                Ok(Progress::Stalled) => Ok(Stop::Stalled),
                Ok(Progress::Halted) => Ok(Stop::Halted),
                Ok(_) => Ok(Stop::Limit),
            },
            Notification::StepUntil(breakpoints) => self.step_until(index, breakpoints, limit),
        }
    }

    /// Get the buffers for the channels.
    pub fn buffers(&self) -> (buffers: Vec<Vec<isize>>)
        ensures
            buffers@.map_values(|buffer: Vec<isize>| buffer@) == self@.buffers,
    {
        let mut buffers: Vec<Vec<isize>> = Vec::new();
        let mut next: usize = 0;
        while next < self.channels.len()
            invariant
                next <= self.channels@.len(),
                buffers@.len() == next,
                forall|i: int| 0 <= i < next ==> (#[trigger] buffers@[i])@ == self.channels@[i]@,
            decreases self.channels@.len() - next,
        {
            buffers.push(self.channels[next].buffer());
            next = next + 1;
        }
        assert(buffers@.map_values(|buffer: Vec<isize>| buffer@) =~= self@.buffers);
        buffers
    }

    /// Get the states of the processes.
    pub fn states(&self) -> (states: Vec<State>)
        ensures
            states@.map_values(|state: State| state@) == self@.machines,
    {
        let mut states: Vec<State> = Vec::new();
        let mut next: usize = 0;
        while next < self.processes.len()
            invariant
                next <= self.processes@.len(),
                states@.len() == next,
                forall|i: int| 0 <= i < next ==> (#[trigger] states@[i])@ == self.processes@[i]@,
            decreases self.processes@.len() - next,
        {
            states.push(self.processes[next].state());
            next = next + 1;
        }
        assert(states@.map_values(|state: State| state@) =~= self@.machines);
        states
    }
}

} // verus!
