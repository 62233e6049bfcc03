//! What a viewer of the computer keeps between two frames: which process
//! and which window are shown, how far each memory table is scrolled, and
//! the breakpoints being put together. Keys move it from one state to the
//! next; drawing is the host's business.
use vstd::prelude::*;
use crate::breakpoint::Breakpoint;
use crate::breakpoint::Breakpoints;
use crate::instruction::Instruction;
use crate::instruction::position_indices;
use crate::instruction::relative_indices;
use crate::machine::Machine;
use crate::process::State;

verus! {

/// The different states of the renderer.
#[derive(Debug, Clone, Copy, PartialEq, Eq, Structural)]
pub enum WindowState {
    /// The processes, their memory and their channels.
    Main,
    /// The choice between the two kinds of breakpoint.
    BreakpointType,
    /// The list of the breakpoints that are set.
    BreakpointList,
    /// The choice of the instruction to break on.
    BreakpointInstruction,
    /// The entry of the memory location to break on.
    BreakpointMemory,
}

/// A key, as far as the viewer tells keys apart.
#[derive(Debug, Clone, Copy, PartialEq, Eq, Structural)]
pub enum Key {
    /// A key that writes a character.
    Char(char),
    /// The escape key.
    Esc,
    /// The arrow up.
    Up,
    /// The arrow down.
    Down,
    /// The backspace key.
    Backspace,
    /// The enter key.
    Enter,
    /// Any other key.
    Other,
}

/// What a key asks the host to do.
#[derive(Debug, Clone, Copy, PartialEq, Eq, Structural)]
pub enum Command {
    /// Nothing beyond showing the new state.
    Nothing,
    /// Leave the viewer.
    Quit,
    /// Have the process with this index make one step.
    Step(usize),
    /// Have the process with this index run until a breakpoint matches.
    StepUntil(usize),
}

/// How the memory table marks a cell.
#[derive(Debug, Clone, Copy, PartialEq, Eq, Structural)]
pub enum Highlight {
    /// The cell is not marked.
    Plain,
    /// The cell holds the opcode word of the next instruction.
    Opcode,
    /// The cell holds an operand word of the next instruction.
    Operand,
    /// An operand of the next instruction names the cell, by position or
    /// relative to the base.
    Referenced,
}

/// The number of instructions to choose from.
pub const CHOICES: usize = 10;

/// The number of memory cells in a row of the memory table.
pub const ROW: usize = 8;

/// The state of the renderer.
#[derive(Debug)]
pub struct RendererState {
    /// The index of the active process.
    pub active_process: usize,
    /// The total number of processes.
    pub total_processes: usize,
    /// The window state of the renderer.
    pub window_state: WindowState,
    /// The breakpoints of the app.
    pub breakpoints: Breakpoints,
    /// The index of the chosen instruction for the breakpoint menu.
    pub chosen_instruction: usize,
    /// The value of the chosen memory location for the breakpoint menu.
    pub chosen_memory_location: usize,
    memory_rows: Vec<usize>,
    offsets: Vec<usize>,
}

/// The state of the renderer as a mathematical value.
pub struct Screen {
    /// The index of the active process.
    pub active_process: usize,
    /// The total number of processes.
    pub total_processes: usize,
    /// The window that is shown.
    pub window_state: WindowState,
    /// The breakpoints that are set.
    pub breakpoints: Seq<Breakpoint>,
    /// The index of the instruction chosen in the breakpoint menu.
    pub chosen_instruction: usize,
    /// The memory location entered in the breakpoint menu.
    pub chosen_memory_location: usize,
    /// For each process, the number of rows of its memory table.
    pub memory_rows: Seq<usize>,
    /// For each process, the row that its memory table is scrolled to.
    pub offsets: Seq<usize>,
}

/// The digit that the character `c` writes, if it writes one.
pub open spec fn digit_of(c: char) -> Option<usize> {
    if '0' <= c <= '9' {
        Some((c as int - '0' as int) as usize)
    } else {
        None
    }
}

impl Screen {
    /// The screen that a viewer starts with: the first process and the main
    /// window, nothing scrolled, no breakpoints. `sizes` holds the number of
    /// stored cells of each process; its memory table has one row for every
    /// full eight of them.
    pub open spec fn start(sizes: Seq<usize>) -> Screen {
        Screen {
            active_process: 0,
            total_processes: sizes.len() as usize,
            window_state: WindowState::Main,
            breakpoints: Seq::empty(),
            chosen_instruction: 0,
            chosen_memory_location: 0,
            memory_rows: sizes.map_values(|size: usize| size / ROW),
            offsets: sizes.map_values(|size: usize| 0usize),
        }
    }

    /// Whether the active process has a memory table to scroll.
    pub open spec fn scrollable(self) -> bool {
        self.active_process < self.offsets.len() && self.active_process < self.memory_rows.len()
    }

    /// The screen after scrolling up: in the main window the memory table
    /// of the active process moves up one row, in the instruction menu the
    /// choice moves up one name, unless they are at the top.
    pub open spec fn scroll_up(self) -> Screen {
        match self.window_state {
            WindowState::Main => if self.scrollable() && self.offsets[self.active_process as int]
                > 0 {
                Screen {
                    offsets: self.offsets.update(
                        self.active_process as int,
                        (self.offsets[self.active_process as int] - 1) as usize,
                    ),
                    ..self
                }
            } else {
                self
            },
            WindowState::BreakpointInstruction => if self.chosen_instruction > 0 {
                Screen { chosen_instruction: (self.chosen_instruction - 1) as usize, ..self }
            } else {
                self
            },
            _ => self,
        }
    }

    /// The screen after scrolling down: in the main window the memory
    /// table of the active process moves down one row, in the instruction
    /// menu the choice moves down one name, unless they are at the bottom.
    pub open spec fn scroll_down(self) -> Screen {
        match self.window_state {
            WindowState::Main => if self.scrollable() && self.offsets[self.active_process as int]
                + 1 < self.memory_rows[self.active_process as int] {
                Screen {
                    offsets: self.offsets.update(
                        self.active_process as int,
                        (self.offsets[self.active_process as int] + 1) as usize,
                    ),
                    ..self
                }
            } else {
                self
            },
            WindowState::BreakpointInstruction => if self.chosen_instruction + 1 < CHOICES {
                Screen { chosen_instruction: (self.chosen_instruction + 1) as usize, ..self }
            } else {
                self
            },
            _ => self,
        }
    }

    /// The screen with the window `window_state`.
    pub open spec fn show(self, window_state: WindowState) -> Screen {
        Screen { window_state, ..self }
    }

    /// The screen after `key` in the main window.
    pub open spec fn main_key(self, key: Key) -> Screen {
        match key {
            Key::Char('b') => self.show(WindowState::BreakpointType),
            Key::Char('B') => self.show(WindowState::BreakpointList),
            Key::Char(c) => match digit_of(c) {
                Some(index) => if index < self.total_processes {
                    Screen { active_process: index, ..self }
                } else {
                    self
                },
                None => self,
            },
            Key::Up => self.scroll_up(),
            Key::Down => self.scroll_down(),
            _ => self,
        }
    }

    /// The screen after `key` in the menu of breakpoint types.
    pub open spec fn type_key(self, key: Key) -> Screen {
        match key {
            Key::Char('q') | Key::Esc => self.show(WindowState::Main),
            Key::Char('m') => self.show(WindowState::BreakpointMemory),
            Key::Char('i') => self.show(WindowState::BreakpointInstruction),
            _ => self,
        }
    }

    /// The screen after `key` in the entry of a memory location. A digit
    /// is added at the end of the location unless the result is beyond the
    /// range of indices; backspace takes the last digit away; enter sets
    /// the breakpoint and returns to the main window.
    pub open spec fn memory_key(self, key: Key) -> Screen {
        match key {
            Key::Char('q') | Key::Esc => self.show(WindowState::Main),
            Key::Char(c) => match digit_of(c) {
                Some(digit) => if self.chosen_memory_location * 10 + digit <= usize::MAX {
                    Screen {
                        chosen_memory_location: (self.chosen_memory_location * 10
                            + digit) as usize,
                        ..self
                    }
                } else {
                    self
                },
                None => self,
            },
            Key::Backspace => Screen {
                chosen_memory_location: self.chosen_memory_location / 10,
                ..self
            },
            Key::Enter => Screen {
                breakpoints: self.breakpoints.push(
                    Breakpoint::MemoryLocation(self.chosen_memory_location),
                ),
                chosen_memory_location: 0,
                window_state: WindowState::Main,
                ..self
            },
            _ => self,
        }
    }

    /// The screen after `key` in the menu of instructions. Enter sets a
    /// breakpoint on the chosen instruction and returns to the main window.
    pub open spec fn instruction_key(self, key: Key) -> Screen {
        match key {
            Key::Char('q') | Key::Esc => self.show(WindowState::Main),
            Key::Char('k') | Key::Up => self.scroll_up(),
            Key::Char('j') | Key::Down => self.scroll_down(),
            Key::Enter => Screen {
                breakpoints: match Instruction::listed(self.chosen_instruction as int) {
                    Some(instruction) => self.breakpoints.push(
                        Breakpoint::Instruction(instruction),
                    ),
                    None => self.breakpoints,
                },
                chosen_instruction: 0,
                window_state: WindowState::Main,
                ..self
            },
            _ => self,
        }
    }

    /// The screen after `key`.
    pub open spec fn key(self, key: Key) -> Screen {
        match self.window_state {
            WindowState::Main => self.main_key(key),
            WindowState::BreakpointList => match key {
                Key::Char('q') | Key::Esc => self.show(WindowState::Main),
                _ => self,
            },
            WindowState::BreakpointType => self.type_key(key),
            WindowState::BreakpointMemory => self.memory_key(key),
            WindowState::BreakpointInstruction => self.instruction_key(key),
        }
    }

    /// What `key` asks the host to do. Only the main window asks for
    /// anything: `s` for a step and `c` for a run of the active process, `q`
    /// or escape to leave.
    pub open spec fn command(self, key: Key) -> Command {
        if self.window_state == WindowState::Main {
            match key {
                Key::Char('s') => Command::Step(self.active_process),
                Key::Char('c') => Command::StepUntil(self.active_process),
                Key::Char('q') | Key::Esc => Command::Quit,
                _ => Command::Nothing,
            }
        } else {
            Command::Nothing
        }
    }
}

impl View for RendererState {
    type V = Screen;

    closed spec fn view(&self) -> Screen {
        Screen {
            active_process: self.active_process,
            total_processes: self.total_processes,
            window_state: self.window_state,
            breakpoints: self.breakpoints@,
            chosen_instruction: self.chosen_instruction,
            chosen_memory_location: self.chosen_memory_location,
            memory_rows: self.memory_rows@,
            offsets: self.offsets@,
        }
    }
}

/// The number of stored cells of each of `states`, as `State::len` counts
/// them.
pub open spec fn sizes(states: Seq<State>) -> Seq<usize> {
    states.map_values(
        |state: State|
            if state@.size() <= usize::MAX {
                state@.size() as usize
            } else {
                usize::MAX
            },
    )
}

/// The rows that the memory table shows for the cells with the indices
/// `keys`, each row by the index of its first cell, and the number of keys
/// that fell into the last row. A key opens a new row unless the last row
/// has room and starts less than eight cells before the key: so each row
/// starts at a key, and ascending keys share a row where they can.
pub open spec fn rows(keys: Seq<usize>) -> (Seq<usize>, nat)
    decreases keys.len(),
{
    if keys.len() == 0 {
        (Seq::empty(), 0)
    } else {
        let (heads, count) = rows(keys.drop_last());
        if heads.len() > 0 && count < ROW && keys.last() < heads.last() + ROW {
            (heads, count + 1)
        } else {
            (heads.push(keys.last()), 1)
        }
    }
}

/// Whether `keys` are in ascending order.
pub open spec fn ascending(keys: Seq<usize>) -> bool {
    forall|i: int, j: int| 0 <= i <= j < keys.len() ==> keys[i] <= keys[j]
}

/// Whether the row that starts at `head` shows the cell `key`.
pub open spec fn shows(head: usize, key: usize) -> bool {
    head <= key < head + ROW
}

/// Whether one of the rows that start at `heads` shows the cell `key`.
pub open spec fn covered(heads: Seq<usize>, key: usize) -> bool {
    exists|r: int| 0 <= r < heads.len() && shows(#[trigger] heads[r], key)
}

/// The last row of ascending keys shows the last key.
proof fn lemma_last_row(keys: Seq<usize>)
    requires
        ascending(keys),
        keys.len() > 0,
    ensures
        rows(keys).0.len() > 0,
        shows(rows(keys).0.last(), keys.last()),
    decreases keys.len(),
{
    let shorter = keys.drop_last();
    if shorter.len() > 0 {
        assert(ascending(shorter)) by {
            assert forall|i: int, j: int| 0 <= i <= j < shorter.len() implies shorter[i]
                <= shorter[j] by {
                assert(keys[i] <= keys[j]);
            }
        }
        lemma_last_row(shorter);
        assert(shorter.last() == keys[keys.len() - 2]);
        assert(keys[keys.len() - 2] <= keys[keys.len() - 1]);
    } else {
        assert(rows(shorter).0.len() == 0);
    }
}

/// The rows of ascending keys show every key.
pub proof fn lemma_rows(keys: Seq<usize>, at: int)
    requires
        ascending(keys),
        0 <= at < keys.len(),
    ensures
        covered(rows(keys).0, keys[at]),
    decreases keys.len(),
{
    let heads = rows(keys).0;
    if at == keys.len() - 1 {
        lemma_last_row(keys);
        assert(shows(heads[heads.len() - 1], keys[at]));
    } else {
        let shorter = keys.drop_last();
        assert(ascending(shorter)) by {
            assert forall|i: int, j: int| 0 <= i <= j < shorter.len() implies shorter[i]
                <= shorter[j] by {
                assert(keys[i] <= keys[j]);
            }
        }
        lemma_rows(shorter, at);
        let before = rows(shorter).0;
        let r = choose|r: int| 0 <= r < before.len() && shows(#[trigger] before[r], shorter[at]);
        assert(heads[r] == before[r]);
        assert(shows(heads[r], keys[at]));
    }
}

/// The cells of the row that starts at the index `start`: the tape from
/// there on, eight cells long.
pub open spec fn row_cells(state: State, start: usize) -> Seq<isize> {
    Seq::new(ROW as nat, |offset: int| state@.read(start + offset))
}

/// The rows that the memory table shows for the cells with the indices
/// `keys`, which the host hands over in ascending order: each row by the
/// index of its first cell.
pub fn row_heads(keys: &Vec<usize>) -> (heads: Vec<usize>)
    ensures
        heads@ == rows(keys@).0,
{
    let mut heads: Vec<usize> = Vec::new();
    let mut head: usize = 0;
    let mut count: usize = 0;
    let mut next: usize = 0;
    assert(keys@.take(0) =~= Seq::<usize>::empty());
    while next < keys.len()
        invariant
            next <= keys@.len(),
            count <= ROW,
            heads@ == rows(keys@.take(next as int)).0,
            count == rows(keys@.take(next as int)).1,
            heads@.len() > 0 ==> head == heads@.last(),
        decreases keys@.len() - next,
    {
        proof {
            assert(keys@.take(next + 1).drop_last() =~= keys@.take(next as int));
        }
        let key = keys[next];
        if heads.len() > 0 && count < ROW && (key < head || key - head < ROW) {
            count = count + 1;
        } else {
            heads.push(key);
            head = key;
            count = 1;
        }
        next = next + 1;
    }
    assert(keys@.take(next as int) =~= keys@);
    heads
}

/// The cells of the row of the memory table that starts at the index
/// `start`.
pub fn row(state: &State, start: usize) -> (cells: Vec<isize>)
    ensures
        cells@ == row_cells(*state, start),
{
    let mut cells: Vec<isize> = Vec::new();
    let mut offset: usize = 0;
    while offset < ROW
        invariant
            offset <= ROW,
            cells@.len() == offset,
            forall|i: int| 0 <= i < offset ==> cells@[i] == state@.read(start + i),
        decreases ROW - offset,
    {
        let cell = match start.checked_add(offset) {
            Some(index) => state.read(index),
            None => {
                assert(state.memory.len() <= usize::MAX);
                0
            },
        };
        cells.push(cell);
        offset = offset + 1;
    }
    assert(cells@ =~= row_cells(*state, start));
    cells
}

/// How the memory table marks the cell at `index` when the machine is
/// about to run `instruction`: as the opcode word, as one of the operand
/// words that follow it, or as a cell that an operand names.
pub open spec fn highlight_of(machine: Machine, instruction: Instruction, index: usize)
    -> Highlight {
    if index == machine.instruction_pointer {
        Highlight::Opcode
    } else if machine.instruction_pointer < index <= machine.instruction_pointer
        + instruction.arity() {
        Highlight::Operand
    } else if position_indices(instruction.operands()).contains(index) || relative_indices(
        instruction.operands(),
        machine.relative_base as int,
    ).contains(index) {
        Highlight::Referenced
    } else {
        Highlight::Plain
    }
}

/// Whether `list` holds `index`.
fn holds(list: &Vec<usize>, index: usize) -> (found: bool)
    ensures
        found == list@.contains(index),
{
    let mut next: usize = 0;
    while next < list.len()
        invariant
            next <= list@.len(),
            forall|i: int| 0 <= i < next ==> list@[i] != index,
        decreases list@.len() - next,
    {
        if list[next] == index {
            return true;
        }
        next = next + 1;
    }
    false
}

/// How the memory table marks the cell at `index` when `state` is about
/// to run `instruction`.
pub fn highlight(state: &State, instruction: &Instruction, index: usize) -> (mark: Highlight)
    ensures
        mark == highlight_of(state@, *instruction, index),
{
    let start = state.instruction_pointer;
    if index == start {
        Highlight::Opcode
    } else if index > start && index - start <= instruction.parameter_count() {
        Highlight::Operand
    } else if holds(&instruction.position_parameters(), index) || holds(
        &instruction.relative_parameters(state.relative_base),
        index,
    ) {
        Highlight::Referenced
    } else {
        Highlight::Plain
    }
}

/// The digit that the character `c` writes, if it writes one.
fn digit(c: char) -> (digit: Option<usize>)
    ensures
        digit == digit_of(c),
{
    if '0' <= c && c <= '9' {
        Some((c as u32 - '0' as u32) as usize)
    } else {
        None
    }
}

impl RendererState {
    /// Create a new renderer state for the processes with the given
    /// states.
    pub fn new(states: &Vec<State>) -> (state: Self)
        ensures
            state@ == Screen::start(sizes(states@)),
    {
        let mut memory_rows: Vec<usize> = Vec::new();
        let mut offsets: Vec<usize> = Vec::new();
        let mut next: usize = 0;
        while next < states.len()
            invariant
                next <= states@.len(),
                memory_rows@ == sizes(states@.take(next as int)).map_values(
                    |size: usize| size / ROW,
                ),
                offsets@ == sizes(states@.take(next as int)).map_values(|size: usize| 0usize),
            decreases states@.len() - next,
        {
            let ghost rows = memory_rows@;
            let ghost tops = offsets@;
            let size = states[next].len();
            memory_rows.push(size / ROW);
            offsets.push(0);
            proof {
                let before = sizes(states@.take(next as int));
                let now = sizes(states@.take(next + 1));
                assert(now =~= before.push(size));
                assert(memory_rows@ =~= now.map_values(|size: usize| size / ROW));
                assert(offsets@ =~= now.map_values(|size: usize| 0usize));
            }
            next = next + 1;
        }
        assert(states@.take(next as int) =~= states@);
        Self {
            active_process: 0,
            total_processes: states.len(),
            window_state: WindowState::Main,
            breakpoints: Breakpoints::default(),
            chosen_instruction: 0,
            chosen_memory_location: 0,
            memory_rows,
            offsets,
        }
    }

    /// The row that the memory table of the active process is scrolled to:
    /// 0 where there is no such process.
    pub fn offset(&self) -> (offset: usize)
        ensures
            offset == if self@.active_process < self@.offsets.len() {
                self@.offsets[self@.active_process as int]
            } else {
                0
            },
    {
        if self.active_process < self.offsets.len() {
            self.offsets[self.active_process]
        } else {
            0
        }
    }

    /// Update the scroll and table states to scroll them "up".
    pub fn scroll_up(&mut self)
        ensures
            final(self)@ == old(self)@.scroll_up(),
    {
        match self.window_state {
            WindowState::Main => {
                if self.active_process < self.offsets.len() && self.active_process
                    < self.memory_rows.len() {
                    let offset = self.offsets[self.active_process];
                    if offset > 0 {
                        self.offsets.set(self.active_process, offset - 1);
                    }
                }
            },
            WindowState::BreakpointInstruction => {
                if self.chosen_instruction > 0 {
                    self.chosen_instruction = self.chosen_instruction - 1;
                }
            },
            _ => {},
        }
    }

    /// Update the scroll and table states to scroll them "down".
    pub fn scroll_down(&mut self)
        ensures
            final(self)@ == old(self)@.scroll_down(),
    {
        match self.window_state {
            WindowState::Main => {
                if self.active_process < self.offsets.len() && self.active_process
                    < self.memory_rows.len() {
                    let offset = self.offsets[self.active_process];
                    if offset < usize::MAX && offset + 1 < self.memory_rows[self.active_process] {
                        self.offsets.set(self.active_process, offset + 1);
                    }
                }
            },
            WindowState::BreakpointInstruction => {
                if self.chosen_instruction < CHOICES - 1 {
                    self.chosen_instruction = self.chosen_instruction + 1;
                }
            },
            _ => {},
        }
    }

    /// Handle a key that was pressed: the state moves on as the key says,
    /// and the result is what the host is asked to do.
    pub fn handle_key(&mut self, key: Key) -> (command: Command)
        ensures
            command == old(self)@.command(key),
            final(self)@ == old(self)@.key(key),
    {
        match self.window_state {
            WindowState::Main => match key {
                Key::Char('s') => return Command::Step(self.active_process),
                Key::Char('c') => return Command::StepUntil(self.active_process),
                Key::Char('q') | Key::Esc => return Command::Quit,
                Key::Char('b') => {
                    self.window_state = WindowState::BreakpointType;
                },
                Key::Char('B') => {
                    self.window_state = WindowState::BreakpointList;
                },
                Key::Char(c) => {
                    if let Some(index) = digit(c) {
                        if index < self.total_processes {
                            self.active_process = index;
                        }
                    }
                },
                Key::Up => self.scroll_up(),
                Key::Down => self.scroll_down(),
                _ => {},
            },
            WindowState::BreakpointList => match key {
                Key::Char('q') | Key::Esc => {
                    self.window_state = WindowState::Main;
                },
                _ => {},
            },
            WindowState::BreakpointType => match key {
                Key::Char('q') | Key::Esc => {
                    self.window_state = WindowState::Main;
                },
                Key::Char('m') => {
                    self.window_state = WindowState::BreakpointMemory;
                },
                Key::Char('i') => {
                    self.window_state = WindowState::BreakpointInstruction;
                },
                _ => {},
            },
            WindowState::BreakpointMemory => match key {
                Key::Char('q') | Key::Esc => {
                    self.window_state = WindowState::Main;
                },
                Key::Char(c) => {
                    if let Some(digit) = digit(c) {
                        if let Some(tenfold) = self.chosen_memory_location.checked_mul(10) {
                            if let Some(location) = tenfold.checked_add(digit) {
                                self.chosen_memory_location = location;
                            }
                        }
                    }
                },
                Key::Backspace => {
                    self.chosen_memory_location = self.chosen_memory_location / 10;
                },
                Key::Enter => {
                    self.breakpoints.add(Breakpoint::MemoryLocation(self.chosen_memory_location));
                    self.chosen_memory_location = 0;
                    self.window_state = WindowState::Main;
                },
                _ => {},
            },
            WindowState::BreakpointInstruction => match key {
                Key::Char('q') | Key::Esc => {
                    self.window_state = WindowState::Main;
                },
                Key::Char('k') | Key::Up => self.scroll_up(),
                Key::Char('j') | Key::Down => self.scroll_down(),
                Key::Enter => {
                    if let Some(instruction) = Instruction::from_index(self.chosen_instruction) {
                        self.breakpoints.add(Breakpoint::Instruction(instruction));
                    }
                    self.chosen_instruction = 0;
                    self.window_state = WindowState::Main;
                },
                _ => {},
            },
        }
        Command::Nothing
    }
}

} // verus!
