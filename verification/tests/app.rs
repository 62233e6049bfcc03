use intcode::app::{App, Notification, Wiring};
use intcode::breakpoint::{Breakpoint, Breakpoints};
use intcode::fault::Fault;
use intcode::instruction::Instruction;
use intcode::ipc::Channel;
use intcode::machine::{Progress, Stop};
use intcode::process::Process;

fn single(program: &str) -> App {
    App::pipeline(vec![Process::new(program).unwrap()]).unwrap()
}

#[test]
fn notifying_a_step_makes_one_step() {
    let mut app = single("1101,1,1,0,3,0,99");
    let step = Notification::Step;
    assert_eq!(app.notify(0, &step, 10), Ok(Stop::Limit));
    assert_eq!(app.states()[0].instruction_pointer, 4);
    assert_eq!(app.notify(0, &step, 10), Ok(Stop::Stalled));
    assert_eq!(app.states()[0].instruction_pointer, 4);
    assert!(app.send(0, 9));
    assert_eq!(app.notify(0, &step, 10), Ok(Stop::Limit));
    assert_eq!(app.notify(0, &step, 10), Ok(Stop::Halted));
    assert!(app.states()[0].halted);
}

#[test]
fn notifying_a_halted_process_leaves_it_alone() {
    let mut app = single("99,1101,1,1,0");
    assert_eq!(app.notify(0, &Notification::Step, 10), Ok(Stop::Halted));
    let halted = app.states().remove(0);
    let until = Notification::StepUntil(Breakpoints::default());
    for notification in [Notification::Step, until] {
        assert_eq!(app.notify(0, &notification, 10), Ok(Stop::Halted));
        assert_eq!(app.states()[0].memory, halted.memory);
        assert_eq!(app.states()[0].instruction_pointer, halted.instruction_pointer);
    }
    assert_eq!(app.step(0), Ok(Progress::Idle));
}

#[test]
fn notifying_step_until_runs_to_the_breakpoint() {
    let mut app = single("1101,1,1,0,104,5,99");
    let mut breakpoints = Breakpoints::default();
    breakpoints.add(Breakpoint::Instruction(Instruction::from_name("HLT").unwrap()));
    let until = Notification::StepUntil(breakpoints);
    assert_eq!(app.notify(0, &until, 1), Ok(Stop::Limit));
    assert_eq!(app.notify(0, &until, 10), Ok(Stop::Breakpoint));
    assert_eq!(app.states()[0].instruction_pointer, 6);
    assert_eq!(app.buffers(), vec![vec![], vec![5]]);
    assert!(!app.states()[0].halted);
}

#[test]
fn notifying_reports_the_fault() {
    let mut app = single("7777");
    assert_eq!(app.notify(0, &Notification::Step, 10), Err(Fault::InvalidOpcode));
    let until = Notification::StepUntil(Breakpoints::default());
    assert_eq!(app.notify(0, &until, 10), Err(Fault::InvalidOpcode));
    assert_eq!(app.step(0), Err(Fault::InvalidOpcode));
    assert_eq!(app.states()[0].instruction_pointer, 0);
}

#[test]
fn new_checks_the_wiring() {
    let process = || Process::new("99").unwrap();
    let channels = || vec![Channel::new(), Channel::new()];
    assert!(App::new(channels(), vec![process()], vec![Wiring { input: 0, output: 1 }]).is_some());
    assert!(App::new(channels(), vec![process()], vec![Wiring { input: 1, output: 1 }]).is_some());
    assert!(App::new(channels(), vec![process()], vec![Wiring { input: 0, output: 2 }]).is_none());
    assert!(App::new(channels(), vec![process()], vec![Wiring { input: 2, output: 0 }]).is_none());
    assert!(App::new(channels(), vec![process()], vec![]).is_none());
    assert!(App::new(channels(), vec![], vec![Wiring { input: 0, output: 1 }]).is_none());
    assert!(App::new(vec![], vec![], vec![]).is_some());
    let app = App::new(channels(), vec![process()], vec![Wiring { input: 1, output: 0 }]).unwrap();
    assert_eq!(app.len(), 1);
    assert_eq!(app.channels(), 2);
    assert_eq!(app.wiring(0), Some(Wiring { input: 1, output: 0 }));
    assert_eq!(app.wiring(1), None);
}

#[test]
fn send_and_recv_reach_the_channels() {
    let mut app = single("99");
    assert!(app.send(0, 4));
    assert!(app.send(0, 5));
    assert!(app.send(1, 6));
    assert!(!app.send(2, 7));
    assert_eq!(app.buffers(), vec![vec![4, 5], vec![6]]);
    assert_eq!(app.recv(0), Some(4));
    assert_eq!(app.recv(1), Some(6));
    assert_eq!(app.recv(1), None);
    assert_eq!(app.recv(2), None);
    assert_eq!(app.buffers(), vec![vec![5], vec![]]);
}

#[test]
fn pipeline_chains_the_processes() {
    // Each process emits the sum of the two values it receives.
    let text = "3,11,3,12,1,11,12,13,4,13,99,0,0,0";
    let processes = (0..3).map(|_| Process::new(text).unwrap()).collect();
    let mut app = App::pipeline(processes).unwrap();
    assert_eq!(app.len(), 3);
    assert_eq!(app.channels(), 4);
    for index in 0..3 {
        assert_eq!(app.wiring(index), Some(Wiring { input: index, output: index + 1 }));
        // The phase of the process is its first input.
        assert!(app.send(index, 10 * (index as isize + 1)));
    }
    assert!(app.send(0, 1));
    let none = Breakpoints::default();
    assert_eq!(app.step_until(2, &none, 100), Ok(Stop::Stalled));
    assert_eq!(app.step_until(1, &none, 100), Ok(Stop::Stalled));
    assert_eq!(app.step_until(0, &none, 100), Ok(Stop::Halted));
    assert_eq!(app.buffers(), vec![vec![], vec![11], vec![], vec![]]);
    assert_eq!(app.step_until(1, &none, 100), Ok(Stop::Halted));
    assert_eq!(app.step_until(2, &none, 100), Ok(Stop::Halted));
    assert_eq!(app.buffers(), vec![vec![], vec![], vec![], vec![61]]);
    assert!(app.states().iter().all(|state| state.halted));
    assert_eq!(app.recv(3), Some(61));
}

#[test]
fn ring_feeds_the_last_output_to_the_first_input() {
    // Emits its input plus one, twice over.
    let text = "3,20,1001,20,1,20,4,20,3,20,1001,20,1,20,4,20,99";
    let processes = (0..3).map(|_| Process::new(text).unwrap()).collect();
    let mut app = App::ring(processes);
    assert_eq!(app.channels(), 3);
    assert_eq!(app.wiring(0), Some(Wiring { input: 0, output: 1 }));
    assert_eq!(app.wiring(1), Some(Wiring { input: 1, output: 2 }));
    assert_eq!(app.wiring(2), Some(Wiring { input: 2, output: 0 }));
    assert!(app.send(0, 0));
    let none = Breakpoints::default();
    let mut rounds = 0;
    while !app.states().iter().all(|state| state.halted) {
        for index in 0..3 {
            let end = app.step_until(index, &none, 100).unwrap();
            assert!(end == Stop::Stalled || end == Stop::Halted);
        }
        rounds += 1;
        assert!(rounds < 10);
    }
    assert_eq!(app.buffers(), vec![vec![6], vec![], vec![]]);
}

#[test]
fn ring_of_one_process_feeds_itself() {
    let mut app = App::ring(vec![Process::new("104,7,3,0,4,0,99").unwrap()]);
    assert_eq!(app.wiring(0), Some(Wiring { input: 0, output: 0 }));
    assert_eq!(app.step_until(0, &Breakpoints::default(), 100), Ok(Stop::Halted));
    assert_eq!(app.states()[0].memory[0], 7);
    assert_eq!(app.buffers(), vec![vec![7]]);
    let empty = App::ring(vec![]);
    assert_eq!(empty.len(), 0);
    assert_eq!(empty.channels(), 0);
    assert!(empty.buffers().is_empty());
    assert!(empty.states().is_empty());
}

#[test]
fn step_until_stops_at_a_breakpoint_of_the_board() {
    let mut app = single("1101,1,1,0,104,5,1102,2,2,0,99");
    let mut breakpoints = Breakpoints::default();
    breakpoints.add(Breakpoint::MemoryLocation(8));
    assert_eq!(app.step_until(0, &breakpoints, 100), Ok(Stop::Breakpoint));
    assert_eq!(app.states()[0].instruction_pointer, 6);
    assert_eq!(app.buffers()[1], vec![5]);
    assert_eq!(app.step_until(0, &Breakpoints::default(), 0), Ok(Stop::Limit));
    assert_eq!(app.step_until(0, &Breakpoints::default(), 5), Ok(Stop::Halted));
}
