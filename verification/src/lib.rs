//! An Intcode virtual machine: instruction decoding, a stepping executor over
//! a zero-initialised tape, breakpoints, the queue that carries values
//! between machines, and machines wired together by such queues.
//!
//! The executor never waits. Where an instruction needs a channel, the
//! process says so in a `Request`, and its host hands the channel's answer
//! back in a `Reply`; a host may wait for that answer in whatever way it
//! likes. `machine` holds the mathematical model that every function here is
//! proved against.
pub mod app;
pub mod breakpoint;
pub mod fault;
pub mod instruction;
pub mod ipc;
pub mod machine;
pub mod parameter;
pub mod process;
pub mod program;
pub mod renderer;
pub mod text;
