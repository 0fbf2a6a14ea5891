//! The state of the console's main loop, and of the events sent to the
//! second core.

use vstd::prelude::*;
use crate::fifo_buffer::FifoBuffer;

verus! {

/// Byte capacity of the command line buffer.
pub const CMD_BUFF_SIZE: usize = 192;

/// The main loop's state: the line being read and whether a whole line is
/// waiting to run.
#[derive(Debug)]
pub struct Program {
    pub command_buf: FifoBuffer<CMD_BUFF_SIZE>,
    pub command_read: bool,
}

impl Program {
    pub fn new() -> (r: Program)
        ensures
            r.command_buf.wf(),
            r.command_buf@ == Seq::<u8>::empty(),
            !r.command_read,
    {
        Program { command_buf: FifoBuffer::new(), command_read: false }
    }
}

/// Shared device state.
#[derive(Debug, PartialEq, Eq, Structural)]
pub struct State {}

impl State {
    pub fn new() -> (r: State)
        ensures
            r == (State {}),
    {
        State {}
    }
}

/// Work handed to the second core through its queue.
#[derive(Debug, Clone, Copy, PartialEq, Eq, Structural)]
pub enum Event {
    Blink { times: u16, interval: u16 },
    Sleep,
}

/// Failures of the temperature and humidity sensor.
#[derive(Debug, Clone, Copy, PartialEq, Eq, Structural)]
pub enum DhtError {
    Timeout,
    Checksum,
    Communication,
    Connection,
}

impl DhtError {
    /// The text shown for the error.
    pub fn message(&self) -> (r: &'static str)
        ensures
            r@ == match self {
                DhtError::Timeout => "timeout"@,
                DhtError::Checksum => "invalid data"@,
                DhtError::Communication => "communication error"@,
                DhtError::Connection => "connection error"@,
            },
    {
        match self {
            DhtError::Timeout => "timeout",
            DhtError::Checksum => "invalid data",
            DhtError::Communication => "communication error",
            DhtError::Connection => "connection error",
        }
    }
}

} // verus!
