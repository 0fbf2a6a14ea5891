//! The decisions of the serial transport. The peripheral itself is driven
//! by the caller, which reports what each poll produced; these types decide
//! what the bytes mean and when a blocking operation ends.

use vstd::prelude::*;
use crate::fifo_buffer::FifoBuffer;

verus! {

/// Sent by the host to cancel a long-running command.
pub const INTERRUPT_CHAR: u8 = 0x7E;
/// Ends a line.
pub const NEWLINE: u8 = 0x0A;

/// Why a blocking read or write ends without success.
#[derive(Debug, Clone, Copy, PartialEq, Eq, Structural)]
pub enum SerialError {
    /// The host's terminal is not ready.
    InvalidEndpoint,
    /// The line did not fit in the caller's buffer; it was read to its end and dropped.
    BufferOverflow,
    /// The peripheral could not take more bytes and the host went away.
    WouldBlock,
}

/// What the caller of a blocking read does next.
#[derive(Debug, Clone, Copy, PartialEq, Eq, Structural)]
pub enum ReadStep {
    /// Poll again.
    Continue,
    /// A whole line of this many bytes is in the buffer.
    Done(usize),
    /// Stop with this error.
    Fail(SerialError),
}

/// Progress of reading one line into a caller's buffer.
#[derive(Debug)]
pub struct LineReader {
    pub len: usize,
    pub overflow: bool,
}

/// The reader's state after one more byte that is not a newline: stored
/// while it fits, otherwise dropped and the line marked as overflowing.
pub open spec fn next_state(st: (nat, bool), cap: nat) -> (nat, bool) {
    if st.0 < cap {
        (st.0 + 1, false)
    } else {
        (st.0, true)
    }
}

/// The reader's state after a run of bytes without a newline, from `st`.
pub open spec fn state_after(st: (nat, bool), n: nat, cap: nat) -> (nat, bool)
    decreases n,
{
    if n == 0 {
        st
    } else {
        next_state(state_after(st, (n - 1) as nat, cap), cap)
    }
}

impl LineReader {
    pub open spec fn wf(&self, cap: nat) -> bool {
        &&& self.len <= cap
        &&& self.overflow ==> self.len == cap
    }

    /// Starts reading a line; fails at once when the host is not connected.
    pub fn start(connected: bool) -> (r: Result<LineReader, SerialError>)
        ensures
            connected ==> r is Ok && r->Ok_0.len == 0 && !r->Ok_0.overflow,
            !connected ==> r == Err::<LineReader, SerialError>(SerialError::InvalidEndpoint),
    {
        if !connected {
            return Err(SerialError::InvalidEndpoint);
        }
        Ok(LineReader { len: 0, overflow: false })
    }

    /// A poll that brought no byte: keep waiting while the host is connected.
    pub fn on_idle(&self, connected: bool) -> (r: ReadStep)
        ensures
            r == if connected {
                ReadStep::Continue
            } else {
                ReadStep::Fail(SerialError::InvalidEndpoint)
            },
    {
        if connected {
            ReadStep::Continue
        } else {
            ReadStep::Fail(SerialError::InvalidEndpoint)
        }
    }

    /// One received byte. Bytes before the newline are stored while they
    /// fit and dropped after that; the newline ends the line, with an error
    /// when bytes were dropped, and leaves the reader ready for a new line.
    pub fn on_byte(&mut self, byte: u8, buffer: &mut [u8]) -> (r: ReadStep)
        requires
            old(self).wf(old(buffer)@.len() as nat),
        ensures
            final(self).wf(old(buffer)@.len() as nat),
            final(buffer)@.len() == old(buffer)@.len(),
            byte == NEWLINE ==> {
                &&& r == if old(self).overflow {
                    ReadStep::Fail(SerialError::BufferOverflow)
                } else {
                    ReadStep::Done(old(self).len)
                }
                &&& final(self).len == 0 && !final(self).overflow
                &&& final(buffer)@ == old(buffer)@
            },
            byte != NEWLINE ==> {
                &&& r == ReadStep::Continue
                &&& (final(self).len as nat, final(self).overflow) == next_state(
                    (old(self).len as nat, old(self).overflow),
                    old(buffer)@.len() as nat,
                )
                &&& final(buffer)@ == if old(self).len < old(buffer)@.len() {
                    old(buffer)@.update(old(self).len as int, byte)
                } else {
                    old(buffer)@
                }
            },
    {
        if byte == NEWLINE {
            let overflow = self.overflow;
            let len = self.len;
            self.len = 0;
            self.overflow = false;
            if overflow {
                return ReadStep::Fail(SerialError::BufferOverflow);
            }
            return ReadStep::Done(len);
        }
        if self.len < buffer.len() {
            buffer[self.len] = byte;
            self.len = self.len + 1;
        } else {
            self.overflow = true;
        }
        ReadStep::Continue
    }
}

/// A fresh reader fed the bytes of a line, none of them a newline, holds
/// the first bytes that fit and marks the line as overflowing exactly when
/// it is longer than the buffer; the newline then ends the read with the
/// line's length, or with a buffer overflow for a line that did not fit.
pub proof fn lemma_line_outcome(n: nat, cap: nat)
    ensures
        state_after((0, false), n, cap) == (if n <= cap { (n, false) } else { (cap, true) }),
        state_after((0, false), n, cap).1 <==> n > cap,
    decreases n,
{
    if n > 0 {
        lemma_line_outcome((n - 1) as nat, cap);
    }
}

/// Whether a chunk of received bytes holds the interrupt character.
pub open spec fn holds_interrupt(chunk: Seq<u8>) -> bool {
    exists|i: int| 0 <= i < chunk.len() && chunk[i] == INTERRUPT_CHAR
}

/// The latched "interrupted" flag of the transport. It is set when the
/// interrupt character arrives and stays set until a command clears it.
#[derive(Debug)]
pub struct SerialHandle {
    interrupt_cmd_triggered: bool,
}

impl View for SerialHandle {
    type V = bool;

    closed spec fn view(&self) -> bool {
        self.interrupt_cmd_triggered
    }
}

impl SerialHandle {
    pub fn new() -> (r: SerialHandle)
        ensures
            !r@,
    {
        SerialHandle { interrupt_cmd_triggered: false }
    }

    /// Scans the bytes received while a command runs. When the interrupt
    /// character is among them the flag is set and every pending byte is
    /// discarded, so none of them reaches the tokenizer; otherwise the bytes
    /// stay for the caller. Returns whether the character was found.
    pub fn poll_for_interrupt_char<const N: usize>(&mut self, pending: &mut FifoBuffer<N>) -> (found: bool)
        requires
            old(pending).wf(),
        ensures
            final(pending).wf(),
            found == holds_interrupt(old(pending)@),
            final(self)@ == (old(self)@ || found),
            found ==> final(pending)@ == Seq::<u8>::empty(),
            !found ==> final(pending)@ == old(pending)@,
    {
        let chunk = pending.get_data();
        let mut i: usize = 0;
        while i < chunk.len()
            invariant
                i <= chunk@.len(),
                chunk@ == pending@,
                *pending == *old(pending),
                pending.wf(),
                self.interrupt_cmd_triggered == old(self).interrupt_cmd_triggered,
                forall|k: int| 0 <= k < i ==> chunk@[k] != INTERRUPT_CHAR,
            decreases chunk.len() - i,
        {
            if chunk[i] == INTERRUPT_CHAR {
                proof {
                    assert(old(pending)@[i as int] == INTERRUPT_CHAR);
                }
                self.interrupt_cmd_triggered = true;
                pending.clear();
                return true;
            }
            i += 1;
        }
        false
    }

    /// Whether the interrupt character arrived since the flag was last cleared.
    pub fn interrupt_cmd_triggered(&self) -> (r: bool)
        ensures
            r == self@,
    {
        self.interrupt_cmd_triggered
    }

    /// Clears the flag before a cancellable loop starts.
    pub fn clear_interrupt_cmd(&mut self)
        ensures
            !final(self)@,
    {
        self.interrupt_cmd_triggered = false;
    }
}

/// Progress of a blocking write of `total` bytes.
#[derive(Debug)]
pub struct WriteProgress {
    pub sent: usize,
    pub total: usize,
}

impl WriteProgress {
    pub fn new(total: usize) -> (r: WriteProgress)
        ensures
            r.sent == 0,
            r.total == total,
    {
        WriteProgress { sent: 0, total }
    }

    /// Whether every byte has been handed to the peripheral.
    pub fn is_done(&self) -> (r: bool)
        ensures
            r == (self.sent >= self.total),
    {
        self.sent >= self.total
    }

    /// The peripheral took `written` more bytes.
    pub fn on_written(&mut self, written: usize)
        requires
            old(self).sent <= old(self).total,
        ensures
            final(self).total == old(self).total,
            final(self).sent == if written <= old(self).total - old(self).sent {
                old(self).sent + written
            } else {
                old(self).total as int
            },
    {
        if written <= self.total - self.sent {
            self.sent = self.sent + written;
        } else {
            self.sent = self.total;
        }
    }

    /// The peripheral's buffer is full: wait while the host is connected,
    /// give up otherwise.
    pub fn on_would_block(&self, connected: bool) -> (r: Result<(), SerialError>)
        ensures
            r == if connected {
                Ok::<(), SerialError>(())
            } else {
                Err(SerialError::WouldBlock)
            },
    {
        if connected {
            Ok(())
        } else {
            Err(SerialError::WouldBlock)
        }
    }
}

} // verus!
