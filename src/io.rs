//! The duplex byte channel the shell talks over, and the handler convention.

use vstd::prelude::*;

verus! {

/// Why a read returned no byte.
#[derive(PartialEq, Eq, Structural, Clone, Copy, Debug)]
pub enum ReadFault {
    /// Nothing has arrived yet; asking again later is fine.
    NoData,
    /// The channel failed.
    Failed,
}

/// A serial channel: single-byte reads and writes, and bulk writes of text.
pub trait Transport {
    /// Reads one byte, or tells why none came.
    fn read_byte(&mut self) -> Result<u8, ReadFault>;

    /// Writes one byte.
    fn write_byte(&mut self, byte: u8) -> Result<(), ()>;

    /// Writes a run of bytes.
    fn write_text(&mut self, text: &[u8]) -> Result<(), ()>;
}

/// Status that a handler reports on success.
#[derive(PartialEq, Eq, Structural, Clone, Copy, Debug)]
pub enum ReturnCode {
    Success,
    /// An application-defined status other than plain success.
    Failure,
}

/// Errors of the command registry and of handlers.
#[derive(PartialEq, Eq, Structural, Clone, Copy, Debug)]
pub enum CommandProcessorError {
    /// The registry already holds as many commands as it was built for.
    CapacityExceeded,
    /// A command of that name is registered already.
    DuplicateName,
    /// No command of that name is registered (on removal).
    NotFound,
    /// The submitted line names no registered command.
    CommandNotFound,
    /// A handler could not write its output.
    WriteError,
}

/// A command handler. It may write to the channel it is given and reports
/// its own outcome, which the shell hands on unchanged.
pub trait Handler {
    fn call<T: Transport>(&self, out: &mut T) -> Result<ReturnCode, CommandProcessorError>;
}

} // verus!
