//! A line-editing command shell for small serial terminals.
//!
//! The library holds the byte-level editing machine, the bounded command
//! registry and the history ring; the caller supplies the serial transport
//! and the command handlers, and calls `Cli::poll` until a step ends.

pub mod cli;
pub mod editor;
pub mod history;
pub mod io;
pub mod registry;

pub use cli::{Cli, CliError, RunResult};
pub use history::History;
pub use io::{CommandProcessorError, Handler, ReadFault, ReturnCode, Transport};
pub use registry::{Command, Registry};
