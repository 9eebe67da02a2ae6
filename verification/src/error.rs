use vstd::prelude::*;

verus! {

/// The errors of the server's GDB layer.
#[derive(Debug, Clone, PartialEq, Eq)]
pub enum AppError {
    /// A request that cannot be carried out as given.
    InvalidArgument(String),
    /// GDB failed, or answered in a way the server did not expect.
    GDBError(String),
    /// A command was sent while the debugged program was running.
    GDBBusy,
}

} // verus!
