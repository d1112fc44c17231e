use vstd::prelude::*;

verus! {

/// The kind of a failure: what was asked for is not there, what was read is
/// not what it should be, or what was asked for is not done this way.
#[derive(Clone, Copy, Debug, PartialEq, Eq, Structural)]
pub enum ErrorKind {
    NotFound,
    InvalidData,
    Unsupported,
}

/// A failure of the machine layer: its kind and its message.
#[derive(Debug)]
pub struct MachineError {
    pub kind: ErrorKind,
    pub message: String,
}

impl MachineError {
    /// A failure of kind `kind` with the message `message`.
    pub fn new(kind: ErrorKind, message: String) -> (e: MachineError)
        ensures
            e.kind == kind,
            e.message@ == message@,
    {
        MachineError { kind, message }
    }
}

} // verus!
