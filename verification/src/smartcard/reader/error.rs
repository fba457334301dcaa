use vstd::prelude::*;

verus! {

/// Failures of a smart card reader.
#[derive(Debug, Clone, Copy, PartialEq, Eq, Structural)]
pub enum Error {
    InternalError,
    ReaderNotFound,
    EmptyApduResponse,
}

} // verus!
