use vstd::prelude::*;

verus! {

/// Failures of reading an EMV card.
#[derive(Debug, Clone, Copy, PartialEq, Eq, Structural)]
pub enum Error {
    SmartCardReaderError,
    ReaderNotFound,
    InvalidApduResponse,
    UnableToConstructApplicationDescriptor,
}

} // verus!
