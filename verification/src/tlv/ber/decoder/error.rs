use vstd::prelude::*;

verus! {

/// Why a byte string is not a sequence of BER-TLV data objects.
#[derive(Debug, Clone, Copy, PartialEq, Eq, Structural)]
pub enum Error {
    /// The input ends inside a tag, a length or a value.
    UnexpectedEof,
    /// The length byte 0x80 (indefinite form) was found.
    IndefiniteLengthUnsupported,
}

} // verus!
