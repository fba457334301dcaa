use vstd::prelude::*;

verus! {

/// ISO-7816 INS code of SELECT.
pub const SELECT: u8 = 0xA4;

/// ISO-7816 INS code of READ RECORD.
pub const READ_RECORD: u8 = 0xB2;

} // verus!
