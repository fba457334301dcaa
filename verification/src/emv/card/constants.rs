use vstd::prelude::*;

verus! {

/// Size of the buffer that receives a response APDU: 256 data bytes, the
/// status bytes and room to spare.
pub const EMV_RESPONSE_BUFFER_SIZE: usize = 264;

/// Name of the Proximity Payment System Environment directory,
/// "2PAY.SYS.DDF01".
pub const PPSE_FILE_NAME: [u8; 14] = [
    0x32, 0x50, 0x41, 0x59, 0x2E, 0x53, 0x59, 0x53, 0x2E, 0x44, 0x44, 0x46, 0x30, 0x31,
];

} // verus!
