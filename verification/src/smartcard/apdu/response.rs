use vstd::prelude::*;

verus! {

/// ISO-7816: Response APDU, the data followed by the status bytes SW1 SW2.
pub struct ResponseApdu<'buf> {
    pub data: &'buf [u8],
    pub sw1: u8,
    pub sw2: u8,
}

/// The status word SW1 SW2 as one number.
pub open spec fn spec_status_word(sw1: u8, sw2: u8) -> int {
    sw1 as int * 256 + sw2 as int
}

/// Normal processing: SW1 SW2 = 90 00.
pub open spec fn spec_is_ok(sw1: u8, sw2: u8) -> bool {
    sw1 == 0x90 && sw2 == 0x00
}

impl<'buf> ResponseApdu<'buf> {
    /// Splits the bytes received into the data and the two status bytes;
    /// fails when fewer than two bytes were received.
    pub fn from_bytes(bytes: &'buf [u8]) -> (r: Result<Self, ()>)
        ensures
            r is Err <==> bytes@.len() < 2,
            r matches Ok(resp) ==> {
                &&& resp.data@ == bytes@.subrange(0, bytes@.len() - 2)
                &&& resp.sw1 == bytes@[bytes@.len() - 2]
                &&& resp.sw2 == bytes@[bytes@.len() - 1]
                &&& resp.data@ + seq![resp.sw1, resp.sw2] == bytes@
            },
    {
        if bytes.len() < 2 {
            return Err(());
        }
        let (data, sw) = bytes.split_at(bytes.len() - 2);
        let r = Self { data, sw1: sw[0], sw2: sw[1] };
        assert(r.data@ + seq![r.sw1, r.sw2] =~= bytes@);
        Ok(r)
    }

    /// SW1 SW2 as a 16-bit number, SW1 in the high byte.
    pub fn status_word(&self) -> (w: u16)
        ensures
            w as int == spec_status_word(self.sw1, self.sw2),
    {
        let (sw1, sw2) = (self.sw1, self.sw2);
        assert((((sw1 as u16) << 8u16) | (sw2 as u16)) as int == sw1 as int * 256 + sw2 as int)
            by (bit_vector);
        ((self.sw1 as u16) << 8) | (self.sw2 as u16)
    }

    /// Whether the status is 90 00.
    pub fn is_ok(&self) -> (b: bool)
        ensures
            b == spec_is_ok(self.sw1, self.sw2),
    {
        self.sw1 == 0x90 && self.sw2 == 0x00
    }

    /// The data, when the status is 90 00.
    pub fn expect_ok(&self) -> (r: Result<&'buf [u8], ()>)
        ensures
            r is Ok <==> spec_is_ok(self.sw1, self.sw2),
            r matches Ok(d) ==> d@ == self.data@,
    {
        if self.is_ok() {
            Ok(self.data)
        } else {
            Err(())
        }
    }
}

/// Law: the status is 90 00 exactly when the status word is 0x9000.
pub proof fn law_is_ok_status_word(sw1: u8, sw2: u8)
    ensures
        spec_is_ok(sw1, sw2) <==> spec_status_word(sw1, sw2) == 0x9000,
{
}

} // verus!
