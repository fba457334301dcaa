use vstd::prelude::*;

pub mod builders;
pub mod ins;

verus! {

/// ISO-7816: Command APDU
pub struct CommandApdu {
    /// ISO-7816: CLA
    pub instruction_class: u8,
    /// ISO-7816: INS
    pub instruction_code: u8,
    /// ISO-7816: P1
    pub parameter_1: u8,
    /// ISO-7816: P2
    pub parameter_2: u8,
    /// ISO-7816: Command Data
    pub data: Vec<u8>,
    /// ISO-7816: Le
    pub expected_length: Option<u8>,
}

/// The bytes of a command APDU with these fields: CLA INS P1 P2, then Lc and
/// the data when there is data (Lc is the data length taken modulo 256, as
/// one byte), then Le when one is set.
pub open spec fn spec_apdu_bytes(
    cla: u8,
    ins: u8,
    p1: u8,
    p2: u8,
    data: Seq<u8>,
    le: Option<u8>,
) -> Seq<u8> {
    seq![cla, ins, p1, p2] + (if data.len() == 0 {
        Seq::<u8>::empty()
    } else {
        seq![(data.len() % 256) as u8] + data
    }) + (match le {
        Some(le) => seq![le],
        None => Seq::<u8>::empty(),
    })
}

/// The bytes of a command APDU.
pub open spec fn spec_command_bytes(c: CommandApdu) -> Seq<u8> {
    spec_apdu_bytes(
        c.instruction_class,
        c.instruction_code,
        c.parameter_1,
        c.parameter_2,
        c.data@,
        c.expected_length,
    )
}

/// Law: the header comes first; with data of 1 to 255 bytes, Lc gives its
/// length exactly and the data follows it; Le, when set, is the last byte.
pub proof fn law_command_layout(cla: u8, ins: u8, p1: u8, p2: u8, data: Seq<u8>, le: Option<u8>)
    ensures
        spec_apdu_bytes(cla, ins, p1, p2, data, le).take(4) == seq![cla, ins, p1, p2],
        spec_apdu_bytes(cla, ins, p1, p2, data, le).len() == 4 + (if data.len() == 0 {
            0
        } else {
            1 + data.len()
        }) + (if le is Some {
            1int
        } else {
            0
        }),
        0 < data.len() < 256 ==> spec_apdu_bytes(cla, ins, p1, p2, data, le)[4] == data.len(),
        0 < data.len() ==> spec_apdu_bytes(cla, ins, p1, p2, data, le).subrange(5, 5 + data.len() as int)
            == data,
        le matches Some(x) ==> spec_apdu_bytes(cla, ins, p1, p2, data, le).last() == x,
{
    let bytes = spec_apdu_bytes(cla, ins, p1, p2, data, le);
    assert(bytes.take(4) =~= seq![cla, ins, p1, p2]);
    if data.len() > 0 {
        assert(bytes.subrange(5, 5 + data.len() as int) =~= data);
    }
}

proof fn lemma_usize_as_u8(n: usize)
    ensures
        (n as u8) as int == n as int % 256,
{
    assert((n as u8) as int == n as int % 256) by (bit_vector);
}

impl CommandApdu {
    /// The same command with Le set to `le`.
    pub fn with_le(self, le: u8) -> (r: Self)
        ensures
            r.instruction_class == self.instruction_class,
            r.instruction_code == self.instruction_code,
            r.parameter_1 == self.parameter_1,
            r.parameter_2 == self.parameter_2,
            r.data@ == self.data@,
            r.expected_length == Some(le),
    {
        let mut c = self;
        c.expected_length = Some(le);
        c
    }

    /// The same command with no Le.
    pub fn with_no_le(self) -> (r: Self)
        ensures
            r.instruction_class == self.instruction_class,
            r.instruction_code == self.instruction_code,
            r.parameter_1 == self.parameter_1,
            r.parameter_2 == self.parameter_2,
            r.data@ == self.data@,
            r.expected_length == None::<u8>,
    {
        let mut c = self;
        c.expected_length = None;
        c
    }

    /// The command as bytes on the wire.
    pub fn to_bytes(&self) -> (bytes: Vec<u8>)
        ensures
            bytes@ == spec_command_bytes(*self),
    {
        let mut bytes: Vec<u8> = Vec::new();

        bytes.push(self.instruction_class);
        bytes.push(self.instruction_code);
        bytes.push(self.parameter_1);
        bytes.push(self.parameter_2);
        let ghost head = bytes@;

        if !self.data.is_empty() {
            proof {
                lemma_usize_as_u8(self.data.len());
            }
            bytes.push(self.data.len() as u8);  // Lc
            bytes.extend_from_slice(self.data.as_slice());
        }
        let ghost body = bytes@;

        if let Some(le) = self.expected_length {
            bytes.push(le);
        }

        proof {
            let c = *self;
            assert(head =~= seq![c.instruction_class, c.instruction_code, c.parameter_1, c.parameter_2]);
            if c.data@.len() != 0 {
                assert(body =~= head + (seq![(c.data@.len() % 256) as u8] + c.data@));
            } else {
                assert(body =~= head + Seq::<u8>::empty());
            }
        }
        assert(bytes@ =~= spec_command_bytes(*self));
        bytes
    }
}

} // verus!
