use vstd::prelude::*;
use crate::smartcard::apdu::command::CommandApdu;

verus! {

/// CLA of inter-industry commands.
pub const INTER_INDUSTRY_STANDARD: u8 = 0x00;

/// INS code of SELECT.
pub const SELECT: u8 = 0xA4;

/// INS code of READ RECORD.
pub const READ_RECORD: u8 = 0xB2;

/// SELECT by DF name (P1 = 0x04, P2 = 0x00); Le = 0xFF.
pub fn select(file_name: Vec<u8>) -> (c: CommandApdu)
    ensures
        c.instruction_class == INTER_INDUSTRY_STANDARD,
        c.instruction_code == SELECT,
        c.parameter_1 == 0x04,
        c.parameter_2 == 0x00,
        c.data@ == file_name@,
        c.expected_length == Some(0xFFu8),
{
    CommandApdu {
        instruction_class: INTER_INDUSTRY_STANDARD,
        instruction_code: SELECT,
        parameter_1: 0x04,
        parameter_2: 0x00,
        data: file_name,
        expected_length: Some(0xFF),
    }
}

/// READ RECORD of record `record_number` in the file with short file
/// identifier `short_file_identifier`: P2 holds the SFI in bits 8..4 and
/// 0b100 in bits 3..1 (SFI bits above the fifth are shifted out).
pub fn read_record(short_file_identifier: u8, record_number: u8) -> (c: CommandApdu)
    ensures
        c.instruction_class == INTER_INDUSTRY_STANDARD,
        c.instruction_code == READ_RECORD,
        c.parameter_1 == record_number,
        c.parameter_2 == (short_file_identifier % 32) * 8 + 4,
        c.data@.len() == 0,
        c.expected_length == Some(0xFFu8),
{
    assert(((short_file_identifier << 3u8) | 0x04u8) == (short_file_identifier % 32) * 8 + 4)
        by (bit_vector);
    CommandApdu {
        instruction_class: INTER_INDUSTRY_STANDARD,
        instruction_code: READ_RECORD,
        parameter_1: record_number,
        parameter_2: (short_file_identifier << 3) | 0x04,
        data: Vec::new(),
        expected_length: Some(0xFF),
    }
}

} // verus!
