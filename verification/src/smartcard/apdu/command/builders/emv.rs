use vstd::prelude::*;
use crate::smartcard::apdu::command::CommandApdu;

verus! {

/// CLA of EMV proprietary commands.
pub const EMV_PROPRIETARY: u8 = 0x00;

/// INS code of GET PROCESSING OPTIONS.
pub const GET_PROCESSING_OPTIONS: u8 = 0xA8;

/// GET PROCESSING OPTIONS with the given PDOL data; Le = 0xFF.
pub fn get_processing_options(processing_options_data_objects_list: Vec<u8>) -> (c: CommandApdu)
    ensures
        c.instruction_class == EMV_PROPRIETARY,
        c.instruction_code == GET_PROCESSING_OPTIONS,
        c.parameter_1 == 0x00,
        c.parameter_2 == 0x00,
        c.data@ == processing_options_data_objects_list@,
        c.expected_length == Some(0xFFu8),
{
    CommandApdu {
        instruction_class: EMV_PROPRIETARY,
        instruction_code: GET_PROCESSING_OPTIONS,
        parameter_1: 0x00,
        parameter_2: 0x00,
        data: processing_options_data_objects_list,
        expected_length: Some(0xFF),
    }
}

} // verus!
