use vstd::prelude::*;
use crate::emv::card::constants::{EMV_RESPONSE_BUFFER_SIZE, PPSE_FILE_NAME};
use crate::emv::card::reader::directory_definition_file_reader::spec_select_directory_bytes;
use crate::smartcard::apdu::command::{CommandApdu, spec_command_bytes};
use crate::smartcard::apdu::command::builders::select;
use crate::smartcard::apdu::response::ResponseApdu;
use crate::smartcard::reader::{SmartCardChannel, SmartCardReader};
use crate::smartcard::reader::error::Error as ReaderError;
use crate::tlv::ber::{BerTlv, tlv_seq_model};
use crate::tlv::ber::decoder::{decode, spec_decode};
use crate::tlv::ber::decoder::error::Error as DecoderError;

verus! {

/// Why sending the PPSE SELECT failed: the reader, or the decoding of the
/// answer.
pub enum SendPpseError {
    SmartCardReader(ReaderError),
    BerTlvDecoder(DecoderError),
}

/// The outcome of decoding the answer `data`, as `send_ppse` returns it.
pub open spec fn spec_ppse_outcome(data: Seq<u8>, r: Result<Vec<BerTlv>, SendPpseError>) -> bool {
    match spec_decode(data) {
        Ok(objects) => r matches Ok(v) && tlv_seq_model(v@) == objects,
        Err(e) => r == Err::<Vec<BerTlv>, SendPpseError>(SendPpseError::BerTlvDecoder(e)),
    }
}

/// Connects through `reader`, sends SELECT of the PPSE (Le = 0x00), resets
/// the card once the answer is in, and decodes the answer's data. The first
/// failure is returned: of the connection, of the exchange, of the reset, or
/// of the decoding.
pub fn send_ppse<R: SmartCardReader>(reader: &R) -> (r: Result<Vec<BerTlv>, SendPpseError>)
    ensures
        exists|c: Result<R::SmartCardChannel, ReaderError>|
            {
                &&& call_ensures(R::connect, (reader,), c)
                &&& c matches Err(e) ==> r == Err::<Vec<BerTlv>, SendPpseError>(
                    SendPpseError::SmartCardReader(e),
                )
                &&& c matches Ok(connected) ==> exists|
                    channel: &mut R::SmartCardChannel,
                    command: CommandApdu,
                    buffer: &mut [u8; 264],
                    answer: Result<ResponseApdu, ReaderError>,
                |
                    {
                        &&& *channel == connected
                        &&& spec_command_bytes(command) =~= spec_select_directory_bytes(
                            PPSE_FILE_NAME@,
                        )
                        &&& #[trigger] call_ensures(
                            R::SmartCardChannel::exchange_apdu,
                            (channel, command, buffer),
                            answer,
                        )
                        &&& answer matches Err(e) ==> r == Err::<Vec<BerTlv>, SendPpseError>(
                            SendPpseError::SmartCardReader(e),
                        )
                        &&& answer matches Ok(response) ==> exists|reset: Result<(), ReaderError>|
                            {
                                &&& #[trigger] call_ensures(
                                    R::SmartCardChannel::reset,
                                    (*final(channel),),
                                    reset,
                                )
                                &&& reset matches Err(e) ==> r == Err::<
                                    Vec<BerTlv>,
                                    SendPpseError,
                                >(SendPpseError::SmartCardReader(e))
                                &&& reset is Ok ==> spec_ppse_outcome(response.data@, r)
                            }
                    }
            },
{
    let connect = R::connect;
    let connection = connect(reader);
    let mut smart_card_channel = match connection {
        Err(e) => return Err(SendPpseError::SmartCardReader(e)),
        Ok(channel) => channel,
    };
    let mut response_apdu_buffer = [0u8; EMV_RESPONSE_BUFFER_SIZE];

    let command_apdu = select(vstd::slice::slice_to_vec(PPSE_FILE_NAME.as_slice())).with_le(0x00);
    let ghost command_bytes = spec_command_bytes(command_apdu);
    assert(command_bytes =~= spec_select_directory_bytes(PPSE_FILE_NAME@));
    let exchange_apdu = R::SmartCardChannel::exchange_apdu;
    let answer = exchange_apdu(&mut smart_card_channel, command_apdu, &mut response_apdu_buffer);
    let response_apdu = match answer {
        Err(e) => return Err(SendPpseError::SmartCardReader(e)),
        Ok(response_apdu) => response_apdu,
    };

    let reset = R::SmartCardChannel::reset;
    match reset(smart_card_channel) {
        Err(e) => return Err(SendPpseError::SmartCardReader(e)),
        Ok(()) => {},
    }

    match decode(response_apdu.data) {
        Err(e) => Err(SendPpseError::BerTlvDecoder(e)),
        Ok(ber_tlv_vec) => Ok(ber_tlv_vec),
    }
}

} // verus!
