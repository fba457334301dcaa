use vstd::prelude::*;
use crate::smartcard::apdu::command::{CommandApdu, spec_command_bytes};
use crate::smartcard::apdu::response::ResponseApdu;

pub mod error;

verus! {

/// `r` is the response APDU in the answer `raw`: a failure is passed on; an
/// answer of fewer than two bytes is `EmptyApduResponse`; otherwise the
/// answer is the response's data followed by SW1 SW2.
pub open spec fn spec_response_of_raw<'buf>(
    raw: Result<&'buf [u8], error::Error>,
    r: Result<ResponseApdu<'buf>, error::Error>,
) -> bool {
    match raw {
        Err(e) => r == Err::<ResponseApdu<'buf>, error::Error>(e),
        Ok(bytes) => if bytes@.len() < 2 {
            r == Err::<ResponseApdu<'buf>, error::Error>(error::Error::EmptyApduResponse)
        } else {
            r matches Ok(resp) && resp.data@ + seq![resp.sw1, resp.sw2] == bytes@
        },
    }
}

/// The response APDU in what a channel answered: the answer split into data
/// and status bytes; an answer of fewer than two bytes is
/// `EmptyApduResponse`; a failure of the channel is passed on.
pub fn response_apdu_from_raw<'buf>(raw: Result<&'buf [u8], error::Error>) -> (r: Result<
    ResponseApdu<'buf>,
    error::Error,
>)
    ensures
        spec_response_of_raw(raw, r),
{
    let response_apdu_bytes = match raw {
        Err(e) => return Err(e),
        Ok(bytes) => bytes,
    };
    match ResponseApdu::from_bytes(response_apdu_bytes) {
        Ok(r) => Ok(r),
        Err(_) => Err(error::Error::EmptyApduResponse),
    }
}

/// A source of connections to a smart card.
pub trait SmartCardReader {
    type SmartCardChannel: SmartCardChannel;

    fn connect(&self) -> Result<Self::SmartCardChannel, error::Error>;
}

/// A connection to a smart card that exchanges APDUs.
pub trait SmartCardChannel: Sized {
    /// Sends `send_apdu` and splits the answer into data and status bytes;
    /// an answer of fewer than two bytes is `EmptyApduResponse`. The result is
    /// what `spec_response_of_raw` gives for an outcome of `exchange_apdu_raw`
    /// called on this channel with the bytes of `send_apdu` and the buffer.
    fn exchange_apdu<'buf>(
        &mut self,
        send_apdu: CommandApdu,
        receive_apdu_buffer: &'buf mut [u8; 264],
    ) -> (r: Result<ResponseApdu<'buf>, error::Error>)
        ensures
            exists|
                channel: &mut Self,
                buffer: &'buf mut [u8; 264],
                bytes: &[u8],
                raw: Result<&'buf [u8], error::Error>,
            |
                {
                    &&& *channel == *old(self)
                    &&& *final(channel) == *final(self)
                    &&& *buffer == *old(receive_apdu_buffer)
                    &&& *final(buffer) == *final(receive_apdu_buffer)
                    &&& bytes@ == spec_command_bytes(send_apdu)
                    &&& call_ensures(Self::exchange_apdu_raw, (channel, bytes, buffer), raw)
                    &&& spec_response_of_raw(raw, r)
                },
    {
        let command_apdu_bytes = send_apdu.to_bytes();
        let bytes = command_apdu_bytes.as_slice();
        let exchange_apdu_raw = Self::exchange_apdu_raw;
        let raw = exchange_apdu_raw(self, bytes, receive_apdu_buffer);
        response_apdu_from_raw(raw)
    }

    /// Sends the bytes of a command APDU; the answer is written into
    /// `response_apdu_buffer` and the part received is returned.
    fn exchange_apdu_raw<'buf>(
        &mut self,
        command_apdu: &[u8],
        response_apdu_buffer: &'buf mut [u8; 264],
    ) -> Result<&'buf [u8], error::Error>;

    /// Disconnects, resetting the card.
    fn reset(self) -> Result<(), error::Error>;
}

} // verus!
