use vstd::prelude::*;
use crate::emv::card::reader::error;
use crate::smartcard;
use crate::tlv;

verus! {

/// The card-reading error that a smart card reader error becomes.
pub open spec fn spec_from_reader_error(e: smartcard::reader::error::Error) -> error::Error {
    match e {
        smartcard::reader::error::Error::InternalError => error::Error::SmartCardReaderError,
        smartcard::reader::error::Error::ReaderNotFound => error::Error::ReaderNotFound,
        smartcard::reader::error::Error::EmptyApduResponse => error::Error::InvalidApduResponse,
    }
}

/// The card-reading error that a BER-TLV decoding error becomes: the card's
/// answer was not valid.
pub open spec fn spec_from_decoder_error(e: tlv::ber::decoder::error::Error) -> error::Error {
    error::Error::InvalidApduResponse
}

pub trait ErrorMapper<SUCCESS> {
    fn map_err_to_emv_reader_error(self) -> Result<SUCCESS, error::Error>;
}

impl<SUCCESS> ErrorMapper<SUCCESS> for Result<SUCCESS, smartcard::reader::error::Error> {
    fn map_err_to_emv_reader_error(self) -> (r: Result<SUCCESS, error::Error>)
        ensures
            self matches Ok(v) ==> r == Ok::<SUCCESS, error::Error>(v),
            self matches Err(e) ==> r == Err::<SUCCESS, error::Error>(spec_from_reader_error(e)),
    {
        match self {
            Ok(v) => Ok(v),
            Err(error) => Err(
                match error {
                    smartcard::reader::error::Error::InternalError => error::Error::SmartCardReaderError,
                    smartcard::reader::error::Error::ReaderNotFound => error::Error::ReaderNotFound,
                    smartcard::reader::error::Error::EmptyApduResponse => error::Error::InvalidApduResponse,
                },
            ),
        }
    }
}

impl<SUCCESS> ErrorMapper<SUCCESS> for Result<SUCCESS, tlv::ber::decoder::error::Error> {
    fn map_err_to_emv_reader_error(self) -> (r: Result<SUCCESS, error::Error>)
        ensures
            self matches Ok(v) ==> r == Ok::<SUCCESS, error::Error>(v),
            self matches Err(e) ==> r == Err::<SUCCESS, error::Error>(spec_from_decoder_error(e)),
    {
        match self {
            Ok(v) => Ok(v),
            Err(error) => Err(
                match error {
                    tlv::ber::decoder::error::Error::UnexpectedEof => error::Error::InvalidApduResponse,
                    tlv::ber::decoder::error::Error::IndefiniteLengthUnsupported => error::Error::InvalidApduResponse,
                },
            ),
        }
    }
}

} // verus!
