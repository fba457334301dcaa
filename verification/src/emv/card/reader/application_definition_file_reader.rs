use vstd::prelude::*;
use crate::emv::card::image::{
    ApplicationDefinitionFile, ApplicationDefinitionFileModel, ApplicationFileRecordModel,
};
use crate::emv::card::reader::apdu_exchanger::{
    EmvApduExchanger, Exchange, keeps_history, lemma_calls_compose, lemma_keeps_history_refl,
    channel_response_model,
};
use crate::emv::card::reader::error;
use crate::emv::card::reader::error_mapper::ErrorMapper;
use crate::emv::dictionary::TAG_9F38;
use crate::smartcard::apdu::command::builders::emv::get_processing_options;
use crate::smartcard::apdu::command::builders::inter_industry::select;
use crate::smartcard::apdu::command::{CommandApdu, spec_apdu_bytes, spec_command_bytes};
use crate::smartcard::apdu::response::{ResponseApdu, spec_is_ok};
use crate::smartcard::reader::SmartCardChannel;
use crate::smartcard::reader::error::Error as ReaderError;
use crate::tlv::ber::BerTlv;
use crate::tlv::ber::decoder::{decode, spec_decode};
use crate::tlv::ber::lookup::BerTlvLookup;

pub mod application_descriptor;

verus! {

/// The bytes of SELECT `aid` as sent for an application (Le = 0xFF).
pub open spec fn spec_select_application_bytes(aid: Seq<u8>) -> Seq<u8> {
    spec_apdu_bytes(0x00, 0xA4, 0x04, 0x00, aid, Some(0xFFu8))
}

/// The bytes of GET PROCESSING OPTIONS with no PDOL data (Le = 0xFF).
pub open spec fn spec_get_processing_options_bytes() -> Seq<u8> {
    spec_apdu_bytes(0x00, 0xA8, 0x00, 0x00, Seq::empty(), Some(0xFFu8))
}

/// Reading an application after its SELECT got `response`: the outcome when
/// reading stops there (an error of the exchange, no application when the
/// status is not 90 00, an invalid answer when it is not BER-TLV), `None`
/// when it goes on with GET PROCESSING OPTIONS.
#[verifier::opaque]
pub open spec fn spec_application_after_select(
    response: Result<(Seq<u8>, u8, u8), error::Error>,
) -> Option<Result<Option<ApplicationDefinitionFileModel>, error::Error>> {
    match response {
        Err(e) => Some(Err(e)),
        Ok((data, sw1, sw2)) => if !spec_is_ok(sw1, sw2) {
            Some(Ok(None))
        } else if spec_decode(data) is Err {
            Some(Err(error::Error::InvalidApduResponse))
        } else {
            None
        },
    }
}

/// Reading application `aid` after GET PROCESSING OPTIONS got `response`:
/// the answer must have status 90 00, be BER-TLV and hold an application
/// descriptor; the application is then read, with no records.
#[verifier::opaque]
pub open spec fn spec_application_after_gpo(
    aid: Seq<u8>,
    response: Result<(Seq<u8>, u8, u8), error::Error>,
) -> Result<Option<ApplicationDefinitionFileModel>, error::Error> {
    match response {
        Err(e) => Err(e),
        Ok((data, sw1, sw2)) => if !spec_is_ok(sw1, sw2) {
            Err(error::Error::InvalidApduResponse)
        } else {
            match spec_decode(data) {
                Err(_) => Err(error::Error::InvalidApduResponse),
                Ok(tlvs) => if application_descriptor::spec_build(tlvs) is None {
                    Err(error::Error::UnableToConstructApplicationDescriptor)
                } else {
                    Ok(
                        Some(
                            ApplicationDefinitionFileModel {
                                application_identifier: aid,
                                records: Seq::empty(),
                            },
                        ),
                    )
                },
            }
        },
    }
}

/// The outcome of reading application `aid` when `log` is the list of the
/// exchanges made for it; `None` when `log` is not such a list (the commands
/// or their number do not fit the answers).
#[verifier::opaque]
pub open spec fn spec_application_session(aid: Seq<u8>, log: Seq<Exchange>) -> Option<
    Result<Option<ApplicationDefinitionFileModel>, error::Error>,
> {
    if log.len() == 1 && log[0].command == spec_select_application_bytes(aid)
        && spec_application_after_select(log[0].response) is Some {
        spec_application_after_select(log[0].response)
    } else if log.len() == 2 && log[0].command == spec_select_application_bytes(aid)
        && spec_application_after_select(log[0].response) is None && log[1].command
        == spec_get_processing_options_bytes() {
        Some(spec_application_after_gpo(aid, log[1].response))
    } else {
        None
    }
}

/// The model of an optional application definition file, or an error.
pub open spec fn adf_result_model(r: Result<Option<ApplicationDefinitionFile>, error::Error>) -> Result<
    Option<ApplicationDefinitionFileModel>,
    error::Error,
> {
    match r {
        Ok(Some(a)) => Ok(Some(a@)),
        Ok(None) => Ok(None),
        Err(e) => Err(e),
    }
}

/// Law: a SELECT answered 90 00 with data that decodes never ends the
/// reading of an application, whatever the FCI holds: GET PROCESSING OPTIONS
/// follows. Reading ends after the SELECT alone with no application only
/// when the SELECT's status is not 90 00.
pub proof fn law_select_ok_goes_on(aid: Seq<u8>, log: Seq<Exchange>, data: Seq<u8>)
    ensures
        spec_decode(data) is Ok ==> spec_application_after_select(
            Ok((data, 0x90u8, 0x00u8)),
        ) is None,
        spec_decode(data) is Ok && log.len() == 1 && log[0].response == Ok::<
            (Seq<u8>, u8, u8),
            error::Error,
        >((data, 0x90u8, 0x00u8)) ==> spec_application_session(aid, log) is None,
        spec_application_session(aid, log) == Some(
            Ok::<Option<ApplicationDefinitionFileModel>, error::Error>(None),
        ) ==> log.len() == 1 && log[0].response is Ok && !(log[0].response->Ok_0.1 == 0x90
            && log[0].response->Ok_0.2 == 0x00),
{
    reveal(spec_application_after_select);
    reveal(spec_application_after_gpo);
    reveal(spec_application_session);
}

/// Law: when the SELECT of `aid` is answered 90 00 with data that decodes,
/// and GET PROCESSING OPTIONS is answered 90 00 with objects that describe
/// the application, the application `aid` is read (with no records).
pub proof fn law_application_read(aid: Seq<u8>, select_data: Seq<u8>, gpo_data: Seq<u8>)
    requires
        spec_decode(select_data) is Ok,
        spec_decode(gpo_data) matches Ok(tlvs) && application_descriptor::spec_build(tlvs) is Some,
    ensures
        spec_application_session(
            aid,
            seq![
                Exchange {
                    command: spec_select_application_bytes(aid),
                    response: Ok((select_data, 0x90u8, 0x00u8)),
                },
                Exchange {
                    command: spec_get_processing_options_bytes(),
                    response: Ok((gpo_data, 0x90u8, 0x00u8)),
                },
            ],
        ) == Some(
            Ok::<Option<ApplicationDefinitionFileModel>, error::Error>(
                Some(ApplicationDefinitionFileModel { application_identifier: aid, records: Seq::empty() }),
            ),
        ),
{
    reveal(spec_application_after_select);
    reveal(spec_application_after_gpo);
    reveal(spec_application_session);
}

/// Selects application `application_identifier`, asks for its processing
/// options and checks that they describe the application.
pub fn read_application_definition_file<C: SmartCardChannel>(
    apdu_exchanger: &mut EmvApduExchanger<C>,
    application_identifier: &Vec<u8>,
) -> (r: Result<Option<ApplicationDefinitionFile>, error::Error>)
    ensures
        final(apdu_exchanger).transcript().len() > old(apdu_exchanger).transcript().len(),
        final(apdu_exchanger).transcript().take(old(apdu_exchanger).transcript().len() as int)
            == old(apdu_exchanger).transcript(),
        spec_application_session(
            application_identifier@,
            final(apdu_exchanger).transcript().skip(old(apdu_exchanger).transcript().len() as int),
        ) == Some(adf_result_model(r)),
        keeps_history(*old(apdu_exchanger), *final(apdu_exchanger)),
        final(apdu_exchanger).transcript().len() > old(apdu_exchanger).transcript().len() ==> final(apdu_exchanger).channel_at(
            old(apdu_exchanger).transcript().len() as int,
        ) == old(apdu_exchanger).channel(),
        final(apdu_exchanger).chained(old(apdu_exchanger).transcript().len() as int),
        forall|i: int|
            #![trigger final(apdu_exchanger).in_run(old(apdu_exchanger).transcript().len() as int, i)]
            final(apdu_exchanger).in_run(old(apdu_exchanger).transcript().len() as int, i) ==> exists|
                channel: &mut C,
                command: CommandApdu,
                buffer: &mut [u8; 264],
                raw: Result<ResponseApdu, ReaderError>,
            |
            {
                &&& *channel == final(apdu_exchanger).channel_at(i)
                &&& spec_command_bytes(command) =~= final(apdu_exchanger).transcript()[i].command
                &&& #[trigger] call_ensures(C::exchange_apdu, (channel, command, buffer), raw)
                &&& final(apdu_exchanger).transcript()[i].response == channel_response_model(raw)
                &&& *final(channel) == final(apdu_exchanger).channel_after(i)
            },
{
    let ghost old_log = apdu_exchanger.transcript();
    let ghost ex0 = *apdu_exchanger;
    proof {
        lemma_keeps_history_refl(ex0);
    }
    reveal(spec_application_after_select);
    reveal(spec_application_after_gpo);
    reveal(spec_application_session);

    // Select application.
    let command_apdu = select(vstd::slice::slice_to_vec(application_identifier.as_slice()));
    let selected: Result<Option<Vec<BerTlv>>, error::Error> = match apdu_exchanger.exchange(
        command_apdu,
    ) {
        Err(e) => Err(e),
        Ok(response_apdu) => match response_apdu.expect_ok() {
            Err(_) => Ok(None),
            Ok(data) => match decode(data).map_err_to_emv_reader_error() {
                Err(e) => Err(e),
                Ok(v) => Ok(Some(v)),
            },
        },
    };
    let ghost log1 = apdu_exchanger.transcript();
    let ghost ex1 = *apdu_exchanger;
    assert(log1.skip(old_log.len() as int) =~= seq![log1.last()]);
    assert(log1.take(old_log.len() as int) =~= old_log);
    let ber_tlv_vec = match selected {
        Err(e) => return Err(e),
        Ok(None) => return Ok(None),
        Ok(Some(v)) => v,
    };
    // The PDOL, when the card gives one (not used yet: GPO is sent with no
    // PDOL data).
    let _processing_data_object_list: Vec<u8> = match ber_tlv_vec.find_tag(TAG_9F38) {
        None => Vec::new(),
        Some(ber_tlv) => match ber_tlv.optional_primitive_value() {
            Some(primitive_value) => vstd::slice::slice_to_vec(primitive_value.as_slice()),
            None => Vec::new(),
        },
    };

    // Get processing options.
    let command_apdu = get_processing_options(Vec::new());
    let processed: Result<Vec<BerTlv>, error::Error> = match apdu_exchanger.exchange(command_apdu) {
        Err(e) => Err(e),
        Ok(response_apdu) => match response_apdu.expect_ok() {
            Err(_) => Err(error::Error::InvalidApduResponse),
            Ok(data) => decode(data).map_err_to_emv_reader_error(),
        },
    };
    let ghost log2 = apdu_exchanger.transcript();
    proof {
        lemma_calls_compose(ex0, ex1, *apdu_exchanger, old_log.len() as int);
    }
    assert(log2.skip(old_log.len() as int) =~= seq![log1.last(), log2.last()]);
    assert(log2.take(old_log.len() as int) =~= old_log);
    let ber_tlv_vec = match processed {
        Err(e) => return Err(e),
        Ok(v) => v,
    };
    let _application_descriptor = match application_descriptor::build(ber_tlv_vec) {
        Ok(d) => d,
        Err(_) => return Err(error::Error::UnableToConstructApplicationDescriptor),
    };

    // The records that the application file locator lists are not read.
    let application_definition_file = ApplicationDefinitionFile {
        application_identifier: vstd::slice::slice_to_vec(application_identifier.as_slice()),
        application_file_record_vec: Vec::new(),
    };
    assert(application_definition_file@.records =~= Seq::<ApplicationFileRecordModel>::empty());
    Ok(Some(application_definition_file))
}

} // verus!
