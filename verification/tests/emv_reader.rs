use std::cell::RefCell;
use std::collections::VecDeque;
use std::rc::Rc;

use emv_reader::emv::card::constants::PPSE_FILE_NAME;
use emv_reader::emv::card::image::{DirectoryDefinitionFile, DirectoryEntry, EmvTag};
use emv_reader::emv::card::reader::apdu_exchanger::EmvApduExchanger;
use emv_reader::emv::card::reader::application_definition_file_reader::application_descriptor::build;
use emv_reader::emv::card::reader::application_definition_file_reader::read_application_definition_file;
use emv_reader::emv::card::reader::directory_definition_file_reader::{
    construct_directory_entry, directory_definition_file_from_response,
    read_directory_definition_file,
};
use emv_reader::emv::card::reader::error::Error;
use emv_reader::emv::card::reader::error_mapper::ErrorMapper;
use emv_reader::emv::card::reader::tag_lookup::EmvTagLookup;
use emv_reader::emv::card::reader::{
    read_all_application_definition_file, read_card_image, read_emv_card,
};
use emv_reader::scripts::send_ppse::{send_ppse, SendPpseError};
use emv_reader::smartcard::apdu::response::ResponseApdu;
use emv_reader::smartcard::reader::error::Error as ReaderError;
use emv_reader::smartcard::reader::{SmartCardChannel, SmartCardReader};
use emv_reader::tlv::ber::decoder::decode;
use emv_reader::tlv::ber::decoder::error::Error as DecoderError;

const AID: [u8; 7] = [0xA0, 0x00, 0x00, 0x00, 0x03, 0x10, 0x10];

/// The answer to SELECT PPSE: 6F { 84 name, A5 { BF0C { 61 { 4F aid, 87 01 } } } }.
fn ppse_answer() -> Vec<u8> {
    let mut v = vec![0x6F, 0x23, 0x84, 0x0E];
    v.extend_from_slice(&PPSE_FILE_NAME);
    v.extend_from_slice(&[0xA5, 0x11, 0xBF, 0x0C, 0x0E, 0x61, 0x0C, 0x4F, 0x07]);
    v.extend_from_slice(&AID);
    v.extend_from_slice(&[0x87, 0x01, 0x01, 0x90, 0x00]);
    v
}

fn select_aid_answer() -> Vec<u8> {
    let mut v = vec![0x6F, 0x0B, 0x84, 0x07];
    v.extend_from_slice(&AID);
    v.extend_from_slice(&[0xA5, 0x00, 0x90, 0x00]);
    v
}

fn gpo_format_1_answer() -> Vec<u8> {
    vec![0x80, 0x06, 0x19, 0x80, 0x08, 0x01, 0x01, 0x00, 0x90, 0x00]
}

/// A card that answers each command with the next scripted answer.
struct ScriptedChannel {
    answers: VecDeque<Result<Vec<u8>, ReaderError>>,
    sent: Rc<RefCell<Vec<Vec<u8>>>>,
}

impl SmartCardChannel for ScriptedChannel {
    fn exchange_apdu_raw<'buf>(
        &mut self,
        command_apdu: &[u8],
        response_apdu_buffer: &'buf mut [u8; 264],
    ) -> Result<&'buf [u8], ReaderError> {
        self.sent.borrow_mut().push(command_apdu.to_vec());
        let answer = self.answers.pop_front().expect("no more scripted answers")?;
        response_apdu_buffer[..answer.len()].copy_from_slice(&answer);
        Ok(&response_apdu_buffer[..answer.len()])
    }

    fn reset(self) -> Result<(), ReaderError> {
        Ok(())
    }
}

struct ScriptedReader {
    answers: Vec<Result<Vec<u8>, ReaderError>>,
    connect_error: Option<ReaderError>,
    sent: Rc<RefCell<Vec<Vec<u8>>>>,
}

impl<'a> SmartCardReader for &'a ScriptedReader {
    type SmartCardChannel = ScriptedChannel;

    fn connect(&self) -> Result<ScriptedChannel, ReaderError> {
        if let Some(e) = self.connect_error {
            return Err(e);
        }
        Ok(ScriptedChannel { answers: self.answers.clone().into(), sent: self.sent.clone() })
    }
}

fn reader(answers: Vec<Result<Vec<u8>, ReaderError>>) -> ScriptedReader {
    ScriptedReader { answers, connect_error: None, sent: Rc::new(RefCell::new(vec![])) }
}

fn channel(answers: Vec<Result<Vec<u8>, ReaderError>>) -> ScriptedChannel {
    ScriptedChannel { answers: answers.into(), sent: Rc::new(RefCell::new(vec![])) }
}

fn select_ppse_bytes() -> Vec<u8> {
    let mut v = vec![0x00, 0xA4, 0x04, 0x00, 0x0E];
    v.extend_from_slice(&PPSE_FILE_NAME);
    v.push(0x00);
    v
}

fn select_aid_bytes() -> Vec<u8> {
    let mut v = vec![0x00, 0xA4, 0x04, 0x00, 0x07];
    v.extend_from_slice(&AID);
    v.push(0xFF);
    v
}

#[test]
fn reads_a_card_with_one_application() {
    let r = reader(vec![Ok(ppse_answer()), Ok(select_aid_answer()), Ok(gpo_format_1_answer())]);
    let image = read_emv_card(&r).unwrap();
    assert_eq!(image.directory_definition_file_vec.len(), 1);
    let ddf = &image.directory_definition_file_vec[0];
    assert_eq!(ddf.file_name, PPSE_FILE_NAME.to_vec());
    assert_eq!(ddf.directory_entry_vec.len(), 1);
    let tags = &ddf.directory_entry_vec[0].tag_vec;
    assert_eq!(tags.len(), 2);
    assert_eq!(tags[0].number, 0x4F);
    assert_eq!(tags[0].value, AID.to_vec());
    assert_eq!(tags[1].number, 0x87);
    assert_eq!(tags[1].value, vec![0x01]);
    assert_eq!(image.application_definition_file_vec.len(), 1);
    assert_eq!(image.application_definition_file_vec[0].application_identifier, AID.to_vec());
    assert!(image.application_definition_file_vec[0].application_file_record_vec.is_empty());
    let sent = r.sent.borrow();
    assert_eq!(sent.len(), 3);
    assert_eq!(sent[0], select_ppse_bytes());
    assert_eq!(sent[1], select_aid_bytes());
    assert_eq!(sent[2], vec![0x00, 0xA8, 0x00, 0x00, 0xFF]);
}

#[test]
fn law_applications_are_named_by_directory_entries() {
    let r = reader(vec![Ok(ppse_answer()), Ok(select_aid_answer()), Ok(gpo_format_1_answer())]);
    let image = read_emv_card(&r).unwrap();
    assert!(image.directory_definition_file_vec.len() <= 1);
    for adf in &image.application_definition_file_vec {
        let named = image.directory_definition_file_vec[0]
            .directory_entry_vec
            .iter()
            .any(|e| e.tag_vec.find_tag(0x4F) == Some(&adf.application_identifier));
        assert!(named);
    }
}

#[test]
fn ppse_not_found_gives_an_empty_image() {
    let r = reader(vec![Ok(vec![0x6A, 0x82])]);
    let image = read_emv_card(&r).unwrap();
    assert!(image.directory_definition_file_vec.is_empty());
    assert!(image.application_definition_file_vec.is_empty());
    assert_eq!(r.sent.borrow().len(), 1);
}

#[test]
fn connect_failure_is_mapped() {
    let mut r = reader(vec![]);
    r.connect_error = Some(ReaderError::ReaderNotFound);
    assert!(matches!(read_emv_card(&r), Err(Error::ReaderNotFound)));
    r.connect_error = Some(ReaderError::InternalError);
    assert!(matches!(read_emv_card(&r), Err(Error::SmartCardReaderError)));
}

#[test]
fn exchange_failure_stops_reading() {
    let r = reader(vec![Ok(ppse_answer()), Err(ReaderError::InternalError)]);
    assert!(matches!(read_emv_card(&r), Err(Error::SmartCardReaderError)));
}

#[test]
fn answer_without_status_is_invalid() {
    let r = reader(vec![Ok(vec![0x90])]);
    assert!(matches!(read_emv_card(&r), Err(Error::InvalidApduResponse)));
}

#[test]
fn application_not_selectable_is_skipped() {
    let r = reader(vec![Ok(ppse_answer()), Ok(vec![0x6A, 0x82])]);
    let image = read_emv_card(&r).unwrap();
    assert_eq!(image.directory_definition_file_vec.len(), 1);
    assert!(image.application_definition_file_vec.is_empty());
}

#[test]
fn gpo_refused_is_invalid_apdu_response() {
    let r = reader(vec![Ok(ppse_answer()), Ok(select_aid_answer()), Ok(vec![0x69, 0x85])]);
    assert!(matches!(read_emv_card(&r), Err(Error::InvalidApduResponse)));
}

#[test]
fn gpo_without_descriptor_is_refused() {
    let r = reader(vec![
        Ok(ppse_answer()),
        Ok(select_aid_answer()),
        Ok(vec![0x80, 0x01, 0x19, 0x90, 0x00]),
    ]);
    assert!(matches!(read_emv_card(&r), Err(Error::UnableToConstructApplicationDescriptor)));
}

#[test]
fn ppse_answer_that_is_not_ber_tlv_is_invalid() {
    let r = reader(vec![Ok(vec![0x6F, 0x05, 0x00, 0x90, 0x00])]);
    assert!(matches!(read_emv_card(&r), Err(Error::InvalidApduResponse)));
}

#[test]
fn directory_from_response_without_fci_is_none() {
    let bytes = [0x50, 0x01, 0x41, 0x90, 0x00];
    let resp = ResponseApdu::from_bytes(&bytes).unwrap();
    assert!(directory_definition_file_from_response(vec![0x01], &resp).unwrap().is_none());
}

#[test]
fn directory_from_response_with_primitive_bf0c_is_none() {
    let bytes = [0x6F, 0x05, 0xA5, 0x03, 0x9F, 0x0C, 0x00, 0x90, 0x00];
    let resp = ResponseApdu::from_bytes(&bytes).unwrap();
    assert!(directory_definition_file_from_response(vec![0x01], &resp).unwrap().is_none());
}

#[test]
fn directory_from_response_skips_primitive_entries() {
    // BF0C { 61 { 50 41 }, 9F0A 00, 61 { A5 {}, 4F A1 } }
    let bytes = [
        0x6F, 0x14, 0xA5, 0x12, 0xBF, 0x0C, 0x0F, 0x61, 0x03, 0x50, 0x01, 0x41, 0x9F, 0x0A, 0x00,
        0x61, 0x05, 0xA5, 0x00, 0x4F, 0x01, 0xA1, 0x90, 0x00,
    ];
    let resp = ResponseApdu::from_bytes(&bytes).unwrap();
    let ddf = directory_definition_file_from_response(vec![0x07], &resp).unwrap().unwrap();
    assert_eq!(ddf.file_name, vec![0x07]);
    assert_eq!(ddf.directory_entry_vec.len(), 2);
    assert_eq!(ddf.directory_entry_vec[0].tag_vec.len(), 1);
    assert_eq!(ddf.directory_entry_vec[0].tag_vec[0].number, 0x50);
    assert_eq!(ddf.directory_entry_vec[1].tag_vec.len(), 1);
    assert_eq!(ddf.directory_entry_vec[1].tag_vec[0].number, 0x4F);
    assert_eq!(ddf.directory_entry_vec[1].tag_vec[0].value, vec![0xA1]);
}

#[test]
fn construct_directory_entry_of_primitive_is_none() {
    let v = decode(&[0x4F, 0x01, 0xA0]).unwrap();
    assert!(construct_directory_entry(&v[0]).is_none());
    let v = decode(&[0x61, 0x00]).unwrap();
    assert!(construct_directory_entry(&v[0]).unwrap().tag_vec.is_empty());
}

#[test]
fn read_directory_definition_file_sends_select_with_le_zero() {
    let ch = channel(vec![Ok(ppse_answer())]);
    let sent = ch.sent.clone();
    let mut ex = EmvApduExchanger::new(ch);
    let ddf = read_directory_definition_file(&mut ex, PPSE_FILE_NAME.to_vec()).unwrap().unwrap();
    assert_eq!(ddf.directory_entry_vec.len(), 1);
    assert_eq!(sent.borrow()[0], select_ppse_bytes());
}

#[test]
fn read_application_definition_file_on_format_2() {
    let gpo = vec![
        0x77, 0x0A, 0x82, 0x02, 0x19, 0x80, 0x94, 0x04, 0x08, 0x01, 0x01, 0x00, 0x90, 0x00,
    ];
    let ch = channel(vec![Ok(select_aid_answer()), Ok(gpo)]);
    let mut ex = EmvApduExchanger::new(ch);
    let adf = read_application_definition_file(&mut ex, &AID.to_vec()).unwrap().unwrap();
    assert_eq!(adf.application_identifier, AID.to_vec());
}

#[test]
fn read_application_definition_file_with_invalid_select_answer() {
    let ch = channel(vec![Ok(vec![0x6F, 0x80, 0x90, 0x00])]);
    let mut ex = EmvApduExchanger::new(ch);
    assert!(matches!(
        read_application_definition_file(&mut ex, &AID.to_vec()),
        Err(Error::InvalidApduResponse)
    ));
}

#[test]
fn read_all_skips_entries_without_aid() {
    let ddf = DirectoryDefinitionFile {
        file_name: vec![0x01],
        directory_entry_vec: vec![
            DirectoryEntry { tag_vec: vec![EmvTag { number: 0x50, value: vec![0x41] }] },
            DirectoryEntry { tag_vec: vec![EmvTag { number: 0x4F, value: AID.to_vec() }] },
        ],
    };
    let ch = channel(vec![Ok(select_aid_answer()), Ok(gpo_format_1_answer())]);
    let sent = ch.sent.clone();
    let mut ex = EmvApduExchanger::new(ch);
    let adfs = read_all_application_definition_file(&mut ex, &ddf).unwrap();
    assert_eq!(adfs.len(), 1);
    assert_eq!(sent.borrow().len(), 2);
}

#[test]
fn exchanger_maps_empty_answer() {
    let ch = channel(vec![Ok(vec![])]);
    let mut ex = EmvApduExchanger::new(ch);
    let cmd = emv_reader::smartcard::apdu::command::builders::select(vec![0x01]);
    assert!(matches!(ex.exchange(cmd), Err(Error::InvalidApduResponse)));
}

#[test]
fn build_from_format_1() {
    let v = decode(&[0x80, 0x06, 0x19, 0x80, 0x08, 0x01, 0x01, 0x00]).unwrap();
    let d = build(v).unwrap();
    assert_eq!(d.application_interchange_profile, 0x1980);
    assert_eq!(d.application_file_locator, vec![0x08, 0x01, 0x01, 0x00]);
}

#[test]
fn build_from_format_2() {
    let v = decode(&[0x77, 0x09, 0x82, 0x03, 0x39, 0x00, 0x55, 0x94, 0x02, 0x10, 0x01]).unwrap();
    let d = build(v).unwrap();
    assert_eq!(d.application_interchange_profile, 0x3900);
    assert_eq!(d.application_file_locator, vec![0x10, 0x01]);
}

#[test]
fn build_falls_back_to_format_2_when_format_1_is_too_short() {
    let v = decode(&[
        0x80, 0x01, 0x19, 0x77, 0x07, 0x82, 0x02, 0x12, 0x34, 0x94, 0x01, 0xAA,
    ])
    .unwrap();
    let d = build(v).unwrap();
    assert_eq!(d.application_interchange_profile, 0x1234);
    assert_eq!(d.application_file_locator, vec![0xAA]);
}

#[test]
fn build_fails_without_a_template() {
    assert!(build(decode(&[0x50, 0x01, 0x41]).unwrap()).is_err());
    // Format 2 without an AFL.
    assert!(build(decode(&[0x77, 0x04, 0x82, 0x02, 0x12, 0x34]).unwrap()).is_err());
    // Format 2 with a one-byte AIP.
    assert!(build(decode(&[0x77, 0x06, 0x82, 0x01, 0x12, 0x94, 0x01, 0xAA]).unwrap()).is_err());
}

#[test]
fn emv_tag_lookup_finds_first_value() {
    let tags = vec![
        EmvTag { number: 0x50, value: vec![0x01] },
        EmvTag { number: 0x4F, value: vec![0x02] },
        EmvTag { number: 0x4F, value: vec![0x03] },
    ];
    assert_eq!(tags.find_tag(0x4F), Some(&vec![0x02]));
    assert_eq!(tags.find_tag(0x99), None);
}

#[test]
fn error_mapping_of_reader_errors() {
    let r: Result<u8, ReaderError> = Err(ReaderError::EmptyApduResponse);
    assert!(matches!(r.map_err_to_emv_reader_error(), Err(Error::InvalidApduResponse)));
    let r: Result<u8, ReaderError> = Err(ReaderError::ReaderNotFound);
    assert!(matches!(r.map_err_to_emv_reader_error(), Err(Error::ReaderNotFound)));
    let r: Result<u8, ReaderError> = Err(ReaderError::InternalError);
    assert!(matches!(r.map_err_to_emv_reader_error(), Err(Error::SmartCardReaderError)));
    let r: Result<u8, ReaderError> = Ok(5);
    assert!(matches!(r.map_err_to_emv_reader_error(), Ok(5)));
}

#[test]
fn error_mapping_of_decoder_errors() {
    let r: Result<u8, DecoderError> = Err(DecoderError::UnexpectedEof);
    assert!(matches!(r.map_err_to_emv_reader_error(), Err(Error::InvalidApduResponse)));
    let r: Result<u8, DecoderError> = Err(DecoderError::IndefiniteLengthUnsupported);
    assert!(matches!(r.map_err_to_emv_reader_error(), Err(Error::InvalidApduResponse)));
}

#[test]
fn read_card_image_over_an_exchanger() {
    let ch = channel(vec![Ok(ppse_answer()), Ok(select_aid_answer()), Ok(gpo_format_1_answer())]);
    let sent = ch.sent.clone();
    let mut ex = EmvApduExchanger::new(ch);
    let image = read_card_image(&mut ex).unwrap();
    assert_eq!(image.directory_definition_file_vec.len(), 1);
    assert_eq!(image.application_definition_file_vec.len(), 1);
    assert_eq!(sent.borrow().len(), 3);
}

#[test]
fn exchanger_hands_the_command_bytes_to_the_channel() {
    let ch = channel(vec![Ok(vec![0x01, 0x02, 0x90, 0x00])]);
    let sent = ch.sent.clone();
    let mut ex = EmvApduExchanger::new(ch);
    let cmd = emv_reader::smartcard::apdu::command::builders::select(vec![0x01, 0x02]);
    let expected = cmd.to_bytes();
    let resp = ex.exchange(cmd).unwrap();
    assert_eq!(resp.data, &[0x01, 0x02][..]);
    assert_eq!((resp.sw1, resp.sw2), (0x90, 0x00));
    assert_eq!(*sent.borrow(), vec![expected]);
}

#[test]
fn exchanger_maps_a_channel_failure() {
    let ch = channel(vec![Err(ReaderError::InternalError)]);
    let mut ex = EmvApduExchanger::new(ch);
    let cmd = emv_reader::smartcard::apdu::command::builders::select(vec![0x01]);
    assert!(matches!(ex.exchange(cmd), Err(Error::SmartCardReaderError)));
}

#[test]
fn refused_application_sends_one_select() {
    let ch = channel(vec![Ok(vec![0x6A, 0x82])]);
    let sent = ch.sent.clone();
    let mut ex = EmvApduExchanger::new(ch);
    assert!(matches!(read_application_definition_file(&mut ex, &AID.to_vec()), Ok(None)));
    assert_eq!(*sent.borrow(), vec![select_aid_bytes()]);
}

#[test]
fn refused_gpo_sends_select_then_gpo() {
    let ch = channel(vec![Ok(select_aid_answer()), Ok(vec![0x69, 0x85])]);
    let sent = ch.sent.clone();
    let mut ex = EmvApduExchanger::new(ch);
    assert!(matches!(
        read_application_definition_file(&mut ex, &AID.to_vec()),
        Err(Error::InvalidApduResponse)
    ));
    assert_eq!(*sent.borrow(), vec![select_aid_bytes(), vec![0x00, 0xA8, 0x00, 0x00, 0xFF]]);
}

#[test]
fn refused_ppse_sends_one_select_and_gives_an_empty_image() {
    let r = reader(vec![Ok(vec![0x6A, 0x82])]);
    let sent = r.sent.clone();
    let image = read_emv_card(&r).unwrap();
    assert!(image.directory_definition_file_vec.is_empty());
    assert!(image.application_definition_file_vec.is_empty());
    assert_eq!(*sent.borrow(), vec![select_ppse_bytes()]);
}

#[test]
fn failed_connect_sends_nothing() {
    let mut r = reader(vec![]);
    r.connect_error = Some(ReaderError::EmptyApduResponse);
    let sent = r.sent.clone();
    assert!(matches!(read_emv_card(&r), Err(Error::InvalidApduResponse)));
    assert!(sent.borrow().is_empty());
}

#[test]
fn send_ppse_decodes_the_answer() {
    let r = reader(vec![Ok(ppse_answer())]);
    let sent = r.sent.clone();
    let v = send_ppse(&&r).ok().unwrap();
    assert_eq!(v.len(), 1);
    assert_eq!(v[0].tag, 0x6F);
    assert_eq!(*sent.borrow(), vec![select_ppse_bytes()]);
}

#[test]
fn send_ppse_reports_a_failed_connect() {
    let mut r = reader(vec![]);
    r.connect_error = Some(ReaderError::ReaderNotFound);
    assert!(matches!(
        send_ppse(&&r),
        Err(SendPpseError::SmartCardReader(ReaderError::ReaderNotFound))
    ));
    assert!(r.sent.borrow().is_empty());
}

#[test]
fn send_ppse_reports_an_empty_answer() {
    let r = reader(vec![Ok(vec![0x90])]);
    assert!(matches!(
        send_ppse(&&r),
        Err(SendPpseError::SmartCardReader(ReaderError::EmptyApduResponse))
    ));
}

#[test]
fn send_ppse_reports_an_undecodable_answer() {
    let r = reader(vec![Ok(vec![0x6F, 0x80, 0x90, 0x00])]);
    assert!(matches!(
        send_ppse(&&r),
        Err(SendPpseError::BerTlvDecoder(DecoderError::IndefiniteLengthUnsupported))
    ));
}
