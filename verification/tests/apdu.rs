use emv_reader::smartcard::apdu::command::builders::emv::get_processing_options;
use emv_reader::smartcard::apdu::command::builders::inter_industry::{read_record, select};
use emv_reader::smartcard::apdu::command::CommandApdu;
use emv_reader::smartcard::apdu::response::ResponseApdu;
use emv_reader::smartcard::reader::error::Error;
use emv_reader::smartcard::reader::response_apdu_from_raw;

#[test]
fn select_bytes_with_le_zero() {
    let c = select(vec![0x32, 0x50]).with_le(0x00);
    assert_eq!(c.to_bytes(), vec![0x00, 0xA4, 0x04, 0x00, 0x02, 0x32, 0x50, 0x00]);
}

#[test]
fn select_defaults_to_le_ff() {
    let c = select(vec![0xA0]);
    assert_eq!(c.expected_length, Some(0xFF));
    assert_eq!(c.to_bytes(), vec![0x00, 0xA4, 0x04, 0x00, 0x01, 0xA0, 0xFF]);
}

#[test]
fn command_without_data_or_le() {
    let c = select(vec![]).with_no_le();
    assert_eq!(c.to_bytes(), vec![0x00, 0xA4, 0x04, 0x00]);
}

#[test]
fn get_processing_options_without_data() {
    let c = get_processing_options(vec![]);
    assert_eq!(c.to_bytes(), vec![0x00, 0xA8, 0x00, 0x00, 0xFF]);
}

#[test]
fn get_processing_options_with_data() {
    let c = get_processing_options(vec![0x83, 0x00]);
    assert_eq!(c.to_bytes(), vec![0x00, 0xA8, 0x00, 0x00, 0x02, 0x83, 0x00, 0xFF]);
}

#[test]
fn read_record_puts_sfi_in_p2() {
    let c = read_record(1, 2);
    assert_eq!(c.to_bytes(), vec![0x00, 0xB2, 0x02, 0x0C, 0xFF]);
    let c = read_record(0x1F, 7);
    assert_eq!(c.parameter_2, 0xFC);
    // Bits above the fifth of the SFI are shifted out.
    let c = read_record(0x21, 1);
    assert_eq!(c.parameter_2, 0x0C);
}

#[test]
fn lc_is_the_data_length_modulo_256() {
    let c = select(vec![0x55; 300]).with_no_le();
    let bytes = c.to_bytes();
    assert_eq!(bytes.len(), 5 + 300);
    assert_eq!(bytes[4], (300 % 256) as u8);
}

#[test]
fn with_le_replaces_an_earlier_le() {
    let c: CommandApdu = select(vec![0x01]).with_le(0x10).with_le(0x20);
    assert_eq!(c.expected_length, Some(0x20));
    let c = c.with_no_le();
    assert_eq!(c.expected_length, None);
    assert_eq!(c.data, vec![0x01]);
}

#[test]
fn response_splits_data_and_status() {
    let bytes = [0x6F, 0x00, 0x90, 0x00];
    let r = ResponseApdu::from_bytes(&bytes).unwrap();
    assert_eq!(r.data, &[0x6F, 0x00]);
    assert_eq!(r.sw1, 0x90);
    assert_eq!(r.sw2, 0x00);
    assert!(r.is_ok());
    assert_eq!(r.status_word(), 0x9000);
    assert_eq!(r.expect_ok().unwrap(), &[0x6F, 0x00]);
}

#[test]
fn response_of_status_only() {
    let bytes = [0x6A, 0x82];
    let r = ResponseApdu::from_bytes(&bytes).unwrap();
    assert!(r.data.is_empty());
    assert_eq!(r.status_word(), 0x6A82);
    assert!(!r.is_ok());
    assert!(r.expect_ok().is_err());
}

#[test]
fn response_shorter_than_two_bytes_is_refused() {
    assert!(ResponseApdu::from_bytes(&[]).is_err());
    assert!(ResponseApdu::from_bytes(&[0x90]).is_err());
}

#[test]
fn law_is_ok_iff_status_word_9000() {
    for (sw1, sw2) in [(0x90u8, 0x00u8), (0x90, 0x01), (0x91, 0x00), (0x61, 0x10)] {
        let bytes = [sw1, sw2];
        let r = ResponseApdu::from_bytes(&bytes).unwrap();
        assert_eq!(r.is_ok(), r.status_word() == 0x9000);
    }
}

#[test]
fn response_from_raw_answer() {
    let bytes = [0x01, 0x02, 0x90, 0x00];
    let r = response_apdu_from_raw(Ok(&bytes)).unwrap();
    assert_eq!(r.data, &[0x01, 0x02]);
    assert!(matches!(response_apdu_from_raw(Ok(&[0x90])), Err(Error::EmptyApduResponse)));
    assert!(matches!(response_apdu_from_raw(Err(Error::ReaderNotFound)), Err(Error::ReaderNotFound)));
}

#[test]
fn law_command_layout_on_values() {
    let data = vec![0xAB; 200];
    let bytes = select(data.clone()).with_le(0x00).to_bytes();
    assert_eq!(&bytes[..4], &[0x00, 0xA4, 0x04, 0x00]);
    assert_eq!(bytes.len(), 4 + 1 + 200 + 1);
    assert_eq!(bytes[4] as usize, data.len());
    assert_eq!(&bytes[5..205], &data[..]);
    assert_eq!(*bytes.last().unwrap(), 0x00);
}
