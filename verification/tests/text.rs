use emv_reader::emv::card::image::EmvTag;
use emv_reader::text::{decimal_text, prefixed_hex_text, quoted_hex_text};
use emv_reader::tlv::ber::decoder::decode;
use emv_reader::tlv::ber::tlv_list_log_text;

#[test]
fn decimal_text_has_no_leading_zero() {
    assert_eq!(decimal_text(0), "0");
    assert_eq!(decimal_text(7), "7");
    assert_eq!(decimal_text(10), "10");
    assert_eq!(decimal_text(4096), "4096");
    assert_eq!(decimal_text(u64::MAX), u64::MAX.to_string());
}

#[test]
fn prefixed_hex_text_matches_alternate_upper_hex() {
    for n in [0u64, 9, 0x5A, 0xBF0C, 0x9F38, 0xFFFF_FFFF] {
        assert_eq!(prefixed_hex_text(n), format!("{:#X}", n));
    }
}

#[test]
fn quoted_hex_text_is_the_debug_of_the_hex_string() {
    assert_eq!(quoted_hex_text(&[0x0A, 0xFF]), "\"0AFF\"");
    assert_eq!(quoted_hex_text(&[]), "\"\"");
}

#[test]
fn tlv_log_text_of_a_tree() {
    let v = decode(&[0x6F, 0x05, 0x84, 0x01, 0x41, 0xA5, 0x00]).unwrap();
    assert_eq!(
        tlv_list_log_text(&v),
        "[BerTlv { tag: 0x6F, length: 5, value: [BerTlv { tag: 0x84, length: 1, value: \"41\" }, \
         BerTlv { tag: 0xA5, length: 0, value: [] }] }]"
    );
    assert_eq!(
        v[0].to_log_text(),
        "BerTlv { tag: 0x6F, length: 5, value: [BerTlv { tag: 0x84, length: 1, value: \"41\" }, \
         BerTlv { tag: 0xA5, length: 0, value: [] }] }"
    );
}

#[test]
fn tlv_log_text_of_an_empty_list() {
    assert_eq!(tlv_list_log_text(&Vec::new()), "[]");
}

#[test]
fn emv_tag_log_text() {
    let t = EmvTag { number: 0x9F38, value: vec![0x9F, 0x66, 0x04] };
    assert_eq!(t.to_log_text(), "EmvTag(tag: 0x9F38, value: \"9F6604\")");
}
