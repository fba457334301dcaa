use emv_reader::tlv::ber::decoder::decode;
use emv_reader::tlv::ber::decoder::error::Error;
use emv_reader::tlv::ber::{BerTlv, PrimitiveOrConstructedValue};

/// A readable rendering of a decoded tree, for comparisons.
fn render(tlvs: &[BerTlv]) -> String {
    let mut out = String::new();
    for t in tlvs {
        match &t.value {
            PrimitiveOrConstructedValue::Primitive(v) => {
                out.push_str(&format!("{:X}/{}={:02X?};", t.tag, t.length, v));
            }
            PrimitiveOrConstructedValue::Constructed(c) => {
                out.push_str(&format!("{:X}/{}[{}];", t.tag, t.length, render(c)));
            }
        }
    }
    out
}

fn decode_err(input: &[u8]) -> Error {
    match decode(input) {
        Ok(v) => panic!("expected an error, got {}", render(&v)),
        Err(e) => e,
    }
}

#[test]
fn empty_input_decodes_to_nothing() {
    let v = decode(&[]).unwrap();
    assert!(v.is_empty());
}

#[test]
fn single_primitive_object() {
    let v = decode(&[0x5A, 0x02, 0x12, 0x34]).unwrap();
    assert_eq!(v.len(), 1);
    assert_eq!(v[0].tag, 0x5A);
    assert_eq!(v[0].length, 2);
    assert_eq!(v[0].optional_primitive_value().unwrap(), &vec![0x12, 0x34]);
    assert!(v[0].optional_constructed_value().is_none());
}

#[test]
fn two_byte_tag_in_high_tag_number_form() {
    let v = decode(&[0x9F, 0x38, 0x03, 0x9F, 0x66, 0x04]).unwrap();
    assert_eq!(render(&v), "9F38/3=[9F, 66, 04];");
}

#[test]
fn three_byte_tag() {
    let v = decode(&[0xDF, 0x81, 0x01, 0x01, 0xAA]).unwrap();
    assert_eq!(v[0].tag, 0xDF8101);
}

#[test]
fn tag_of_five_bytes_keeps_the_low_32_bits() {
    let v = decode(&[0x1F, 0x81, 0x82, 0x83, 0x04, 0x00]).unwrap();
    assert_eq!(v[0].tag, 0x8182_8304);
    assert_eq!(v[0].length, 0);
}

#[test]
fn constructed_object_is_decoded_recursively() {
    let input = [0x6F, 0x07, 0x84, 0x01, 0x41, 0xA5, 0x02, 0x88, 0x00];
    let v = decode(&input).unwrap();
    assert_eq!(render(&v), "6F/7[84/1=[41];A5/2[88/0=[];];];");
    assert!(v[0].optional_primitive_value().is_none());
    assert_eq!(v[0].optional_constructed_value().unwrap().len(), 2);
}

#[test]
fn sequence_of_objects() {
    let v = decode(&[0x4F, 0x01, 0xA0, 0x50, 0x02, 0x56, 0x49]).unwrap();
    assert_eq!(render(&v), "4F/1=[A0];50/2=[56, 49];");
}

#[test]
fn long_form_length() {
    let mut input = vec![0x04, 0x81, 0x80];
    input.extend(std::iter::repeat(0x11).take(0x80));
    let v = decode(&input).unwrap();
    assert_eq!(v[0].length, 0x80);
    assert_eq!(v[0].optional_primitive_value().unwrap().len(), 0x80);
}

#[test]
fn two_byte_long_form_length() {
    let mut input = vec![0x04, 0x82, 0x01, 0x00];
    input.extend(std::iter::repeat(0x22).take(0x100));
    let v = decode(&input).unwrap();
    assert_eq!(v[0].length, 0x100);
}

#[test]
fn indefinite_length_is_refused() {
    assert_eq!(decode_err(&[0x30, 0x80, 0x00, 0x00]), Error::IndefiniteLengthUnsupported);
}

#[test]
fn truncated_value_is_unexpected_eof() {
    assert_eq!(decode_err(&[0x5A, 0x03, 0x12, 0x34]), Error::UnexpectedEof);
}

#[test]
fn missing_length_is_unexpected_eof() {
    assert_eq!(decode_err(&[0x5A]), Error::UnexpectedEof);
}

#[test]
fn unfinished_high_tag_is_unexpected_eof() {
    assert_eq!(decode_err(&[0x9F, 0x81]), Error::UnexpectedEof);
}

#[test]
fn missing_length_bytes_is_unexpected_eof() {
    assert_eq!(decode_err(&[0x5A, 0x82, 0x01]), Error::UnexpectedEof);
}

#[test]
fn error_inside_constructed_value_is_reported() {
    // A5 holds 2 bytes: 88 05, whose value runs past the end of A5.
    assert_eq!(decode_err(&[0xA5, 0x02, 0x88, 0x05, 0x00, 0x00, 0x00]), Error::UnexpectedEof);
    assert_eq!(decode_err(&[0xA5, 0x02, 0x88, 0x80]), Error::IndefiniteLengthUnsupported);
}

#[test]
fn error_in_a_later_object_is_reported() {
    assert_eq!(decode_err(&[0x5A, 0x01, 0x00, 0x5A, 0x80]), Error::IndefiniteLengthUnsupported);
}

#[test]
fn huge_declared_length_is_unexpected_eof() {
    // Eight length bytes of 0xFF: the declared length cannot fit in the input.
    let input = [0x04, 0x88, 0xFF, 0xFF, 0xFF, 0xFF, 0xFF, 0xFF, 0xFF, 0xFF];
    assert_eq!(decode_err(&input), Error::UnexpectedEof);
}

#[test]
fn length_bytes_beyond_usize_keep_the_low_bits() {
    // Nine length bytes spelling 2^64: only the low 64 bits are kept, i.e. 0.
    let input = [0x04, 0x89, 0x01, 0, 0, 0, 0, 0, 0, 0, 0];
    let v = decode(&input).unwrap();
    assert_eq!(v[0].length, 0);
}

#[test]
fn law_decode_concat_on_values() {
    let a = [0x6F, 0x03, 0x84, 0x01, 0x41];
    let b = [0x9F, 0x38, 0x00, 0x50, 0x01, 0x42];
    let mut ab = a.to_vec();
    ab.extend_from_slice(&b);
    let both = render(&decode(&ab).unwrap());
    let separate = render(&decode(&a).unwrap()) + &render(&decode(&b).unwrap());
    assert_eq!(both, separate);
    // When the second part fails, the whole fails the same way.
    let mut bad = a.to_vec();
    bad.extend_from_slice(&[0x50, 0x80]);
    assert_eq!(decode_err(&bad), Error::IndefiniteLengthUnsupported);
}

#[test]
fn law_primitive_values_have_their_declared_length() {
    let input = [0x6F, 0x08, 0x84, 0x02, 0x41, 0x42, 0xA5, 0x02, 0x88, 0x00];
    fn check(tlvs: &[BerTlv]) {
        for t in tlvs {
            match &t.value {
                PrimitiveOrConstructedValue::Primitive(v) => assert_eq!(v.len(), t.length),
                PrimitiveOrConstructedValue::Constructed(c) => check(c),
            }
        }
    }
    check(&decode(&input).unwrap());
}

#[test]
fn decode_one_reports_the_bytes_taken() {
    let (t, n) = emv_reader::tlv::ber::decoder::decode_one(&[0x5A, 0x01, 0x77, 0x5A, 0x00]).unwrap();
    assert_eq!(n, 3);
    assert_eq!(t.tag, 0x5A);
    assert!(emv_reader::tlv::ber::decoder::decode_one(&[]).is_err());
}

#[test]
fn clone_is_a_deep_copy() {
    let v = decode(&[0x6F, 0x05, 0x84, 0x01, 0x41, 0xA5, 0x00]).unwrap();
    let c = v[0].clone();
    assert_eq!(render(&[c]), render(&v));
}

#[test]
fn law_decode_one_prefix_on_values() {
    let input: [u8; 7] = [0x6F, 0x03, 0x84, 0x01, 0x41, 0xFF, 0xFF];
    let (t, n) = emv_reader::tlv::ber::decoder::decode_one(&input).unwrap();
    assert_eq!(n, 5);
    assert!(2 <= n && n <= input.len());
    assert!(t.length <= n - 2);
    for rest in [&[][..], &[0x00][..], &[0x9F, 0x38, 0x81][..]] {
        let mut other = input[..n].to_vec();
        other.extend_from_slice(rest);
        let (t2, n2) = emv_reader::tlv::ber::decoder::decode_one(&other).unwrap();
        assert_eq!(n2, n);
        assert_eq!(render(&[t2]), render(&[t.clone()]));
    }
}
