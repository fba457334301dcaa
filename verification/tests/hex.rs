use emv_reader::hex::{ToHexString, ToHexStringBorrowed};

#[test]
fn vec_to_hex_is_upper_case_two_digits_per_byte() {
    let v: Vec<u8> = vec![0x00, 0x0A, 0xBF, 0xFF, 0x90];
    assert_eq!(ToHexStringBorrowed::to_hex_string(&v), "000ABFFF90");
}

#[test]
fn slice_to_hex() {
    let s: &[u8] = &[0x12, 0x34, 0xAB];
    assert_eq!(ToHexStringBorrowed::to_hex_string(s), "1234AB");
}

#[test]
fn empty_to_hex_is_empty() {
    let v: Vec<u8> = vec![];
    assert_eq!(ToHexStringBorrowed::to_hex_string(&v), "");
}

#[test]
fn iter_to_hex() {
    let v: Vec<u8> = vec![0xDE, 0xAD, 0x01];
    assert_eq!(ToHexString::to_hex_string(v.iter()), "DEAD01");
}

#[test]
fn partly_consumed_iter_to_hex_gives_the_rest() {
    let v: Vec<u8> = vec![0x0A, 0xFF, 0x00];
    let mut it = v.iter();
    it.next();
    assert_eq!(ToHexString::to_hex_string(it), "FF00");
}

#[test]
fn law_hex_concat_on_values() {
    let a: Vec<u8> = vec![0x01, 0xF0];
    let b: Vec<u8> = vec![0x9C];
    let mut ab = a.clone();
    ab.extend_from_slice(&b);
    assert_eq!(
        ToHexStringBorrowed::to_hex_string(&ab),
        ToHexStringBorrowed::to_hex_string(&a) + &ToHexStringBorrowed::to_hex_string(&b)
    );
}

#[test]
fn law_hex_shape_on_values() {
    let v: Vec<u8> = (0u8..=255).collect();
    let s = ToHexStringBorrowed::to_hex_string(&v);
    assert_eq!(s.len(), 512);
    assert!(s.chars().all(|c| c.is_ascii_digit() || ('A'..='F').contains(&c)));
}

#[test]
fn law_hex_round_trip_on_values() {
    let v: Vec<u8> = vec![0x0A, 0xFF, 0x00, 0x7B];
    let s = ToHexStringBorrowed::to_hex_string(&v);
    assert_eq!(s, "0AFF007B");
    for (i, b) in v.iter().enumerate() {
        assert_eq!(u8::from_str_radix(&s[2 * i..2 * i + 2], 16), Ok(*b));
    }
}
