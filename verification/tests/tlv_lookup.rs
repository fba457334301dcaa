use emv_reader::tlv::ber::decoder::decode;
use emv_reader::tlv::ber::lookup::{BerTlvLookup, BerTlvWalker};
use emv_reader::tlv::ber::BerTlv;

fn fci() -> Vec<BerTlv> {
    // 6F { 84 41, A5 { 88 01, BF0C { 61 { 4F A0 } } }, 84 42 }
    decode(&[
        0x6F, 0x14, 0x84, 0x01, 0x41, 0xA5, 0x0C, 0x88, 0x01, 0x01, 0xBF, 0x0C, 0x06, 0x61,
        0x04, 0x4F, 0x02, 0xA0, 0x01, 0x84, 0x01, 0x42,
    ])
    .unwrap()
}

#[test]
fn find_tag_in_a_vec_finds_the_first_match() {
    let v = decode(&[0x50, 0x01, 0x01, 0x50, 0x01, 0x02, 0x4F, 0x00]).unwrap();
    let found = v.find_tag(0x50).unwrap();
    assert_eq!(found.optional_primitive_value().unwrap(), &vec![0x01]);
    assert!(v.find_tag(0x4F).is_some());
    assert!(v.find_tag(0x99).is_none());
}

#[test]
fn find_tag_on_an_object_looks_among_its_children() {
    let v = fci();
    let fci = v.find_tag(0x6F).unwrap();
    assert_eq!(fci.find_tag(0x84).unwrap().optional_primitive_value().unwrap(), &vec![0x41]);
    assert!(fci.find_tag(0x88).is_none());
    let name = fci.find_tag(0x84).unwrap();
    assert!(name.find_tag(0x84).is_none());
}

#[test]
fn walk_follows_the_path() {
    let v = fci();
    let fci = v.find_tag(0x6F).unwrap();
    let bf0c = fci.walk(&vec![0xA5, 0xBF0C]).unwrap();
    assert_eq!(bf0c.tag, 0xBF0C);
    let aid = fci.walk(&vec![0xA5, 0xBF0C, 0x61, 0x4F]).unwrap();
    assert_eq!(aid.optional_primitive_value().unwrap(), &vec![0xA0, 0x01]);
}

#[test]
fn walk_with_an_empty_path_finds_nothing() {
    let v = fci();
    assert!(v[0].walk(&vec![]).is_none());
}

#[test]
fn walk_fails_on_a_missing_step_or_a_primitive() {
    let v = fci();
    assert!(v[0].walk(&vec![0xA5, 0x99]).is_none());
    assert!(v[0].walk(&vec![0x84, 0x00]).is_none());
}

#[test]
fn law_walk_concat_on_values() {
    let v = fci();
    let whole = v[0].walk(&vec![0xA5, 0xBF0C, 0x61]).unwrap();
    let first = v[0].walk(&vec![0xA5]).unwrap();
    let then = first.walk(&vec![0xBF0C, 0x61]).unwrap();
    assert_eq!(whole.tag, then.tag);
    assert_eq!(whole.length, then.length);
    assert!(std::ptr::eq(whole, then));
}

#[test]
fn law_walk_single_is_find_tag() {
    let v = fci();
    let a = v[0].walk(&vec![0xA5]).unwrap();
    let b = v[0].find_tag(0xA5).unwrap();
    assert!(std::ptr::eq(a, b));
    assert!(v[0].walk(&vec![0x77]).is_none() && v[0].find_tag(0x77).is_none());
}

#[test]
fn law_find_first_on_values() {
    let v = decode(&[0x50, 0x01, 0x01, 0x4F, 0x00, 0x50, 0x01, 0x02]).unwrap();
    let found = v.find_tag(0x50).unwrap();
    assert!(std::ptr::eq(found, &v[0]));
    assert!(v.iter().all(|t| t.tag != 0x77) && v.find_tag(0x77).is_none());
}
