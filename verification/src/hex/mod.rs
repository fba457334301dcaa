use vstd::prelude::*;
use vstd::string::StringExecFns;
use std::slice::Iter;

verus! {

/// The upper-case hexadecimal digit for `n` (0..=15).
pub open spec fn hex_digit(n: int) -> char {
    if n < 10 {
        ('0' as int + n) as char
    } else {
        ('A' as int + n - 10) as char
    }
}

/// Two upper-case hexadecimal digits per byte, most significant first.
pub open spec fn spec_hex_upper(bytes: Seq<u8>) -> Seq<char>
    decreases bytes.len(),
{
    if bytes.len() == 0 {
        Seq::empty()
    } else {
        spec_hex_upper(bytes.drop_last()) + seq![
            hex_digit(bytes.last() as int / 16),
            hex_digit(bytes.last() as int % 16),
        ]
    }
}

/// Law: the hexadecimal text of two byte strings written one after the other
/// is the text of the first followed by the text of the second.
pub proof fn law_hex_concat(a: Seq<u8>, b: Seq<u8>)
    ensures
        spec_hex_upper(a + b) == spec_hex_upper(a) + spec_hex_upper(b),
    decreases b.len(),
{
    if b.len() == 0 {
        assert(a + b =~= a);
        assert(spec_hex_upper(a) + spec_hex_upper(b) =~= spec_hex_upper(a));
    } else {
        assert((a + b).drop_last() =~= a + b.drop_last());
        assert((a + b).last() == b.last());
        law_hex_concat(a, b.drop_last());
        assert(spec_hex_upper(a) + spec_hex_upper(b) =~= spec_hex_upper(a) + spec_hex_upper(
            b.drop_last(),
        ) + seq![hex_digit(b.last() as int / 16), hex_digit(b.last() as int % 16)]);
    }
}

/// Law: the text has two characters per byte, each an upper-case
/// hexadecimal digit.
pub proof fn law_hex_shape(bytes: Seq<u8>)
    ensures
        spec_hex_upper(bytes).len() == 2 * bytes.len(),
        forall|i: int|
            0 <= i < spec_hex_upper(bytes).len() ==> {
                let c = #[trigger] spec_hex_upper(bytes)[i];
                ('0' <= c <= '9') || ('A' <= c <= 'F')
            },
    decreases bytes.len(),
{
    if bytes.len() > 0 {
        law_hex_shape(bytes.drop_last());
        let prefix = spec_hex_upper(bytes.drop_last());
        let b = bytes.last();
        assert forall|i: int| 0 <= i < spec_hex_upper(bytes).len() implies {
            let c = #[trigger] spec_hex_upper(bytes)[i];
            ('0' <= c <= '9') || ('A' <= c <= 'F')
        } by {
            if i >= prefix.len() {
                let n = if i == prefix.len() {
                    b as int / 16
                } else {
                    b as int % 16
                };
                assert(0 <= n < 16);
            } else {
                assert(spec_hex_upper(bytes)[i] == prefix[i]);
            }
        }
    }
}

/// The value of the hexadecimal digit `c` (upper or lower case), or `None`
/// for a character that is no hexadecimal digit.
pub open spec fn hex_value(c: char) -> Option<int> {
    if '0' <= c <= '9' {
        Some(c as int - '0' as int)
    } else if 'A' <= c <= 'F' {
        Some(c as int - 'A' as int + 10)
    } else if 'a' <= c <= 'f' {
        Some(c as int - 'a' as int + 10)
    } else {
        None
    }
}

/// The number that the two hexadecimal digits `high` and `low` spell, or
/// `None` if either is no hexadecimal digit.
pub open spec fn hex_pair_value(high: char, low: char) -> Option<int> {
    match (hex_value(high), hex_value(low)) {
        (Some(h), Some(l)) => Some(h * 16 + l),
        _ => None,
    }
}

/// Law: each pair of characters of the text reads back, as a two-digit
/// hexadecimal number, as the byte that it was written for.
pub proof fn law_hex_round_trip(bytes: Seq<u8>)
    ensures
        spec_hex_upper(bytes).len() == 2 * bytes.len(),
        forall|i: int|
            0 <= i < bytes.len() ==> hex_pair_value(
                #[trigger] spec_hex_upper(bytes)[2 * i],
                spec_hex_upper(bytes)[2 * i + 1],
            ) == Some(bytes[i] as int),
    decreases bytes.len(),
{
    law_hex_shape(bytes);
    if bytes.len() > 0 {
        let prefix = bytes.drop_last();
        law_hex_round_trip(prefix);
        let text = spec_hex_upper(bytes);
        let b = bytes.last();
        assert forall|i: int| 0 <= i < bytes.len() implies hex_pair_value(
            #[trigger] text[2 * i],
            text[2 * i + 1],
        ) == Some(bytes[i] as int) by {
            if i < prefix.len() {
                assert(text[2 * i] == spec_hex_upper(prefix)[2 * i]);
                assert(text[2 * i + 1] == spec_hex_upper(prefix)[2 * i + 1]);
                assert(bytes[i] == prefix[i]);
            } else {
                assert(i == prefix.len());
                assert(text[2 * i] == hex_digit(b as int / 16));
                assert(text[2 * i + 1] == hex_digit(b as int % 16));
                assert(bytes[i] == b);
            }
        }
    }
}

/// The one-character string of the hexadecimal digit `n`.
pub(crate) fn hex_digit_str(n: u8) -> (r: &'static str)
    requires
        n < 16,
    ensures
        r@ == seq![hex_digit(n as int)],
{
    proof {
        reveal_strlit("0");
        reveal_strlit("1");
        reveal_strlit("2");
        reveal_strlit("3");
        reveal_strlit("4");
        reveal_strlit("5");
        reveal_strlit("6");
        reveal_strlit("7");
        reveal_strlit("8");
        reveal_strlit("9");
        reveal_strlit("A");
        reveal_strlit("B");
        reveal_strlit("C");
        reveal_strlit("D");
        reveal_strlit("E");
        reveal_strlit("F");
    }
    match n {
        0 => "0",
        1 => "1",
        2 => "2",
        3 => "3",
        4 => "4",
        5 => "5",
        6 => "6",
        7 => "7",
        8 => "8",
        9 => "9",
        10 => "A",
        11 => "B",
        12 => "C",
        13 => "D",
        14 => "E",
        _ => "F",
    }
}

/// Upper-case hexadecimal text of the bytes of `bytes`.
pub(crate) fn hex_of_slice(bytes: &[u8]) -> (r: String)
    ensures
        r@ == spec_hex_upper(bytes@),
{
    let mut out = String::new();
    let mut i: usize = 0;
    while i < bytes.len()
        invariant
            0 <= i <= bytes@.len(),
            out@ == spec_hex_upper(bytes@.take(i as int)),
        decreases bytes@.len() - i,
    {
        let b = bytes[i];
        out.append(hex_digit_str(b / 16));
        out.append(hex_digit_str(b % 16));
        assert(bytes@.take(i + 1).drop_last() =~= bytes@.take(i as int));
        i += 1;
    }
    assert(bytes@.take(bytes@.len() as int) =~= bytes@);
    out
}

pub trait ToHexString {
    fn to_hex_string(self) -> String;
}

pub trait ToHexStringBorrowed {
    fn to_hex_string(&self) -> String;
}

/// `Iter::as_slice` of std: the iterator's items that are still to come,
/// as a slice of the data it walks. What this states: the slice holds
/// exactly the items that the iterator will still yield, in order.
pub assume_specification<'a, T>[ Iter::<'a, T>::as_slice ](iter: &Iter<'a, T>) -> (r: &'a [T])
    ensures
        r@ == vstd::std_specs::iter::IteratorSpec::remaining(iter).unref(),
;

impl ToHexString for Iter<'_, u8> {
    fn to_hex_string(self) -> (r: String)
        ensures
            r@ == spec_hex_upper(vstd::std_specs::iter::IteratorSpec::remaining(&self).unref()),
    {
        hex_of_slice(self.as_slice())
    }
}

impl ToHexStringBorrowed for Vec<u8> {
    fn to_hex_string(&self) -> (r: String)
        ensures
            r@ == spec_hex_upper(self@),
    {
        hex_of_slice(self.as_slice())
    }
}

impl ToHexStringBorrowed for [u8] {
    fn to_hex_string(&self) -> (r: String)
        ensures
            r@ == spec_hex_upper(self@),
    {
        hex_of_slice(self)
    }
}

} // verus!
