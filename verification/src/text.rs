use vstd::prelude::*;
use vstd::string::StringExecFns;
use crate::hex::{hex_digit, hex_digit_str, hex_of_slice, spec_hex_upper};

verus! {

/// The decimal digits of `n`, most significant first, with no leading zero.
pub open spec fn spec_decimal(n: nat) -> Seq<char>
    decreases n,
{
    if n < 10 {
        seq![hex_digit(n as int)]
    } else {
        spec_decimal(n / 10) + seq![hex_digit(n as int % 10)]
    }
}

/// The upper-case hexadecimal digits of `n`, most significant first, with no
/// leading zero.
pub open spec fn spec_hex_number(n: nat) -> Seq<char>
    decreases n,
{
    if n < 16 {
        seq![hex_digit(n as int)]
    } else {
        spec_hex_number(n / 16) + seq![hex_digit(n as int % 16)]
    }
}

/// `n` in decimal.
pub fn decimal_text(n: u64) -> (r: String)
    ensures
        r@ == spec_decimal(n as nat),
    decreases n,
{
    if n < 10 {
        String::from_str(hex_digit_str(n as u8))
    } else {
        let mut out = decimal_text(n / 10);
        out.append(hex_digit_str((n % 10) as u8));
        out
    }
}

/// `n` in upper-case hexadecimal after a `0x` prefix.
pub fn prefixed_hex_text(n: u64) -> (r: String)
    ensures
        r@ == "0x"@ + spec_hex_number(n as nat),
{
    let mut out = String::from_str("0x");
    let digits = hex_number_text(n);
    out.append(digits.as_str());
    out
}

fn hex_number_text(n: u64) -> (r: String)
    ensures
        r@ == spec_hex_number(n as nat),
    decreases n,
{
    if n < 16 {
        String::from_str(hex_digit_str(n as u8))
    } else {
        let mut out = hex_number_text(n / 16);
        out.append(hex_digit_str((n % 16) as u8));
        out
    }
}

/// The bytes as upper-case hexadecimal text between double quotes.
pub fn quoted_hex_text(bytes: &[u8]) -> (r: String)
    ensures
        r@ == "\""@ + spec_hex_upper(bytes@) + "\""@,
{
    let mut out = String::from_str("\"");
    let hex = hex_of_slice(bytes);
    out.append(hex.as_str());
    out.append("\"");
    out
}

} // verus!
