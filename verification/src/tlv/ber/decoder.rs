use vstd::prelude::*;
use crate::tlv::ber::{
    BerTlv, PrimitiveOrConstructedValue, TlvModel, TlvValueModel, tlv_length_consistent, tlv_model,
    tlv_seq_model,
};

pub mod error;

verus! {

// ---------------------------------------------------------------------------
// The format, as spec functions on bytes.
// ---------------------------------------------------------------------------

/// The big-endian number spelled by `bytes`, kept modulo `modulus` after
/// each byte (that is: the low bits that fit in the target integer type).
pub open spec fn be_value(bytes: Seq<u8>, modulus: int) -> int
    decreases bytes.len(),
{
    if bytes.len() == 0 {
        0
    } else {
        (be_value(bytes.drop_last(), modulus) * 256 + bytes.last()) % modulus
    }
}

/// Number of distinct values of `usize`.
pub open spec fn usize_modulus() -> int {
    usize::MAX as int + 1
}

/// Number of distinct values of `u32`.
pub open spec fn u32_modulus() -> int {
    0x1_0000_0000
}

/// In a high-tag-number tag, the subsequent tag bytes run up to and including
/// the first byte (from index `from` on) whose bit 8 is clear. This is the
/// index just past that byte, or `None` if the input ends first.
pub open spec fn tag_continuation_end(s: Seq<u8>, from: int) -> Option<int>
    decreases s.len() - from,
{
    if from < 0 || from >= s.len() {
        None
    } else if s[from] < 0x80 {
        Some(from + 1)
    } else {
        tag_continuation_end(s, from + 1)
    }
}

/// Number of bytes of the tag field at the start of a non-empty `s`:
/// one, unless bits 5..1 of the first byte are all set.
pub open spec fn tag_field_len(s: Seq<u8>) -> Option<int> {
    if s[0] % 32 == 31 {
        tag_continuation_end(s, 1)
    } else {
        Some(1)
    }
}

/// Bit 6 of the first tag byte marks a constructed data object.
pub open spec fn is_constructed_tag_byte(b: u8) -> bool {
    (b / 32) % 2 == 1
}

/// The decoded header of the data object at the start of some input.
pub struct Header {
    pub tag: u32,
    pub constructed: bool,
    /// Bytes taken by the tag and the length fields.
    pub header_len: int,
    /// The declared length of the value.
    pub length: usize,
}

/// The length field that starts at index `at`: the declared length and the
/// index just past the field.
pub open spec fn spec_length_field(s: Seq<u8>, at: int) -> Result<(usize, int), error::Error> {
    if at >= s.len() {
        Err(error::Error::UnexpectedEof)
    } else if s[at] < 0x80 {
        Ok((s[at] as usize, at + 1))
    } else {
        let n = s[at] - 0x80;
        if n == 0 {
            Err(error::Error::IndefiniteLengthUnsupported)
        } else if at + 1 + n > s.len() {
            Err(error::Error::UnexpectedEof)
        } else {
            Ok((be_value(s.subrange(at + 1, at + 1 + n), usize_modulus()) as usize, at + 1 + n))
        }
    }
}

/// The header of the data object at the start of `s`, and whether the
/// value that it declares lies within `s`.
pub open spec fn spec_header(s: Seq<u8>) -> Result<Header, error::Error> {
    if s.len() == 0 {
        Err(error::Error::UnexpectedEof)
    } else {
        match tag_field_len(s) {
            None => Err(error::Error::UnexpectedEof),
            Some(t) => match spec_length_field(s, t) {
                Err(e) => Err(e),
                Ok((length, header_len)) => {
                    if header_len + length > s.len() {
                        Err(error::Error::UnexpectedEof)
                    } else {
                        Ok(
                            Header {
                                tag: be_value(s.take(t), u32_modulus()) as u32,
                                constructed: is_constructed_tag_byte(s[0]),
                                header_len,
                                length,
                            },
                        )
                    }
                },
            },
        }
    }
}

/// The data object whose header `h` starts `s`.
pub open spec fn spec_element(s: Seq<u8>, h: Header) -> Result<TlvModel, error::Error>
    decreases s.len(), 0int,
{
    let value = s.subrange(h.header_len, h.header_len + h.length);
    if h.constructed {
        if 0 < h.header_len && h.header_len + h.length <= s.len() {
            match spec_decode(value) {
                Err(e) => Err(e),
                Ok(children) => Ok(
                    TlvModel {
                        tag: h.tag,
                        length: h.length,
                        value: TlvValueModel::Constructed(children),
                    },
                ),
            }
        } else {
            Err(error::Error::UnexpectedEof)
        }
    } else {
        Ok(TlvModel { tag: h.tag, length: h.length, value: TlvValueModel::Primitive(value) })
    }
}

/// The sequence of data objects that `s` encodes, one after the other.
pub open spec fn spec_decode(s: Seq<u8>) -> Result<Seq<TlvModel>, error::Error>
    decreases s.len(), 1int,
{
    if s.len() == 0 {
        Ok(Seq::empty())
    } else {
        match spec_header(s) {
            Err(e) => Err(e),
            Ok(h) => match spec_element(s, h) {
                Err(e) => Err(e),
                Ok(t) => {
                    let n = h.header_len + h.length;
                    if 0 < n <= s.len() {
                        prepend_ok(seq![t], spec_decode(s.skip(n)))
                    } else {
                        Err(error::Error::UnexpectedEof)
                    }
                },
            },
        }
    }
}

/// The first data object of `s` and the number of bytes it takes.
pub open spec fn spec_decode_one(s: Seq<u8>) -> Result<(TlvModel, int), error::Error> {
    match spec_header(s) {
        Err(e) => Err(e),
        Ok(h) => match spec_element(s, h) {
            Err(e) => Err(e),
            Ok(t) => Ok((t, h.header_len + h.length)),
        },
    }
}

/// Puts `prefix` in front of a successful result; passes an error on.
pub open spec fn prepend_ok(prefix: Seq<TlvModel>, r: Result<Seq<TlvModel>, error::Error>) -> Result<
    Seq<TlvModel>,
    error::Error,
> {
    match r {
        Ok(rest) => Ok(prefix + rest),
        Err(e) => Err(e),
    }
}

/// The model of what `decode` returns.
pub open spec fn decode_result_model(r: Result<Vec<BerTlv>, error::Error>) -> Result<
    Seq<TlvModel>,
    error::Error,
> {
    match r {
        Ok(v) => Ok(tlv_seq_model(v@)),
        Err(e) => Err(e),
    }
}

// ---------------------------------------------------------------------------
// Lemmas.
// ---------------------------------------------------------------------------

proof fn lemma_tag_continuation_end(s: Seq<u8>, from: int)
    ensures
        tag_continuation_end(s, from) matches Some(j) ==> from < j <= s.len(),
    decreases s.len() - from,
{
    if 0 <= from < s.len() && s[from] >= 0x80 {
        lemma_tag_continuation_end(s, from + 1);
    }
}

/// A header takes at least two bytes and declares a value inside the input.
pub proof fn lemma_header_bounds(s: Seq<u8>)
    ensures
        spec_header(s) matches Ok(h) ==> 2 <= h.header_len && h.header_len + h.length <= s.len(),
{
    if s.len() > 0 {
        lemma_tag_continuation_end(s, 1);
    }
}


proof fn lemma_be_value_step(bytes: Seq<u8>, i: int, modulus: int)
    requires
        0 <= i < bytes.len(),
    ensures
        be_value(bytes.take(i + 1), modulus) == (be_value(bytes.take(i), modulus) * 256 + bytes[i])
            % modulus,
{
    assert(bytes.take(i + 1).drop_last() =~= bytes.take(i));
}

proof fn lemma_shift_in_u32(t: u32, b: u8)
    ensures
        ((t << 8u32) | (b as u32)) as int == (t as int * 256 + b as int) % 0x1_0000_0000,
{
    assert(((t << 8u32) | (b as u32)) as int == (t as int * 256 + b as int) % 0x1_0000_0000)
        by (bit_vector);
}

proof fn lemma_shift_in_usize(l: usize, b: u8)
    ensures
        ((l << 8usize) | (b as usize)) as int == (l as int * 256 + b as int) % usize_modulus(),
{
    assert(usize::BITS == 64 ==> ((l << 8usize) | (b as usize)) as int == (l as int * 256 + b as int)
        % 0x1_0000_0000_0000_0000) by (bit_vector);
    assert(usize::BITS == 32 ==> ((l << 8usize) | (b as usize)) as int == (l as int * 256 + b as int)
        % 0x1_0000_0000) by (bit_vector);
}

proof fn lemma_be_value_subrange_step(bytes: Seq<u8>, a: int, i: int, modulus: int)
    requires
        0 <= a,
        0 <= i,
        a + i < bytes.len(),
    ensures
        be_value(bytes.subrange(a, a + i + 1), modulus) == (be_value(bytes.subrange(a, a + i), modulus)
            * 256 + bytes[a + i]) % modulus,
{
    assert(bytes.subrange(a, a + i + 1).drop_last() =~= bytes.subrange(a, a + i));
}

proof fn lemma_tag_byte_bits(b: u8)
    ensures
        ((b & 0x1F) == 0x1F) == (b % 32 == 31),
        ((b & 0x20) != 0) == ((b / 32) % 2 == 1),
        ((b & 0x80) == 0) == (b < 0x80),
        b >= 0x80 ==> (b & 0x7F) == b - 0x80,
{
    assert(((b & 0x1F) == 0x1F) == (b % 32 == 31)) by (bit_vector);
    assert(((b & 0x20) != 0) == ((b / 32) % 2 == 1)) by (bit_vector);
    assert(((b & 0x80) == 0) == (b < 0x80)) by (bit_vector);
    assert(b >= 0x80 ==> (b & 0x7F) == b - 0x80) by (bit_vector);
}

/// A non-empty input decodes as its first data object followed by the rest.
pub proof fn lemma_decode_unfold(s: Seq<u8>)
    requires
        s.len() > 0,
    ensures
        spec_decode(s) == match spec_decode_one(s) {
            Err(e) => Err(e),
            Ok((t, n)) => prepend_ok(seq![t], spec_decode(s.skip(n))),
        },
        spec_decode_one(s) matches Ok((_, n)) ==> 0 < n <= s.len(),
{
    lemma_header_bounds(s);
}

proof fn lemma_prepend_ok_assoc(
    a: Seq<TlvModel>,
    b: Seq<TlvModel>,
    r: Result<Seq<TlvModel>, error::Error>,
)
    ensures
        prepend_ok(a, prepend_ok(b, r)) == prepend_ok(a + b, r),
{
    if let Ok(x) = r {
        assert(a + (b + x) =~= (a + b) + x);
    }
}

proof fn lemma_seq_model_push(v: Seq<BerTlv>, t: BerTlv)
    ensures
        tlv_seq_model(v.push(t)) == tlv_seq_model(v) + seq![tlv_model(t)],
{
    assert(v.push(t).drop_last() =~= v);
    assert(tlv_seq_model(v).push(tlv_model(t)) =~= tlv_seq_model(v) + seq![tlv_model(t)]);
}

/// One step of a loop that decodes `remaining` object by object into `done`.
proof fn lemma_decode_loop_step(
    whole: Seq<u8>,
    done: Seq<BerTlv>,
    remaining: Seq<u8>,
    t: BerTlv,
    n: int,
)
    requires
        remaining.len() > 0,
        spec_decode(whole) == prepend_ok(tlv_seq_model(done), spec_decode(remaining)),
        spec_decode_one(remaining) == Ok::<(TlvModel, int), error::Error>((tlv_model(t), n)),
    ensures
        0 < n <= remaining.len(),
        spec_decode(whole) == prepend_ok(tlv_seq_model(done.push(t)), spec_decode(remaining.skip(n))),
{
    lemma_decode_unfold(remaining);
    lemma_prepend_ok_assoc(tlv_seq_model(done), seq![tlv_model(t)], spec_decode(remaining.skip(n)));
    lemma_seq_model_push(done, t);
}

proof fn lemma_tag_continuation_end_prefix(a: Seq<u8>, b: Seq<u8>, from: int)
    ensures
        tag_continuation_end(a, from) matches Some(j) ==> tag_continuation_end(a + b, from) == Some(j),
    decreases a.len() - from,
{
    if 0 <= from < a.len() {
        assert((a + b)[from] == a[from]);
        if a[from] >= 0x80 {
            lemma_tag_continuation_end_prefix(a, b, from + 1);
        }
    }
}

/// A header that `a` holds whole reads the same with anything after it.
proof fn lemma_header_prefix(a: Seq<u8>, b: Seq<u8>)
    ensures
        spec_header(a) is Ok ==> spec_header(a + b) == spec_header(a),
{
    if a.len() > 0 && spec_header(a) is Ok {
        lemma_header_bounds(a);
        lemma_tag_continuation_end(a, 1);
        lemma_tag_continuation_end_prefix(a, b, 1);
        assert((a + b)[0] == a[0]);
        let t = tag_field_len(a)->Some_0;
        assert(tag_field_len(a + b) == Some(t));
        assert((a + b).take(t) =~= a.take(t));
        assert((a + b)[t] == a[t]);
        if a[t] >= 0x80 {
            let n = a[t] - 0x80;
            assert((a + b).subrange(t + 1, t + 1 + n) =~= a.subrange(t + 1, t + 1 + n));
        }
    }
}

/// The object that `a` holds whole decodes the same with anything after it.
proof fn lemma_decode_one_prefix(a: Seq<u8>, b: Seq<u8>)
    ensures
        spec_header(a) is Ok ==> spec_decode_one(a + b) == spec_decode_one(a),
{
    lemma_header_prefix(a, b);
    if let Ok(h) = spec_header(a) {
        lemma_header_bounds(a);
        assert((a + b).subrange(h.header_len, h.header_len + h.length) =~= a.subrange(
            h.header_len,
            h.header_len + h.length,
        ));
    }
}

proof fn lemma_tag_continuation_end_take(s: Seq<u8>, k: int, from: int)
    requires
        tag_continuation_end(s, from) matches Some(j) && j <= k <= s.len(),
    ensures
        tag_continuation_end(s.take(k), from) == tag_continuation_end(s, from),
    decreases s.len() - from,
{
    lemma_tag_continuation_end(s, from);
    if 0 <= from < s.len() {
        assert(s.take(k)[from] == s[from]);
        if s[from] >= 0x80 {
            lemma_tag_continuation_end_take(s, k, from + 1);
        }
    }
}

/// A header reads the same from any prefix of the input that still holds
/// the value it declares.
proof fn lemma_header_take(s: Seq<u8>, k: int)
    requires
        spec_header(s) matches Ok(h) && h.header_len + h.length <= k <= s.len(),
    ensures
        spec_header(s.take(k)) == spec_header(s),
{
    let a = s.take(k);
    let h = spec_header(s)->Ok_0;
    lemma_header_bounds(s);
    lemma_tag_continuation_end(s, 1);
    assert(a[0] == s[0]);
    if s[0] % 32 == 31 {
        lemma_tag_continuation_end_take(s, k, 1);
    }
    let t = tag_field_len(s)->Some_0;
    assert(tag_field_len(a) == Some(t));
    assert(a.take(t) =~= s.take(t));
    assert(a[t] == s[t]);
    if s[t] >= 0x80 {
        let n = s[t] - 0x80;
        assert(a.subrange(t + 1, t + 1 + n) =~= s.subrange(t + 1, t + 1 + n));
    }
}

/// Law: the first object of an input, and the number of bytes it takes,
/// depend on those bytes alone: they stay the same whatever follows them.
/// The object takes its header (at least two bytes) and its value.
pub proof fn law_decode_one_prefix(input: Seq<u8>, rest: Seq<u8>)
    requires
        spec_decode_one(input) is Ok,
    ensures
        ({
            let (t, n) = spec_decode_one(input)->Ok_0;
            &&& 2 <= n <= input.len()
            &&& t.length <= n - 2
            &&& spec_decode_one(input.take(n) + rest) == spec_decode_one(input)
        }),
{
    let h = spec_header(input)->Ok_0;
    let n = h.header_len + h.length;
    lemma_header_bounds(input);
    lemma_header_take(input, n);
    let a = input.take(n);
    assert(input =~= a + input.skip(n));
    lemma_decode_one_prefix(a, input.skip(n));
    lemma_decode_one_prefix(a, rest);
}

/// Law: decoding two encodings written one after the other gives the objects
/// of the first followed by the outcome of decoding the second.
pub proof fn law_decode_concat(a: Seq<u8>, b: Seq<u8>)
    requires
        spec_decode(a) is Ok,
    ensures
        spec_decode(a + b) == prepend_ok(spec_decode(a)->Ok_0, spec_decode(b)),
    decreases a.len(),
{
    if a.len() == 0 {
        assert(a + b =~= b);
        if let Ok(y) = spec_decode(b) {
            assert(Seq::<TlvModel>::empty() + y =~= y);
        }
    } else {
        lemma_decode_unfold(a);
        lemma_decode_one_prefix(a, b);
        assert((a + b).len() > 0);
        lemma_decode_unfold(a + b);
        let (t, n) = spec_decode_one(a)->Ok_0;
        assert((a + b).skip(n) =~= a.skip(n) + b);
        law_decode_concat(a.skip(n), b);
        lemma_prepend_ok_assoc(seq![t], spec_decode(a.skip(n))->Ok_0, spec_decode(b));
    }
}

/// Law: in everything that `decode` returns, each primitive object holds
/// exactly as many value bytes as its header declared.
pub proof fn law_decode_length_consistent(s: Seq<u8>)
    requires
        spec_decode(s) is Ok,
    ensures
        forall|i: int|
            #![trigger spec_decode(s)->Ok_0[i]]
            0 <= i < spec_decode(s)->Ok_0.len() ==> tlv_length_consistent(spec_decode(s)->Ok_0[i]),
    decreases s.len(),
{
    if s.len() > 0 {
        lemma_decode_unfold(s);
        lemma_header_bounds(s);
        let h = spec_header(s)->Ok_0;
        let (t, n) = spec_decode_one(s)->Ok_0;
        if h.constructed {
            let value = s.subrange(h.header_len, h.header_len + h.length);
            law_decode_length_consistent(value);
        }
        assert(tlv_length_consistent(t));
        law_decode_length_consistent(s.skip(n));
        let rest = spec_decode(s.skip(n))->Ok_0;
        assert(spec_decode(s)->Ok_0 =~= seq![t] + rest);
        assert forall|i: int| 0 <= i < spec_decode(s)->Ok_0.len() implies tlv_length_consistent(
            #[trigger] spec_decode(s)->Ok_0[i],
        ) by {
            if i > 0 {
                assert(spec_decode(s)->Ok_0[i] == rest[i - 1]);
            }
        }
    }
}

/// The model of what `decode_one` returns.
pub open spec fn one_result_model(r: Result<(BerTlv, usize), error::Error>) -> Result<
    (TlvModel, int),
    error::Error,
> {
    match r {
        Ok((t, n)) => Ok((t@, n as int)),
        Err(e) => Err(e),
    }
}

// ---------------------------------------------------------------------------
// The decoder.
// ---------------------------------------------------------------------------

/// Decodes `input` as a sequence of BER-TLV data objects, constructed
/// objects recursively into their children.
pub fn decode(input: &[u8]) -> (result: Result<Vec<BerTlv>, error::Error>)
    ensures
        decode_result_model(result) == spec_decode(input@),
{
    let mut ber_tlv_vec: Vec<BerTlv> = Vec::new();
    let mut rest = input;

    assert(tlv_seq_model(ber_tlv_vec@) =~= Seq::<TlvModel>::empty());
    while !rest.is_empty()
        invariant
            spec_decode(input@) == prepend_ok(tlv_seq_model(ber_tlv_vec@), spec_decode(rest@)),
        decreases rest@.len(),
    {
        proof {
            lemma_decode_unfold(rest@);
        }
        match decode_one(rest) {
            Err(e) => {
                assert(spec_decode_one(rest@) == Err::<(TlvModel, int), error::Error>(e));
                assert(spec_decode(rest@) == Err::<Seq<TlvModel>, error::Error>(e));
                return Err(e);
            },
            Ok((tlv, consumed)) => {
                proof {
                    lemma_decode_loop_step(input@, ber_tlv_vec@, rest@, tlv, consumed as int);
                }
                ber_tlv_vec.push(tlv);
                rest = &rest[consumed..rest.len()];
            },
        }
    }
    assert(tlv_seq_model(ber_tlv_vec@) + Seq::<TlvModel>::empty() =~= tlv_seq_model(ber_tlv_vec@));
    Ok(ber_tlv_vec)
}

/// Decodes the data object at the start of `input`; returns it with the
/// number of bytes that it takes.
pub fn decode_one(input: &[u8]) -> (result: Result<(BerTlv, usize), error::Error>)
    ensures
        one_result_model(result) == spec_decode_one(input@),
        result matches Ok((_, n)) ==> 0 < n <= input@.len(),
    decreases input@.len(),
{
    let mut offset: usize = 0;

    // 1. The tag: one byte, or more in the high-tag-number form.
    if offset >= input.len() {
        return Err(error::Error::UnexpectedEof);
    }
    let first_tag_byte = input[offset];
    offset += 1;
    proof {
        lemma_tag_byte_bits(first_tag_byte);
    }

    if (first_tag_byte & 0x1F) == 0x1F {
        loop
            invariant_except_break
                1 <= offset <= input.len(),
                tag_field_len(input@) == tag_continuation_end(input@, offset as int),
            ensures
                1 <= offset <= input.len(),
                tag_field_len(input@) == Some(offset as int),
            decreases input.len() - offset,
        {
            if offset >= input.len() {
                return Err(error::Error::UnexpectedEof);
            }
            let b = input[offset];
            offset += 1;
            proof {
                lemma_tag_byte_bits(b);
            }
            if (b & 0x80) == 0 {
                break;
            }
        }
    }
    let tag_len = offset;

    // The tag number: the tag bytes read as a big-endian number.
    let mut tag: u32 = 0;
    let mut i: usize = 0;
    while i < tag_len
        invariant
            0 <= i <= tag_len <= input.len(),
            tag as int == be_value(input@.subrange(0, i as int), u32_modulus()),
        decreases tag_len - i,
    {
        proof {
            lemma_shift_in_u32(tag, input[i as int]);
            lemma_be_value_subrange_step(input@, 0, i as int, u32_modulus());
        }
        tag = (tag << 8) | (input[i] as u32);
        i += 1;
    }

    // 2. The length: short form, or long definite form.
    if offset >= input.len() {
        return Err(error::Error::UnexpectedEof);
    }
    let first_len_byte = input[offset];
    offset += 1;
    proof {
        lemma_tag_byte_bits(first_len_byte);
    }

    let length: usize;
    if (first_len_byte & 0x80) == 0 {
        length = first_len_byte as usize;
    } else {
        let num_len_bytes = (first_len_byte & 0x7F) as usize;
        if num_len_bytes == 0 {
            return Err(error::Error::IndefiniteLengthUnsupported);
        }
        if num_len_bytes > input.len() - offset {
            return Err(error::Error::UnexpectedEof);
        }
        let mut len_val: usize = 0;
        let mut k: usize = 0;
        while k < num_len_bytes
            invariant
                0 <= k <= num_len_bytes,
                tag_len + 1 + num_len_bytes <= input.len(),
                offset == tag_len + 1 + k,
                len_val as int == be_value(
                    input@.subrange(tag_len + 1, tag_len + 1 + k),
                    usize_modulus(),
                ),
            decreases num_len_bytes - k,
        {
            let b = input[offset];
            proof {
                lemma_shift_in_usize(len_val, b);
                lemma_be_value_subrange_step(input@, tag_len + 1, k as int, usize_modulus());
            }
            offset += 1;
            len_val = (len_val << 8) | (b as usize);
            k += 1;
        }
        length = len_val;
    }

    if length > input.len() - offset {
        return Err(error::Error::UnexpectedEof);
    }
    let value_bytes = &input[offset..offset + length];
    offset += length;

    proof {
        assert(input@.take(tag_len as int) =~= input@.subrange(0, tag_len as int));
    }
    let ghost h = Header {
        tag,
        constructed: is_constructed_tag_byte(first_tag_byte),
        header_len: offset - length,
        length,
    };
    assert(spec_header(input@) == Ok::<Header, error::Error>(h));

    // 3. The value: raw bytes, or the nested data objects.
    let is_constructed = (first_tag_byte & 0x20) != 0;
    let value = if is_constructed {
        let mut children: Vec<BerTlv> = Vec::new();
        let mut remaining = value_bytes;
        assert(tlv_seq_model(children@) =~= Seq::<TlvModel>::empty());
        while !remaining.is_empty()
            invariant
                value_bytes@.len() < input@.len(),
                spec_header(input@) == Ok::<Header, error::Error>(h),
                h.constructed,
                0 < h.header_len,
                h.header_len + h.length <= input@.len(),
                value_bytes@ == input@.subrange(h.header_len, h.header_len + h.length),
                remaining@.len() <= value_bytes@.len(),
                spec_decode(value_bytes@) == prepend_ok(
                    tlv_seq_model(children@),
                    spec_decode(remaining@),
                ),
            decreases remaining@.len(),
        {
            proof {
                lemma_decode_unfold(remaining@);
            }
            match decode_one(remaining) {
                Err(e) => {
                    assert(spec_decode_one(remaining@) == Err::<(TlvModel, int), error::Error>(e));
                    assert(spec_decode(value_bytes@) == Err::<Seq<TlvModel>, error::Error>(e));
                    assert(spec_element(input@, h) == Err::<TlvModel, error::Error>(e));
                    return Err(e);
                },
                Ok((child, consumed)) => {
                    proof {
                        lemma_decode_loop_step(value_bytes@, children@, remaining@, child, consumed as int);
                    }
                    children.push(child);
                    remaining = &remaining[consumed..remaining.len()];
                },
            }
        }
        assert(tlv_seq_model(children@) + Seq::<TlvModel>::empty() =~= tlv_seq_model(children@));
        PrimitiveOrConstructedValue::Constructed(children)
    } else {
        PrimitiveOrConstructedValue::Primitive(vstd::slice::slice_to_vec(value_bytes))
    };

    Ok((BerTlv { tag, length, value }, offset))
}

} // verus!
