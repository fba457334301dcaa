use vstd::prelude::*;
use vstd::string::StringExecFns;
use crate::hex::spec_hex_upper;
use crate::text::{decimal_text, prefixed_hex_text, quoted_hex_text, spec_decimal, spec_hex_number};

pub mod decoder;
pub mod lookup;

verus! {

/// One decoded BER-TLV data object: its tag number, the length that its
/// header declared, and its value.
#[derive(Debug)]
pub struct BerTlv {
    pub tag: u32,
    pub length: usize,
    pub value: PrimitiveOrConstructedValue,
}

/// The value of a BER-TLV data object: raw bytes for a primitive object,
/// the nested objects for a constructed one.
#[derive(Debug)]
pub enum PrimitiveOrConstructedValue {
    Primitive(Vec<u8>),
    Constructed(Vec<BerTlv>),
}

/// Mathematical model of a data object.
pub struct TlvModel {
    pub tag: u32,
    pub length: usize,
    pub value: TlvValueModel,
}

/// Mathematical model of a data object's value.
pub enum TlvValueModel {
    Primitive(Seq<u8>),
    Constructed(Seq<TlvModel>),
}

/// The model of one data object.
pub open spec fn tlv_model(t: BerTlv) -> TlvModel
    decreases t, 0int,
{
    TlvModel {
        tag: t.tag,
        length: t.length,
        value: match t.value {
            PrimitiveOrConstructedValue::Primitive(v) => TlvValueModel::Primitive(v@),
            PrimitiveOrConstructedValue::Constructed(v) => {
                proof {
                    broadcast use vstd::std_specs::vec::axiom_vec_decreases_to_view;
                }
                TlvValueModel::Constructed(tlv_seq_model(v@))
            },
        },
    }
}

/// The model of a sequence of data objects, element by element.
pub open spec fn tlv_seq_model(s: Seq<BerTlv>) -> Seq<TlvModel>
    decreases s, 1int,
{
    if s.len() == 0 {
        Seq::empty()
    } else {
        proof {
            vstd::seq::axiom_seq_index_decreases(s, s.len() - 1);
            vstd::seq::axiom_seq_subrange_decreases(s, 0, s.len() - 1);
        }
        tlv_seq_model(s.drop_last()).push(tlv_model(s.last()))
    }
}

/// Every object in the tree under `t` agrees with its declared length: the
/// value of each primitive object has exactly `length` bytes.
pub open spec fn tlv_length_consistent(t: TlvModel) -> bool
    decreases t,
{
    match t.value {
        TlvValueModel::Primitive(v) => v.len() == t.length,
        TlvValueModel::Constructed(c) => forall|i: int|
            #![trigger c[i]]
            0 <= i < c.len() ==> {
                proof {
                    vstd::seq::axiom_seq_index_decreases(c, i);
                }
                tlv_length_consistent(c[i])
            },
    }
}

impl View for BerTlv {
    type V = TlvModel;

    open spec fn view(&self) -> TlvModel {
        tlv_model(*self)
    }
}

impl BerTlv {
    /// The bytes of a primitive data object; `None` for a constructed one.
    pub fn optional_primitive_value(&self) -> (r: Option<&Vec<u8>>)
        ensures
            self.value is Primitive ==> r == Some(&self.value->Primitive_0),
            self.value is Constructed ==> r is None,
    {
        match &self.value {
            PrimitiveOrConstructedValue::Primitive(v) => Some(v),
            _ => None,
        }
    }

    /// The nested data objects of a constructed data object; `None` for a
    /// primitive one.
    pub fn optional_constructed_value(&self) -> (r: Option<&Vec<BerTlv>>)
        ensures
            self.value is Constructed ==> r == Some(&self.value->Constructed_0),
            self.value is Primitive ==> r is None,
    {
        match &self.value {
            PrimitiveOrConstructedValue::Constructed(v) => Some(v),
            _ => None,
        }
    }
}

/// The text of a data object in a log: its tag in hexadecimal after `0x`,
/// its declared length in decimal, and its value: the quoted hexadecimal
/// text of a primitive value, or the list of the nested objects' texts.
pub open spec fn spec_tlv_text(t: TlvModel) -> Seq<char>
    decreases t, 1int,
{
    "BerTlv { tag: "@ + "0x"@ + spec_hex_number(t.tag as nat) + ", length: "@ + spec_decimal(
        t.length as nat,
    ) + ", value: "@ + match t.value {
        TlvValueModel::Primitive(v) => "\""@ + spec_hex_upper(v) + "\""@,
        TlvValueModel::Constructed(c) => spec_tlv_list_text(c),
    } + " }"@
}

/// The texts of the objects of `c`, separated by `, `, between brackets.
pub open spec fn spec_tlv_list_text(c: Seq<TlvModel>) -> Seq<char>
    decreases c, 1int,
{
    "["@ + spec_tlv_items_text(c) + "]"@
}

/// The texts of the objects of `c`, separated by `, `.
pub open spec fn spec_tlv_items_text(c: Seq<TlvModel>) -> Seq<char>
    decreases c, 0int,
{
    if c.len() == 0 {
        Seq::empty()
    } else {
        proof {
            vstd::seq::axiom_seq_index_decreases(c, c.len() - 1);
            vstd::seq::axiom_seq_subrange_decreases(c, 0, c.len() - 1);
        }
        spec_tlv_items_text(c.drop_last()) + (if c.len() > 1 {
            ", "@
        } else {
            Seq::empty()
        }) + spec_tlv_text(c.last())
    }
}

impl BerTlv {
    /// The text of this object in a log, as `spec_tlv_text` gives it.
    pub fn to_log_text(&self) -> (r: String)
        ensures
            r@ == spec_tlv_text(self@),
        decreases self, 1int,
    {
        let mut out = String::from_str("BerTlv { tag: ");
        let tag = prefixed_hex_text(self.tag as u64);
        out.append(tag.as_str());
        out.append(", length: ");
        let length = decimal_text(self.length as u64);
        out.append(length.as_str());
        out.append(", value: ");
        let value = match &self.value {
            PrimitiveOrConstructedValue::Primitive(v) => quoted_hex_text(v.as_slice()),
            PrimitiveOrConstructedValue::Constructed(children) => {
                proof {
                    broadcast use vstd::std_specs::vec::axiom_vec_decreases_to_view;
                    assert(decreases_to!(*self => self.value));
                    assert(decreases_to!(self.value => self.value->Constructed_0));
                    assert(self.value->Constructed_0 == *children);
                }
                tlv_list_log_text(children)
            },
        };
        out.append(value.as_str());
        out.append(" }");
        out
    }
}

/// The text of a list of objects in a log, as `spec_tlv_list_text` gives it.
pub fn tlv_list_log_text(tlvs: &Vec<BerTlv>) -> (r: String)
    ensures
        r@ == spec_tlv_list_text(tlv_seq_model(tlvs@)),
    decreases tlvs@, 0int,
{
    let mut items = String::new();
    let mut i: usize = 0;
    while i < tlvs.len()
        invariant
            0 <= i <= tlvs@.len(),
            items@ == spec_tlv_items_text(tlv_seq_model(tlvs@.take(i as int))),
        decreases tlvs@.len() - i,
    {
        if i > 0 {
            items.append(", ");
        }
        proof {
            vstd::seq::axiom_seq_index_decreases(tlvs@, i as int);
        }
        let text = tlvs[i].to_log_text();
        items.append(text.as_str());
        proof {
            let s = tlvs@.take(i as int);
            assert(tlvs@.take(i + 1).drop_last() =~= s);
            assert(tlvs@.take(i + 1).last() == tlvs@[i as int]);
            let m = tlv_seq_model(tlvs@.take(i + 1));
            assert(m.drop_last() =~= tlv_seq_model(s));
            assert(m.last() == tlv_model(tlvs@[i as int]));
        }
        i += 1;
    }
    assert(tlvs@.take(tlvs@.len() as int) =~= tlvs@);
    let mut out = String::from_str("[");
    out.append(items.as_str());
    out.append("]");
    out
}

impl Clone for BerTlv {
    /// A deep copy.
    fn clone(&self) -> (r: Self)
        ensures
            r@ == self@,
        decreases self,
    {
        let value = match &self.value {
            PrimitiveOrConstructedValue::Primitive(v) => PrimitiveOrConstructedValue::Primitive(
                vstd::slice::slice_to_vec(v.as_slice()),
            ),
            PrimitiveOrConstructedValue::Constructed(children) => {
                let mut out: Vec<BerTlv> = Vec::new();
                let mut i: usize = 0;
                while i < children.len()
                    invariant
                        0 <= i <= children@.len(),
                        self.value == PrimitiveOrConstructedValue::Constructed(*children),
                        tlv_seq_model(out@) == tlv_seq_model(children@.take(i as int)),
                    decreases children@.len() - i,
                {
                    proof {
                        vstd::std_specs::vec::axiom_vec_index_decreases(*children, i as int);
                        assert(decreases_to!(*self => self.value));
                        assert(decreases_to!(self.value => self.value->Constructed_0));
                        assert(self.value->Constructed_0 == *children);
                        assert(decreases_to!(*self => children[i as int]));
                    }
                    let c = children[i].clone();
                    proof {
                        assert(out@.push(c).drop_last() =~= out@);
                        assert(children@.take(i + 1).drop_last() =~= children@.take(i as int));
                    }
                    out.push(c);
                    i += 1;
                }
                assert(children@.take(children@.len() as int) =~= children@);
                PrimitiveOrConstructedValue::Constructed(out)
            },
        };
        BerTlv { tag: self.tag, length: self.length, value }
    }
}

} // verus!
