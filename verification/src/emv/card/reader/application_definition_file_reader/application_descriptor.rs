use vstd::prelude::*;
use crate::emv::dictionary::{TAG_77, TAG_80, TAG_82, TAG_94};
use crate::tlv::ber::{BerTlv, TlvModel, TlvValueModel, tlv_seq_model};
use crate::tlv::ber::lookup::{BerTlvLookup, law_find_first, spec_find_child, spec_find_in};

verus! {

/// What GET PROCESSING OPTIONS tells about an application.
pub struct ApplicationDescriptor {
    pub application_interchange_profile: u16,
    pub application_file_locator: Vec<u8>,
}

/// Model of an `ApplicationDescriptor`.
pub struct ApplicationDescriptorModel {
    pub application_interchange_profile: u16,
    pub application_file_locator: Seq<u8>,
}

impl View for ApplicationDescriptor {
    type V = ApplicationDescriptorModel;

    open spec fn view(&self) -> ApplicationDescriptorModel {
        ApplicationDescriptorModel {
            application_interchange_profile: self.application_interchange_profile,
            application_file_locator: self.application_file_locator@,
        }
    }
}

/// The first two bytes of `v` as a big-endian 16-bit number.
pub open spec fn spec_first_two_bytes(v: Seq<u8>) -> u16 {
    (v[0] as int * 256 + v[1] as int) as u16
}

/// Response Message Template Format 1 (tag 80): a primitive value of at
/// least two bytes, the AIP, then the AFL.
pub open spec fn spec_build_from_template_1(t: TlvModel) -> Option<ApplicationDescriptorModel> {
    match t.value {
        TlvValueModel::Primitive(v) => if v.len() >= 2 {
            Some(
                ApplicationDescriptorModel {
                    application_interchange_profile: spec_first_two_bytes(v),
                    application_file_locator: v.skip(2),
                },
            )
        } else {
            None
        },
        TlvValueModel::Constructed(_) => None,
    }
}

/// The AIP in a Format 2 template: the first two bytes of the primitive
/// child 82.
pub open spec fn spec_template_2_aip(t: TlvModel) -> Option<u16> {
    match spec_find_child(t, TAG_82) {
        Some(c) => match c.value {
            TlvValueModel::Primitive(v) => if v.len() >= 2 {
                Some(spec_first_two_bytes(v))
            } else {
                None
            },
            TlvValueModel::Constructed(_) => None,
        },
        None => None,
    }
}

/// The AFL in a Format 2 template: the value of the primitive child 94.
pub open spec fn spec_template_2_afl(t: TlvModel) -> Option<Seq<u8>> {
    match spec_find_child(t, TAG_94) {
        Some(c) => match c.value {
            TlvValueModel::Primitive(v) => Some(v),
            TlvValueModel::Constructed(_) => None,
        },
        None => None,
    }
}

/// Response Message Template Format 2 (tag 77): both an AIP and an AFL.
pub open spec fn spec_build_from_template_2(t: TlvModel) -> Option<ApplicationDescriptorModel> {
    match (spec_template_2_aip(t), spec_template_2_afl(t)) {
        (Some(aip), Some(afl)) => Some(
            ApplicationDescriptorModel {
                application_interchange_profile: aip,
                application_file_locator: afl,
            },
        ),
        _ => None,
    }
}

/// The descriptor in a GPO response: from the first object tagged 80 when it
/// is a valid Format 1 template, else from the first object tagged 77.
pub open spec fn spec_build(tlvs: Seq<TlvModel>) -> Option<ApplicationDescriptorModel> {
    let from_80 = match spec_find_in(tlvs, TAG_80) {
        Some(t) => spec_build_from_template_1(t),
        None => None,
    };
    if from_80 is Some {
        from_80
    } else {
        match spec_find_in(tlvs, TAG_77) {
            Some(t) => spec_build_from_template_2(t),
            None => None,
        }
    }
}

/// `s[k]` is the first object of `s` tagged `tag`.
pub open spec fn first_tagged(s: Seq<TlvModel>, tag: u32, k: int) -> bool {
    &&& 0 <= k < s.len()
    &&& s[k].tag == tag
    &&& forall|j: int| 0 <= j < k ==> #[trigger] s[j].tag != tag
}

proof fn lemma_find_first_tagged(s: Seq<TlvModel>, tag: u32, k: int)
    requires
        first_tagged(s, tag, k),
    ensures
        spec_find_in(s, tag) == Some(s[k]),
{
    law_find_first(s, tag);
    if let Some(u) = spec_find_in(s, tag) {
        let i = choose|i: int|
            0 <= i < s.len() && s[i] == u && u.tag == tag && forall|j: int|
                0 <= j < i ==> #[trigger] s[j].tag != tag;
        if i < k {
            assert(s[i].tag != tag);
        } else if i > k {
            assert(s[k].tag != tag);
        }
    } else {
        assert(s[k].tag != tag);
    }
}

proof fn lemma_two_bytes(a: u8, b: u8)
    ensures
        ((a as int * 256 + b as int) as u16) as int == a as int * 256 + b as int,
        ((a as int * 256 + b as int) as u16) / 256 == a,
        ((a as int * 256 + b as int) as u16) % 256 == b,
{
    assert(0 <= a as int * 256 + b as int <= 65535);
}

/// Law: in a GPO response whose first object tagged 80 is a Format 1
/// template (a primitive value `v` of at least two bytes), the descriptor is
/// read from it, and its AIP, written big-endian, followed by its AFL spells
/// `v` exactly.
pub proof fn law_format_1_spells_its_value(tlvs: Seq<TlvModel>, k: int)
    requires
        first_tagged(tlvs, TAG_80, k),
        tlvs[k].value is Primitive,
        tlvs[k].value->Primitive_0.len() >= 2,
    ensures
        spec_build(tlvs) matches Some(d) && seq![
            (d.application_interchange_profile / 256) as u8,
            (d.application_interchange_profile % 256) as u8,
        ] + d.application_file_locator == tlvs[k].value->Primitive_0,
{
    lemma_find_first_tagged(tlvs, TAG_80, k);
    let v = tlvs[k].value->Primitive_0;
    lemma_two_bytes(v[0], v[1]);
    let d = spec_build(tlvs)->Some_0;
    assert(seq![
        (d.application_interchange_profile / 256) as u8,
        (d.application_interchange_profile % 256) as u8,
    ] + d.application_file_locator =~= v);
}

/// Law: in a GPO response with no object tagged 80, whose first object
/// tagged 77 is a Format 2 template, the AIP is the first two bytes
/// (big-endian) of the template's first child tagged 82 and the AFL is the
/// value of its first child tagged 94, wherever these stand among the
/// children.
pub proof fn law_format_2_finds_its_children(
    tlvs: Seq<TlvModel>,
    p: int,
    children: Seq<TlvModel>,
    k: int,
    m: int,
)
    requires
        forall|j: int| 0 <= j < tlvs.len() ==> #[trigger] tlvs[j].tag != TAG_80,
        first_tagged(tlvs, TAG_77, p),
        tlvs[p].value == TlvValueModel::Constructed(children),
        first_tagged(children, TAG_82, k),
        children[k].value is Primitive,
        children[k].value->Primitive_0.len() >= 2,
        first_tagged(children, TAG_94, m),
        children[m].value is Primitive,
    ensures
        spec_build(tlvs) matches Some(d) && d.application_interchange_profile as int
            == children[k].value->Primitive_0[0] as int * 256
            + children[k].value->Primitive_0[1] as int && d.application_file_locator
            == children[m].value->Primitive_0,
{
    law_find_first(tlvs, TAG_80);
    lemma_find_first_tagged(tlvs, TAG_77, p);
    lemma_find_first_tagged(children, TAG_82, k);
    lemma_find_first_tagged(children, TAG_94, m);
    let a = children[k].value->Primitive_0;
    lemma_two_bytes(a[0], a[1]);
}

/// The model of what `build` returns.
pub open spec fn descriptor_result_model(r: Result<ApplicationDescriptor, ()>) -> Option<
    ApplicationDescriptorModel,
> {
    match r {
        Ok(d) => Some(d@),
        Err(_) => None,
    }
}

/// Builds the application descriptor from the objects of a GPO response.
pub fn build(ber_tlv_vec: Vec<BerTlv>) -> (r: Result<ApplicationDescriptor, ()>)
    ensures
        descriptor_result_model(r) == spec_build(tlv_seq_model(ber_tlv_vec@)),
{
    match ber_tlv_vec.find_tag(TAG_80) {
        None => {},
        Some(ber_tlv) => match build_from_template_1(&ber_tlv) {
            Ok(application_descriptor) => return Ok(application_descriptor),
            Err(_) => {},
        },
    }

    match ber_tlv_vec.find_tag(TAG_77) {
        None => {},
        Some(ber_tlv) => match build_from_template_2(&ber_tlv) {
            Ok(application_descriptor) => return Ok(application_descriptor),
            Err(_) => {},
        },
    };

    Err(())
}

/// The first two bytes of `v` as a big-endian 16-bit number.
fn first_two_bytes(v: &Vec<u8>) -> (r: u16)
    requires
        v@.len() >= 2,
    ensures
        r == spec_first_two_bytes(v@),
{
    let byte_1 = v[0];
    let byte_2 = v[1];
    assert((((byte_1 as u16) << 8u16) | (byte_2 as u16)) == (byte_1 as int * 256 + byte_2 as int) as u16)
        by (bit_vector);
    ((byte_1 as u16) << 8) | byte_2 as u16
}

fn build_from_template_1(ber_tlv: &BerTlv) -> (r: Result<ApplicationDescriptor, ()>)
    ensures
        descriptor_result_model(r) == spec_build_from_template_1(ber_tlv@),
{
    match ber_tlv.optional_primitive_value() {
        None => Err(()),
        Some(primitive_value) => {
            if primitive_value.len() >= 2 {
                let application_interchange_profile = first_two_bytes(primitive_value);
                let application_file_locator = vstd::slice::slice_to_vec(
                    &primitive_value.as_slice()[2..primitive_value.len()],
                );
                Ok(ApplicationDescriptor { application_interchange_profile, application_file_locator })
            } else {
                Err(())
            }
        },
    }
}

fn build_from_template_2(ber_tlv: &BerTlv) -> (r: Result<ApplicationDescriptor, ()>)
    ensures
        descriptor_result_model(r) == spec_build_from_template_2(ber_tlv@),
{
    let application_interchange_profile = match ber_tlv.find_tag(TAG_82) {
        None => return Err(()),
        Some(aip_tlv) => match aip_tlv.optional_primitive_value() {
            None => return Err(()),
            Some(primitive_value) => {
                if primitive_value.len() < 2 {
                    return Err(());
                }
                first_two_bytes(primitive_value)
            },
        },
    };

    let application_file_locator = match ber_tlv.find_tag(TAG_94) {
        None => return Err(()),
        Some(afl_tlv) => match afl_tlv.optional_primitive_value() {
            None => return Err(()),
            Some(primitive_value) => vstd::slice::slice_to_vec(primitive_value.as_slice()),
        },
    };

    Ok(ApplicationDescriptor { application_interchange_profile, application_file_locator })
}

} // verus!
