use vstd::prelude::*;
use crate::emv::card::image::{
    DirectoryDefinitionFile, DirectoryDefinitionFileModel, DirectoryEntry, EmvTag, EmvTagModel,
    tags_model,
};
use crate::emv::card::reader::apdu_exchanger::{
    EmvApduExchanger, channel_response_model, keeps_history,
};
use crate::emv::card::reader::error;
use crate::emv::card::reader::error_mapper::ErrorMapper;
use crate::emv::dictionary::{TAG_6F, TAG_A5, TAG_BF0C};
use crate::smartcard::apdu::command::builders::select;
use crate::smartcard::apdu::command::{CommandApdu, spec_apdu_bytes, spec_command_bytes};
use crate::smartcard::apdu::response::{ResponseApdu, spec_is_ok};
use crate::smartcard::reader::SmartCardChannel;
use crate::smartcard::reader::error::Error as ReaderError;
use crate::tlv::ber::{BerTlv, TlvModel, TlvValueModel, tlv_model, tlv_seq_model};
use crate::tlv::ber::decoder::{decode, spec_decode};
use crate::tlv::ber::lookup::{
    BerTlvLookup, BerTlvWalker, lemma_seq_model_index, spec_find_in, spec_walk,
};

verus! {

/// The tags of the primitive objects among `c`, in order.
pub open spec fn spec_primitive_tags(c: Seq<TlvModel>) -> Seq<EmvTagModel>
    decreases c.len(),
{
    if c.len() == 0 {
        Seq::empty()
    } else {
        let rest = spec_primitive_tags(c.drop_last());
        match c.last().value {
            TlvValueModel::Primitive(v) => rest.push(EmvTagModel { number: c.last().tag, value: v }),
            TlvValueModel::Constructed(_) => rest,
        }
    }
}

/// The tag that a primitive object `c` gives in a directory entry: its full
/// tag number and its value.
pub open spec fn primitive_tag_of(c: TlvModel) -> EmvTagModel {
    EmvTagModel { number: c.tag, value: c.value->Primitive_0 }
}

/// `t` is the tag of one of the primitive objects among `c`.
pub open spec fn comes_from_primitive(c: Seq<TlvModel>, t: EmvTagModel) -> bool {
    exists|i: int| 0 <= i < c.len() && c[i].value is Primitive && t == primitive_tag_of(c[i])
}

/// Law: the tags that a directory entry holds are exactly those of the
/// primitive objects among `c`, each with its full tag number and value, in
/// the order of the objects: every primitive object gives one, and each one
/// comes from a primitive object, later ones from later objects.
pub proof fn law_primitive_tags(c: Seq<TlvModel>)
    ensures
        forall|i: int|
            0 <= i < c.len() && (#[trigger] c[i]).value is Primitive ==> exists|j: int|
                0 <= j < spec_primitive_tags(c).len() && spec_primitive_tags(c)[j]
                    == primitive_tag_of(c[i]),
        forall|j: int|
            0 <= j < spec_primitive_tags(c).len() ==> #[trigger] comes_from_primitive(
                c,
                spec_primitive_tags(c)[j],
            ),
        spec_primitive_tags(c).len() <= c.len(),
        spec_primitive_tags(c).len() > 0 && c.last().value is Primitive ==> spec_primitive_tags(
            c,
        ).last() == primitive_tag_of(c.last()),
    decreases c.len(),
{
    if c.len() > 0 {
        let d = c.drop_last();
        law_primitive_tags(d);
        let rest = spec_primitive_tags(d);
        let all = spec_primitive_tags(c);
        assert forall|i: int| 0 <= i < c.len() && (#[trigger] c[i]).value is Primitive implies exists|j: int|
            0 <= j < all.len() && all[j] == primitive_tag_of(c[i]) by {
            if i < d.len() {
                assert(d[i] == c[i]);
                let j = choose|j: int| 0 <= j < rest.len() && rest[j] == primitive_tag_of(d[i]);
                assert(all[j] == rest[j]);
            } else {
                assert(all[all.len() - 1] == primitive_tag_of(c[i]));
            }
        }
        assert forall|j: int| 0 <= j < all.len() implies #[trigger] comes_from_primitive(c, all[j]) by {
            if j < rest.len() {
                assert(all[j] == rest[j]);
                assert(comes_from_primitive(d, rest[j]));
                let i = choose|i: int|
                    0 <= i < d.len() && d[i].value is Primitive && rest[j] == primitive_tag_of(d[i]);
                assert(d[i] == c[i]);
            } else {
                assert(c.last().value is Primitive);
                assert(all[j] == primitive_tag_of(c[c.len() - 1]));
                assert(c[c.len() - 1].value is Primitive);
            }
        }
    }
}

/// A directory entry is a constructed object; it holds the tags of its
/// primitive children.
pub open spec fn spec_directory_entry(t: TlvModel) -> Option<Seq<EmvTagModel>> {
    match t.value {
        TlvValueModel::Constructed(c) => Some(spec_primitive_tags(c)),
        TlvValueModel::Primitive(_) => None,
    }
}

/// The entries of a directory: one per constructed object among `c`.
pub open spec fn spec_directory_entries(c: Seq<TlvModel>) -> Seq<Seq<EmvTagModel>>
    decreases c.len(),
{
    if c.len() == 0 {
        Seq::empty()
    } else {
        let rest = spec_directory_entries(c.drop_last());
        match spec_directory_entry(c.last()) {
            Some(e) => rest.push(e),
            None => rest,
        }
    }
}

/// `e` is the entry of one of the constructed objects among `c`: the tags of
/// its primitive children.
pub open spec fn comes_from_constructed(c: Seq<TlvModel>, e: Seq<EmvTagModel>) -> bool {
    exists|i: int|
        0 <= i < c.len() && c[i].value is Constructed && e == spec_primitive_tags(
            c[i].value->Constructed_0,
        )
}

/// Law: a directory has one entry per constructed object among `c`, each
/// holding the tags of that object's primitive children, and no other entry;
/// a primitive object gives no entry.
pub proof fn law_directory_entries(c: Seq<TlvModel>)
    ensures
        forall|i: int|
            0 <= i < c.len() && (#[trigger] c[i]).value is Constructed ==> exists|j: int|
                0 <= j < spec_directory_entries(c).len() && spec_directory_entries(c)[j]
                    == spec_primitive_tags(c[i].value->Constructed_0),
        forall|j: int|
            0 <= j < spec_directory_entries(c).len() ==> #[trigger] comes_from_constructed(
                c,
                spec_directory_entries(c)[j],
            ),
        spec_directory_entries(c).len() <= c.len(),
    decreases c.len(),
{
    if c.len() > 0 {
        let d = c.drop_last();
        law_directory_entries(d);
        let rest = spec_directory_entries(d);
        let all = spec_directory_entries(c);
        assert forall|i: int| 0 <= i < c.len() && (#[trigger] c[i]).value is Constructed implies exists|j: int|
            0 <= j < all.len() && all[j] == spec_primitive_tags(c[i].value->Constructed_0) by {
            if i < d.len() {
                assert(d[i] == c[i]);
                let j = choose|j: int|
                    0 <= j < rest.len() && rest[j] == spec_primitive_tags(d[i].value->Constructed_0);
                assert(all[j] == rest[j]);
            } else {
                assert(all[all.len() - 1] == spec_primitive_tags(c[i].value->Constructed_0));
            }
        }
        assert forall|j: int| 0 <= j < all.len() implies #[trigger] comes_from_constructed(c, all[j]) by {
            if j < rest.len() {
                assert(all[j] == rest[j]);
                assert(comes_from_constructed(d, rest[j]));
                let i = choose|i: int|
                    0 <= i < d.len() && d[i].value is Constructed && rest[j] == spec_primitive_tags(
                        d[i].value->Constructed_0,
                    );
                assert(d[i] == c[i]);
            } else {
                assert(c.last().value is Constructed);
                assert(c[c.len() - 1].value is Constructed);
            }
        }
    }
}

/// The directory definition file named `name` that a SELECT answered with
/// `data` and status SW1 SW2 describes: none unless the status is 90 00 and
/// the data holds an FCI template (6F) with the path A5 / BF0C leading to a
/// constructed object; an error when the data is not BER-TLV.
pub open spec fn spec_directory_from_response(name: Seq<u8>, data: Seq<u8>, sw1: u8, sw2: u8) -> Result<
    Option<DirectoryDefinitionFileModel>,
    error::Error,
> {
    if !spec_is_ok(sw1, sw2) {
        Ok(None)
    } else {
        match spec_decode(data) {
            Err(_) => Err(error::Error::InvalidApduResponse),
            Ok(tlvs) => match spec_find_in(tlvs, TAG_6F) {
                None => Ok(None),
                Some(fci) => match spec_walk(fci, seq![TAG_A5, TAG_BF0C]) {
                    None => Ok(None),
                    Some(dd) => match dd.value {
                        TlvValueModel::Primitive(_) => Ok(None),
                        TlvValueModel::Constructed(c) => Ok(
                            Some(
                                DirectoryDefinitionFileModel {
                                    file_name: name,
                                    entries: spec_directory_entries(c),
                                },
                            ),
                        ),
                    },
                },
            },
        }
    }
}

/// The outcome of reading the directory `name` when the SELECT got `response`.
pub open spec fn spec_directory_after(
    name: Seq<u8>,
    response: Result<(Seq<u8>, u8, u8), error::Error>,
) -> Result<Option<DirectoryDefinitionFileModel>, error::Error> {
    match response {
        Err(e) => Err(e),
        Ok((data, sw1, sw2)) => spec_directory_from_response(name, data, sw1, sw2),
    }
}

/// The bytes of SELECT `name` with Le = 0x00, as sent for a directory.
pub open spec fn spec_select_directory_bytes(name: Seq<u8>) -> Seq<u8> {
    spec_apdu_bytes(0x00, 0xA4, 0x04, 0x00, name, Some(0x00u8))
}

/// The model of an optional directory definition file, or an error.
pub open spec fn ddf_result_model(r: Result<Option<DirectoryDefinitionFile>, error::Error>) -> Result<
    Option<DirectoryDefinitionFileModel>,
    error::Error,
> {
    match r {
        Ok(Some(d)) => Ok(Some(d@)),
        Ok(None) => Ok(None),
        Err(e) => Err(e),
    }
}

/// A copy of some bytes.
fn copy_bytes(v: &Vec<u8>) -> (r: Vec<u8>)
    ensures
        r@ == v@,
{
    vstd::slice::slice_to_vec(v.as_slice())
}

/// Tags built as `spec_primitive_tags` says from `children` hold each
/// primitive child's full tag number and value.
proof fn lemma_entry_holds_child_tags(children: Seq<BerTlv>, tags: Seq<EmvTag>)
    requires
        tags_model(tags) == spec_primitive_tags(tlv_seq_model(children)),
    ensures
        forall|i: int|
            0 <= i < children.len() && (#[trigger] children[i]).value is Primitive ==> exists|j: int|
                0 <= j < tags.len() && tags[j].number == children[i].tag && tags[j].value@
                    == children[i].value->Primitive_0@,
{
    let c = tlv_seq_model(children);
    lemma_seq_model_index(children);
    law_primitive_tags(c);
    assert forall|i: int| 0 <= i < children.len() && (#[trigger] children[i]).value is Primitive implies exists|j: int|
        0 <= j < tags.len() && tags[j].number == children[i].tag && tags[j].value@
            == children[i].value->Primitive_0@ by {
        assert(c[i] == tlv_model(children[i]));
        let j = choose|j: int|
            0 <= j < spec_primitive_tags(c).len() && spec_primitive_tags(c)[j] == primitive_tag_of(c[i]);
        assert(tags_model(tags)[j] == tags[j]@);
    }
}

/// The directory entry that a data object holds, if it is constructed.
pub fn construct_directory_entry(ber_tlv: &BerTlv) -> (r: Option<DirectoryEntry>)
    ensures
        r matches Some(e) ==> spec_directory_entry(ber_tlv@) == Some(e@),
        r is None ==> spec_directory_entry(ber_tlv@) is None,
        r is Some <==> ber_tlv.value is Constructed,
        r matches Some(e) ==> forall|i: int|
            0 <= i < ber_tlv.value->Constructed_0@.len() && (
            #[trigger] ber_tlv.value->Constructed_0@[i]).value is Primitive ==> exists|j: int|
                0 <= j < e.tag_vec@.len() && e.tag_vec@[j].number == ber_tlv.value->Constructed_0@[i].tag
                    && e.tag_vec@[j].value@ == ber_tlv.value->Constructed_0@[i].value->Primitive_0@,
{
    let children = match ber_tlv.optional_constructed_value() {
        None => return None,
        Some(children) => children,
    };
    let ghost c = tlv_seq_model(children@);
    proof {
        lemma_seq_model_index(children@);
    }
    let mut tag_vec: Vec<EmvTag> = Vec::new();
    let mut i: usize = 0;
    while i < children.len()
        invariant
            0 <= i <= children@.len(),
            c == tlv_seq_model(children@),
            c.len() == children@.len(),
            forall|j: int| 0 <= j < children@.len() ==> #[trigger] c[j] == tlv_model(children@[j]),
            tags_model(tag_vec@) == spec_primitive_tags(c.take(i as int)),
        decreases children@.len() - i,
    {
        let ghost before = tag_vec@;
        let child = &children[i];
        assert(c.take(i + 1).drop_last() =~= c.take(i as int));
        assert(c.take(i + 1).last() == tlv_model(*child));
        match child.optional_primitive_value() {
            Some(value) => {
                tag_vec.push(EmvTag { number: child.tag, value: copy_bytes(value) });
                assert(tags_model(tag_vec@) =~= tags_model(before).push(tag_vec@.last()@));
            },
            None => {},
        }
        i += 1;
    }
    assert(c.take(children@.len() as int) =~= c);
    proof {
        lemma_entry_holds_child_tags(children@, tag_vec@);
    }
    Some(DirectoryEntry { tag_vec })
}

/// The directory definition file named `name` that a response to its SELECT
/// describes.
pub fn directory_definition_file_from_response(
    directory_definition_file_name: Vec<u8>,
    response_apdu: &ResponseApdu,
) -> (r: Result<Option<DirectoryDefinitionFile>, error::Error>)
    ensures
        ddf_result_model(r) == spec_directory_from_response(
            directory_definition_file_name@,
            response_apdu.data@,
            response_apdu.sw1,
            response_apdu.sw2,
        ),
{
    if !response_apdu.is_ok() {
        return Ok(None);
    }

    let ber_tlv_vec = match decode(response_apdu.data).map_err_to_emv_reader_error() {
        Err(e) => return Err(e),
        Ok(v) => v,
    };
    let tag_6f = match ber_tlv_vec.find_tag(TAG_6F) {
        None => return Ok(None),
        Some(ber_tlv) => ber_tlv,
    };
    let tag_bf0c = match tag_6f.walk(&vec![TAG_A5, TAG_BF0C]) {
        None => return Ok(None),
        Some(ber_tlv) => ber_tlv,
    };

    match tag_bf0c.optional_constructed_value() {
        None => Ok(None),
        Some(ber_tlv_vec) => {
            let ghost c = tlv_seq_model(ber_tlv_vec@);
            proof {
                lemma_seq_model_index(ber_tlv_vec@);
            }
            let mut directory_entry_vec: Vec<DirectoryEntry> = Vec::new();
            let mut i: usize = 0;
            while i < ber_tlv_vec.len()
                invariant
                    0 <= i <= ber_tlv_vec@.len(),
                    c == tlv_seq_model(ber_tlv_vec@),
                    c.len() == ber_tlv_vec@.len(),
                    forall|j: int|
                        0 <= j < ber_tlv_vec@.len() ==> #[trigger] c[j] == tlv_model(ber_tlv_vec@[j]),
                    directory_entry_vec@.map_values(|e: DirectoryEntry| e@)
                        == spec_directory_entries(c.take(i as int)),
                decreases ber_tlv_vec@.len() - i,
            {
                let ghost before = directory_entry_vec@;
                assert(c.take(i + 1).drop_last() =~= c.take(i as int));
                assert(c.take(i + 1).last() == tlv_model(ber_tlv_vec@[i as int]));
                match construct_directory_entry(&ber_tlv_vec[i]) {
                    Some(entry) => {
                        directory_entry_vec.push(entry);
                        assert(directory_entry_vec@.map_values(|e: DirectoryEntry| e@)
                            =~= before.map_values(|e: DirectoryEntry| e@).push(
                            directory_entry_vec@.last()@,
                        ));
                    },
                    None => {},
                }
                i += 1;
            }
            assert(c.take(ber_tlv_vec@.len() as int) =~= c);
            Ok(
                Some(
                    DirectoryDefinitionFile {
                        file_name: directory_definition_file_name,
                        directory_entry_vec,
                    },
                ),
            )
        },
    }
}

/// Selects the directory definition file `name` (Le = 0x00) and reads its
/// entries from the answer.
pub fn read_directory_definition_file<C: SmartCardChannel>(
    apdu_exchanger: &mut EmvApduExchanger<C>,
    directory_definition_file_name: Vec<u8>,
) -> (r: Result<Option<DirectoryDefinitionFile>, error::Error>)
    ensures
        final(apdu_exchanger).transcript().len() == old(apdu_exchanger).transcript().len() + 1,
        final(apdu_exchanger).transcript().drop_last() == old(apdu_exchanger).transcript(),
        final(apdu_exchanger).transcript().last().command == spec_select_directory_bytes(
            directory_definition_file_name@,
        ),
        ddf_result_model(r) == spec_directory_after(
            directory_definition_file_name@,
            final(apdu_exchanger).transcript().last().response,
        ),
        keeps_history(*old(apdu_exchanger), *final(apdu_exchanger)),
        final(apdu_exchanger).transcript().len() > old(apdu_exchanger).transcript().len() ==> final(apdu_exchanger).channel_at(
            old(apdu_exchanger).transcript().len() as int,
        ) == old(apdu_exchanger).channel(),
        final(apdu_exchanger).chained(old(apdu_exchanger).transcript().len() as int),
        forall|i: int|
            #![trigger final(apdu_exchanger).in_run(old(apdu_exchanger).transcript().len() as int, i)]
            final(apdu_exchanger).in_run(old(apdu_exchanger).transcript().len() as int, i) ==> exists|
                channel: &mut C,
                command: CommandApdu,
                buffer: &mut [u8; 264],
                raw: Result<ResponseApdu, ReaderError>,
            |
            {
                &&& *channel == final(apdu_exchanger).channel_at(i)
                &&& spec_command_bytes(command) =~= final(apdu_exchanger).transcript()[i].command
                &&& #[trigger] call_ensures(C::exchange_apdu, (channel, command, buffer), raw)
                &&& final(apdu_exchanger).transcript()[i].response == channel_response_model(raw)
                &&& *final(channel) == final(apdu_exchanger).channel_after(i)
            },
{
    let command_apdu = select(copy_bytes(&directory_definition_file_name)).with_le(0x00);
    let response_apdu = match apdu_exchanger.exchange(command_apdu) {
        Err(e) => return Err(e),
        Ok(r) => r,
    };
    directory_definition_file_from_response(directory_definition_file_name, &response_apdu)
}

} // verus!
