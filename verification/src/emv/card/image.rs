use vstd::prelude::*;
use vstd::string::StringExecFns;
use crate::hex::spec_hex_upper;
use crate::text::{prefixed_hex_text, quoted_hex_text, spec_hex_number};

verus! {

/// Everything read from an EMV card.
#[derive(Debug)]
pub struct EmvCardImage {
    pub directory_definition_file_vec: Vec<DirectoryDefinitionFile>,
    pub application_definition_file_vec: Vec<ApplicationDefinitionFile>,
}

/// A directory definition file (such as the PPSE) and its entries.
#[derive(Debug)]
pub struct DirectoryDefinitionFile {
    pub file_name: Vec<u8>,
    pub directory_entry_vec: Vec<DirectoryEntry>,
}

/// One entry of a directory: the primitive data objects that it holds.
#[derive(Debug)]
pub struct DirectoryEntry {
    pub tag_vec: Vec<EmvTag>,
}

/// An application definition file and the records read from it.
#[derive(Debug)]
pub struct ApplicationDefinitionFile {
    pub application_identifier: Vec<u8>,
    pub application_file_record_vec: Vec<ApplicationFileRecord>,
}

/// One record of an application file.
#[derive(Debug)]
pub struct ApplicationFileRecord {
    pub sfi: u8,
    pub record_number: u8,
    pub tag_vec: Vec<EmvTag>,
}

/// A primitive data object: its tag number and its value.
#[derive(Debug)]
pub struct EmvTag {
    pub number: u32,
    pub value: Vec<u8>,
}

/// Model of an `EmvTag`.
pub struct EmvTagModel {
    pub number: u32,
    pub value: Seq<u8>,
}

/// Model of a `DirectoryDefinitionFile`: its name and, per entry, the
/// entry's tags.
pub struct DirectoryDefinitionFileModel {
    pub file_name: Seq<u8>,
    pub entries: Seq<Seq<EmvTagModel>>,
}

/// Model of an `ApplicationFileRecord`.
pub struct ApplicationFileRecordModel {
    pub sfi: u8,
    pub record_number: u8,
    pub tags: Seq<EmvTagModel>,
}

/// Model of an `ApplicationDefinitionFile`.
pub struct ApplicationDefinitionFileModel {
    pub application_identifier: Seq<u8>,
    pub records: Seq<ApplicationFileRecordModel>,
}

/// Model of an `EmvCardImage`.
pub struct EmvCardImageModel {
    pub directories: Seq<DirectoryDefinitionFileModel>,
    pub applications: Seq<ApplicationDefinitionFileModel>,
}

impl View for EmvTag {
    type V = EmvTagModel;

    open spec fn view(&self) -> EmvTagModel {
        EmvTagModel { number: self.number, value: self.value@ }
    }
}

/// The text of a tag in a log: its number in hexadecimal after `0x`, and
/// the quoted hexadecimal text of its value.
pub open spec fn spec_emv_tag_text(t: EmvTagModel) -> Seq<char> {
    "EmvTag(tag: "@ + "0x"@ + spec_hex_number(t.number as nat) + ", value: "@ + "\""@
        + spec_hex_upper(t.value) + "\""@ + ")"@
}

impl EmvTag {
    /// The text of this tag in a log, as `spec_emv_tag_text` gives it.
    pub fn to_log_text(&self) -> (r: String)
        ensures
            r@ == spec_emv_tag_text(self@),
    {
        let mut out = String::from_str("EmvTag(tag: ");
        let number = prefixed_hex_text(self.number as u64);
        out.append(number.as_str());
        out.append(", value: ");
        let value = quoted_hex_text(self.value.as_slice());
        out.append(value.as_str());
        out.append(")");
        out
    }
}

/// The models of a sequence of tags.
pub open spec fn tags_model(s: Seq<EmvTag>) -> Seq<EmvTagModel> {
    s.map_values(|t: EmvTag| t@)
}

impl View for DirectoryEntry {
    type V = Seq<EmvTagModel>;

    open spec fn view(&self) -> Seq<EmvTagModel> {
        tags_model(self.tag_vec@)
    }
}

impl View for DirectoryDefinitionFile {
    type V = DirectoryDefinitionFileModel;

    open spec fn view(&self) -> DirectoryDefinitionFileModel {
        DirectoryDefinitionFileModel {
            file_name: self.file_name@,
            entries: self.directory_entry_vec@.map_values(|e: DirectoryEntry| e@),
        }
    }
}

impl View for ApplicationFileRecord {
    type V = ApplicationFileRecordModel;

    open spec fn view(&self) -> ApplicationFileRecordModel {
        ApplicationFileRecordModel {
            sfi: self.sfi,
            record_number: self.record_number,
            tags: tags_model(self.tag_vec@),
        }
    }
}

impl View for ApplicationDefinitionFile {
    type V = ApplicationDefinitionFileModel;

    open spec fn view(&self) -> ApplicationDefinitionFileModel {
        ApplicationDefinitionFileModel {
            application_identifier: self.application_identifier@,
            records: self.application_file_record_vec@.map_values(|r: ApplicationFileRecord| r@),
        }
    }
}

impl View for EmvCardImage {
    type V = EmvCardImageModel;

    open spec fn view(&self) -> EmvCardImageModel {
        EmvCardImageModel {
            directories: self.directory_definition_file_vec@.map_values(
                |d: DirectoryDefinitionFile| d@,
            ),
            applications: self.application_definition_file_vec@.map_values(
                |a: ApplicationDefinitionFile| a@,
            ),
        }
    }
}

} // verus!
