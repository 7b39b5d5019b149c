//! Where the data of a font comes from.

use crate::text::{numeral, numeral_text};
use std::path::PathBuf;
use vstd::prelude::*;
use vstd::string::*;

verus! {

/// `std::path::PathBuf`, of which the library only keeps and copies values.
#[verifier::external_type_specification]
#[verifier::external_body]
pub struct ExPathBuf(PathBuf);

/// `PathBuf::clone` returns a path equal to the one it is given.
pub assume_specification[ <PathBuf as Clone>::clone ](path: &PathBuf) -> (copy: PathBuf)
    ensures
        copy == *path,
;

/// The data behind a font: a file that can be read from disk, or bytes that
/// reside in memory. `index` picks the font where the data is a collection
/// of fonts.
pub enum FontDataHandle {
    OnDisk { path: PathBuf, index: u32 },
    Memory { data: Vec<u8>, index: u32 },
}

/// A [`FontDataHandle`] as mathematical values.
pub enum FontData {
    OnDisk { path: PathBuf, index: u32 },
    Memory { data: Seq<u8>, index: u32 },
}

impl View for FontDataHandle {
    type V = FontData;

    open spec fn view(&self) -> FontData {
        match self {
            FontDataHandle::OnDisk { path, index } => FontData::OnDisk {
                path: *path,
                index: *index,
            },
            FontDataHandle::Memory { data, index } => FontData::Memory {
                data: data@,
                index: *index,
            },
        }
    }
}

impl Clone for FontDataHandle {
    /// A handle to the same data.
    fn clone(&self) -> (copy: Self)
        ensures
            copy@ == self@,
    {
        match self {
            FontDataHandle::OnDisk { path, index } => FontDataHandle::OnDisk {
                path: path.clone(),
                index: *index,
            },
            FontDataHandle::Memory { data, index } => FontDataHandle::Memory {
                data: data.clone(),
                index: *index,
            },
        }
    }
}

/// Calls the `Debug` formatting of `std::path::PathBuf`, which writes the
/// path between double quotes, with escapes. Nothing is claimed of the
/// text.
#[verifier::external_body]
fn path_debug(path: &PathBuf) -> (text: String) {
    format!("{:?}", path)
}

/// What is shown of a font on disk whose path is written as `path_text`.
pub open spec fn on_disk_text(path_text: Seq<char>, index: u32) -> Seq<char> {
    "OnDisk { path: "@ + path_text + ", index: "@ + numeral_text(index as int, 10) + " }"@
}

/// What is shown of a font in memory: the number of its bytes in place of
/// the bytes.
pub open spec fn memory_text(data_len: int, index: u32) -> Seq<char> {
    "Memory { data_len: "@ + numeral_text(data_len, 10) + ", index: "@ + numeral_text(
        index as int,
        10,
    ) + " }"@
}

/// Writes what is shown of a font on disk, from its path as text.
pub fn describe_on_disk(path_text: &str, index: u32) -> (text: String)
    ensures
        text@ == on_disk_text(path_text@, index),
{
    let mut text: String = "OnDisk { path: ".to_owned();
    text.append(path_text);
    text.append(", index: ");
    let number: String = numeral(index as u64, 10);
    text.append(number.as_str());
    text.append(" }");
    text
}

/// Writes what is shown of a font in memory.
pub fn describe_memory(data_len: usize, index: u32) -> (text: String)
    ensures
        text@ == memory_text(data_len as int, index),
{
    let mut text: String = "Memory { data_len: ".to_owned();
    let length: String = numeral(data_len as u64, 10);
    text.append(length.as_str());
    text.append(", index: ");
    let number: String = numeral(index as u64, 10);
    text.append(number.as_str());
    text.append(" }");
    text
}

/// Whether `text` shows a font on disk with this index, its path in some
/// written form.
pub open spec fn shows_on_disk(text: Seq<char>, index: u32) -> bool {
    exists|path_text: Seq<char>| text == #[trigger] on_disk_text(path_text, index)
}

impl FontDataHandle {
    /// Whether `text` shows this handle: a font on disk with its path in
    /// some written form and its index, a font in memory with the number
    /// of its bytes and its index.
    pub open spec fn is_shown_as(self, text: Seq<char>) -> bool {
        match self@ {
            FontData::OnDisk { path, index } => shows_on_disk(text, index),
            FontData::Memory { data, index } => text == memory_text(data.len() as int, index),
        }
    }

    /// Shows the handle for diagnostics, without the bytes of a font in
    /// memory.
    pub fn describe(&self) -> (text: String)
        ensures
            self.is_shown_as(text@),
    {
        match self {
            FontDataHandle::OnDisk { path, index } => {
                let path_text: String = path_debug(path);
                let text: String = describe_on_disk(path_text.as_str(), *index);
                assert(text@ == on_disk_text(path_text@, *index));
                assert(shows_on_disk(text@, *index));
                text
            },
            FontDataHandle::Memory { data, index } => describe_memory(data.len(), *index),
        }
    }
}

/// The views of a sequence of handles, in order.
pub open spec fn handles_view(handles: Seq<FontDataHandle>) -> Seq<FontData> {
    handles.map_values(|h: FontDataHandle| h@)
}

} // verus!
