//! The file to upload and what is known of it.

use crate::text::append;
use crate::text::chars_of;
use crate::text::text_of;
use crate::trusted::extension_of;
use crate::trusted::infer_kind;
use crate::trusted::inferred_kind;
use crate::trusted::path_extension;
use crate::trusted::path_stem;
use crate::trusted::stem_of;
use vstd::prelude::*;
use vstd::slice::slice_to_vec;

verus! {

/// A file held in memory: its name, its bytes, its media type and its
/// extension.
#[derive(Debug, Clone)]
pub struct File {
    pub name: String,
    pub buffer: Vec<u8>,
    pub mime: String,
    pub ext: String,
}

/// `File`, with sequences for strings and bytes.
pub struct FileView {
    pub name: Seq<char>,
    pub buffer: Seq<u8>,
    pub mime: Seq<char>,
    pub ext: Seq<char>,
}

impl View for File {
    type V = FileView;

    open spec fn view(&self) -> FileView {
        FileView { name: self.name@, buffer: self.buffer@, mime: self.mime@, ext: self.ext@ }
    }
}

/// Whether every byte is below 128.
pub open spec fn is_ascii_bytes(content: Seq<u8>) -> bool {
    forall|i: int| 0 <= i < content.len() ==> (#[trigger] content[i]) < 128
}

/// Decides `is_ascii_bytes`.
pub fn all_ascii(content: &[u8]) -> (ascii: bool)
    ensures
        ascii == is_ascii_bytes(content@),
{
    let mut i: usize = 0;
    while i < content.len()
        invariant
            i <= content.len(),
            forall|j: int| 0 <= j < i ==> (#[trigger] content@[j]) < 128,
        decreases content.len() - i,
    {
        if content[i] >= 128 {
            return false;
        }
        i += 1;
    }
    true
}

/// The media type of `content`: the inferred one, else plain text for
/// ASCII bytes and a byte stream for anything else.
pub open spec fn media_type(content: Seq<u8>) -> Seq<char> {
    match inferred_kind(content) {
        Some((mime, _)) => mime,
        None => if is_ascii_bytes(content) {
            "text/plain"@
        } else {
            "application/octet-stream"@
        },
    }
}

/// The extension for `content`: the inferred one, else `txt` for ASCII
/// bytes and `bin` for anything else.
pub open spec fn extension(content: Seq<u8>) -> Seq<char> {
    match inferred_kind(content) {
        Some((_, ext)) => ext,
        None => if is_ascii_bytes(content) {
            "txt"@
        } else {
            "bin"@
        },
    }
}

/// `name` without its extension, if it has one.
pub open spec fn base_name(name: Seq<char>) -> Seq<char> {
    match (path_extension(name), path_stem(name)) {
        (Some(_), Some(stem)) => stem,
        _ => name,
    }
}

/// What is known of a file with the bytes `content` that came under the
/// name `name`: its own extension gives way to the one that fits the
/// content.
pub open spec fn described(content: Seq<u8>, name: Seq<char>) -> FileView {
    FileView {
        name: base_name(name) + "."@ + extension(content),
        buffer: content,
        mime: media_type(content),
        ext: extension(content),
    }
}

impl File {
    /// A file with the bytes `buf`, named `name` with the extension that
    /// fits the bytes.
    pub fn new(buf: &[u8], name: String) -> (file: Self)
        ensures
            file@ == described(buf@, name@),
    {
        let (mime, ext) = match infer_kind(buf) {
            Some((mime, ext)) => (mime, ext),
            None => if all_ascii(buf) {
                ("text/plain".to_owned(), "txt".to_owned())
            } else {
                ("application/octet-stream".to_owned(), "bin".to_owned())
            },
        };
        let base = match extension_of(name.as_str()) {
            Some(_) => match stem_of(name.as_str()) {
                Some(stem) => stem,
                None => name,
            },
            None => name,
        };
        let mut full = chars_of(base.as_str());
        append(&mut full, &chars_of("."));
        append(&mut full, &chars_of(ext.as_str()));
        File { name: text_of(&full), buffer: slice_to_vec(buf), mime, ext }
    }

    /// Renames the file, and takes the extension from the new name.
    pub fn override_name(&mut self, name: String)
        requires
            path_extension(name@) is Some,
        ensures
            final(self)@ == (FileView {
                name: name@,
                ext: path_extension(name@)->Some_0,
                ..old(self)@
            }),
    {
        match extension_of(name.as_str()) {
            Some(ext) => {
                self.ext = ext;
            },
            None => {},
        }
        self.name = name;
    }

    /// Renames the file as `override_name` does where `name` has an
    /// extension, and says so; leaves the file as it is where it has none.
    pub fn try_override_name(&mut self, name: String) -> (renamed: bool)
        ensures
            renamed == path_extension(name@) is Some,
            renamed ==> final(self)@ == (FileView {
                name: name@,
                ext: path_extension(name@)->Some_0,
                ..old(self)@
            }),
            !renamed ==> final(self)@ == old(self)@,
    {
        if extension_of(name.as_str()).is_some() {
            self.override_name(name);
            true
        } else {
            false
        }
    }

    /// Sets the media type. Nothing else changes.
    pub fn override_mime(&mut self, mime: String)
        ensures
            final(self)@ == (FileView { mime: mime@, ..old(self)@ }),
    {
        self.mime = mime;
    }
}

} // verus!
