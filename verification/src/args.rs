//! The arguments of the command line, and what they ask for.

use crate::text::chars_of;
use crate::text::spells;
use vstd::prelude::*;

verus! {

/// The arguments, as given.
#[derive(Debug)]
pub struct Args {
    /// The path to the configuration to use.
    pub config: Option<String>,
    /// The uploader to use.
    pub uploader: Option<String>,
    /// Whether to show the record of uploads.
    pub history: bool,
    /// The name to give the file, whatever it is called.
    pub filename: Option<String>,
    /// The media type to give the file, whatever its content.
    pub mime: Option<String>,
    /// The file to upload: a path, `-` or nothing for the standard input,
    /// `@` for the clipboard.
    pub file: Option<String>,
}

/// Where the file to upload comes from.
#[derive(Debug, Clone, PartialEq, Eq)]
pub enum Source {
    Stdin,
    Clipboard,
    Path(String),
}

/// `Source`, with a sequence for the path.
pub enum SourceView {
    Stdin,
    Clipboard,
    Path(Seq<char>),
}

impl View for Source {
    type V = SourceView;

    open spec fn view(&self) -> SourceView {
        match self {
            Source::Stdin => SourceView::Stdin,
            Source::Clipboard => SourceView::Clipboard,
            Source::Path(path) => SourceView::Path(path@),
        }
    }
}

/// The source that the argument `file` names.
pub open spec fn named_source(file: Option<String>) -> SourceView {
    match file {
        None => SourceView::Stdin,
        Some(file) => if file@ == "-"@ {
            SourceView::Stdin
        } else if file@ == "@"@ {
            SourceView::Clipboard
        } else {
            SourceView::Path(file@)
        },
    }
}

impl Args {
    /// Where the file to upload comes from.
    pub fn source(&self) -> (source: Source)
        ensures
            source@ == named_source(self.file),
    {
        match &self.file {
            None => Source::Stdin,
            Some(file) => {
                let chars = chars_of(file.as_str());
                if spells(&chars, "-") {
                    Source::Stdin
                } else if spells(&chars, "@") {
                    Source::Clipboard
                } else {
                    Source::Path(file.clone())
                }
            },
        }
    }
}

} // verus!
