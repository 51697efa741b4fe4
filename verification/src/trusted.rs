//! Everything that the proofs of this crate take on trust.
//!
//! Each function below hands plain values to another crate, or to a part of
//! the standard library that has no specification, and hands plain values
//! back. Verus does not look into their bodies: what their contracts say is
//! believed, not proved. Where the result is a function of the arguments
//! but too long to state, the contract gives it a name and says no more;
//! where it depends on chance, the contract says only what holds of every
//! outcome.

use serde_json::Value;
use serde_json_path::JsonPath;
use vstd::prelude::*;

verus! {

/// One node of a structured document, as far as a template can use it.
#[derive(Clone, Debug, PartialEq, Eq)]
pub enum Node {
    Null,
    Bool(bool),
    /// A number, in the text that the document library prints for it.
    Number(String),
    Text(String),
    Array,
    Object,
}

/// `Node`, with sequences for strings.
pub enum NodeView {
    Null,
    Bool(bool),
    Number(Seq<char>),
    Text(Seq<char>),
    Array,
    Object,
}

impl View for Node {
    type V = NodeView;

    open spec fn view(&self) -> NodeView {
        match self {
            Node::Null => NodeView::Null,
            Node::Bool(flag) => NodeView::Bool(*flag),
            Node::Number(text) => NodeView::Number(text@),
            Node::Text(text) => NodeView::Text(text@),
            Node::Array => NodeView::Array,
            Node::Object => NodeView::Object,
        }
    }
}

/// Why a path query could not be made.
#[derive(Clone, Copy, Debug, PartialEq, Eq, Structural)]
pub enum QueryFault {
    /// The document does not parse.
    Document,
    /// The path expression does not parse.
    Path,
}

/// The views of `nodes`, in order.
pub open spec fn node_views(nodes: Seq<Node>) -> Seq<NodeView> {
    nodes.map_values(|node: Node| node@)
}

/// What `select_json` returns, seen as a value of the specification.
pub open spec fn selection_view(selection: Result<Vec<Node>, QueryFault>) -> Result<
    Seq<NodeView>,
    QueryFault,
> {
    match selection {
        Ok(nodes) => Ok(node_views(nodes@)),
        Err(fault) => Err(fault),
    }
}

/// What a search for a regular expression comes to.
#[derive(Clone, Debug, PartialEq, Eq)]
pub enum Capture {
    /// The pattern does not compile.
    BadPattern,
    /// The pattern matches nowhere, or it matches and its first group took
    /// no part in the match, or it has no group.
    Nothing,
    /// The text of the first group in the first match.
    Group(String),
}

/// `Capture`, with sequences for strings.
pub enum CaptureView {
    BadPattern,
    Nothing,
    Group(Seq<char>),
}

impl View for Capture {
    type V = CaptureView;

    open spec fn view(&self) -> CaptureView {
        match self {
            Capture::BadPattern => CaptureView::BadPattern,
            Capture::Nothing => CaptureView::Nothing,
            Capture::Group(text) => CaptureView::Group(text@),
        }
    }
}

/// The nodes that the JSONPath expression `path` selects in the JSON text
/// `document`, in the order in which the query yields them.
pub uninterp spec fn json_selection(document: Seq<char>, path: Seq<char>) -> Result<
    Seq<NodeView>,
    QueryFault,
>;

/// The JSON text of the tree that the XML text `document` deserialises to,
/// if it does.
pub uninterp spec fn xml_as_json(document: Seq<char>) -> Option<Seq<char>>;

/// The first capture group of the first match of `pattern` in `text`.
pub uninterp spec fn first_capture(pattern: Seq<char>, text: Seq<char>) -> CaptureView;

/// The media type and the extension that the leading bytes of `content`
/// give away, if they give one away.
pub uninterp spec fn inferred_kind(content: Seq<u8>) -> Option<(Seq<char>, Seq<char>)>;

/// The extension of the last component of `path`.
pub uninterp spec fn path_extension(path: Seq<char>) -> Option<Seq<char>>;

/// The last component of `path` without its extension.
pub uninterp spec fn path_stem(path: Seq<char>) -> Option<Seq<char>>;

/// Whether `path` is absolute.
pub uninterp spec fn path_is_absolute(path: Seq<char>) -> bool;

/// The path that `part` leads to from `base`.
pub uninterp spec fn joined_path(base: Seq<char>, part: Seq<char>) -> Seq<char>;

/// Parses `document` with `serde_json::from_str` and `path` with
/// `serde_json_path::JsonPath::parse`, runs `JsonPath::query`, and hands
/// out every node that it yields. The contract claims only that the
/// outcome is a function of the two texts, and calls it `json_selection`.
#[verifier::external_body]
pub(crate) fn select_json(document: &str, path: &str) -> (selection: Result<Vec<Node>, QueryFault>)
    ensures
        selection_view(selection) == json_selection(document@, path@),
{
    let Ok(tree) = serde_json::from_str::<Value>(document) else { return Err(QueryFault::Document) };
    let Ok(query) = JsonPath::parse(path) else { return Err(QueryFault::Path) };
    Ok(query.query(&tree).all().into_iter().map(|node| match node {
        Value::Null => Node::Null,
        Value::Bool(flag) => Node::Bool(*flag),
        Value::Number(number) => Node::Number(number.to_string()),
        Value::String(text) => Node::Text(text.clone()),
        Value::Array(_) => Node::Array,
        Value::Object(_) => Node::Object,
    }).collect())
}

/// Reads the XML text `document` with `serde_xml_rs::from_str` into a
/// tree of the kind that JSON text parses to, and prints that tree as JSON
/// text. The contract claims only that the outcome is a function of the
/// text, and calls it `xml_as_json`.
#[verifier::external_body]
pub(crate) fn xml_to_json(document: &str) -> (json: Option<String>)
    ensures
        match json {
            Some(text) => xml_as_json(document@) == Some(text@),
            None => xml_as_json(document@) is None,
        },
{
    serde_xml_rs::from_str::<Value>(document).ok().map(|tree| tree.to_string())
}

/// Compiles `pattern` with `regex::Regex::new` and takes group 1 of
/// `Regex::captures` on `text`. The contract claims only that the outcome
/// is a function of the two texts, and calls it `first_capture`.
#[verifier::external_body]
pub(crate) fn capture_first(pattern: &str, text: &str) -> (capture: Capture)
    ensures
        capture@ == first_capture(pattern@, text@),
{
    match regex::Regex::new(pattern) {
        Err(_) => Capture::BadPattern,
        Ok(compiled) => match compiled.captures(text).and_then(|found| found.get(1)) {
            None => Capture::Nothing,
            Some(group) => Capture::Group(group.as_str().to_owned()),
        },
    }
}

/// `infer::Infer::get` on a fresh `Infer`: the first known signature that
/// the leading bytes of `content` match, as its media type and extension.
/// The contract claims only that the outcome is a function of the bytes,
/// and calls it `inferred_kind`.
#[verifier::external_body]
pub(crate) fn infer_kind(content: &[u8]) -> (kind: Option<(String, String)>)
    ensures
        match kind {
            Some((mime, ext)) => inferred_kind(content@) == Some((mime@, ext@)),
            None => inferred_kind(content@) is None,
        },
{
    infer::Infer::new().get(content).map(
        |kind| (kind.mime_type().to_owned(), kind.extension().to_owned()),
    )
}

/// `std::path::Path::extension` of `path`. The contract claims only that
/// the outcome is a function of the text, and calls it `path_extension`.
#[verifier::external_body]
pub(crate) fn extension_of(path: &str) -> (extension: Option<String>)
    ensures
        match extension {
            Some(text) => path_extension(path@) == Some(text@),
            None => path_extension(path@) is None,
        },
{
    std::path::Path::new(path).extension().and_then(|part| part.to_str()).map(
        |part| part.to_owned(),
    )
}

/// `std::path::Path::file_stem` of `path`. The contract claims only that
/// the outcome is a function of the text, and calls it `path_stem`.
#[verifier::external_body]
pub(crate) fn stem_of(path: &str) -> (stem: Option<String>)
    ensures
        match stem {
            Some(text) => path_stem(path@) == Some(text@),
            None => path_stem(path@) is None,
        },
{
    std::path::Path::new(path).file_stem().and_then(|part| part.to_str()).map(
        |part| part.to_owned(),
    )
}

/// `std::path::Path::is_absolute` of `path`. The contract claims only
/// that the outcome is a function of the text, and calls it
/// `path_is_absolute`.
#[verifier::external_body]
pub(crate) fn is_absolute(path: &str) -> (absolute: bool)
    ensures
        absolute == path_is_absolute(path@),
{
    std::path::Path::new(path).is_absolute()
}

/// `std::path::Path::join` of `base` with `part`, as text. The contract
/// claims only that the outcome is a function of the two texts, and calls
/// it `joined_path`.
#[verifier::external_body]
pub(crate) fn join(base: &str, part: &str) -> (path: String)
    ensures
        path@ == joined_path(base@, part@),
{
    std::path::Path::new(base).join(part).to_string_lossy().into_owned()
}

/// `String::push` appends one character to the end of the string.
pub assume_specification[ String::push ](s: &mut String, ch: char)
    ensures
        final(s)@ == old(s)@.push(ch),
;

/// One `i64` from `rand::random`. Nothing is claimed of it.
#[verifier::external_body]
pub(crate) fn draw_i64() -> i64 {
    rand::random::<i64>()
}

/// One `usize` from `rand::random`. Nothing is claimed of it.
#[verifier::external_body]
pub(crate) fn draw_usize() -> usize {
    rand::random::<usize>()
}

/// Whether `c` is one of `0`..`9`, `a`..`f`.
pub open spec fn is_lower_hex(c: char) -> bool {
    ('0' <= c <= '9') || ('a' <= c <= 'f')
}

/// The canonical form of a version-4 identifier: 36 characters, hyphens
/// after the 8th, 12th, 16th and 20th digit, lower-case hexadecimal digits
/// elsewhere, the 13th digit a `4`.
pub open spec fn is_uuid_v4(text: Seq<char>) -> bool {
    &&& text.len() == 36
    &&& forall|i: int|
        0 <= i < 36 ==> if i == 8 || i == 13 || i == 18 || i == 23 {
            #[trigger] text[i] == '-'
        } else {
            is_lower_hex(text[i])
        }
    &&& text[14] == '4'
}

/// `uuid::Uuid::new_v4`, printed. The identifier is random; the contract
/// claims the shape that the crate gives every version-4 identifier it
/// prints.
#[verifier::external_body]
pub(crate) fn fresh_uuid() -> (text: String)
    ensures
        is_uuid_v4(text@),
{
    uuid::Uuid::new_v4().to_string()
}

} // verus!
