//! The resolvers: what each directive stands for, given its resolved
//! parameters and the data bound at the time.
//!
//! A resolver that reads bound data only is a function: its specification
//! gives the one result. A resolver that draws random numbers is stated as
//! a relation: its specification says which results can come out.

use crate::curlyfries::pairs;
use crate::curlyfries::Response;
use crate::curlyfries::ResponseView;
use crate::error::resolution;
use crate::error::ResolverFault;
use crate::file::File;
use crate::file::FileView;
use crate::syntax::texts;
use crate::text::append;
use crate::text::chars_of;
use crate::text::copy_of;
use crate::text::decimal;
use crate::text::decimal_of;
use crate::text::equals_ignoring_case;
use crate::text::i64_value;
use crate::text::parse_i64;
use crate::text::parse_usize;
use crate::text::same_ignoring_case;
use crate::text::same_text;
use crate::text::signed_decimal;
use crate::text::signed_decimal_of;
use crate::text::spells;
use crate::text::text_of;
use crate::text::usize_value;
use crate::trusted::capture_first;
use crate::trusted::draw_i64;
use crate::trusted::draw_usize;
use crate::trusted::first_capture;
use crate::trusted::fresh_uuid;
use crate::trusted::is_uuid_v4;
use crate::trusted::json_selection;
use crate::trusted::node_views;
use crate::trusted::select_json;
use crate::trusted::selection_view;
use crate::trusted::xml_as_json;
use crate::trusted::xml_to_json;
use crate::trusted::Capture;
use crate::trusted::CaptureView;
use crate::trusted::Node;
use crate::trusted::NodeView;
use crate::trusted::QueryFault;
use vstd::prelude::*;

verus! {

/// The value stored under exactly `name`: that of the first such entry.
pub open spec fn named_value(entries: Seq<(Seq<char>, Seq<char>)>, name: Seq<char>) -> Option<
    Seq<char>,
>
    decreases entries.len(),
{
    if entries.len() == 0 {
        None
    } else if entries[0].0 == name {
        Some(entries[0].1)
    } else {
        named_value(entries.drop_first(), name)
    }
}

/// The value stored under `name` or under a name that differs from it only
/// in the case of ASCII letters: that of the first such entry.
pub open spec fn header_value(entries: Seq<(Seq<char>, Seq<char>)>, name: Seq<char>) -> Option<
    Seq<char>,
>
    decreases entries.len(),
{
    if entries.len() == 0 {
        None
    } else if same_ignoring_case(entries[0].0, name) {
        Some(entries[0].1)
    } else {
        header_value(entries.drop_first(), name)
    }
}

/// An optional text, seen as a value of the specification.
pub open spec fn maybe(text: Option<Vec<char>>) -> Option<Seq<char>> {
    match text {
        Some(chars) => Some(chars@),
        None => None,
    }
}

/// Looks `name` up among `entries`, by the exact name.
pub fn find_named(entries: &Vec<(String, String)>, name: &Vec<char>) -> (value: Option<Vec<char>>)
    ensures
        maybe(value) == named_value(pairs(entries@), name@),
{
    let ghost all = pairs(entries@);
    let mut i: usize = 0;
    assert(all.skip(0) == all);
    while i < entries.len()
        invariant
            i <= entries.len(),
            all == pairs(entries@),
            named_value(all, name@) == named_value(all.skip(i as int), name@),
        decreases entries.len() - i,
    {
        let entry = &entries[i];
        let key = chars_of(entry.0.as_str());
        assert(all.skip(i as int)[0] == (entry.0@, entry.1@));
        if same_text(&key, name) {
            return Some(chars_of(entry.1.as_str()));
        }
        assert(all.skip(i as int).drop_first() == all.skip(i + 1));
        i += 1;
    }
    None
}

/// Looks `name` up among `entries`, whatever the case of its ASCII letters.
pub fn find_header(entries: &Vec<(String, String)>, name: &Vec<char>) -> (value: Option<Vec<char>>)
    ensures
        maybe(value) == header_value(pairs(entries@), name@),
{
    let ghost all = pairs(entries@);
    let mut i: usize = 0;
    assert(all.skip(0) == all);
    while i < entries.len()
        invariant
            i <= entries.len(),
            all == pairs(entries@),
            header_value(all, name@) == header_value(all.skip(i as int), name@),
        decreases entries.len() - i,
    {
        let entry = &entries[i];
        let key = chars_of(entry.0.as_str());
        assert(all.skip(i as int)[0] == (entry.0@, entry.1@));
        if equals_ignoring_case(&key, name) {
            return Some(chars_of(entry.1.as_str()));
        }
        assert(all.skip(i as int).drop_first() == all.skip(i + 1));
        i += 1;
    }
    None
}

/// `env`: the value of the environment variable that the first parameter
/// names.
pub open spec fn env_value(
    environment: Seq<(Seq<char>, Seq<char>)>,
    args: Seq<Seq<char>>,
) -> Result<Seq<char>, ResolverFault> {
    if args.len() == 0 {
        Err(ResolverFault::InvalidParameter)
    } else {
        match named_value(environment, args[0]) {
            Some(value) => Ok(value),
            None => Err(ResolverFault::EnvVarMissing),
        }
    }
}

/// Resolves `env` against a snapshot of the environment.
pub fn resolve_env(environment: &Vec<(String, String)>, args: &Vec<Vec<char>>) -> (r: Result<
    Vec<char>,
    ResolverFault,
>)
    ensures
        resolution(r) == env_value(pairs(environment@), texts(args@)),
{
    if args.len() == 0 {
        return Err(ResolverFault::InvalidParameter);
    }
    match find_named(environment, &args[0]) {
        Some(value) => Ok(value),
        None => Err(ResolverFault::EnvVarMissing),
    }
}

/// The text that a scalar node stands for; none for an array or an object.
pub open spec fn scalar_text(node: NodeView) -> Option<Seq<char>> {
    match node {
        NodeView::Null => Some("null"@),
        NodeView::Bool(flag) => Some(
            if flag {
                "true"@
            } else {
                "false"@
            },
        ),
        NodeView::Number(text) => Some(text),
        NodeView::Text(text) => Some(text),
        NodeView::Array => None,
        NodeView::Object => None,
    }
}

/// The one scalar that a path query selects. The query fails with
/// `BodyParseError` where the document does not parse, with
/// `InvalidParameter` where the path does not, with `PathAmbiguous` where
/// it selects two nodes or more, and with `PathNotFound` where it selects
/// none, or one that is no scalar.
pub open spec fn single_scalar(selection: Result<Seq<NodeView>, QueryFault>) -> Result<
    Seq<char>,
    ResolverFault,
> {
    match selection {
        Err(QueryFault::Document) => Err(ResolverFault::BodyParseError),
        Err(QueryFault::Path) => Err(ResolverFault::InvalidParameter),
        Ok(nodes) => if nodes.len() == 0 {
            Err(ResolverFault::PathNotFound)
        } else if nodes.len() > 1 {
            Err(ResolverFault::PathAmbiguous)
        } else {
            match scalar_text(nodes[0]) {
                Some(text) => Ok(text),
                None => Err(ResolverFault::PathNotFound),
            }
        },
    }
}

/// Computes `scalar_text`.
pub fn text_of_scalar(node: &Node) -> (text: Option<Vec<char>>)
    ensures
        maybe(text) == scalar_text(node@),
{
    match node {
        Node::Null => Some(chars_of("null")),
        Node::Bool(flag) => Some(
            if *flag {
                chars_of("true")
            } else {
                chars_of("false")
            },
        ),
        Node::Number(text) => Some(chars_of(text.as_str())),
        Node::Text(text) => Some(chars_of(text.as_str())),
        Node::Array => None,
        Node::Object => None,
    }
}

/// Computes `single_scalar` of what a path query gave.
pub fn pick_scalar(selection: &Result<Vec<Node>, QueryFault>) -> (r: Result<
    Vec<char>,
    ResolverFault,
>)
    ensures
        resolution(r) == single_scalar(selection_view(*selection)),
{
    match selection {
        Err(QueryFault::Document) => Err(ResolverFault::BodyParseError),
        Err(QueryFault::Path) => Err(ResolverFault::InvalidParameter),
        Ok(nodes) => {
            if nodes.len() == 0 {
                Err(ResolverFault::PathNotFound)
            } else if nodes.len() > 1 {
                Err(ResolverFault::PathAmbiguous)
            } else {
                assert(node_views(nodes@)[0] == nodes@[0]@);
                match text_of_scalar(&nodes[0]) {
                    Some(text) => Ok(text),
                    None => Err(ResolverFault::PathNotFound),
                }
            }
        },
    }
}

/// `config` and `uploader`: the one scalar that the first parameter, a
/// path expression, selects in `document`.
pub open spec fn document_value(document: Seq<char>, args: Seq<Seq<char>>) -> Result<
    Seq<char>,
    ResolverFault,
> {
    if args.len() == 0 {
        Err(ResolverFault::InvalidParameter)
    } else {
        single_scalar(json_selection(document, args[0]))
    }
}

/// Resolves `config` or `uploader` against the JSON text `document`.
pub fn resolve_document(document: &str, args: &Vec<Vec<char>>) -> (r: Result<
    Vec<char>,
    ResolverFault,
>)
    ensures
        resolution(r) == document_value(document@, texts(args@)),
{
    if args.len() == 0 {
        return Err(ResolverFault::InvalidParameter);
    }
    let path = text_of(&args[0]);
    let selection = select_json(document, path.as_str());
    pick_scalar(&selection)
}

/// The pattern to compile: `pattern` itself where there are no flags, else
/// `pattern` behind the flags as an inline group, `(?flags)`.
pub open spec fn flagged_pattern(flags: Seq<char>, pattern: Seq<char>) -> Seq<char> {
    if flags.len() == 0 {
        pattern
    } else {
        "(?"@ + flags + ")"@ + pattern
    }
}

/// Computes `flagged_pattern`.
pub fn with_flags(flags: &Vec<char>, pattern: &Vec<char>) -> (full: Vec<char>)
    ensures
        full@ == flagged_pattern(flags@, pattern@),
{
    if flags.len() == 0 {
        copy_of(pattern)
    } else {
        let mut full = chars_of("(?");
        append(&mut full, flags);
        let close = chars_of(")");
        append(&mut full, &close);
        append(&mut full, pattern);
        full
    }
}

/// What a search comes to for the template: the captured text, or
/// `InvalidRegex` for a pattern that does not compile, or `NoRegexMatch`
/// where nothing was captured.
pub open spec fn captured_text(capture: CaptureView) -> Result<Seq<char>, ResolverFault> {
    match capture {
        CaptureView::BadPattern => Err(ResolverFault::InvalidRegex),
        CaptureView::Nothing => Err(ResolverFault::NoRegexMatch),
        CaptureView::Group(text) => Ok(text),
    }
}

/// Computes `captured_text` of what a search gave.
pub fn pick_capture(capture: &Capture) -> (r: Result<Vec<char>, ResolverFault>)
    ensures
        resolution(r) == captured_text(capture@),
{
    match capture {
        Capture::BadPattern => Err(ResolverFault::InvalidRegex),
        Capture::Nothing => Err(ResolverFault::NoRegexMatch),
        Capture::Group(text) => Ok(chars_of(text.as_str())),
    }
}

/// The one scalar that the path `path` selects in the XML text `body`: the
/// body is read into a tree, and the path is applied to that tree as it
/// would be to the same tree written as JSON.
pub open spec fn xml_scalar(body: Seq<char>, path: Seq<char>) -> Result<Seq<char>, ResolverFault> {
    match xml_as_json(body) {
        Some(json) => single_scalar(json_selection(json, path)),
        None => Err(ResolverFault::BodyParseError),
    }
}

/// What `format` extracts from `body`: for `json` and `xml` the one scalar
/// that the path `rest[0]` selects, for `regex` the first capture group of
/// the pattern `rest[1]` under the flags `rest[0]`.
pub open spec fn body_value(body: Seq<char>, format: Seq<char>, rest: Seq<Seq<char>>) -> Result<
    Seq<char>,
    ResolverFault,
> {
    if format == "json"@ {
        if rest.len() < 1 {
            Err(ResolverFault::InvalidParameter)
        } else {
            single_scalar(json_selection(body, rest[0]))
        }
    } else if format == "xml"@ {
        if rest.len() < 1 {
            Err(ResolverFault::InvalidParameter)
        } else {
            xml_scalar(body, rest[0])
        }
    } else if format == "regex"@ {
        if rest.len() < 2 {
            Err(ResolverFault::InvalidParameter)
        } else {
            captured_text(first_capture(flagged_pattern(rest[0], rest[1]), body))
        }
    } else {
        Err(ResolverFault::InvalidParameter)
    }
}

/// The items of `items` from index `from` on; none where there are not
/// that many.
pub open spec fn rest_of<T>(items: Seq<T>, from: int) -> Seq<T> {
    if 0 <= from <= items.len() {
        items.subrange(from, items.len() as int)
    } else {
        Seq::empty()
    }
}

/// Extracts from `body` what `format` and the parameters from index `from`
/// on ask for.
pub fn resolve_body(body: &str, format: &Vec<char>, args: &Vec<Vec<char>>, from: usize) -> (r:
    Result<Vec<char>, ResolverFault>)
    ensures
        resolution(r) == body_value(body@, format@, rest_of(texts(args@), from as int)),
{
    let from = if from <= args.len() {
        from
    } else {
        args.len()
    };
    let ghost rest = texts(args@).subrange(from as int, args.len() as int);
    if spells(format, "json") {
        if args.len() - from < 1 {
            return Err(ResolverFault::InvalidParameter);
        }
        assert(rest[0] == args@[from as int]@);
        let path = text_of(&args[from]);
        let selection = select_json(body, path.as_str());
        pick_scalar(&selection)
    } else if spells(format, "xml") {
        if args.len() - from < 1 {
            return Err(ResolverFault::InvalidParameter);
        }
        assert(rest[0] == args@[from as int]@);
        let path = text_of(&args[from]);
        match xml_to_json(body) {
            Some(json) => {
                let selection = select_json(json.as_str(), path.as_str());
                pick_scalar(&selection)
            },
            None => Err(ResolverFault::BodyParseError),
        }
    } else if spells(format, "regex") {
        if args.len() - from < 2 {
            return Err(ResolverFault::InvalidParameter);
        }
        assert(rest[0] == args@[from as int]@);
        assert(rest[1] == args@[from + 1]@);
        let pattern = text_of(&with_flags(&args[from], &args[from + 1]));
        let capture = capture_first(pattern.as_str(), body);
        pick_capture(&capture)
    } else {
        Err(ResolverFault::InvalidParameter)
    }
}

/// `response`: the field of the response that the first parameter names.
/// Before a response is bound, every query fails with `MissingBinding`.
pub open spec fn response_value(response: Option<ResponseView>, args: Seq<Seq<char>>) -> Result<
    Seq<char>,
    ResolverFault,
> {
    match response {
        None => Err(ResolverFault::MissingBinding),
        Some(response) => if args.len() == 0 {
            Err(ResolverFault::InvalidParameter)
        } else if args[0] == "status_code"@ {
            Ok(decimal(response.status_code as nat))
        } else if args[0] == "url"@ {
            Ok(response.url)
        } else if args[0] == "headers"@ {
            if args.len() < 2 {
                Err(ResolverFault::InvalidParameter)
            } else {
                match header_value(response.headers, args[1]) {
                    Some(value) => Ok(value),
                    None => Err(ResolverFault::HeaderMissing),
                }
            }
        } else if args[0] == "body"@ {
            if args.len() < 2 {
                Err(ResolverFault::InvalidParameter)
            } else {
                body_value(response.body, args[1], rest_of(args, 2))
            }
        } else {
            Err(ResolverFault::InvalidParameter)
        },
    }
}

/// An optional response, seen as a value of the specification.
pub open spec fn bound_response(response: Option<&Response>) -> Option<ResponseView> {
    match response {
        Some(response) => Some(response@),
        None => None,
    }
}

/// Resolves `response`.
pub fn resolve_response(response: Option<&Response>, args: &Vec<Vec<char>>) -> (r: Result<
    Vec<char>,
    ResolverFault,
>)
    ensures
        resolution(r) == response_value(bound_response(response), texts(args@)),
{
    let Some(response) = response else {
        return Err(ResolverFault::MissingBinding);
    };
    if args.len() == 0 {
        return Err(ResolverFault::InvalidParameter);
    }
    let field = &args[0];
    if spells(field, "status_code") {
        Ok(decimal_of(response.status_code as u64))
    } else if spells(field, "url") {
        Ok(chars_of(response.url.as_str()))
    } else if spells(field, "headers") {
        if args.len() < 2 {
            return Err(ResolverFault::InvalidParameter);
        }
        match find_header(&response.headers, &args[1]) {
            Some(value) => Ok(value),
            None => Err(ResolverFault::HeaderMissing),
        }
    } else if spells(field, "body") {
        if args.len() < 2 {
            return Err(ResolverFault::InvalidParameter);
        }
        resolve_body(response.body.as_str(), &args[1], args, 2)
    } else {
        Err(ResolverFault::InvalidParameter)
    }
}

/// `json`, `xml` and `regex`: short for `response` with `body` and that
/// format before the parameters.
pub open spec fn shorthand_value(
    response: Option<ResponseView>,
    format: Seq<char>,
    args: Seq<Seq<char>>,
) -> Result<Seq<char>, ResolverFault> {
    match response {
        None => Err(ResolverFault::MissingBinding),
        Some(response) => body_value(response.body, format, args),
    }
}

/// Resolves `json`, `xml` or `regex`, whichever `format` names.
pub fn resolve_shorthand(
    response: Option<&Response>,
    format: &Vec<char>,
    args: &Vec<Vec<char>>,
) -> (r: Result<Vec<char>, ResolverFault>)
    ensures
        resolution(r) == shorthand_value(bound_response(response), format@, texts(args@)),
{
    let Some(response) = response else {
        return Err(ResolverFault::MissingBinding);
    };
    assert(rest_of(texts(args@), 0) == texts(args@));
    resolve_body(response.body.as_str(), format, args, 0)
}

/// `file`: the field of the file that the first parameter names. Before a
/// file is bound, every query fails with `MissingBinding`.
pub open spec fn file_value(file: Option<FileView>, args: Seq<Seq<char>>) -> Result<
    Seq<char>,
    ResolverFault,
> {
    match file {
        None => Err(ResolverFault::MissingBinding),
        Some(file) => if args.len() == 0 {
            Err(ResolverFault::InvalidParameter)
        } else if args[0] == "name"@ {
            Ok(file.name)
        } else if args[0] == "ext"@ {
            Ok(file.ext)
        } else if args[0] == "mime"@ {
            Ok(file.mime)
        } else if args[0] == "size"@ {
            Ok(decimal(file.buffer.len()))
        } else {
            Err(ResolverFault::InvalidParameter)
        },
    }
}

/// An optional file, seen as a value of the specification.
pub open spec fn bound_file(file: Option<File>) -> Option<FileView> {
    match file {
        Some(file) => Some(file@),
        None => None,
    }
}

/// Resolves `file`.
pub fn resolve_file(file: &Option<File>, args: &Vec<Vec<char>>) -> (r: Result<
    Vec<char>,
    ResolverFault,
>)
    ensures
        resolution(r) == file_value(bound_file(*file), texts(args@)),
{
    let Some(file) = file else {
        return Err(ResolverFault::MissingBinding);
    };
    if args.len() == 0 {
        return Err(ResolverFault::InvalidParameter);
    }
    let field = &args[0];
    if spells(field, "name") {
        Ok(chars_of(file.name.as_str()))
    } else if spells(field, "ext") {
        Ok(chars_of(file.ext.as_str()))
    } else if spells(field, "mime") {
        Ok(chars_of(file.mime.as_str()))
    } else if spells(field, "size") {
        Ok(decimal_of(file.buffer.len() as u64))
    } else {
        Err(ResolverFault::InvalidParameter)
    }
}

/// The remainder of `a` by `b` that takes the sign of `a`.
pub open spec fn truncated_rem(a: int, b: int) -> int {
    let size = if b < 0 {
        -b
    } else {
        b
    };
    if a < 0 {
        -((-a) % size)
    } else {
        a % size
    }
}

/// `random:int` for one draw: the remainder of `draw` by `max - min`, with
/// the sign of `draw`, moved up by `min`. The result may lie below `min`.
/// Where `max` equals `min`, or the span or the result does not fit in 64
/// bits, there is none.
pub open spec fn ranged_integer(min: i64, max: i64, draw: i64) -> Option<i64> {
    let span = max - min;
    let value = truncated_rem(draw as int, span) + min;
    if span == 0 || span < i64::MIN || span > i64::MAX || value < i64::MIN || value > i64::MAX {
        None
    } else {
        Some(value as i64)
    }
}

/// Computes `ranged_integer`.
pub fn random_int(min: i64, max: i64, draw: i64) -> (value: Option<i64>)
    ensures
        value == ranged_integer(min, max, draw),
{
    let span: i128 = max as i128 - min as i128;
    if span == 0 || span < i64::MIN as i128 || span > i64::MAX as i128 {
        return None;
    }
    let Some(rem) = (draw as i128).checked_rem(span) else {
        return None;
    };
    assert(rem == truncated_rem(draw as int, span as int)) by {
        let size = if span < 0 {
            -span
        } else {
            span as int
        };
        assert(0int % size == 0) by (nonlinear_arith)
            requires
                size > 0,
        ;
    }
    let value: i128 = rem + min as i128;
    if value < i64::MIN as i128 || value > i64::MAX as i128 {
        None
    } else {
        Some(value as i64)
    }
}

/// `random:choice` for one draw: the choice at the index that is the
/// remainder of `draw` by the number of choices.
pub open spec fn chosen<T>(choices: Seq<T>, draw: usize) -> Option<T> {
    if choices.len() == 0 {
        None
    } else {
        Some(choices[draw as int % choices.len() as int])
    }
}

/// Picks among `choices[from..]` by `draw`; none where there is no choice.
pub fn random_choice(choices: &Vec<Vec<char>>, from: usize, draw: usize) -> (choice: Option<
    Vec<char>,
>)
    ensures
        maybe(choice) == chosen(rest_of(texts(choices@), from as int), draw),
{
    if from > choices.len() {
        return None;
    }
    let count = choices.len() - from;
    if count == 0 {
        None
    } else {
        let index = draw % count;
        Some(copy_of(&choices[from + index]))
    }
}

/// Picks a character of `alphabet` by `draw`; none where it is empty.
pub fn random_letter(alphabet: &Vec<char>, draw: usize) -> (letter: Option<char>)
    ensures
        letter == chosen(alphabet@, draw),
{
    if alphabet.len() == 0 {
        None
    } else {
        Some(alphabet[draw % alphabet.len()])
    }
}

/// Draws `length` characters from `alphabet`, each picked by a draw of its
/// own; none where a character is needed and the alphabet is empty.
pub fn random_text(length: usize, alphabet: &Vec<char>) -> (text: Option<Vec<char>>)
    ensures
        match text {
            Some(text) => text.len() == length && forall|k: int|
                0 <= k < text.len() ==> alphabet@.contains(#[trigger] text@[k]),
            None => length > 0 && alphabet.len() == 0,
        },
{
    let mut text: Vec<char> = Vec::new();
    let mut i: usize = 0;
    while i < length
        invariant
            i <= length,
            text.len() == i,
            forall|k: int| 0 <= k < text.len() ==> alphabet@.contains(#[trigger] text@[k]),
        decreases length - i,
    {
        let draw = draw_usize();
        match random_letter(alphabet, draw) {
            Some(letter) => {
                proof {
                    lemma_chosen_is_member(alphabet@, draw);
                }
                text.push(letter);
            },
            None => {
                return None;
            },
        }
        i += 1;
    }
    Some(text)
}

/// What `chosen` gives is one of the choices.
pub proof fn lemma_chosen_is_member<T>(choices: Seq<T>, draw: usize)
    ensures
        chosen(choices, draw) matches Some(choice) ==> choices.contains(choice),
{
}

/// The integer that `text` denotes, or `default` where it denotes none.
pub open spec fn integer_or(text: Seq<char>, default: i64) -> i64 {
    match i64_value(text) {
        Some(value) => value,
        None => default,
    }
}

/// The length that `text` denotes, or `default` where it denotes none.
pub open spec fn length_or(text: Seq<char>, default: usize) -> usize {
    match usize_value(text) {
        Some(value) => value,
        None => default,
    }
}

/// The letters and digits that `random:string` draws from when no alphabet
/// is given.
pub open spec fn default_alphabet() -> Seq<char> {
    "abcdefghijklmnopqrstuvwxyzABCDEFGHIJKLMNOPQRSTUVWXYZ0123456789"@
}

/// Whether the floating-point source `floats` can be asked about any two
/// bounds.
pub open spec fn answers_all<F: Fn(&str, &str) -> String>(floats: F) -> bool {
    forall|a: &str, b: &str| call_requires(floats, (a, b))
}

/// Whether the floating-point source `floats` can answer `text` when asked
/// for a value between the bounds written as `low` and `high`.
pub open spec fn drawn<F: Fn(&str, &str) -> String>(
    floats: F,
    low: Seq<char>,
    high: Seq<char>,
    text: Seq<char>,
) -> bool {
    exists|a: &str, b: &str, r: String|
        a@ == low && b@ == high && r@ == text && #[trigger] call_ensures(floats, (a, b), r)
}

/// `random`: which outcomes the kind named by the first parameter admits.
///
/// - `int`, with a minimum and a maximum (1 and 100 where they do not
///   parse): `ranged_integer` of some draw, or `InvalidParameter` where
///   that is none;
/// - `float`, with two bounds: whatever `floats` answers for them;
/// - `choice`: one of the parameters that follow, or `InvalidParameter`
///   where none follows;
/// - `uuid`: a version-4 identifier in canonical form;
/// - `string`, with a length (10 where it does not parse) and optionally an
///   alphabet: that many characters, each one of the alphabet, or
///   `InvalidParameter` where a character is needed and the alphabet is
///   empty.
///
/// Any other kind, or a missing parameter, gives `InvalidParameter`.
pub open spec fn random_admits<F: Fn(&str, &str) -> String>(
    floats: F,
    args: Seq<Seq<char>>,
    o: Result<Seq<char>, ResolverFault>,
) -> bool {
    if args.len() == 0 {
        o == Err::<Seq<char>, ResolverFault>(ResolverFault::InvalidParameter)
    } else if args[0] == "int"@ {
        if args.len() < 3 {
            o == Err::<Seq<char>, ResolverFault>(ResolverFault::InvalidParameter)
        } else {
            exists|draw: i64|
                o == integer_outcome(
                    #[trigger] ranged_integer(
                        integer_or(args[1], 1),
                        integer_or(args[2], 100),
                        draw,
                    ),
                )
        }
    } else if args[0] == "float"@ {
        if args.len() < 3 {
            o == Err::<Seq<char>, ResolverFault>(ResolverFault::InvalidParameter)
        } else {
            o matches Ok(text) && drawn(floats, args[1], args[2], text)
        }
    } else if args[0] == "choice"@ {
        if args.len() < 2 {
            o == Err::<Seq<char>, ResolverFault>(ResolverFault::InvalidParameter)
        } else {
            o matches Ok(text) && rest_of(args, 1).contains(text)
        }
    } else if args[0] == "uuid"@ {
        o matches Ok(text) && is_uuid_v4(text)
    } else if args[0] == "string"@ {
        if args.len() < 2 {
            o == Err::<Seq<char>, ResolverFault>(ResolverFault::InvalidParameter)
        } else {
            let length = length_or(args[1], 10);
            let alphabet = if args.len() < 3 {
                default_alphabet()
            } else {
                args[2]
            };
            if length > 0 && alphabet.len() == 0 {
                o == Err::<Seq<char>, ResolverFault>(ResolverFault::InvalidParameter)
            } else {
                o matches Ok(text) && text.len() == length && forall|k: int|
                    0 <= k < text.len() ==> alphabet.contains(#[trigger] text[k])
            }
        }
    } else {
        o == Err::<Seq<char>, ResolverFault>(ResolverFault::InvalidParameter)
    }
}

/// The outcome of `random:int` for the integer that one draw gave.
pub open spec fn integer_outcome(value: Option<i64>) -> Result<Seq<char>, ResolverFault> {
    match value {
        Some(value) => Ok(signed_decimal(value as int)),
        None => Err(ResolverFault::InvalidParameter),
    }
}

/// Resolves `random`. The random numbers come from `rand`, the identifier
/// from `uuid`, floating values from `floats`.
pub fn resolve_random<F: Fn(&str, &str) -> String>(floats: &F, args: &Vec<Vec<char>>) -> (r: Result<
    Vec<char>,
    ResolverFault,
>)
    requires
        answers_all(*floats),
    ensures
        random_admits(*floats, texts(args@), resolution(r)),
{
    if args.len() == 0 {
        return Err(ResolverFault::InvalidParameter);
    }
    let kind = &args[0];
    if spells(kind, "int") {
        if args.len() < 3 {
            return Err(ResolverFault::InvalidParameter);
        }
        let min = match parse_i64(&args[1]) {
            Some(value) => value,
            None => 1,
        };
        let max = match parse_i64(&args[2]) {
            Some(value) => value,
            None => 100,
        };
        let draw = draw_i64();
        match random_int(min, max, draw) {
            Some(value) => Ok(signed_decimal_of(value)),
            None => Err(ResolverFault::InvalidParameter),
        }
    } else if spells(kind, "float") {
        if args.len() < 3 {
            return Err(ResolverFault::InvalidParameter);
        }
        let low = text_of(&args[1]);
        let high = text_of(&args[2]);
        let (a, b): (&str, &str) = (low.as_str(), high.as_str());
        let answer = floats(a, b);
        assert(call_ensures(*floats, (a, b), answer));
        Ok(chars_of(answer.as_str()))
    } else if spells(kind, "choice") {
        if args.len() < 2 {
            return Err(ResolverFault::InvalidParameter);
        }
        let draw = draw_usize();
        match random_choice(args, 1, draw) {
            Some(choice) => {
                proof {
                    lemma_chosen_is_member(rest_of(texts(args@), 1), draw);
                }
                Ok(choice)
            },
            None => Err(ResolverFault::InvalidParameter),
        }
    } else if spells(kind, "uuid") {
        let identifier = fresh_uuid();
        Ok(chars_of(identifier.as_str()))
    } else if spells(kind, "string") {
        if args.len() < 2 {
            return Err(ResolverFault::InvalidParameter);
        }
        let length = match parse_usize(&args[1]) {
            Some(value) => value,
            None => 10,
        };
        let alphabet = if args.len() < 3 {
            chars_of("abcdefghijklmnopqrstuvwxyzABCDEFGHIJKLMNOPQRSTUVWXYZ0123456789")
        } else {
            copy_of(&args[2])
        };
        match random_text(length, &alphabet) {
            Some(text) => {
                assert(length > 0 ==> alphabet@.contains(text@[0]));
                Ok(text)
            },
            None => Err(ResolverFault::InvalidParameter),
        }
    } else {
        Err(ResolverFault::InvalidParameter)
    }
}

} // verus!
