//! The upload request and the response to it, as plain records, and what
//! is computed on the way from one to the other. Sending and receiving is
//! left to the caller.

use crate::config::Body;
use crate::file::described;
use crate::file::File;
use crate::file::FileView;
use crate::text::append;
use crate::text::chars_of;
use crate::text::part_of;
use crate::text::same_text;
use crate::text::text_of;
use vstd::prelude::*;

verus! {

/// Named texts, in the order in which they were stored.
pub open spec fn pairs(items: Seq<(String, String)>) -> Seq<(Seq<char>, Seq<char>)> {
    items.map_values(|item: (String, String)| (item.0@, item.1@))
}

/// Whether no name occurs twice.
pub open spec fn distinct_names(entries: Seq<(Seq<char>, Seq<char>)>) -> bool {
    forall|i: int, j: int|
        0 <= i < j < entries.len() ==> (#[trigger] entries[i]).0 != (#[trigger] entries[j]).0
}

/// `entries` with `value` stored under `name`: in the place of the first
/// entry of that name, or else at the end.
pub open spec fn stored(
    entries: Seq<(Seq<char>, Seq<char>)>,
    name: Seq<char>,
    value: Seq<char>,
) -> Seq<(Seq<char>, Seq<char>)>
    decreases entries.len(),
{
    if entries.len() == 0 {
        seq![(name, value)]
    } else if entries[0].0 == name {
        seq![(name, value)] + entries.drop_first()
    } else {
        seq![entries[0]] + stored(entries.drop_first(), name, value)
    }
}

/// Storing keeps the names of the other entries, in their places, and
/// adds at most one entry.
proof fn lemma_stored_names(
    entries: Seq<(Seq<char>, Seq<char>)>,
    name: Seq<char>,
    value: Seq<char>,
)
    ensures
        entries.len() <= stored(entries, name, value).len() <= entries.len() + 1,
        forall|i: int|
            0 <= i < entries.len() ==> (#[trigger] stored(entries, name, value)[i]).0
                == entries[i].0,
        stored(entries, name, value).len() == entries.len() + 1 ==> stored(
            entries,
            name,
            value,
        ).last().0 == name && forall|i: int|
            0 <= i < entries.len() ==> (#[trigger] entries[i]).0 != name,
    decreases entries.len(),
{
    if entries.len() > 0 && entries[0].0 != name {
        let rest = entries.drop_first();
        lemma_stored_names(rest, name, value);
        let after = stored(entries, name, value);
        assert forall|i: int| 0 <= i < entries.len() implies (#[trigger] after[i]).0
            == entries[i].0 by {
            if i > 0 {
                assert(after[i] == stored(rest, name, value)[i - 1]);
                assert(rest[i - 1] == entries[i]);
            }
        }
        if after.len() == entries.len() + 1 {
            assert(after.last() == stored(rest, name, value).last());
            assert forall|i: int| 0 <= i < entries.len() implies (#[trigger] entries[i]).0
                != name by {
                if i > 0 {
                    assert(rest[i - 1] == entries[i]);
                }
            }
        }
    }
}

/// Storing a value keeps names distinct.
pub proof fn law_stored_distinct(
    entries: Seq<(Seq<char>, Seq<char>)>,
    name: Seq<char>,
    value: Seq<char>,
)
    requires
        distinct_names(entries),
    ensures
        distinct_names(stored(entries, name, value)),
{
    lemma_stored_names(entries, name, value);
    let after = stored(entries, name, value);
    assert forall|i: int, j: int| 0 <= i < j < after.len() implies (#[trigger] after[i]).0 != (
    #[trigger] after[j]).0 by {
        if j < entries.len() {
            assert(after[i].0 == entries[i].0);
            assert(after[j].0 == entries[j].0);
        } else {
            assert(after[i].0 == entries[i].0);
            assert(entries[i].0 != name);
        }
    }
}

/// Stores `value` under `name` in `entries`.
pub fn store(entries: &mut Vec<(String, String)>, name: String, value: String)
    ensures
        pairs(final(entries)@) == stored(pairs(old(entries)@), name@, value@),
{
    let ghost before = pairs(entries@);
    let key = chars_of(name.as_str());
    let mut i: usize = 0;
    assert(before.skip(0) == before);
    assert(before.take(0) + stored(before.skip(0), name@, value@) == stored(
        before,
        name@,
        value@,
    ));
    while i < entries.len()
        invariant
            i <= entries.len(),
            entries@ == old(entries)@,
            before == pairs(entries@),
            key@ == name@,
            stored(before, name@, value@) == before.take(i as int) + stored(
                before.skip(i as int),
                name@,
                value@,
            ),
        decreases entries.len() - i,
    {
        let here = chars_of(entries[i].0.as_str());
        let ghost rest = before.skip(i as int);
        assert(rest[0] == before[i as int]);
        assert(rest.drop_first() == before.skip(i + 1));
        if same_text(&here, &key) {
            entries.set(i, (name, value));
            assert(pairs(entries@) == before.take(i as int) + (seq![(name@, value@)]
                + before.skip(i + 1)));
            return ;
        }
        assert(before.take(i as int) + (seq![rest[0]] + stored(
            before.skip(i + 1),
            name@,
            value@,
        )) == before.take(i + 1) + stored(before.skip(i + 1), name@, value@));
        i += 1;
    }
    assert(before.take(i as int) == before);
    entries.push((name, value));
    assert(pairs(entries@) == before + seq![(name@, value@)]);
}

/// The header line for one entry: the name, a colon and a space, the
/// value.
pub open spec fn header_line(entry: (Seq<char>, Seq<char>)) -> Seq<char> {
    entry.0 + ": "@ + entry.1
}

/// The name and the value in a header line: what stands before and behind
/// the first colon that a space follows. None where there is no such
/// colon.
pub open spec fn split_header(line: Seq<char>) -> Option<(Seq<char>, Seq<char>)> {
    split_header_from(line, 0)
}

/// `split_header`, with the search starting at `from`.
pub open spec fn split_header_from(line: Seq<char>, from: int) -> Option<(Seq<char>, Seq<char>)>
    decreases line.len() - from,
{
    if from < 0 || from + 1 >= line.len() {
        None
    } else if line[from] == ':' && line[from + 1] == ' ' {
        Some((line.subrange(0, from), line.subrange(from + 2, line.len() as int)))
    } else {
        split_header_from(line, from + 1)
    }
}

/// Computes `split_header`.
pub fn parse_header(line: &str) -> (entry: Option<(String, String)>)
    ensures
        match entry {
            Some((name, value)) => split_header(line@) == Some((name@, value@)),
            None => split_header(line@) is None,
        },
{
    let chars = chars_of(line);
    let mut at: usize = 0;
    while chars.len() - at >= 2
        invariant
            at <= chars.len(),
            chars@ == line@,
            split_header(chars@) == split_header_from(chars@, at as int),
        decreases chars.len() - at,
    {
        if chars[at] == ':' && chars[at + 1] == ' ' {
            let name = part_of(&chars, 0, at);
            let value = part_of(&chars, at + 2, chars.len());
            return Some((text_of(&name), text_of(&value)));
        }
        at += 1;
    }
    None
}

/// The headers that a run of header lines leaves behind, read in order: a
/// line without a name is passed over, and a later value takes the place
/// of an earlier one of the same name.
pub open spec fn collected(lines: Seq<Seq<char>>) -> Seq<(Seq<char>, Seq<char>)>
    decreases lines.len(),
{
    if lines.len() == 0 {
        Seq::empty()
    } else {
        match split_header(lines.last()) {
            Some((name, value)) => stored(collected(lines.drop_last()), name, value),
            None => collected(lines.drop_last()),
        }
    }
}

/// What is collected from header lines has no name twice.
pub proof fn law_collected_distinct(lines: Seq<Seq<char>>)
    ensures
        distinct_names(collected(lines)),
    decreases lines.len(),
{
    if lines.len() > 0 {
        law_collected_distinct(lines.drop_last());
        match split_header(lines.last()) {
            Some((name, value)) => {
                law_stored_distinct(collected(lines.drop_last()), name, value);
            },
            None => {},
        }
    }
}

/// The texts of `lines`.
pub open spec fn line_texts(lines: Seq<String>) -> Seq<Seq<char>> {
    lines.map_values(|line: String| line@)
}

/// What came back from the remote end.
#[derive(Debug, Clone)]
pub struct Response {
    pub status_code: u32,
    pub url: String,
    pub headers: Vec<(String, String)>,
    pub body: String,
}

/// `Response`, with sequences for strings.
pub struct ResponseView {
    pub status_code: u32,
    pub url: Seq<char>,
    pub headers: Seq<(Seq<char>, Seq<char>)>,
    pub body: Seq<char>,
}

impl View for Response {
    type V = ResponseView;

    open spec fn view(&self) -> ResponseView {
        ResponseView {
            status_code: self.status_code,
            url: self.url@,
            headers: pairs(self.headers@),
            body: self.body@,
        }
    }
}

impl Response {
    /// Whether the status code is in the success class, 200 to 299.
    pub fn ok(&self) -> (success: bool)
        ensures
            success == (200 <= self.status_code <= 299),
    {
        self.status_code / 100 == 2
    }
}

/// One upload: where it goes, how, with which headers and which file, and
/// the response once there is one.
#[derive(Debug, Clone)]
pub struct CurlyFry {
    pub url: String,
    pub method: String,
    pub headers: Vec<(String, String)>,
    pub file: File,
    pub response: Option<Response>,
}

/// `CurlyFry`, with sequences for strings.
pub struct CurlyFryView {
    pub url: Seq<char>,
    pub method: Seq<char>,
    pub headers: Seq<(Seq<char>, Seq<char>)>,
    pub file: FileView,
    pub response: Option<ResponseView>,
}

impl View for CurlyFry {
    type V = CurlyFryView;

    open spec fn view(&self) -> CurlyFryView {
        CurlyFryView {
            url: self.url@,
            method: self.method@,
            headers: pairs(self.headers@),
            file: self.file@,
            response: match self.response {
                Some(response) => Some(response@),
                None => None,
            },
        }
    }
}

/// The headers to send: those that are set, and for a raw body the media
/// type of the file as `Content-Type`.
pub open spec fn headers_to_send(
    headers: Seq<(Seq<char>, Seq<char>)>,
    raw: bool,
    mime: Seq<char>,
) -> Seq<(Seq<char>, Seq<char>)> {
    if raw {
        stored(headers, "Content-Type"@, mime)
    } else {
        headers
    }
}

impl CurlyFry {
    /// An upload that is still empty: no address, no method, no headers,
    /// no response, and an empty file in the place of the one to come.
    pub fn new() -> (curlyfry: Self)
        ensures
            curlyfry@ == (CurlyFryView {
                url: Seq::empty(),
                method: Seq::empty(),
                headers: Seq::empty(),
                file: described(Seq::empty(), "This will be overridden"@),
                response: None,
            }),
    {
        let nothing: Vec<u8> = Vec::new();
        let headers: Vec<(String, String)> = Vec::new();
        assert(pairs(headers@) == Seq::<(Seq<char>, Seq<char>)>::empty());
        CurlyFry {
            url: String::new(),
            method: String::new(),
            headers,
            file: File::new(nothing.as_slice(), "This will be overridden".to_owned()),
            response: None,
        }
    }

    /// Sets the address. Nothing else changes.
    pub fn set_url(&mut self, url: String)
        ensures
            final(self)@ == (CurlyFryView { url: url@, ..old(self)@ }),
    {
        self.url = url;
    }

    /// Sets the method. Nothing else changes.
    pub fn set_method(&mut self, method: String)
        ensures
            final(self)@ == (CurlyFryView { method: method@, ..old(self)@ }),
    {
        self.method = method;
    }

    /// Sets the headers. Nothing else changes.
    pub fn set_headers(&mut self, headers: Vec<(String, String)>)
        ensures
            final(self)@ == (CurlyFryView { headers: pairs(headers@), ..old(self)@ }),
    {
        self.headers = headers;
    }

    /// Sets the file. Nothing else changes.
    pub fn set_file(&mut self, file: File)
        ensures
            final(self)@ == (CurlyFryView { file: file@, ..old(self)@ }),
    {
        self.file = file;
    }

    /// Makes the headers ready for sending with a body of the kind `body`
    /// and hands out the header lines, one for each header, in order.
    pub fn prepare(&mut self, body: &Body) -> (lines: Vec<String>)
        ensures
            final(self)@ == (CurlyFryView {
                headers: headers_to_send(old(self)@.headers, body is Raw, old(self)@.file.mime),
                ..old(self)@
            }),
            line_texts(lines@) == final(self)@.headers.map_values(
                |entry: (Seq<char>, Seq<char>)| header_line(entry),
            ),
    {
        match body {
            Body::Raw => {
                store(&mut self.headers, "Content-Type".to_owned(), self.file.mime.clone());
            },
            Body::MultipartFormData { .. } => {},
        }
        let mut lines: Vec<String> = Vec::new();
        let mut i: usize = 0;
        let ghost all = pairs(self.headers@);
        while i < self.headers.len()
            invariant
                i <= self.headers.len(),
                all == pairs(self.headers@),
                line_texts(lines@) == all.take(i as int).map_values(
                    |entry: (Seq<char>, Seq<char>)| header_line(entry),
                ),
            decreases self.headers.len() - i,
        {
            let mut line = chars_of(self.headers[i].0.as_str());
            append(&mut line, &chars_of(": "));
            append(&mut line, &chars_of(self.headers[i].1.as_str()));
            let ghost before = line_texts(lines@);
            lines.push(text_of(&line));
            assert(line@ == header_line(all[i as int]));
            assert(line_texts(lines@) == before.push(line@));
            assert(all.take(i + 1).map_values(|entry: (Seq<char>, Seq<char>)| header_line(entry))
                == all.take(i as int).map_values(
                |entry: (Seq<char>, Seq<char>)| header_line(entry),
            ).push(header_line(all[i as int])));
            i += 1;
        }
        assert(all.take(i as int) == all);
        lines
    }

    /// Records the response: the status, the address that answered, the
    /// headers collected from `header_lines`, and the body. Nothing else
    /// changes.
    pub fn receive(
        &mut self,
        status_code: u32,
        url: String,
        header_lines: &Vec<String>,
        body: String,
    )
        ensures
            final(self)@ == (CurlyFryView {
                response: Some(
                    ResponseView {
                        status_code,
                        url: url@,
                        headers: collected(line_texts(header_lines@)),
                        body: body@,
                    },
                ),
                ..old(self)@
            }),
    {
        let mut headers: Vec<(String, String)> = Vec::new();
        let mut i: usize = 0;
        let ghost lines = line_texts(header_lines@);
        assert(lines.take(0) == Seq::<Seq<char>>::empty());
        assert(pairs(headers@) == Seq::<(Seq<char>, Seq<char>)>::empty());
        while i < header_lines.len()
            invariant
                i <= header_lines.len(),
                lines == line_texts(header_lines@),
                pairs(headers@) == collected(lines.take(i as int)),
            decreases header_lines.len() - i,
        {
            assert(lines.take(i + 1).drop_last() == lines.take(i as int));
            assert(lines.take(i + 1).last() == header_lines@[i as int]@);
            match parse_header(header_lines[i].as_str()) {
                Some((name, value)) => {
                    store(&mut headers, name, value);
                },
                None => {},
            }
            i += 1;
        }
        assert(lines.take(i as int) == lines);
        self.response = Some(Response { status_code, url, headers, body });
    }
}

} // verus!
