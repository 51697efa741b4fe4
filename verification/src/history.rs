//! The record of past uploads: what is kept, in which order, and when the
//! oldest entry gives way. Reading and writing the record is left to the
//! caller.

use crate::config::Config;
use crate::file::File;
use crate::text::append;
use crate::text::chars_of;
use crate::text::text_of;
use crate::trusted::join;
use crate::trusted::joined_path;
use vstd::prelude::*;

verus! {

/// One upload of the past: the name under which the file was archived and
/// the addresses that the upload gave.
#[derive(Debug, Clone)]
pub struct History {
    pub file_name: String,
    pub url: String,
    pub manage_url: Option<String>,
    pub thumbnail_url: Option<String>,
}

/// `History`, with sequences for strings.
pub struct HistoryView {
    pub file_name: Seq<char>,
    pub url: Seq<char>,
    pub manage_url: Option<Seq<char>>,
    pub thumbnail_url: Option<Seq<char>>,
}

/// An optional string, seen as a value of the specification.
pub open spec fn optional(text: Option<String>) -> Option<Seq<char>> {
    match text {
        Some(text) => Some(text@),
        None => None,
    }
}

impl View for History {
    type V = HistoryView;

    open spec fn view(&self) -> HistoryView {
        HistoryView {
            file_name: self.file_name@,
            url: self.url@,
            manage_url: optional(self.manage_url),
            thumbnail_url: optional(self.thumbnail_url),
        }
    }
}

/// The views of `items`, in order.
pub open spec fn records(items: Seq<History>) -> Seq<HistoryView> {
    items.map_values(|item: History| item@)
}

/// The text of an optional address in a listing.
pub open spec fn or_none(text: Option<Seq<char>>) -> Seq<char> {
    match text {
        Some(text) => text,
        None => "None"@,
    }
}

/// The line of one record in a listing: its four fields, parted by a comma
/// and a space.
pub open spec fn record_line(record: HistoryView) -> Seq<char> {
    record.file_name + ", "@ + record.url + ", "@ + or_none(record.manage_url) + ", "@ + or_none(
        record.thumbnail_url,
    )
}

/// The listing of `items`: one line for each, oldest first, with a line
/// feed between one line and the next and none at the end.
pub open spec fn listing(items: Seq<HistoryView>) -> Seq<char>
    decreases items.len(),
{
    if items.len() == 0 {
        Seq::empty()
    } else if items.len() == 1 {
        record_line(items[0])
    } else {
        listing(items.drop_last()) + "\n"@ + record_line(items.last())
    }
}

/// The name under which a file with the extension `ext` is archived at
/// the time written as `time`.
pub open spec fn archive_name(time: Seq<char>, ext: Seq<char>) -> Seq<char> {
    time + "."@ + ext
}

/// What there is to say of the record: the listing under its heading where
/// the archive is enabled and a record was found, else why there is none.
pub open spec fn report_text(enabled: bool, found: bool, items: Seq<HistoryView>) -> Seq<char> {
    if !enabled {
        "Upload history is disabled."@
    } else if !found {
        "No upload history found."@
    } else {
        "File Name, URL, Manage URL, Thumbnail URL\n----------------\n"@ + listing(items)
    }
}

/// Whether a record of `count` entries has to drop its oldest one before
/// it takes another: it has an entry, and as many as `max` or more.
pub open spec fn is_full(count: nat, max: u32) -> bool {
    count > 0 && count >= max
}

/// The record of uploads, oldest first, the directory that holds it, and
/// the number of uploads at which the oldest gives way to a new one.
pub struct HistoryManager {
    pub history: Vec<History>,
    pub history_path: String,
    pub max_history: u32,
}

impl HistoryManager {
    /// An empty record in the archive that `config` names.
    pub fn new(config: &Config) -> (manager: Self)
        ensures
            manager.history@.len() == 0,
            manager.history_path@ == config.data.archive.path@,
            manager.max_history == config.data.archive.max,
    {
        HistoryManager {
            history: Vec::new(),
            history_path: config.data.archive.path.clone(),
            max_history: config.data.archive.max,
        }
    }

    /// The directory in which the archived files lie.
    pub fn uploads_path(&self) -> (path: String)
        ensures
            path@ == joined_path(self.history_path@, "uploads"@),
    {
        join(self.history_path.as_str(), "uploads")
    }

    /// The file in which the record is kept.
    pub fn record_path(&self) -> (path: String)
        ensures
            path@ == joined_path(self.history_path@, "history.csv"@),
    {
        join(self.history_path.as_str(), "history.csv")
    }

    /// Where the archived file named `file_name` lies.
    pub fn archived_path(&self, file_name: &str) -> (path: String)
        ensures
            path@ == joined_path(joined_path(self.history_path@, "uploads"@), file_name@),
    {
        join(self.uploads_path().as_str(), file_name)
    }

    /// Takes in what was read from the record, if there was one to read:
    /// its entries follow those already held, in their order. Says whether
    /// there was one.
    pub fn load(&mut self, read: Option<Vec<History>>) -> (found: bool)
        ensures
            found == read is Some,
            final(self).history_path == old(self).history_path,
            final(self).max_history == old(self).max_history,
            final(self).history@ == match read {
                Some(entries) => old(self).history@ + entries@,
                None => old(self).history@,
            },
    {
        match read {
            Some(mut entries) => {
                self.history.append(&mut entries);
                true
            },
            None => false,
        }
    }

    /// Drops the oldest entry, if there is one, and hands it out.
    pub fn delete_oldest(&mut self) -> (oldest: Option<History>)
        ensures
            final(self).history_path == old(self).history_path,
            final(self).max_history == old(self).max_history,
            old(self).history@.len() == 0 ==> oldest is None,
            old(self).history@.len() == 0 ==> final(self).history@ == old(self).history@,
            old(self).history@.len() > 0 ==> oldest == Some(old(self).history@[0]),
            old(self).history@.len() > 0 ==> final(self).history@ == old(self).history@.skip(1),
    {
        if self.history.len() > 0 {
            let oldest = self.history.remove(0);
            assert(self.history@ == old(self).history@.skip(1));
            Some(oldest)
        } else {
            None
        }
    }

    /// Adds an upload of `file_buf` made at the time written as `time`.
    /// Where the record already holds `max_history` entries or more, the
    /// oldest one goes first and is handed out.
    pub fn add(
        &mut self,
        file_buf: &File,
        time: &str,
        url: String,
        manage_url: Option<String>,
        thumbnail_url: Option<String>,
    ) -> (evicted: Option<History>)
        ensures
            final(self).history_path == old(self).history_path,
            final(self).max_history == old(self).max_history,
            evicted is Some <==> is_full(old(self).history@.len(), old(self).max_history),
            evicted matches Some(oldest) ==> oldest == old(self).history@[0],
            final(self).history@.len() > 0,
            final(self).history@.drop_last() == if evicted is Some {
                old(self).history@.skip(1)
            } else {
                old(self).history@
            },
            final(self).history@.last()@ == (HistoryView {
                file_name: archive_name(time@, file_buf.ext@),
                url: url@,
                manage_url: optional(manage_url),
                thumbnail_url: optional(thumbnail_url),
            }),
    {
        let evicted = if self.history.len() >= self.max_history as usize {
            self.delete_oldest()
        } else {
            None
        };
        let mut name = chars_of(time);
        append(&mut name, &chars_of("."));
        append(&mut name, &chars_of(file_buf.ext.as_str()));
        let ghost before = self.history@;
        self.history.push(History { file_name: text_of(&name), url, manage_url, thumbnail_url });
        assert(self.history@.drop_last() == before);
        evicted
    }

    /// What to show of the record, and whether that is a listing: it is
    /// one where the archive is `enabled` and a record was `found`.
    pub fn report(&self, enabled: bool, found: bool) -> (r: (String, bool))
        ensures
            r.0@ == report_text(enabled, found, records(self.history@)),
            r.1 == (enabled && found),
    {
        if !enabled {
            ("Upload history is disabled.".to_owned(), false)
        } else if !found {
            ("No upload history found.".to_owned(), false)
        } else {
            let heading = "File Name, URL, Manage URL, Thumbnail URL\n----------------\n";
            let mut text = chars_of(heading);
            append(&mut text, &chars_of(self.list().as_str()));
            (text_of(&text), true)
        }
    }

    /// The listing of the record.
    pub fn list(&self) -> (output: String)
        ensures
            output@ == listing(records(self.history@)),
    {
        let ghost all = records(self.history@);
        let mut output: Vec<char> = Vec::new();
        let mut i: usize = 0;
        assert(all.take(0) == Seq::<HistoryView>::empty());
        while i < self.history.len()
            invariant
                i <= self.history.len(),
                all == records(self.history@),
                output@ == listing(all.take(i as int)),
            decreases self.history.len() - i,
        {
            let record = &self.history[i];
            assert(all.take(i + 1).drop_last() == all.take(i as int));
            assert(all.take(i + 1).last() == record@);
            if i > 0 {
                append(&mut output, &chars_of("\n"));
            }
            append(&mut output, &chars_of(record.file_name.as_str()));
            append(&mut output, &chars_of(", "));
            append(&mut output, &chars_of(record.url.as_str()));
            append(&mut output, &chars_of(", "));
            match &record.manage_url {
                Some(address) => append(&mut output, &chars_of(address.as_str())),
                None => append(&mut output, &chars_of("None")),
            }
            append(&mut output, &chars_of(", "));
            match &record.thumbnail_url {
                Some(address) => append(&mut output, &chars_of(address.as_str())),
                None => append(&mut output, &chars_of("None")),
            }
            proof {
                let line = record_line(record@);
                let head = listing(all.take(i as int));
                if i > 0 {
                    assert(output@ == head + "\n"@ + line);
                } else {
                    assert(head == Seq::<char>::empty());
                    assert(output@ == line);
                }
            }
            i += 1;
        }
        assert(all.take(i as int) == all);
        text_of(&output)
    }
}

} // verus!
