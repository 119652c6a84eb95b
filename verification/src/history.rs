//! The History tab: recently read chapters, with a resume shortcut.

use vstd::prelude::*;

use crate::format::{duration_text, format_duration};
use crate::model::{Chapter, Id};

verus! {

/// When a chapter was last read, and for how long in all.
#[derive(Debug, Clone, Copy, PartialEq, Eq, Structural)]
pub struct History {
    pub read_at: i64,
    pub time_read: i64,
}

/// A chapter in the reading history.
pub struct HistoryEntry {
    pub manga_id: Id,
    pub manga_title: String,
    pub cover_url: Option<String>,
    pub source: Id,
    pub chapter: Chapter,
    pub history: History,
}

/// The state of the History tab.
pub struct HistoryState {
    pub entries: Vec<HistoryEntry>,
    pub query: String,
    pub dirty: bool,
}

/// What a history row asks for.
#[derive(Debug, Clone, Copy, PartialEq, Eq, Structural)]
pub enum HistoryAction {
    Nothing,
    /// Take the chapter out of the history.
    Remove { chapter_id: Id },
    OpenReader { manga_id: Id, chapter_id: Id },
    OpenDetails { manga_id: Id },
}

/// The line under a history row's chapter name: when it was read, then for
/// how long, when that is known.
pub open spec fn meta_text(when: Seq<char>, time_read: i64) -> Seq<char> {
    if time_read > 0 {
        when + " · "@ + duration_text(time_read)
    } else {
        when
    }
}

impl HistoryState {
    /// The tab before its first load.
    pub fn new() -> (s: HistoryState)
        ensures
            s.entries@.len() == 0,
            s.query@.len() == 0,
            s.dirty,
    {
        HistoryState { entries: Vec::new(), query: String::new(), dirty: true }
    }

    /// The search changed: the history is read again with it.
    pub fn query_changed(&mut self)
        ensures
            final(self).dirty,
            final(self).entries == old(self).entries,
            final(self).query == old(self).query,
    {
        self.dirty = true;
    }
}

/// What a history row does with the clicks of a frame. The buttons inside
/// the row take precedence over the row: removing first, then resuming or a
/// click on the row itself, then the cover, which opens the details.
pub fn history_action(
    entry: &HistoryEntry,
    remove: bool,
    resume: bool,
    row_clicked: bool,
    cover_clicked: bool,
) -> (a: HistoryAction)
    ensures
        a == (if remove {
            HistoryAction::Remove { chapter_id: entry.chapter.id }
        } else if resume || (row_clicked && !cover_clicked) {
            HistoryAction::OpenReader { manga_id: entry.manga_id, chapter_id: entry.chapter.id }
        } else if cover_clicked {
            HistoryAction::OpenDetails { manga_id: entry.manga_id }
        } else {
            HistoryAction::Nothing
        }),
{
    if remove {
        HistoryAction::Remove { chapter_id: entry.chapter.id }
    } else if resume || (row_clicked && !cover_clicked) {
        HistoryAction::OpenReader { manga_id: entry.manga_id, chapter_id: entry.chapter.id }
    } else if cover_clicked {
        HistoryAction::OpenDetails { manga_id: entry.manga_id }
    } else {
        HistoryAction::Nothing
    }
}

/// The line under a history row's chapter name, given how the time it was
/// read is printed.
pub fn history_meta(when: String, time_read: i64) -> (s: String)
    ensures
        s@ == meta_text(when@, time_read),
{
    let mut s = when;
    if time_read > 0 {
        s.append(" · ");
        let d = format_duration(time_read);
        s.append(d.as_str());
    }
    s
}

} // verus!
