//! The Updates tab: chapters that recently appeared in library entries.

use std::collections::HashSet;

use vstd::prelude::*;

use crate::format::{decimal, push_decimal};
use crate::library::toggle_selection;
use crate::model::{Chapter, Id};
use crate::text::{contains_chars, contains_seq, lowercase_chars, lowercased, search_needle, trimmed};

verus! {

/// A new chapter of a library entry.
pub struct UpdatesEntry {
    pub manga_id: Id,
    pub manga_title: String,
    pub cover_url: Option<String>,
    pub source: Id,
    pub chapter: Chapter,
    pub downloaded: bool,
}

/// The state of the Updates tab.
pub struct UpdatesState {
    pub entries: Vec<UpdatesEntry>,
    pub query: String,
    /// Selected chapters, by id.
    pub selection: HashSet<Id>,
    pub dirty: bool,
}

/// What a click on a row of a chapter list does.
#[derive(Debug, Clone, Copy, PartialEq, Eq, Structural)]
pub enum RowClick {
    /// Nothing is selected: the chapter opens in the reader.
    OpenReader { manga_id: Id, chapter_id: Id },
    /// A selection is being made: the chapter joins or leaves it.
    Toggled,
}

/// Whether a title matches a search needle: an empty needle matches
/// everything, otherwise the lowercased title must contain it.
pub open spec fn title_matches(title: Seq<char>, needle: Seq<char>) -> bool {
    needle.len() == 0 || contains_seq(lowercased(title), needle)
}

/// The rows whose title matches, among the first `k`, in order.
pub open spec fn matching_prefix(entries: Seq<UpdatesEntry>, needle: Seq<char>, k: int) -> Seq<
    UpdatesEntry,
>
    decreases k,
{
    if k <= 0 {
        seq![]
    } else {
        let rest = matching_prefix(entries, needle, k - 1);
        if title_matches(entries[k - 1].manga_title@, needle) {
            rest.push(entries[k - 1])
        } else {
            rest
        }
    }
}

/// The download jobs of the selected chapters among the first `k` rows.
pub open spec fn jobs_prefix(entries: Seq<UpdatesEntry>, selected: Set<Id>, k: int) -> Seq<
    (Id, Id),
>
    decreases k,
{
    if k <= 0 {
        seq![]
    } else {
        let rest = jobs_prefix(entries, selected, k - 1);
        let e = entries[k - 1];
        if selected.contains(e.chapter.id) {
            rest.push((e.manga_id, e.chapter.id))
        } else {
            rest
        }
    }
}

pub open spec fn unref_rows(rows: Seq<&UpdatesEntry>) -> Seq<UpdatesEntry> {
    rows.map_values(|e: &UpdatesEntry| *e)
}

/// Whether a title contains the needle, case aside.
pub fn title_contains(title: &str, needle: &Vec<char>) -> (b: bool)
    ensures
        b == title_matches(title@, needle@),
{
    if needle.len() == 0 {
        return true;
    }
    let lower = lowercase_chars(title);
    contains_chars(&lower, needle)
}

/// The header's count of rows: "12 recent chapter(s)".
pub fn recent_count_label(n: usize) -> (s: String)
    ensures
        s@ == decimal(n as nat) + " recent chapter(s)"@,
{
    let mut s = String::new();
    push_decimal(&mut s, n as u64);
    s.append(" recent chapter(s)");
    s
}

impl UpdatesState {
    /// The tab before its first load.
    pub fn new() -> (s: UpdatesState)
        ensures
            s.entries@.len() == 0,
            s.query@.len() == 0,
            s.selection@ == Set::<Id>::empty(),
            s.dirty,
    {
        UpdatesState {
            entries: Vec::new(),
            query: String::new(),
            selection: HashSet::new(),
            dirty: true,
        }
    }

    /// The rows shown: those whose title contains the trimmed, lowercased
    /// query, in order.
    pub fn filtered(&self) -> (rows: Vec<&UpdatesEntry>)
        ensures
            unref_rows(rows@) == matching_prefix(
                self.entries@,
                lowercased(trimmed(self.query@)),
                self.entries@.len() as int,
            ),
    {
        let needle = search_needle(self.query.as_str());
        let mut rows: Vec<&UpdatesEntry> = Vec::new();
        let mut i: usize = 0;
        while i < self.entries.len()
            invariant
                0 <= i <= self.entries@.len(),
                needle@ == lowercased(trimmed(self.query@)),
                unref_rows(rows@) == matching_prefix(self.entries@, needle@, i as int),
            decreases self.entries@.len() - i,
        {
            let e = &self.entries[i];
            if title_contains(e.manga_title.as_str(), &needle) {
                let ghost before = rows@;
                rows.push(e);
                proof {
                    assert(unref_rows(rows@) =~= unref_rows(before).push(self.entries@[i as int]));
                }
            }
            i = i + 1;
        }
        rows
    }

    /// The selected chapters to download, as (entry, chapter) pairs in row
    /// order; chapters span several entries, so each is queued with its own.
    pub fn download_jobs(&self) -> (jobs: Vec<(Id, Id)>)
        ensures
            jobs@ == jobs_prefix(self.entries@, self.selection@, self.entries@.len() as int),
    {
        let mut jobs: Vec<(Id, Id)> = Vec::new();
        let mut i: usize = 0;
        while i < self.entries.len()
            invariant
                0 <= i <= self.entries@.len(),
                jobs@ == jobs_prefix(self.entries@, self.selection@, i as int),
            decreases self.entries@.len() - i,
        {
            let e = &self.entries[i];
            if self.selection.contains(&e.chapter.id) {
                jobs.push((e.manga_id, e.chapter.id));
            }
            i = i + 1;
        }
        jobs
    }

    /// A click on a chapter's row: with nothing selected the chapter opens,
    /// otherwise it joins or leaves the selection.
    pub fn click_row(&mut self, manga_id: Id, chapter_id: Id) -> (r: RowClick)
        ensures
            old(self).selection@.len() == 0 ==> r == (RowClick::OpenReader {
                manga_id,
                chapter_id,
            }) && final(self).selection@ == old(self).selection@,
            old(self).selection@.len() > 0 ==> r == RowClick::Toggled && final(self).selection@
                == (if old(self).selection@.contains(chapter_id) {
                old(self).selection@.remove(chapter_id)
            } else {
                old(self).selection@.insert(chapter_id)
            }),
            final(self).entries == old(self).entries,
            final(self).query == old(self).query,
            final(self).dirty == old(self).dirty,
    {
        if self.selection.len() == 0 {
            RowClick::OpenReader { manga_id, chapter_id }
        } else {
            toggle_selection(&mut self.selection, chapter_id);
            RowClick::Toggled
        }
    }
}

} // verus!
