//! The statistics screen's figures, and which stored entries a clean-up
//! removes.

use std::collections::HashSet;

use vstd::prelude::*;

use crate::history::HistoryEntry;
use crate::library::LibraryEntry;
use crate::model::{Id, Manga, STATUS_COMPLETED};

verus! {

/// The library in figures.
#[derive(Debug, Clone, Copy, PartialEq, Eq, Structural)]
pub struct Statistics {
    pub entries: usize,
    pub chapters: i64,
    /// Chapters read: all chapters less the unread ones, shown as zero when
    /// the counts disagree.
    pub read: i64,
    pub unread: i64,
    pub downloaded: i64,
    /// Entries whose series is finished.
    pub completed: usize,
}

/// The sum of a count over the first `k` entries.
pub open spec fn sum_chapters(e: Seq<LibraryEntry>, k: int) -> int
    decreases k,
{
    if k <= 0 {
        0
    } else {
        sum_chapters(e, k - 1) + e[k - 1].total_chapters
    }
}

pub open spec fn sum_unread(e: Seq<LibraryEntry>, k: int) -> int
    decreases k,
{
    if k <= 0 {
        0
    } else {
        sum_unread(e, k - 1) + e[k - 1].unread_count
    }
}

pub open spec fn sum_downloaded(e: Seq<LibraryEntry>, k: int) -> int
    decreases k,
{
    if k <= 0 {
        0
    } else {
        sum_downloaded(e, k - 1) + e[k - 1].downloaded_count
    }
}

pub open spec fn count_completed(e: Seq<LibraryEntry>, k: int) -> int
    decreases k,
{
    if k <= 0 {
        0
    } else {
        count_completed(e, k - 1) + if e[k - 1].manga.status == STATUS_COMPLETED {
            1int
        } else {
            0int
        }
    }
}

pub open spec fn fits(v: int) -> bool {
    i64::MIN <= v <= i64::MAX
}

/// Every running total the sums go through fits in an `i64` (adding them
/// up would overflow otherwise).
pub open spec fn sums_fit(e: Seq<LibraryEntry>) -> bool {
    &&& forall|k: int| 0 <= k <= e.len() ==> fits(#[trigger] sum_chapters(e, k))
    &&& forall|k: int| 0 <= k <= e.len() ==> fits(#[trigger] sum_unread(e, k))
    &&& forall|k: int| 0 <= k <= e.len() ==> fits(#[trigger] sum_downloaded(e, k))
    &&& fits(sum_chapters(e, e.len() as int) - sum_unread(e, e.len() as int))
}

proof fn lemma_completed_bounded(e: Seq<LibraryEntry>, k: int)
    requires
        0 <= k,
    ensures
        0 <= count_completed(e, k) <= k,
    decreases k,
{
    if k > 0 {
        lemma_completed_bounded(e, k - 1);
    }
}

/// The library's figures.
pub fn statistics(entries: &Vec<LibraryEntry>) -> (s: Statistics)
    requires
        sums_fit(entries@),
    ensures
        s.entries == entries@.len(),
        s.chapters == sum_chapters(entries@, entries@.len() as int),
        s.unread == sum_unread(entries@, entries@.len() as int),
        s.read == (if s.chapters - s.unread >= 0 {
            s.chapters - s.unread
        } else {
            0
        }),
        s.downloaded == sum_downloaded(entries@, entries@.len() as int),
        s.completed == count_completed(entries@, entries@.len() as int),
{
    let mut chapters: i64 = 0;
    let mut unread: i64 = 0;
    let mut downloaded: i64 = 0;
    let mut completed: usize = 0;
    let mut i: usize = 0;
    while i < entries.len()
        invariant
            0 <= i <= entries@.len(),
            sums_fit(entries@),
            chapters == sum_chapters(entries@, i as int),
            unread == sum_unread(entries@, i as int),
            downloaded == sum_downloaded(entries@, i as int),
            completed == count_completed(entries@, i as int),
        decreases entries@.len() - i,
    {
        let e = &entries[i];
        proof {
            assert(fits(sum_chapters(entries@, i + 1)));
            assert(fits(sum_unread(entries@, i + 1)));
            assert(fits(sum_downloaded(entries@, i + 1)));
            lemma_completed_bounded(entries@, i as int);
        }
        chapters = chapters + e.total_chapters;
        unread = unread + e.unread_count;
        downloaded = downloaded + e.downloaded_count;
        if e.manga.status == STATUS_COMPLETED {
            completed = completed + 1;
        }
        i = i + 1;
    }
    let diff = chapters - unread;
    let read = if diff >= 0 {
        diff
    } else {
        0
    };
    Statistics { entries: entries.len(), chapters, read, unread, downloaded, completed }
}

/// The total reading time over the first `k` history entries.
pub open spec fn sum_time(h: Seq<HistoryEntry>, k: int) -> int
    decreases k,
{
    if k <= 0 {
        0
    } else {
        sum_time(h, k - 1) + h[k - 1].history.time_read
    }
}

/// The total reading time of a history, in milliseconds.
pub fn time_read(history: &Vec<HistoryEntry>) -> (t: i64)
    requires
        forall|k: int| 0 <= k <= history@.len() ==> fits(#[trigger] sum_time(history@, k)),
    ensures
        t == sum_time(history@, history@.len() as int),
{
    let mut t: i64 = 0;
    let mut i: usize = 0;
    while i < history.len()
        invariant
            0 <= i <= history@.len(),
            forall|k: int| 0 <= k <= history@.len() ==> fits(#[trigger] sum_time(history@, k)),
            t == sum_time(history@, i as int),
        decreases history@.len() - i,
    {
        proof {
            assert(fits(sum_time(history@, i + 1)));
        }
        t = t + history[i].history.time_read;
        i = i + 1;
    }
    t
}

/// The stored entries among the first `k` that are neither in the library
/// nor in the history.
pub open spec fn orphans_prefix(all: Seq<Manga>, keep: Set<Id>, k: int) -> Seq<Id>
    decreases k,
{
    if k <= 0 {
        seq![]
    } else {
        let rest = orphans_prefix(all, keep, k - 1);
        let m = all[k - 1];
        if !m.favorite && !keep.contains(m.id) {
            rest.push(m.id)
        } else {
            rest
        }
    }
}

/// The stored entries a clean-up removes, in storage order: neither
/// favourited nor kept by the reading history.
pub fn orphans(all: &Vec<Manga>, keep: &HashSet<Id>) -> (ids: Vec<Id>)
    ensures
        ids@ == orphans_prefix(all@, keep@, all@.len() as int),
{
    let mut ids: Vec<Id> = Vec::new();
    let mut i: usize = 0;
    while i < all.len()
        invariant
            0 <= i <= all@.len(),
            ids@ == orphans_prefix(all@, keep@, i as int),
        decreases all@.len() - i,
    {
        let m = &all[i];
        if !m.favorite && !keep.contains(&m.id) {
            ids.push(m.id);
        }
        i = i + 1;
    }
    ids
}

} // verus!
