//! The reader's paging and chapter hand-off, apart from drawing.
//!
//! Every operation changes the reader state and returns the effects the
//! caller has to carry out (write progress, open a chapter, fetch pages), in
//! the order in which they are to happen.

use vstd::prelude::*;

use crate::format::{int_text, push_int};
use crate::model::{Chapter, Id, ReadingMode};

verus! {

/// One chapter's worth of pages inside the reader's page list. Infinite scroll
/// keeps several of these back to back.
pub struct ReaderSegment {
    pub chapter_id: Id,
    pub name: String,
    /// Index of this chapter's first page in the reader's page list.
    pub start: usize,
    pub len: usize,
}

/// The reader preferences that steer paging.
#[derive(Debug, Clone, Copy, PartialEq, Eq, Structural)]
pub struct ReaderPrefs {
    pub double_pages: bool,
    pub mark_read_on_last_page: bool,
    pub skip_read_chapters_on_finish: bool,
    pub remove_after_read: bool,
    pub incognito: bool,
}

/// Work the reader asks of its caller.
#[derive(Debug, Clone, Copy, PartialEq, Eq, Structural)]
pub enum ReaderEffect {
    /// Store the page reached in the chapter, and the chapter's page count
    /// when it is known; then record the reading time in the history.
    RecordProgress { manga_id: Id, chapter_id: Id, page: i64, page_count: Option<i64> },
    /// Start measuring reading time afresh, recording nothing.
    RestartTimer,
    /// Mark the chapter read unless it already is, deleting its download when
    /// asked to.
    MarkRead { chapter_id: Id, delete_download: bool },
    /// Open the reader on another chapter.
    OpenChapter { manga_id: Id, chapter_id: Id },
    /// Tell the user there is no chapter after this one.
    LastChapterNotice,
    /// Drop any panning of the page.
    ResetPan,
    /// Fetch the page list of a chapter.
    FetchPages { manga_id: Id, chapter_id: Id },
}

/// What a page-list reply did to the reader.
#[derive(Debug, PartialEq, Eq)]
pub enum PagesOutcome {
    /// The reply was for no chapter the reader is waiting on.
    Ignored,
    /// The chapter was appended after the loaded ones, with this many pages.
    Appended(usize),
    /// The chapter being appended had no usable pages: the end is reached.
    EndReached,
    /// Appending failed; the end is treated as reached and the error shown.
    AppendFailed(String),
    /// The opened chapter arrived with this many pages.
    Loaded(usize),
    /// The opened chapter could not be loaded.
    LoadFailed,
}

/// Which part of a page a click landed on.
#[derive(Debug, Clone, Copy, PartialEq, Eq, Structural)]
pub enum ClickZone {
    Left,
    Middle,
    Right,
}

/// What a click on the reader surface does.
#[derive(Debug, Clone, Copy, PartialEq, Eq, Structural)]
pub enum ClickAction {
    Turn(i32),
    ToggleMenu,
}

/// First segment at or after `k` that belongs to `id`, or -1.
pub open spec fn segment_from(segs: Seq<ReaderSegment>, id: Id, k: int) -> int
    decreases segs.len() - k,
{
    if k < 0 || k >= segs.len() {
        -1
    } else if segs[k].chapter_id == id {
        k
    } else {
        segment_from(segs, id, k + 1)
    }
}

/// First chapter at or after `k` with the id `id`, or -1.
pub open spec fn chapter_from(chapters: Seq<Chapter>, id: Id, k: int) -> int
    decreases chapters.len() - k,
{
    if k < 0 || k >= chapters.len() {
        -1
    } else if chapters[k].id == id {
        k
    } else {
        chapter_from(chapters, id, k + 1)
    }
}

/// First unread chapter at or after `k`, or the length when there is none.
pub open spec fn unread_from(chapters: Seq<Chapter>, k: int) -> int
    decreases chapters.len() - k,
{
    if k < 0 || k >= chapters.len() {
        k
    } else if chapters[k].read {
        unread_from(chapters, k + 1)
    } else {
        k
    }
}

pub open spec fn sat_sub(a: int, b: int) -> int {
    if a >= b {
        a - b
    } else {
        0
    }
}

/// Page number within the chapter and the chapter's length, when `chapter_id`
/// is one of the segments; otherwise the position in, and the length of, the
/// whole run.
pub open spec fn local_index_of(segs: Seq<ReaderSegment>, chapter_id: Id, current: usize, total: usize) -> (i64, i64) {
    let k = segment_from(segs, chapter_id, 0);
    if k >= 0 {
        ((sat_sub(current as int, segs[k].start as int)) as i64, segs[k].len as i64)
    } else {
        (current as i64, total as i64)
    }
}

proof fn lemma_segment_from_range(segs: Seq<ReaderSegment>, id: Id, k: int)
    ensures
        segment_from(segs, id, k) == -1 || (k <= segment_from(segs, id, k) < segs.len()
            && segs[segment_from(segs, id, k)].chapter_id == id),
        0 <= k && segment_from(segs, id, k) == -1 ==> forall|j: int|
            k <= j < segs.len() ==> segs[j].chapter_id != id,
    decreases segs.len() - k,
{
    if k < 0 || k >= segs.len() {
    } else if segs[k].chapter_id == id {
    } else {
        lemma_segment_from_range(segs, id, k + 1);
    }
}

proof fn lemma_chapter_from_range(chapters: Seq<Chapter>, id: Id, k: int)
    ensures
        chapter_from(chapters, id, k) == -1 || (k <= chapter_from(chapters, id, k) < chapters.len()
            && chapters[chapter_from(chapters, id, k)].id == id),
    decreases chapters.len() - k,
{
    if k < 0 || k >= chapters.len() {
    } else if chapters[k].id == id {
    } else {
        lemma_chapter_from_range(chapters, id, k + 1);
    }
}

proof fn lemma_unread_from_range(chapters: Seq<Chapter>, k: int)
    requires
        0 <= k,
    ensures
        k <= unread_from(chapters, k),
        unread_from(chapters, k) < chapters.len() ==> !chapters[unread_from(chapters, k)].read,
        k <= chapters.len() ==> unread_from(chapters, k) <= chapters.len(),
        forall|j: int| k <= j < unread_from(chapters, k) && j < chapters.len() ==> chapters[j].read,
    decreases chapters.len() - k,
{
    if k >= chapters.len() {
    } else if chapters[k].read {
        lemma_unread_from_range(chapters, k + 1);
    } else {
    }
}

/// Finds the first segment of `chapter_id`.
fn find_segment(segments: &[ReaderSegment], chapter_id: Id) -> (k: Option<usize>)
    ensures
        match k {
            Some(k) => k == segment_from(segments@, chapter_id, 0) && k < segments@.len()
                && segments@[k as int].chapter_id == chapter_id,
            None => segment_from(segments@, chapter_id, 0) == -1,
        },
{
    proof {
        lemma_segment_from_range(segments@, chapter_id, 0);
    }
    let mut i: usize = 0;
    while i < segments.len()
        invariant
            i <= segments@.len(),
            segment_from(segments@, chapter_id, 0) == segment_from(segments@, chapter_id, i as int),
        decreases segments@.len() - i,
    {
        if segments[i].chapter_id == chapter_id {
            return Some(i);
        }
        i = i + 1;
    }
    None
}

/// Finds the first chapter with the id `chapter_id`.
fn find_chapter(chapters: &Vec<Chapter>, chapter_id: Id) -> (k: Option<usize>)
    ensures
        match k {
            Some(k) => k == chapter_from(chapters@, chapter_id, 0) && k < chapters@.len()
                && chapters@[k as int].id == chapter_id,
            None => chapter_from(chapters@, chapter_id, 0) == -1,
        },
{
    proof {
        lemma_chapter_from_range(chapters@, chapter_id, 0);
    }
    let mut i: usize = 0;
    while i < chapters.len()
        invariant
            i <= chapters@.len(),
            chapter_from(chapters@, chapter_id, 0) == chapter_from(chapters@, chapter_id, i as int),
        decreases chapters@.len() - i,
    {
        if chapters[i].id == chapter_id {
            return Some(i);
        }
        i = i + 1;
    }
    None
}

/// Position and length of `chapter_id` within a run of segments.
pub fn local_index(segments: &[ReaderSegment], chapter_id: Id, current: usize, total: usize) -> (r: (i64, i64))
    ensures
        r == local_index_of(segments@, chapter_id, current, total),
{
    match find_segment(segments, chapter_id) {
        Some(k) => {
            let start = segments[k].start;
            let page = if current >= start {
                current - start
            } else {
                0
            };
            (page as i64, segments[k].len as i64)
        },
        None => (current as i64, total as i64),
    }
}


/// Segments lie back to back from the first page to the last.
pub open spec fn segments_cover(segs: Seq<ReaderSegment>, n: int) -> bool {
    &&& segs.len() == 0 ==> n == 0
    &&& segs.len() > 0 ==> segs[0].start == 0 && segs.last().start + segs.last().len == n
    &&& forall|k: int|
        0 <= k < segs.len() - 1 ==> #[trigger] segs[k + 1].start == segs[k].start + segs[k].len
}

/// Every page is owned by the chapter of the segment it lies in.
pub open spec fn owners_match(segs: Seq<ReaderSegment>, owner: Seq<Id>) -> bool {
    forall|k: int, i: int|
        0 <= k < segs.len() && segs[k].start <= i < segs[k].start + segs[k].len ==> #[trigger] owner[i]
            == #[trigger] segs[k].chapter_id
}

/// No chapter appears twice in the run.
pub open spec fn distinct_segments(segs: Seq<ReaderSegment>) -> bool {
    forall|j: int, k: int|
        0 <= j < segs.len() && 0 <= k < segs.len() && j != k ==> #[trigger] segs[j].chapter_id
            != #[trigger] segs[k].chapter_id
}

/// The chapter `offset` positions away from `chapter_id` in reading order;
/// moving forward may skip chapters already read.
pub open spec fn neighbour_of(chapters: Seq<Chapter>, chapter_id: Id, offset: int, skip_read: bool) -> Option<int> {
    let index = chapter_from(chapters, chapter_id, 0);
    if index < 0 {
        None
    } else if index + offset < 0 {
        None
    } else {
        let t = if offset > 0 && skip_read {
            unread_from(chapters, index + offset)
        } else {
            index + offset
        };
        if t < chapters.len() {
            Some(t)
        } else {
            None
        }
    }
}

/// What marking a chapter read asks for.
pub open spec fn mark_effects(chapter_id: Id, prefs: ReaderPrefs) -> Seq<ReaderEffect> {
    if prefs.incognito || chapter_id == 0 {
        seq![]
    } else {
        seq![ReaderEffect::MarkRead { chapter_id, delete_download: prefs.remove_after_read }]
    }
}

/// What a click does: the edges turn pages along the reading direction, the
/// middle (or anywhere, in a continuous mode) toggles the menu.
pub open spec fn click_result(zone: ClickZone, mode: ReadingMode) -> ClickAction {
    if mode.continuous() {
        ClickAction::ToggleMenu
    } else {
        match zone {
            ClickZone::Left => ClickAction::Turn(if mode is RightToLeft { 1i32 } else { -1i32 }),
            ClickZone::Right => ClickAction::Turn(if mode is RightToLeft { -1i32 } else { 1i32 }),
            ClickZone::Middle => ClickAction::ToggleMenu,
        }
    }
}

pub fn click_action(zone: ClickZone, mode: ReadingMode) -> (a: ClickAction)
    ensures
        a == click_result(zone, mode),
{
    if mode.is_continuous() {
        ClickAction::ToggleMenu
    } else {
        match zone {
            ClickZone::Left => ClickAction::Turn(if mode.is_rtl() { 1 } else { -1 }),
            ClickZone::Right => ClickAction::Turn(if mode.is_rtl() { -1 } else { 1 }),
            ClickZone::Middle => ClickAction::ToggleMenu,
        }
    }
}

/// Pages a key press moves by: the horizontal arrows follow the reading
/// direction.
pub fn key_step(horizontal_key: bool, delta: i32, mode: ReadingMode) -> (d: i32)
    requires
        delta != i32::MIN,
    ensures
        d == (if horizontal_key && mode is RightToLeft { -delta } else { delta as int }),
{
    if horizontal_key && mode.is_rtl() {
        -delta
    } else {
        delta
    }
}

/// The reader's state, without its drawing details (zoom, pan, the timer and
/// the per-page aspect ratios, which the window keeps).
pub struct ReaderState<P> {
    pub manga_id: Id,
    /// The chapter the reader is currently showing; in infinite scroll this
    /// follows whatever is under the viewport.
    pub chapter_id: Id,
    pub manga_title: String,
    pub chapter_name: String,
    /// Every chapter of the manga, in reading order, for prev/next navigation.
    pub chapters: Vec<Chapter>,
    pub pages: Vec<P>,
    /// Which chapter each page belongs to, parallel to `pages`.
    pub page_owner: Vec<Id>,
    /// Chapter boundaries, in reading order.
    pub segments: Vec<ReaderSegment>,
    /// Chapter whose pages are being fetched to append, if any.
    pub appending: Option<Id>,
    /// Set when there is nothing left to append.
    pub reached_end: bool,
    pub current: usize,
    pub loading: bool,
    pub error: Option<String>,
    pub menu_visible: bool,
    pub mode: ReadingMode,
    /// Set once, to restore the stored page after the list arrives.
    pub restore_page: Option<i64>,
    /// A page the continuous view is to scroll to.
    pub scroll_to: Option<usize>,
}

impl<P> ReaderState<P> {
    /// The state's well-formedness: pages, owners and segments agree, and the
    /// current page is one of the pages.
    pub open spec fn wf(self) -> bool {
        &&& self.page_owner@.len() == self.pages@.len()
        &&& segments_cover(self.segments@, self.pages@.len() as int)
        &&& owners_match(self.segments@, self.page_owner@)
        &&& distinct_segments(self.segments@)
        &&& self.pages@.len() == 0 ==> self.current == 0
        &&& self.pages@.len() > 0 ==> self.current < self.pages@.len()
    }

    /// The page number within the chapter on screen, and that chapter's length.
    pub open spec fn local_page_of(self) -> (i64, i64) {
        local_index_of(self.segments@, self.chapter_id, self.current, self.pages@.len() as usize)
    }

    /// What recording the reading position asks for.
    pub open spec fn save_effects(self, prefs: ReaderPrefs) -> Seq<ReaderEffect> {
        if self.chapter_id == 0 {
            seq![]
        } else if prefs.incognito {
            seq![ReaderEffect::RestartTimer]
        } else {
            let (page, total) = self.local_page_of();
            seq![
                ReaderEffect::RecordProgress {
                    manga_id: self.manga_id,
                    chapter_id: self.chapter_id,
                    page,
                    page_count: if total > 0 { Some(total) } else { None },
                },
            ]
        }
    }

    /// Pages one turn moves by: two in double-page horizontal reading.
    pub open spec fn step_of(self, prefs: ReaderPrefs) -> int {
        if prefs.double_pages && self.mode.horizontal() {
            2
        } else {
            1
        }
    }

    pub open spec fn with_current(self, current: usize) -> Self {
        ReaderState { current, ..self }
    }

    /// Moving by `delta` pages, rolling over into the neighbouring chapters.
    pub open spec fn advance_result(self, delta: int, prefs: ReaderPrefs) -> (Self, Seq<ReaderEffect>) {
        let n = self.pages@.len() as int;
        if n == 0 {
            (self, seq![])
        } else {
            let last = n - 1;
            let target = self.current + delta * self.step_of(prefs);
            if target < 0 {
                match neighbour_of(self.chapters@, self.chapter_id, -1, prefs.skip_read_chapters_on_finish) {
                    Some(i) => (
                        self,
                        self.save_effects(prefs) + seq![
                            ReaderEffect::OpenChapter {
                                manga_id: self.manga_id,
                                chapter_id: self.chapters@[i].id,
                            },
                        ],
                    ),
                    None => (self, seq![]),
                }
            } else if target > last {
                let marks = if prefs.mark_read_on_last_page {
                    mark_effects(self.chapter_id, prefs)
                } else {
                    seq![]
                };
                match neighbour_of(self.chapters@, self.chapter_id, 1, prefs.skip_read_chapters_on_finish) {
                    Some(i) => (
                        self,
                        marks + self.save_effects(prefs) + seq![
                            ReaderEffect::OpenChapter {
                                manga_id: self.manga_id,
                                chapter_id: self.chapters@[i].id,
                            },
                        ],
                    ),
                    None => (self, marks + seq![ReaderEffect::LastChapterNotice]),
                }
            } else {
                let moved = self.with_current(target as usize);
                let marks = if target == last && prefs.mark_read_on_last_page {
                    mark_effects(self.chapter_id, prefs)
                } else {
                    seq![]
                };
                (moved, seq![ReaderEffect::ResetPan] + moved.save_effects(prefs) + marks)
            }
        }
    }

    /// The page number within the chapter currently on screen. In infinite
    /// scroll `current` indexes the whole loaded run, so it has to be made
    /// chapter-local.
    pub fn local_page(&self) -> (r: (i64, i64))
        ensures
            r == self.local_page_of(),
    {
        local_index(self.segments.as_slice(), self.chapter_id, self.current, self.pages.len())
    }

    /// The effects of recording the reading position.
    fn save_progress(&self, prefs: &ReaderPrefs, effects: &mut Vec<ReaderEffect>)
        ensures
            final(effects)@ == old(effects)@ + self.save_effects(*prefs),
    {
        let (page, total) = self.local_page();
        if self.chapter_id == 0 {
            return;
        }
        if prefs.incognito {
            effects.push(ReaderEffect::RestartTimer);
            return;
        }
        effects.push(
            ReaderEffect::RecordProgress {
                manga_id: self.manga_id,
                chapter_id: self.chapter_id,
                page,
                page_count: if total > 0 {
                    Some(total)
                } else {
                    None
                },
            },
        );
    }

    /// Index of the chapter `offset` positions away in reading order.
    pub fn neighbour_chapter(&self, offset: i32, skip_read: bool) -> (r: Option<usize>)
        ensures
            match r {
                Some(i) => neighbour_of(self.chapters@, self.chapter_id, offset as int, skip_read)
                    == Some(i as int) && i < self.chapters@.len(),
                None => neighbour_of(self.chapters@, self.chapter_id, offset as int, skip_read).is_none(),
            },
    {
        let index = match find_chapter(&self.chapters, self.chapter_id) {
            Some(i) => i,
            None => return None,
        };
        let target = index as i128 + offset as i128;
        if target < 0 {
            return None;
        }
        if target >= self.chapters.len() as i128 {
            proof {
                if offset > 0 && skip_read {
                    lemma_unread_from_range(self.chapters@, target as int);
                }
            }
            return None;
        }
        let mut t = target as usize;
        if offset > 0 && skip_read {
            while t < self.chapters.len() && self.chapters[t].read
                invariant
                    target <= t <= self.chapters@.len(),
                    unread_from(self.chapters@, target as int) == unread_from(self.chapters@, t as int),
                decreases self.chapters@.len() - t,
            {
                t = t + 1;
            }
        }
        if t < self.chapters.len() {
            Some(t)
        } else {
            None
        }
    }

    /// Moves by `delta` pages, rolling over into the neighbouring chapters.
    /// Without pages nothing happens: "past the last one" would otherwise be
    /// trivially true while the first chapter is still loading.
    pub fn advance(&mut self, delta: i32, prefs: &ReaderPrefs) -> (effects: Vec<ReaderEffect>)
        requires
            old(self).wf(),
            old(self).pages@.len() > 0 ==> i32::MIN <= delta * old(self).step_of(*prefs) <= i32::MAX,
            old(self).pages@.len() > 0 ==> i32::MIN <= old(self).current + delta * old(self).step_of(
                *prefs,
            ) <= i32::MAX,
        ensures
            (*final(self), effects@) == old(self).advance_result(delta as int, *prefs),
            final(self).wf(),
    {
        let mut effects: Vec<ReaderEffect> = Vec::new();
        if self.pages.len() == 0 {
            return effects;
        }
        let step: i128 = if prefs.double_pages && self.mode.is_horizontal() {
            2
        } else {
            1
        };
        let last = self.pages.len() - 1;
        let target: i128 = self.current as i128 + delta as i128 * step;
        if target < 0 {
            match self.neighbour_chapter(-1, prefs.skip_read_chapters_on_finish) {
                Some(i) => {
                    self.save_progress(prefs, &mut effects);
                    effects.push(
                        ReaderEffect::OpenChapter {
                            manga_id: self.manga_id,
                            chapter_id: self.chapters[i].id,
                        },
                    );
                },
                None => {},
            }
            return effects;
        }
        if target > last as i128 {
            if prefs.mark_read_on_last_page {
                push_mark(self.chapter_id, prefs, &mut effects);
            }
            match self.neighbour_chapter(1, prefs.skip_read_chapters_on_finish) {
                Some(i) => {
                    self.save_progress(prefs, &mut effects);
                    effects.push(
                        ReaderEffect::OpenChapter {
                            manga_id: self.manga_id,
                            chapter_id: self.chapters[i].id,
                        },
                    );
                },
                None => {
                    effects.push(ReaderEffect::LastChapterNotice);
                },
            }
            return effects;
        }
        self.current = target as usize;
        effects.push(ReaderEffect::ResetPan);
        self.save_progress(prefs, &mut effects);
        if self.current == last && prefs.mark_read_on_last_page {
            push_mark(self.chapter_id, prefs, &mut effects);
        }
        effects
    }
}

/// The segment holding page `i`, searched from segment `k` on.
proof fn lemma_segment_containing(segs: Seq<ReaderSegment>, n: int, i: int, k: int) -> (j: int)
    requires
        segments_cover(segs, n),
        0 <= i < n,
        0 <= k < segs.len(),
        segs[k].start <= i,
    ensures
        k <= j < segs.len(),
        segs[j].start <= i < segs[j].start + segs[j].len,
    decreases segs.len() - k,
{
    if i < segs[k].start + segs[k].len {
        k
    } else {
        if k == segs.len() - 1 {
            assert(false);
            k
        } else {
            assert(segs[k + 1].start == segs[k].start + segs[k].len);
            lemma_segment_containing(segs, n, i, k + 1)
        }
    }
}

/// Every segment ends within the run.
proof fn lemma_segment_within(segs: Seq<ReaderSegment>, n: int, k: int)
    requires
        segments_cover(segs, n),
        0 <= k < segs.len(),
    ensures
        segs[k].start + segs[k].len <= n,
    decreases segs.len() - k,
{
    if k < segs.len() - 1 {
        assert(segs[k + 1].start == segs[k].start + segs[k].len);
        lemma_segment_within(segs, n, k + 1);
    }
}

/// In a well-formed run, the owner of every page has a segment.
proof fn lemma_owner_has_segment(segs: Seq<ReaderSegment>, owner: Seq<Id>, n: int, i: int)
    requires
        segments_cover(segs, n),
        owners_match(segs, owner),
        0 <= i < n,
    ensures
        0 <= segment_from(segs, owner[i], 0) < segs.len(),
        segs[segment_from(segs, owner[i], 0)].chapter_id == owner[i],
{
    assert(segs.len() > 0);
    let j = lemma_segment_containing(segs, n, i, 0);
    assert(owner[i] == segs[j].chapter_id);
    lemma_segment_from_range(segs, owner[i], 0);
}

impl<P> ReaderState<P> {
    /// Keeping `chapter_id` in step with the page under the viewport, and
    /// marking the chapter left behind read once it has been scrolled past
    /// (outside incognito mode).
    pub open spec fn follow_result(self, prefs: ReaderPrefs) -> (Self, Seq<ReaderEffect>) {
        if self.current >= self.page_owner@.len() {
            (self, seq![])
        } else {
            let owner = self.page_owner@[self.current as int];
            if owner == self.chapter_id {
                (self, seq![])
            } else {
                let marks = mark_effects(self.chapter_id, prefs);
                let k = segment_from(self.segments@, owner, 0);
                (
                    ReaderState { chapter_id: owner, chapter_name: self.segments@[k].name, ..self },
                    marks + seq![ReaderEffect::RestartTimer],
                )
            }
        }
    }

    /// Asking for the chapter that follows the last one loaded. Read chapters
    /// are not skipped: that would leave holes in a continuous read.
    pub open spec fn request_next_result(self) -> (Self, Seq<ReaderEffect>) {
        if self.appending.is_some() || self.reached_end || self.segments@.len() == 0 {
            (self, seq![])
        } else {
            let last = self.segments@.last().chapter_id;
            let pos = chapter_from(self.chapters@, last, 0);
            if pos < 0 {
                (self, seq![])
            } else if pos + 1 >= self.chapters@.len() {
                (ReaderState { reached_end: true, ..self }, seq![])
            } else {
                let next = self.chapters@[pos + 1].id;
                (
                    ReaderState { appending: Some(next), ..self },
                    seq![ReaderEffect::FetchPages { manga_id: self.manga_id, chapter_id: next }],
                )
            }
        }
    }

    /// Turning pages the way a click or arrow key would: continuous modes
    /// scroll instead of paging, and infinite scroll pulls the next chapter in
    /// when three pages or fewer are left.
    pub open spec fn turn_result(self, delta: int, prefs: ReaderPrefs) -> (Self, Seq<ReaderEffect>) {
        let n = self.pages@.len() as int;
        if n == 0 {
            (self, seq![])
        } else if self.mode.continuous() {
            let t = if self.current + delta < 0 {
                0
            } else {
                self.current + delta
            };
            let c = if t < n - 1 {
                t
            } else {
                n - 1
            };
            let s1 = ReaderState { current: c as usize, scroll_to: Some(c as usize), ..self };
            let (s2, e1) = s1.follow_result(prefs);
            let e2 = s2.save_effects(prefs);
            if s2.mode is Infinite && n - c <= 3 {
                let (s3, e3) = s2.request_next_result();
                (s3, e1 + e2 + e3)
            } else {
                (s2, e1 + e2)
            }
        } else {
            self.advance_result(delta, prefs)
        }
    }

    /// Every field but the page run (pages, owners, segments) is unchanged.
    pub open spec fn same_but_run(self, other: Self) -> bool {
        &&& self.manga_id == other.manga_id
        &&& self.chapter_id == other.chapter_id
        &&& self.manga_title == other.manga_title
        &&& self.chapter_name == other.chapter_name
        &&& self.chapters == other.chapters
        &&& self.appending == other.appending
        &&& self.reached_end == other.reached_end
        &&& self.current == other.current
        &&& self.loading == other.loading
        &&& self.error == other.error
        &&& self.menu_visible == other.menu_visible
        &&& self.mode == other.mode
        &&& self.restore_page == other.restore_page
        &&& self.scroll_to == other.scroll_to
    }

    /// `self` is `old` with a chapter's pages appended after the loaded run.
    pub open spec fn appended_from(self, old: Self, chapter_id: Id, pages: Seq<P>) -> bool {
        let k = chapter_from(old.chapters@, chapter_id, 0);
        &&& self.same_but_run(old)
        &&& self.pages@ == old.pages@ + pages
        &&& self.page_owner@ == old.page_owner@ + Seq::new(pages.len(), |i: int| chapter_id)
        &&& self.segments@.len() == old.segments@.len() + 1
        &&& self.segments@.drop_last() == old.segments@
        &&& self.segments@.last().chapter_id == chapter_id
        &&& self.segments@.last().start == old.pages@.len()
        &&& self.segments@.last().len == pages.len()
        &&& self.segments@.last().name@ == (if k >= 0 {
            old.chapters@[k].name@
        } else {
            Seq::<char>::empty()
        })
    }

    /// Where a freshly loaded chapter opens: the stored page, kept within the
    /// chapter.
    pub open spec fn restored_index(restore: Option<i64>, n: int) -> int {
        let last = sat_sub(n, 1);
        let r = match restore {
            Some(r) => r as int,
            None => 0,
        };
        if r < 0 || r > last {
            last
        } else {
            r
        }
    }

    fn follow_visible_chapter(&mut self, prefs: &ReaderPrefs, effects: &mut Vec<ReaderEffect>)
        requires
            old(self).wf(),
        ensures
            *final(self) == old(self).follow_result(*prefs).0,
            final(effects)@ == old(effects)@ + old(self).follow_result(*prefs).1,
            final(self).wf(),
    {
        if self.current >= self.page_owner.len() {
            return;
        }
        let owner = self.page_owner[self.current];
        if owner == self.chapter_id {
            return;
        }
        push_mark(self.chapter_id, prefs, effects);
        proof {
            lemma_owner_has_segment(
                self.segments@,
                self.page_owner@,
                self.pages@.len() as int,
                self.current as int,
            );
        }
        let k = match find_segment(self.segments.as_slice(), owner) {
            Some(k) => k,
            None => {
                proof {
                    assert(false);
                }
                return;
            },
        };
        self.chapter_id = owner;
        self.chapter_name = self.segments[k].name.clone();
        effects.push(ReaderEffect::RestartTimer);
    }

    fn request_next_chapter(&mut self, effects: &mut Vec<ReaderEffect>)
        requires
            old(self).wf(),
        ensures
            *final(self) == old(self).request_next_result().0,
            final(effects)@ == old(effects)@ + old(self).request_next_result().1,
            final(self).wf(),
    {
        if self.appending.is_some() || self.reached_end || self.segments.len() == 0 {
            return;
        }
        let last = self.segments[self.segments.len() - 1].chapter_id;
        let pos = match find_chapter(&self.chapters, last) {
            Some(p) => p,
            None => return ,
        };
        if pos >= self.chapters.len() - 1 {
            self.reached_end = true;
            return;
        }
        let next = self.chapters[pos + 1].id;
        self.appending = Some(next);
        effects.push(ReaderEffect::FetchPages { manga_id: self.manga_id, chapter_id: next });
    }

    /// Turns pages the way a click or arrow key would.
    pub fn turn_page(&mut self, delta: i32, prefs: &ReaderPrefs) -> (effects: Vec<ReaderEffect>)
        requires
            old(self).wf(),
            old(self).pages@.len() > 0 && old(self).mode.continuous() ==> i32::MIN <= old(
                self,
            ).current + delta <= i32::MAX,
            old(self).pages@.len() > 0 && !old(self).mode.continuous() ==> i32::MIN <= delta * old(
                self,
            ).step_of(*prefs) <= i32::MAX,
            old(self).pages@.len() > 0 && !old(self).mode.continuous() ==> i32::MIN <= old(
                self,
            ).current + delta * old(self).step_of(*prefs) <= i32::MAX,
        ensures
            (*final(self), effects@) == old(self).turn_result(delta as int, *prefs),
            final(self).wf(),
    {
        if self.pages.len() == 0 {
            return Vec::new();
        }
        if self.mode.is_continuous() {
            let mut effects: Vec<ReaderEffect> = Vec::new();
            let n = self.pages.len();
            let sum: i128 = self.current as i128 + delta as i128;
            let t: usize = if sum < 0 {
                0
            } else {
                sum as usize
            };
            let c = if t < n - 1 {
                t
            } else {
                n - 1
            };
            self.current = c;
            self.scroll_to = Some(c);
            self.follow_visible_chapter(prefs, &mut effects);
            self.save_progress(prefs, &mut effects);
            if self.mode.is_infinite() && n - c <= 3 {
                self.request_next_chapter(&mut effects);
            }
            effects
        } else {
            self.advance(delta, prefs)
        }
    }

    /// Appends a chapter's pages to the end of the run, for infinite scroll.
    /// A late duplicate reply for a chapter already there is ignored; an empty
    /// page list appends an empty segment.
    pub fn append_chapter(&mut self, chapter_id: Id, pages: Vec<P>) -> (appended: bool)
        requires
            old(self).wf(),
        ensures
            appended == (segment_from(old(self).segments@, chapter_id, 0) == -1),
            !appended ==> *final(self) == *old(self),
            appended ==> final(self).appended_from(*old(self), chapter_id, pages@),
            final(self).wf(),
    {
        proof {
            lemma_segment_from_range(self.segments@, chapter_id, 0);
        }
        if find_segment(self.segments.as_slice(), chapter_id).is_some() {
            return false;
        }
        let name = match find_chapter(&self.chapters, chapter_id) {
            Some(k) => self.chapters[k].name.clone(),
            None => String::new(),
        };
        let start = self.pages.len();
        let count = pages.len();
        let ghost old_segs = self.segments@;
        let ghost old_owner = self.page_owner@;
        let ghost old_pages = self.pages@;
        self.segments.push(ReaderSegment { chapter_id, name, start, len: count });
        let ghost mid = *self;
        let mut i: usize = 0;
        while i < count
            invariant
                0 <= i <= count,
                self.same_but_run(mid),
                self.segments == mid.segments,
                self.pages == mid.pages,
                self.page_owner@ == old_owner + Seq::new(i as nat, |j: int| chapter_id),
            decreases count - i,
        {
            self.page_owner.push(chapter_id);
            proof {
                assert(self.page_owner@ =~= old_owner + Seq::new((i + 1) as nat, |j: int| chapter_id));
            }
            i = i + 1;
        }
        let mut pages = pages;
        self.pages.append(&mut pages);
        proof {
            let segs = self.segments@;
            let n = self.pages@.len() as int;
            assert(segs.drop_last() =~= old_segs);
            assert forall|k: int| 0 <= k < segs.len() - 1 implies #[trigger] segs[k + 1].start
                == segs[k].start + segs[k].len by {
                if k + 1 < segs.len() - 1 {
                    assert(old_segs[k + 1].start == old_segs[k].start + old_segs[k].len);
                } else {
                    assert(k == old_segs.len() - 1);
                }
            }
            assert(segments_cover(segs, n));
            assert forall|k: int, j: int|
                0 <= k < segs.len() && segs[k].start <= j < segs[k].start + segs[k].len implies #[trigger] self.page_owner@[j]
                == #[trigger] segs[k].chapter_id by {
                if k < old_segs.len() {
                    lemma_segment_within(old_segs, old_pages.len() as int, k);
                    assert(old_owner[j] == old_segs[k].chapter_id);
                }
            }
            assert forall|a: int, b: int|
                0 <= a < segs.len() && 0 <= b < segs.len() && a != b implies #[trigger] segs[a].chapter_id
                != #[trigger] segs[b].chapter_id by {
                if a < old_segs.len() && b < old_segs.len() {
                } else if a < old_segs.len() {
                    assert(old_segs[a].chapter_id != chapter_id);
                } else if b < old_segs.len() {
                    assert(old_segs[b].chapter_id != chapter_id);
                }
            }
        }
        true
    }
}

/// Ids of the next `count` unread chapters from `from` on, leaving out the
/// ones already downloaded.
pub open spec fn read_ahead_ids(chapters: Seq<Chapter>, downloaded: Seq<bool>, from: int, count: int) -> Seq<Id>
    decreases chapters.len() - from,
{
    if count <= 0 || from < 0 || from >= chapters.len() {
        seq![]
    } else if chapters[from].read {
        read_ahead_ids(chapters, downloaded, from + 1, count)
    } else if downloaded[from] {
        read_ahead_ids(chapters, downloaded, from + 1, count - 1)
    } else {
        seq![chapters[from].id] + read_ahead_ids(chapters, downloaded, from + 1, count - 1)
    }
}

impl<P> ReaderState<P> {
    /// A reader on `chapter_id`, waiting for its pages. `chapters` is the
    /// manga's chapter list in reading order.
    pub fn open(
        manga_id: Id,
        chapter_id: Id,
        manga_title: String,
        chapter_name: String,
        restore_page: Option<i64>,
        chapters: Vec<Chapter>,
        mode: ReadingMode,
    ) -> (r: Self)
        ensures
            r.wf(),
            r.manga_id == manga_id,
            r.chapter_id == chapter_id,
            r.manga_title == manga_title,
            r.chapter_name == chapter_name,
            r.restore_page == restore_page,
            r.chapters == chapters,
            r.mode == mode,
            r.loading,
            r.menu_visible,
            r.pages@.len() == 0,
            r.segments@.len() == 0,
            r.appending.is_none(),
            !r.reached_end,
            r.current == 0,
            r.error.is_none(),
            r.scroll_to.is_none(),
    {
        ReaderState {
            manga_id,
            chapter_id,
            manga_title,
            chapter_name,
            chapters,
            pages: Vec::new(),
            page_owner: Vec::new(),
            segments: Vec::new(),
            appending: None,
            reached_end: false,
            current: 0,
            loading: true,
            error: None,
            menu_visible: true,
            mode,
            restore_page,
            scroll_to: None,
        }
    }

    /// How a reply to a page-list request is taken in.
    pub open spec fn pages_reply(pre: Self, post: Self, chapter_id: Id, result: Result<Vec<P>, String>, outcome: PagesOutcome) -> bool {
        &&& post.wf()
        &&& pre.appending == Some(chapter_id) ==> match result {
                Ok(p) => if p@.len() > 0 {
                    let cleared = ReaderState { appending: None, ..pre };
                    if segment_from(pre.segments@, chapter_id, 0) == -1 {
                        post.appended_from(cleared, chapter_id, p@) && outcome
                            == PagesOutcome::Appended(p@.len() as usize)
                    } else {
                        post == cleared && outcome == PagesOutcome::Ignored
                    }
                } else {
                    post == (ReaderState { appending: None, reached_end: true, ..pre })
                        && outcome == PagesOutcome::EndReached
                },
                Err(e) => post == (ReaderState {
                    appending: None,
                    reached_end: true,
                    ..pre
                }) && outcome == PagesOutcome::AppendFailed(e),
            }
        &&& pre.appending != Some(chapter_id) && chapter_id == pre.chapter_id ==> match result {
                Ok(p) => {
                    &&& post == (ReaderState {
                        pages: post.pages,
                        page_owner: post.page_owner,
                        segments: post.segments,
                        current: Self::restored_index(pre.restore_page, p@.len() as int) as usize,
                        restore_page: None,
                        error: None,
                        loading: false,
                        ..pre
                    })
                    &&& post.pages@ == p@
                    &&& post.page_owner@ == Seq::new(p@.len(), |i: int| chapter_id)
                    &&& post.segments@ == seq![
                        ReaderSegment {
                            chapter_id,
                            name: pre.chapter_name,
                            start: 0,
                            len: p@.len() as usize,
                        },
                    ]
                    &&& outcome == PagesOutcome::Loaded(p@.len() as usize)
                },
                Err(e) => post == (ReaderState {
                    loading: false,
                    error: Some(e),
                    ..pre
                }) && outcome == PagesOutcome::LoadFailed,
            }
        &&& pre.appending != Some(chapter_id) && chapter_id != pre.chapter_id ==> post
                == pre && outcome == PagesOutcome::Ignored
    }

    /// Handles the reply to a page-list request: either the chapter being
    /// appended in infinite scroll, or the chapter just opened.
    pub fn pages_loaded(&mut self, chapter_id: Id, result: Result<Vec<P>, String>) -> (outcome: PagesOutcome)
        requires
            old(self).wf(),
        ensures
            Self::pages_reply(*old(self), *final(self), chapter_id, result, outcome),
    {
        let waiting = match self.appending {
            Some(a) => a == chapter_id,
            None => false,
        };
        if waiting {
            self.appending = None;
            match result {
                Ok(pages) => {
                    if pages.len() > 0 {
                        let n = pages.len();
                        if self.append_chapter(chapter_id, pages) {
                            PagesOutcome::Appended(n)
                        } else {
                            PagesOutcome::Ignored
                        }
                    } else {
                        // Nothing usable: stop pulling, rather than looping.
                        self.reached_end = true;
                        PagesOutcome::EndReached
                    }
                },
                Err(err) => {
                    self.reached_end = true;
                    PagesOutcome::AppendFailed(err)
                },
            }
        } else if self.chapter_id == chapter_id {
            self.loading = false;
            match result {
                Ok(pages) => {
                    let n = pages.len();
                    let mut owner: Vec<Id> = Vec::new();
                    let mut i: usize = 0;
                    while i < n
                        invariant
                            0 <= i <= n,
                            owner@ == Seq::new(i as nat, |j: int| chapter_id),
                        decreases n - i,
                    {
                        owner.push(chapter_id);
                        proof {
                            assert(owner@ =~= Seq::new((i + 1) as nat, |j: int| chapter_id));
                        }
                        i = i + 1;
                    }
                    let mut segments: Vec<ReaderSegment> = Vec::new();
                    segments.push(
                        ReaderSegment { chapter_id, name: self.chapter_name.clone(), start: 0, len: n },
                    );
                    self.page_owner = owner;
                    self.segments = segments;
                    self.pages = pages;
                    let last = if n > 0 {
                        n - 1
                    } else {
                        0
                    };
                    let restore: i64 = match self.restore_page {
                        Some(r) => r,
                        None => 0,
                    };
                    self.restore_page = None;
                    self.current = if restore < 0 || restore as u64 > last as u64 {
                        last
                    } else {
                        restore as usize
                    };
                    self.error = None;
                    PagesOutcome::Loaded(n)
                },
                Err(err) => {
                    self.error = Some(err);
                    PagesOutcome::LoadFailed
                },
            }
        } else {
            PagesOutcome::Ignored
        }
    }

    /// The slider moved to `page`: jump there and record it.
    pub fn seek(&mut self, page: usize, prefs: &ReaderPrefs) -> (effects: Vec<ReaderEffect>)
        requires
            old(self).wf(),
            page < old(self).pages@.len(),
        ensures
            final(self).wf(),
            page == old(self).current ==> *final(self) == *old(self) && effects@ == Seq::<
                ReaderEffect,
            >::empty(),
            page != old(self).current ==> *final(self) == (ReaderState {
                current: page,
                scroll_to: Some(page),
                ..*old(self)
            }) && effects@ == final(self).save_effects(*prefs),
    {
        let mut effects: Vec<ReaderEffect> = Vec::new();
        if page != self.current {
            self.current = page;
            self.scroll_to = Some(page);
            self.save_progress(prefs, &mut effects);
        }
        effects
    }

    /// After a continuous frame: the page at the top of the viewport becomes
    /// the current one, unless the frame carried out a seek, whose scroll is
    /// only measured on the next frame.
    pub fn settle_scroll(&mut self, top_visible: usize, seeked: bool, prefs: &ReaderPrefs) -> (effects: Vec<ReaderEffect>)
        requires
            old(self).wf(),
            top_visible < old(self).pages@.len(),
        ensures
            final(self).wf(),
            seeked || top_visible == old(self).current ==> *final(self) == *old(self) && effects@
                == Seq::<ReaderEffect>::empty(),
            !seeked && top_visible != old(self).current ==> {
                let (s, e) = old(self).with_current(top_visible).follow_result(*prefs);
                *final(self) == s && effects@ == e + s.save_effects(*prefs)
            },
    {
        let mut effects: Vec<ReaderEffect> = Vec::new();
        if !seeked && top_visible != self.current {
            self.current = top_visible;
            self.follow_visible_chapter(prefs, &mut effects);
            self.save_progress(prefs, &mut effects);
        }
        effects
    }

    /// Whether infinite scroll should ask for the next chapter: something is
    /// loaded, nothing is loading, and three pages or fewer are left.
    pub open spec fn wants_next(self) -> bool {
        &&& self.mode is Infinite
        &&& self.pages@.len() > 0
        &&& !self.loading
        &&& sat_sub(self.pages@.len() as int, self.current as int) <= 3
    }

    /// Pulls the next chapter in before the reader runs out of pages.
    pub fn pull_next_if_needed(&mut self) -> (effects: Vec<ReaderEffect>)
        requires
            old(self).wf(),
        ensures
            final(self).wf(),
            old(self).wants_next() ==> (*final(self), effects@) == old(self).request_next_result(),
            !old(self).wants_next() ==> *final(self) == *old(self) && effects@ == Seq::<
                ReaderEffect,
            >::empty(),
    {
        let mut effects: Vec<ReaderEffect> = Vec::new();
        let n = self.pages.len();
        if self.mode.is_infinite() && n > 0 && !self.loading {
            let remaining = if n >= self.current {
                n - self.current
            } else {
                0
            };
            if remaining <= 3 {
                self.request_next_chapter(&mut effects);
            }
        }
        effects
    }

    /// Where a key press scrolls to in a continuous mode.
    pub fn scroll_target(&self, forward: i32) -> (t: usize)
        requires
            self.wf(),
            i32::MIN <= self.current + forward <= i32::MAX,
        ensures
            t == (if self.current + forward < 0 {
                0
            } else if self.current + forward > sat_sub(self.pages@.len() as int, 1) {
                sat_sub(self.pages@.len() as int, 1)
            } else {
                self.current + forward
            }),
    {
        let sum: i128 = self.current as i128 + forward as i128;
        let t: usize = if sum < 0 {
            0
        } else {
            sum as usize
        };
        let n = self.pages.len();
        let last = if n > 0 {
            n - 1
        } else {
            0
        };
        if t < last {
            t
        } else {
            last
        }
    }

    /// Home: back to the first page.
    pub fn jump_to_first(&mut self)
        requires
            old(self).wf(),
        ensures
            *final(self) == old(self).with_current(0),
            final(self).wf(),
    {
        self.current = 0;
    }

    /// End: on to the last page.
    pub fn jump_to_last(&mut self)
        requires
            old(self).wf(),
        ensures
            *final(self) == old(self).with_current(sat_sub(old(self).pages@.len() as int, 1) as usize),
            final(self).wf(),
    {
        let n = self.pages.len();
        self.current = if n > 0 {
            n - 1
        } else {
            0
        };
    }

    /// Reflects a chapter marked read in the chapter list used for navigation.
    pub fn note_chapter_read(&mut self, chapter_id: Id)
        requires
            old(self).wf(),
        ensures
            final(self).wf(),
            final(self).chapters@.len() == old(self).chapters@.len(),
            forall|i: int|
                0 <= i < old(self).chapters@.len() ==> {
                    let o = old(self).chapters@[i];
                    #[trigger] final(self).chapters@[i] == (Chapter {
                        read: o.read || i == chapter_from(old(self).chapters@, chapter_id, 0),
                        ..o
                    })
                },
            *final(self) == (ReaderState { chapters: final(self).chapters, ..*old(self) }),
    {
        match find_chapter(&self.chapters, chapter_id) {
            Some(k) => {
                let mut c = self.chapters.remove(k);
                c.read = true;
                self.chapters.insert(k, c);
            },
            None => {},
        }
    }

    /// The chapter buttons of the menu: the position is recorded, then the
    /// chapter `offset` places away in reading order opens; nothing happens
    /// when there is none.
    pub fn go_to_chapter(&self, offset: i32, prefs: &ReaderPrefs) -> (effects: Vec<ReaderEffect>)
        ensures
            match neighbour_of(
                self.chapters@,
                self.chapter_id,
                offset as int,
                prefs.skip_read_chapters_on_finish,
            ) {
                Some(i) => effects@ == self.save_effects(*prefs).push(
                    ReaderEffect::OpenChapter {
                        manga_id: self.manga_id,
                        chapter_id: self.chapters@[i].id,
                    },
                ),
                None => effects@.len() == 0,
            },
    {
        let mut effects: Vec<ReaderEffect> = Vec::new();
        match self.neighbour_chapter(offset, prefs.skip_read_chapters_on_finish) {
            Some(i) => {
                self.save_progress(prefs, &mut effects);
                effects.push(
                    ReaderEffect::OpenChapter { manga_id: self.manga_id, chapter_id: self.chapters[i].id },
                );
            },
            None => {},
        }
        effects
    }

    /// The pages after the current one to warm the cache for.
    pub fn preload_range(&self, ahead: usize) -> (r: (usize, usize))
        requires
            self.current + 1 + ahead <= usize::MAX,
        ensures
            r.0 == self.current + 1,
            r.1 == (if self.current + 1 + ahead < self.pages@.len() {
                self.current + 1 + ahead
            } else {
                self.pages@.len() as int
            }),
    {
        let start = self.current + 1;
        let end = start + ahead;
        let n = self.pages.len();
        (start, if end < n {
            end
        } else {
            n
        })
    }

    /// The next few unread chapters to download ahead of reading (the
    /// "download ahead" setting). `downloaded` tells, chapter by chapter,
    /// which are already on disk.
    pub fn read_ahead(&self, ahead: usize, incognito: bool, downloaded: &Vec<bool>) -> (ids: Vec<Id>)
        requires
            downloaded@.len() == self.chapters@.len(),
        ensures
            ids@ == (if ahead == 0 || incognito || chapter_from(self.chapters@, self.chapter_id, 0)
                < 0 {
                Seq::<Id>::empty()
            } else {
                read_ahead_ids(
                    self.chapters@,
                    downloaded@,
                    chapter_from(self.chapters@, self.chapter_id, 0) + 1,
                    ahead as int,
                )
            }),
    {
        let mut ids: Vec<Id> = Vec::new();
        if ahead == 0 || incognito {
            return ids;
        }
        let position = match find_chapter(&self.chapters, self.chapter_id) {
            Some(p) => p,
            None => return ids,
        };
        let ghost total = read_ahead_ids(self.chapters@, downloaded@, position + 1, ahead as int);
        let count = self.chapters.len();
        let mut i = position + 1;
        let mut remaining = ahead;
        while i < self.chapters.len() && remaining > 0
            invariant
                position + 1 <= i <= self.chapters@.len(),
                downloaded@.len() == self.chapters@.len(),
                ids@ + read_ahead_ids(self.chapters@, downloaded@, i as int, remaining as int) == total,
            decreases self.chapters@.len() - i,
        {
            if !self.chapters[i].read {
                if !downloaded[i] {
                    ids.push(self.chapters[i].id);
                    proof {
                        assert(ids@ + read_ahead_ids(self.chapters@, downloaded@, i + 1, remaining - 1)
                            =~= total);
                    }
                }
                remaining = remaining - 1;
            }
            i = i + 1;
        }
        proof {
            assert(ids@ =~= total);
        }
        ids
    }
}

/// In a well-formed run, the page number shown for the chapter under the
/// current page counts from that chapter's first page and stays below its
/// length: page numbers are chapter-local across a boundary.
pub proof fn lemma_page_number_is_chapter_local<P>(state: ReaderState<P>)
    requires
        state.wf(),
        state.pages@.len() > 0,
        state.pages@.len() <= i64::MAX,
        state.chapter_id == state.page_owner@[state.current as int],
    ensures
        ({
            let k = segment_from(state.segments@, state.chapter_id, 0);
            let (page, total) = state.local_page_of();
            &&& 0 <= k
            &&& page + state.segments@[k].start == state.current
            &&& 0 <= page < total
            &&& total == state.segments@[k].len
        }),
{
    let segs = state.segments@;
    let n = state.pages@.len() as int;
    lemma_owner_has_segment(segs, state.page_owner@, n, state.current as int);
    let k = segment_from(segs, state.chapter_id, 0);
    let j = lemma_segment_containing(segs, n, state.current as int, 0);
    if j != k {
        assert(segs[j].chapter_id == state.chapter_id);
        assert(segs[k].chapter_id == state.chapter_id);
        assert(false);
    }
    lemma_segment_within(segs, n, k);
}

/// A chapter no segment belongs to is reported against the whole run.
pub proof fn lemma_unknown_chapter_counts_whole_run(
    segs: Seq<ReaderSegment>,
    chapter_id: Id,
    current: usize,
    total: usize,
)
    requires
        forall|k: int| 0 <= k < segs.len() ==> segs[k].chapter_id != chapter_id,
    ensures
        local_index_of(segs, chapter_id, current, total) == (current as i64, total as i64),
{
    lemma_segment_from_range(segs, chapter_id, 0);
}

/// Once a chapter has been appended, a second reply for it changes nothing.
pub proof fn lemma_append_is_once<P>(
    before: ReaderState<P>,
    after: ReaderState<P>,
    chapter_id: Id,
    pages: Seq<P>,
)
    requires
        after.appended_from(before, chapter_id, pages),
    ensures
        segment_from(after.segments@, chapter_id, 0) != -1,
{
    let segs = after.segments@;
    lemma_segment_from_range(segs, chapter_id, 0);
    assert(segs[segs.len() - 1].chapter_id == chapter_id);
}

/// Moving forward with "skip read chapters" never lands on a read chapter,
/// and every chapter skipped over was read.
pub proof fn lemma_forward_skip_lands_unread(chapters: Seq<Chapter>, chapter_id: Id)
    ensures
        neighbour_of(chapters, chapter_id, 1, true) matches Some(t) ==> {
            let index = chapter_from(chapters, chapter_id, 0);
            &&& index < t < chapters.len()
            &&& !chapters[t].read
            &&& forall|j: int| index < j < t ==> chapters[j].read
        },
{
    lemma_chapter_from_range(chapters, chapter_id, 0);
    let index = chapter_from(chapters, chapter_id, 0);
    if index >= 0 {
        lemma_unread_from_range(chapters, index + 1);
    }
}

proof fn lemma_chapter_at(chapters: Seq<Chapter>, id: Id, k: int, m: int)
    requires
        0 <= m <= k < chapters.len(),
        chapters[k].id == id,
        forall|j: int| m <= j < k ==> chapters[j].id != id,
    ensures
        chapter_from(chapters, id, m) == k,
    decreases k - m,
{
    if m < k {
        lemma_chapter_at(chapters, id, k, m + 1);
    }
}

/// Turning forward past the last page in a paged mode opens the chapter that
/// follows in the list: the next one, or with "skip read chapters" the first
/// unread one after the current chapter. A forward turn never opens a
/// chapter at or before the current one.
pub proof fn lemma_forward_turn_opens_next<P>(s: ReaderState<P>, delta: int, prefs: ReaderPrefs, k: int)
    requires
        !s.mode.continuous(),
        s.pages@.len() > 0,
        s.current + delta * s.step_of(prefs) >= s.pages@.len(),
        0 <= k < s.chapters@.len(),
        s.chapters@[k].id == s.chapter_id,
        forall|j: int| 0 <= j < k ==> s.chapters@[j].id != s.chapter_id,
    ensures
        ({
            let e = s.turn_result(delta, prefs).1;
            &&& !prefs.skip_read_chapters_on_finish && k + 1 < s.chapters@.len() ==> e.len() > 0
                && e.last() == (ReaderEffect::OpenChapter {
                manga_id: s.manga_id,
                chapter_id: s.chapters@[k + 1].id,
            })
            &&& forall|j: int|
                #![trigger s.chapters@[j]]
                prefs.skip_read_chapters_on_finish && k < j < s.chapters@.len() && !s.chapters@[j].read
                    && (forall|i: int| k < i < j ==> s.chapters@[i].read) ==> e.len() > 0
                    && e.last() == (ReaderEffect::OpenChapter {
                    manga_id: s.manga_id,
                    chapter_id: s.chapters@[j].id,
                })
            &&& (e.len() > 0 && e.last() is OpenChapter) ==> exists|j: int|
                k < j < s.chapters@.len() && (#[trigger] s.chapters@[j]).id == e.last()->OpenChapter_chapter_id
        }),
{
    lemma_chapter_at(s.chapters@, s.chapter_id, k, 0);
    lemma_unread_from_range(s.chapters@, k + 1);
    let u = unread_from(s.chapters@, k + 1);
    assert forall|j: int|
        #![trigger s.chapters@[j]]
        prefs.skip_read_chapters_on_finish && k < j < s.chapters@.len() && !s.chapters@[j].read
            && (forall|i: int| k < i < j ==> s.chapters@[i].read) implies u == j by {
        if u < j {
            assert(s.chapters@[u].read);
        }
    }
}

/// Turning back before the first page in a paged mode opens the chapter just
/// before the current one in the list; on the first chapter nothing opens.
pub proof fn lemma_backward_turn_opens_previous<P>(s: ReaderState<P>, delta: int, prefs: ReaderPrefs, k: int)
    requires
        !s.mode.continuous(),
        s.pages@.len() > 0,
        s.current + delta * s.step_of(prefs) < 0,
        0 <= k < s.chapters@.len(),
        s.chapters@[k].id == s.chapter_id,
        forall|j: int| 0 <= j < k ==> s.chapters@[j].id != s.chapter_id,
    ensures
        ({
            let e = s.turn_result(delta, prefs).1;
            &&& k > 0 ==> e.len() > 0 && e.last() == (ReaderEffect::OpenChapter {
                manga_id: s.manga_id,
                chapter_id: s.chapters@[k - 1].id,
            })
            &&& k == 0 ==> e.len() == 0
        }),
{
    lemma_chapter_at(s.chapters@, s.chapter_id, k, 0);
}

/// A turn never moves the reader off its pages, and a paged turn within the
/// chapter lands exactly `delta` turns away.
pub proof fn lemma_turn_stays_on_pages<P>(state: ReaderState<P>, delta: int, prefs: ReaderPrefs)
    requires
        state.wf(),
        0 < state.pages@.len() <= usize::MAX,
        !state.mode.continuous(),
        0 <= state.current + delta * state.step_of(prefs) < state.pages@.len(),
    ensures
        state.advance_result(delta, prefs).0.current == state.current + delta * state.step_of(prefs),
        state.advance_result(delta, prefs).0.current < state.pages@.len(),
{
}

/// Adds the effects of marking `chapter_id` read.
fn push_mark(chapter_id: Id, prefs: &ReaderPrefs, effects: &mut Vec<ReaderEffect>)
    ensures
        final(effects)@ == old(effects)@ + mark_effects(chapter_id, *prefs),
{
    if prefs.incognito || chapter_id == 0 {
        return;
    }
    effects.push(
        ReaderEffect::MarkRead { chapter_id, delete_download: prefs.remove_after_read },
    );
}

/// The page counter of the reader's bars: the page number counted from one,
/// over the chapter's page count (at least one).
pub open spec fn counter_text(page: i64, total: i64) -> Seq<char> {
    int_text(page + 1) + " / "@ + int_text(if total >= 1 {
        total as int
    } else {
        1
    })
}

pub fn page_counter(page: i64, total: i64) -> (s: String)
    requires
        page < i64::MAX,
    ensures
        s@ == counter_text(page, total),
{
    let mut s = String::new();
    push_int(&mut s, page + 1);
    s.append(" / ");
    let shown = if total >= 1 {
        total
    } else {
        1
    };
    push_int(&mut s, shown);
    s
}

/// The hint under the reader's bottom bar.
pub fn reader_hint(mode: ReadingMode) -> (s: &'static str)
    ensures
        s@ == (if mode.continuous() {
            "· scroll to read, ctrl+wheel zooms, M toggles this bar"@
        } else {
            "· click the edges or use ← → to turn pages, M toggles this bar"@
        }),
{
    if mode.is_continuous() {
        "· scroll to read, ctrl+wheel zooms, M toggles this bar"
    } else {
        "· click the edges or use ← → to turn pages, M toggles this bar"
    }
}

} // verus!
