//! An entry's details screen: what it loads, what its buttons do, and the
//! text it shows around the chapter list.

use std::collections::HashSet;

use vstd::prelude::*;

use crate::format::{decimal, int_text, push_decimal, push_int};
use crate::library::{toggle_selection, DEFAULT_CATEGORY_ID};
use crate::model::{
    chapter_fields, lemma_direction_round_trip, lemma_sort_mode_round_trip, sort_mode_of, Chapter,
    ChapterSortMode, Id, Manga, TriState, SORT_DIR_MASK, tri_of, UNREAD_MASK, SHOW_UNREAD,
    SHOW_READ, DOWNLOADED_MASK, SHOW_DOWNLOADED, SHOW_NOT_DOWNLOADED, BOOKMARKED_MASK,
    SHOW_BOOKMARKED, SHOW_NOT_BOOKMARKED,
};
use crate::text::push_char;
use crate::updates::RowClick;

verus! {

/// The state of the details screen.
pub struct DetailsState {
    pub manga_id: Id,
    pub manga: Option<Manga>,
    pub chapters: Vec<Chapter>,
    pub selection: HashSet<Id>,
    pub loading: bool,
    pub error: Option<String>,
    pub description_expanded: bool,
    pub notes_buffer: String,
    pub notes_open: bool,
}

/// What the details screen does once a chapter list has been fetched.
pub struct ChaptersLoaded {
    /// The screen reads the entry and its chapters again.
    pub refresh: bool,
    /// A message for the user, if any.
    pub toast: Option<String>,
}

/// How adding an entry to the library files it.
#[derive(Debug, Clone, Copy, PartialEq, Eq, Structural)]
pub enum Filing {
    /// Ask the user which categories to use.
    AskForCategories,
    /// File it into this category.
    Into(Id),
}

/// The number of characters a collapsed description keeps.
pub const COLLAPSED_LENGTH: usize = 280;

/// A description as the details screen shows it: whole when expanded or
/// short enough, otherwise its first characters and an ellipsis.
pub open spec fn description_text(d: Seq<char>, expanded: bool) -> Seq<char> {
    if expanded || d.len() <= COLLAPSED_LENGTH {
        d
    } else {
        d.take(COLLAPSED_LENGTH as int).push('…')
    }
}

/// The ids of the chapters among the first `k` that are unread and not yet
/// downloaded.
pub open spec fn to_download(chapters: Seq<Chapter>, downloaded: Set<Id>, k: int) -> Seq<Id>
    decreases k,
{
    if k <= 0 {
        seq![]
    } else {
        let rest = to_download(chapters, downloaded, k - 1);
        let c = chapters[k - 1];
        if !c.read && !downloaded.contains(c.id) {
            rest.push(c.id)
        } else {
            rest
        }
    }
}

impl DetailsState {
    /// The screen before any entry is opened.
    pub fn new() -> (s: DetailsState)
        ensures
            s.manga_id == 0,
            s.manga is None,
            s.chapters@.len() == 0,
            s.selection@ == Set::<Id>::empty(),
            !s.loading,
            s.error is None,
            !s.description_expanded,
            s.notes_buffer@.len() == 0,
            !s.notes_open,
    {
        DetailsState {
            manga_id: 0,
            manga: None,
            chapters: Vec::new(),
            selection: HashSet::new(),
            loading: false,
            error: None,
            description_expanded: false,
            notes_buffer: String::new(),
            notes_open: false,
        }
    }

    /// The screen for an entry that has just been opened: loading, with
    /// nothing else yet.
    pub fn opened(manga_id: Id) -> (s: DetailsState)
        ensures
            s.manga_id == manga_id,
            s.loading,
            s.manga is None,
            s.chapters@.len() == 0,
            s.selection@ == Set::<Id>::empty(),
            s.error is None,
            !s.description_expanded,
            !s.notes_open,
    {
        let mut s = DetailsState::new();
        s.manga_id = manga_id;
        s.loading = true;
        s
    }

    /// Takes in the entry and its chapters as stored; the notes editor
    /// starts from the stored notes.
    pub fn refreshed(&mut self, manga: Option<Manga>, chapters: Vec<Chapter>)
        ensures
            final(self).manga == manga,
            final(self).chapters == chapters,
            final(self).notes_buffer == (match manga {
                Some(m) => m.notes,
                None => old(self).notes_buffer,
            }),
            final(self).manga_id == old(self).manga_id,
            final(self).loading == old(self).loading,
            final(self).error == old(self).error,
            final(self).selection == old(self).selection,
    {
        match &manga {
            Some(m) => {
                self.notes_buffer = m.notes.clone();
            },
            None => {},
        }
        self.manga = manga;
        self.chapters = chapters;
    }

    /// Decides what to fetch for the freshly stored entry: its details when
    /// the entry is unknown or not initialised, the chapters when none are
    /// stored. Returns whether details are needed when anything is fetched;
    /// when nothing is, the screen stops loading.
    pub fn fetch_plan(&mut self) -> (r: Option<bool>)
        ensures
            ({
                let needs_details = match old(self).manga {
                    Some(m) => !m.initialized,
                    None => true,
                };
                let needs_chapters = old(self).chapters@.len() == 0;
                if needs_details || needs_chapters {
                    r == Some(needs_details) && final(self).loading == old(self).loading
                } else {
                    r is None && !final(self).loading
                }
            }),
            final(self).manga == old(self).manga,
            final(self).chapters == old(self).chapters,
            final(self).manga_id == old(self).manga_id,
            final(self).error == old(self).error,
    {
        let needs_details = match &self.manga {
            Some(m) => !m.initialized,
            None => true,
        };
        let needs_chapters = self.chapters.len() == 0;
        if needs_details || needs_chapters {
            Some(needs_details)
        } else {
            self.loading = false;
            None
        }
    }

    /// How fetched details are taken in.
    pub open spec fn details_reply(pre: Self, post: Self, manga_id: Id, result: Result<(), String>, refresh: bool) -> bool {
        &&& refresh == (pre.manga_id == manga_id)
        &&& !refresh ==> post == pre
        &&& refresh ==> post == DetailsState {
            loading: false,
            error: match result {
                Ok(_) => pre.error,
                Err(e) => Some(e),
            },
            ..pre
        }
    }

    /// The details of an entry were fetched. For the entry on screen, the
    /// loading stops, a failure is kept, and the screen is read again
    /// (returns true).
    pub fn details_loaded(&mut self, manga_id: Id, result: Result<(), String>) -> (refresh: bool)
        ensures
            Self::details_reply(*old(self), *final(self), manga_id, result, refresh),
    {
        if self.manga_id != manga_id {
            return false;
        }
        self.loading = false;
        match result {
            Ok(_) => {},
            Err(e) => {
                self.error = Some(e);
            },
        }
        true
    }

    /// How a fetched chapter list is taken in.
    pub open spec fn chapters_reply(pre: Self, post: Self, manga_id: Id, new_chapters: usize, result: Result<(), String>, r: ChaptersLoaded) -> bool {
        &&& r.refresh == (pre.manga_id == manga_id)
        &&& !r.refresh ==> post == pre && r.toast is None
        &&& r.refresh ==> {
            &&& post == DetailsState {
                loading: false,
                error: match result {
                    Ok(_) => None,
                    Err(e) => Some(e),
                },
                ..pre
            }
            &&& match result {
                Ok(_) => {
                    &&& new_chapters > 0 ==> (r.toast matches Some(t) && t@ == decimal(
                        new_chapters as nat,
                    ) + " new chapter(s)"@)
                    &&& new_chapters == 0 ==> r.toast is None
                },
                Err(_) => r.toast is None,
            }
        }
    }

    /// The chapter list of an entry was fetched. For the entry on screen,
    /// the loading stops, the error is cleared or kept, new chapters are
    /// announced, and the screen is read again.
    pub fn chapters_loaded(&mut self, manga_id: Id, new_chapters: usize, result: Result<(), String>) -> (r:
        ChaptersLoaded)
        ensures
            Self::chapters_reply(*old(self), *final(self), manga_id, new_chapters, result, r),
    {
        if self.manga_id != manga_id {
            return ChaptersLoaded { refresh: false, toast: None };
        }
        self.loading = false;
        let mut toast = None;
        match result {
            Ok(_) => {
                self.error = None;
                if new_chapters > 0 {
                    let mut t = String::new();
                    push_decimal(&mut t, new_chapters as u64);
                    t.append(" new chapter(s)");
                    toast = Some(t);
                }
            },
            Err(e) => {
                self.error = Some(e);
            },
        }
        ChaptersLoaded { refresh: true, toast }
    }

    /// A click on a chapter's row: with nothing selected the chapter opens,
    /// otherwise it joins or leaves the selection.
    pub fn click_chapter(&mut self, chapter_id: Id) -> (r: RowClick)
        ensures
            old(self).selection@.len() == 0 ==> r == (RowClick::OpenReader {
                manga_id: old(self).manga_id,
                chapter_id,
            }) && final(self).selection@ == old(self).selection@,
            old(self).selection@.len() > 0 ==> r == RowClick::Toggled && final(self).selection@
                == (if old(self).selection@.contains(chapter_id) {
                old(self).selection@.remove(chapter_id)
            } else {
                old(self).selection@.insert(chapter_id)
            }),
            final(self).chapters == old(self).chapters,
            final(self).manga_id == old(self).manga_id,
    {
        if self.selection.len() == 0 {
            RowClick::OpenReader { manga_id: self.manga_id, chapter_id }
        } else {
            toggle_selection(&mut self.selection, chapter_id);
            RowClick::Toggled
        }
    }

    /// Selects every chapter of the entry, keeping what was selected.
    pub fn select_all(&mut self)
        ensures
            final(self).selection@ == old(self).selection@.union(
                old(self).chapters@.map_values(|c: Chapter| c.id).to_set(),
            ),
            final(self).chapters == old(self).chapters,
    {
        let mut i: usize = 0;
        while i < self.chapters.len()
            invariant
                0 <= i <= self.chapters@.len(),
                self.chapters == old(self).chapters,
                self.selection@ == old(self).selection@.union(
                    self.chapters@.take(i as int).map_values(|c: Chapter| c.id).to_set(),
                ),
            decreases self.chapters@.len() - i,
        {
            let id = self.chapters[i].id;
            self.selection.insert(id);
            proof {
                let prefix = self.chapters@.take(i as int).map_values(|c: Chapter| c.id);
                assert(self.chapters@.take(i + 1).map_values(|c: Chapter| c.id) =~= prefix.push(
                    id,
                ));
                prefix.lemma_push_to_set_commute(id);
                assert(self.selection@ =~= old(self).selection@.union(
                    self.chapters@.take(i + 1).map_values(|c: Chapter| c.id).to_set(),
                ));
            }
            i = i + 1;
        }
        proof {
            assert(self.chapters@.take(self.chapters@.len() as int) =~= self.chapters@);
        }
    }

    /// The unread chapters that are not downloaded yet, for the download
    /// button; none means there is nothing left to download.
    pub fn unread_to_download(&self, downloaded: &HashSet<Id>) -> (ids: Vec<Id>)
        ensures
            ids@ == to_download(self.chapters@, downloaded@, self.chapters@.len() as int),
    {
        let mut ids: Vec<Id> = Vec::new();
        let mut i: usize = 0;
        while i < self.chapters.len()
            invariant
                0 <= i <= self.chapters@.len(),
                ids@ == to_download(self.chapters@, downloaded@, i as int),
            decreases self.chapters@.len() - i,
        {
            let c = &self.chapters[i];
            if !c.read && !downloaded.contains(&c.id) {
                ids.push(c.id);
            }
            i = i + 1;
        }
        ids
    }

    /// Whether any chapter of the entry has been read, which makes the
    /// reading button "Continue" rather than "Start reading".
    pub fn any_read(&self) -> (b: bool)
        ensures
            b == exists|i: int| 0 <= i < self.chapters@.len() && #[trigger] self.chapters@[i].read,
    {
        let mut i: usize = 0;
        while i < self.chapters.len()
            invariant
                0 <= i <= self.chapters@.len(),
                forall|j: int| 0 <= j < i ==> !#[trigger] self.chapters@[j].read,
            decreases self.chapters@.len() - i,
        {
            if self.chapters[i].read {
                return true;
            }
            i = i + 1;
        }
        false
    }
}

/// A description as the details screen shows it: whole when expanded or at
/// most 280 characters long, otherwise its first 280 characters and "…".
/// Returns the text, and whether the "Show more/less" toggle is offered.
pub fn description_shown(description: &str, expanded: bool) -> (r: (String, bool))
    ensures
        r.0@ == description_text(description@, expanded),
        r.1 == (description@.len() > COLLAPSED_LENGTH),
{
    let n = description.unicode_len();
    let long = n > COLLAPSED_LENGTH;
    if expanded || !long {
        return (description.to_owned(), long);
    }
    let mut s = String::new();
    let mut i: usize = 0;
    while i < COLLAPSED_LENGTH
        invariant
            0 <= i <= COLLAPSED_LENGTH,
            n == description@.len(),
            n > COLLAPSED_LENGTH,
            s@ == description@.take(i as int),
        decreases COLLAPSED_LENGTH - i,
    {
        let c = description.get_char(i);
        push_char(&mut s, c);
        proof {
            assert(s@ =~= description@.take(i + 1));
        }
        i = i + 1;
    }
    push_char(&mut s, '…');
    (s, long)
}

/// The label of the reading button.
pub fn reading_label(any_read: bool, chapter_name: &str) -> (s: String)
    ensures
        s@ == (if any_read {
            "▶  Continue — "@
        } else {
            "▶  Start reading — "@
        }) + chapter_name@,
{
    let mut s = String::new();
    if any_read {
        s.append("▶  Continue — ");
    } else {
        s.append("▶  Start reading — ");
    }
    s.append(chapter_name);
    s
}

/// How an entry that joins the library is filed: by asking when so
/// configured, otherwise into the configured category, or the default
/// category when none is configured (a negative id).
pub fn filing(prompt_for_category: bool, default_category: Id) -> (f: Filing)
    ensures
        f == (if prompt_for_category {
            Filing::AskForCategories
        } else if default_category >= 0 {
            Filing::Into(default_category)
        } else {
            Filing::Into(DEFAULT_CATEGORY_ID)
        }),
{
    if prompt_for_category {
        Filing::AskForCategories
    } else if default_category >= 0 {
        Filing::Into(default_category)
    } else {
        Filing::Into(DEFAULT_CATEGORY_ID)
    }
}

/// Adds an entry to the library or takes it out; an entry added for the
/// first time is dated `now`.
pub fn toggle_favorite(manga: &mut Manga, now: i64)
    ensures
        final(manga).favorite == !old(manga).favorite,
        final(manga).date_added == (if !old(manga).favorite && old(manga).date_added == 0 {
            now
        } else {
            old(manga).date_added
        }),
        final(manga).id == old(manga).id,
        final(manga).chapter_flags == old(manga).chapter_flags,
        final(manga).title == old(manga).title,
{
    let becoming = !manga.favorite;
    manga.favorite = becoming;
    if becoming && manga.date_added == 0 {
        manga.date_added = now;
    }
}

/// A click on a sort mode in the chapter settings: the mode in use flips
/// direction, another one becomes the mode; the other chapter settings stay.
pub fn click_sort_mode(manga: &mut Manga, mode: ChapterSortMode)
    ensures
        sort_mode_of(final(manga).chapter_flags) == mode,
        (final(manga).chapter_flags & SORT_DIR_MASK == 0) == (if sort_mode_of(
            old(manga).chapter_flags,
        ) == mode {
            old(manga).chapter_flags & SORT_DIR_MASK != 0
        } else {
            old(manga).chapter_flags & SORT_DIR_MASK == 0
        }),
        ({
            let (_d, u, w, b, _s, p) = chapter_fields(old(manga).chapter_flags);
            let (_d2, u2, w2, b2, _s2, p2) = chapter_fields(final(manga).chapter_flags);
            u2 == u && w2 == w && b2 == b && p2 == p
        }),
        *final(manga) == (Manga { chapter_flags: final(manga).chapter_flags, ..*old(manga) }),
{
    let current = manga.chapter_sort_mode();
    if current == mode {
        let descending = manga.sort_descending();
        proof {
            lemma_direction_round_trip(manga.chapter_flags, !descending);
        }
        manga.set_sort_descending(!descending);
        proof {
            assert(sort_mode_of(manga.chapter_flags) == sort_mode_of(old(manga).chapter_flags));
        }
    } else {
        proof {
            lemma_sort_mode_round_trip(manga.chapter_flags, mode);
        }
        manga.set_chapter_sort_mode(mode);
    }
}

/// Parts joined with a separator.
pub open spec fn joined(parts: Seq<Seq<char>>, sep: Seq<char>) -> Seq<char>
    decreases parts.len(),
{
    if parts.len() == 0 {
        seq![]
    } else if parts.len() == 1 {
        parts[0]
    } else {
        joined(parts.drop_last(), sep) + sep + parts.last()
    }
}

/// The parts of the line under a chapter's name: its upload date when it
/// has one (printed as `when`), its scanlator, and the page reached in an
/// unfinished chapter.
pub open spec fn chapter_meta_parts(when: Seq<char>, c: Chapter) -> Seq<Seq<char>> {
    let a: Seq<Seq<char>> = if c.date_upload > 0 {
        seq![when]
    } else {
        seq![]
    };
    let b: Seq<Seq<char>> = match c.scanlator {
        Some(t) => seq![t@],
        None => seq![],
    };
    let d: Seq<Seq<char>> = if !c.read && c.last_page_read > 0 {
        seq!["page "@ + int_text(c.last_page_read + 1)]
    } else {
        seq![]
    };
    a + b + d
}

proof fn lemma_joined_push(parts: Seq<Seq<char>>, sep: Seq<char>, p: Seq<char>)
    ensures
        joined(parts.push(p), sep) == if parts.len() == 0 {
            p
        } else {
            joined(parts, sep) + sep + p
        },
{
    assert(parts.push(p).drop_last() =~= parts);
}

/// The line under a chapter's name, parts joined by " · "; none when there
/// is nothing to say.
pub fn chapter_meta(when: String, c: &Chapter) -> (r: Option<String>)
    requires
        c.last_page_read < i64::MAX,
    ensures
        chapter_meta_parts(when@, *c).len() == 0 ==> r is None,
        chapter_meta_parts(when@, *c).len() > 0 ==> (r matches Some(t) && t@ == joined(
            chapter_meta_parts(when@, *c),
            " · "@,
        )),
{
    let ghost sep = " · "@;
    let ghost mut parts: Seq<Seq<char>> = seq![];
    let mut out = String::new();
    let mut any = false;
    if c.date_upload > 0 {
        proof {
            lemma_joined_push(parts, sep, when@);
            parts = parts.push(when@);
        }
        out.append(when.as_str());
        any = true;
    }
    match &c.scanlator {
        Some(t) => {
            proof {
                lemma_joined_push(parts, sep, t@);
            }
            if any {
                out.append(" · ");
            }
            out.append(t.as_str());
            proof {
                parts = parts.push(t@);
            }
            any = true;
        },
        None => {},
    }
    if !c.read && c.last_page_read > 0 {
        let mut page = String::from_str("page ");
        push_int(&mut page, c.last_page_read + 1);
        proof {
            lemma_joined_push(parts, sep, page@);
        }
        if any {
            out.append(" · ");
        }
        out.append(page.as_str());
        proof {
            parts = parts.push(page@);
        }
        any = true;
    }
    proof {
        assert(parts =~= chapter_meta_parts(when@, *c));
    }
    if any {
        Some(out)
    } else {
        None
    }
}

/// Whether the chapter list is narrowed by a filter, which the toolbar
/// points out.
pub fn chapters_filtered(manga: &Manga) -> (b: bool)
    ensures
        b == (tri_of(manga.chapter_flags & UNREAD_MASK, SHOW_UNREAD, SHOW_READ) != TriState::Disabled
            || tri_of(manga.chapter_flags & DOWNLOADED_MASK, SHOW_DOWNLOADED, SHOW_NOT_DOWNLOADED)
            != TriState::Disabled || tri_of(
            manga.chapter_flags & BOOKMARKED_MASK,
            SHOW_BOOKMARKED,
            SHOW_NOT_BOOKMARKED,
        ) != TriState::Disabled),
{
    manga.unread_filter() != TriState::Disabled || manga.downloaded_filter() != TriState::Disabled
        || manga.bookmarked_filter() != TriState::Disabled
}

} // verus!
