use vstd::prelude::*;

verus! {

/// Database identifier of a manga, chapter, category or source.
pub type Id = i64;

/// How the reader lays pages out.
#[derive(Debug, Clone, Copy, PartialEq, Eq, Structural)]
pub enum ReadingMode {
    LeftToRight,
    RightToLeft,
    Vertical,
    Webtoon,
    ContinuousVertical,
    /// Continuous, and the next chapter is appended when the end is near.
    Infinite,
}

impl ReadingMode {
    /// Scrolls rather than turning pages.
    pub open spec fn continuous(self) -> bool {
        self is Webtoon || self is ContinuousVertical || self is Infinite
    }

    /// Pages turn sideways.
    pub open spec fn horizontal(self) -> bool {
        self is LeftToRight || self is RightToLeft
    }

    /// The number stored on a manga for its reading mode.
    pub open spec fn flag_value(self) -> i64 {
        match self {
            ReadingMode::LeftToRight => 1,
            ReadingMode::RightToLeft => 2,
            ReadingMode::Vertical => 3,
            ReadingMode::Webtoon => 4,
            ReadingMode::ContinuousVertical => 5,
            ReadingMode::Infinite => 6,
        }
    }

    /// The mode a stored number names, if any.
    pub open spec fn of_flag(flag: i64) -> Option<ReadingMode> {
        if flag == 1 {
            Some(ReadingMode::LeftToRight)
        } else if flag == 2 {
            Some(ReadingMode::RightToLeft)
        } else if flag == 3 {
            Some(ReadingMode::Vertical)
        } else if flag == 4 {
            Some(ReadingMode::Webtoon)
        } else if flag == 5 {
            Some(ReadingMode::ContinuousVertical)
        } else if flag == 6 {
            Some(ReadingMode::Infinite)
        } else {
            None
        }
    }

    pub open spec fn label_text(self) -> Seq<char> {
        match self {
            ReadingMode::LeftToRight => "Left to right"@,
            ReadingMode::RightToLeft => "Right to left"@,
            ReadingMode::Vertical => "Vertical"@,
            ReadingMode::Webtoon => "Webtoon"@,
            ReadingMode::ContinuousVertical => "Continuous vertical"@,
            ReadingMode::Infinite => "Infinite scroll"@,
        }
    }

    pub fn is_continuous(self) -> (b: bool)
        ensures
            b == self.continuous(),
    {
        match self {
            ReadingMode::Webtoon | ReadingMode::ContinuousVertical | ReadingMode::Infinite => true,
            _ => false,
        }
    }

    pub fn is_infinite(self) -> (b: bool)
        ensures
            b == (self is Infinite),
    {
        match self {
            ReadingMode::Infinite => true,
            _ => false,
        }
    }

    pub fn is_rtl(self) -> (b: bool)
        ensures
            b == (self is RightToLeft),
    {
        match self {
            ReadingMode::RightToLeft => true,
            _ => false,
        }
    }

    pub fn is_horizontal(self) -> (b: bool)
        ensures
            b == self.horizontal(),
    {
        match self {
            ReadingMode::LeftToRight | ReadingMode::RightToLeft => true,
            _ => false,
        }
    }

    pub fn flag(self) -> (f: i64)
        ensures
            f == self.flag_value(),
    {
        match self {
            ReadingMode::LeftToRight => 1,
            ReadingMode::RightToLeft => 2,
            ReadingMode::Vertical => 3,
            ReadingMode::Webtoon => 4,
            ReadingMode::ContinuousVertical => 5,
            ReadingMode::Infinite => 6,
        }
    }

    pub fn from_flag(flag: i64) -> (m: Option<ReadingMode>)
        ensures
            m == Self::of_flag(flag),
    {
        if flag == 1 {
            Some(ReadingMode::LeftToRight)
        } else if flag == 2 {
            Some(ReadingMode::RightToLeft)
        } else if flag == 3 {
            Some(ReadingMode::Vertical)
        } else if flag == 4 {
            Some(ReadingMode::Webtoon)
        } else if flag == 5 {
            Some(ReadingMode::ContinuousVertical)
        } else if flag == 6 {
            Some(ReadingMode::Infinite)
        } else {
            None
        }
    }

    pub fn label(self) -> (s: &'static str)
        ensures
            s@ == self.label_text(),
    {
        match self {
            ReadingMode::LeftToRight => "Left to right",
            ReadingMode::RightToLeft => "Right to left",
            ReadingMode::Vertical => "Vertical",
            ReadingMode::Webtoon => "Webtoon",
            ReadingMode::ContinuousVertical => "Continuous vertical",
            ReadingMode::Infinite => "Infinite scroll",
        }
    }
}

/// A mode's stored number reads back as that mode, so a per-manga override
/// survives a restart.
pub proof fn lemma_reading_mode_flag_round_trip(mode: ReadingMode)
    ensures
        ReadingMode::of_flag(mode.flag_value()) == Some(mode),
{
}

/// Infinite scroll is the only continuous mode that is infinite, and no
/// continuous mode turns pages sideways.
pub proof fn lemma_reading_mode_kinds(mode: ReadingMode)
    ensures
        mode is Infinite ==> mode.continuous(),
        mode.continuous() ==> !mode.horizontal(),
{
}

/// Light, dark, or whatever the desktop uses.
#[derive(Debug, Clone, Copy, PartialEq, Eq, Structural)]
pub enum ThemeMode {
    System,
    Light,
    Dark,
}

impl ThemeMode {
    /// Whether the mode shows the dark palette, given what the desktop
    /// reports (nothing, before the window exists).
    pub open spec fn dark(self, system_is_dark: Option<bool>) -> bool {
        match self {
            ThemeMode::Dark => true,
            ThemeMode::Light => false,
            ThemeMode::System => match system_is_dark {
                Some(d) => d,
                None => true,
            },
        }
    }

    pub fn is_dark(self, system_is_dark: Option<bool>) -> (b: bool)
        ensures
            b == self.dark(system_is_dark),
    {
        match self {
            ThemeMode::Dark => true,
            ThemeMode::Light => false,
            ThemeMode::System => match system_is_dark {
                Some(d) => d,
                None => true,
            },
        }
    }
}

/// A filter that can be off, require a property, or exclude it.
#[derive(Debug, Clone, Copy, PartialEq, Eq, Structural)]
pub enum TriState {
    Disabled,
    EnabledIs,
    EnabledNot,
}

impl TriState {
    /// The state a click moves to: off, then include, then exclude, then off.
    pub open spec fn next_spec(self) -> TriState {
        match self {
            TriState::Disabled => TriState::EnabledIs,
            TriState::EnabledIs => TriState::EnabledNot,
            TriState::EnabledNot => TriState::Disabled,
        }
    }

    pub fn next(self) -> (t: TriState)
        ensures
            t == self.next_spec(),
    {
        match self {
            TriState::Disabled => TriState::EnabledIs,
            TriState::EnabledIs => TriState::EnabledNot,
            TriState::EnabledNot => TriState::Disabled,
        }
    }

    /// The mark a filter row shows for the state.
    pub fn glyph(self) -> (s: &'static str)
        ensures
            s@ == (match self {
                TriState::Disabled => "○"@,
                TriState::EnabledIs => "☑"@,
                TriState::EnabledNot => "✖"@,
            }),
    {
        match self {
            TriState::Disabled => "○",
            TriState::EnabledIs => "☑",
            TriState::EnabledNot => "✖",
        }
    }

    pub open spec fn admits(self, value: bool) -> bool {
        match self {
            TriState::Disabled => true,
            TriState::EnabledIs => value,
            TriState::EnabledNot => !value,
        }
    }

    pub fn matches(self, value: bool) -> (b: bool)
        ensures
            b == self.admits(value),
    {
        match self {
            TriState::Disabled => true,
            TriState::EnabledIs => value,
            TriState::EnabledNot => !value,
        }
    }
}

/// The key of positive infinity; larger keys are NaNs.
pub const POS_INFINITY_KEY: i64 = 0x7ff0_0000_0000_0000;

/// The key of negative infinity; smaller keys are NaNs.
pub const NEG_INFINITY_KEY: i64 = -0x7ff0_0000_0000_0001;

/// The keys of `f64::MAX` and `f64::MIN`.
pub const MAX_NUMBER_KEY: i64 = 0x7fef_ffff_ffff_ffff;

pub const MIN_NUMBER_KEY: i64 = -0x7ff0_0000_0000_0000;

/// Whether a key stands for a NaN, which no comparison holds of.
pub open spec fn key_is_nan(k: i64) -> bool {
    k > POS_INFINITY_KEY || k < NEG_INFINITY_KEY
}

/// A key's place among the numbers, where -0.0 (key -1) and 0.0 (key 0) are
/// the same number.
pub open spec fn key_value(k: i64) -> int {
    if k == -1 {
        0
    } else {
        k as int
    }
}

/// f64's `<` on the numbers two keys stand for.
pub open spec fn number_lt(a: i64, b: i64) -> bool {
    !key_is_nan(a) && !key_is_nan(b) && key_value(a) < key_value(b)
}

/// f64's `<=` on the numbers two keys stand for.
pub open spec fn number_le(a: i64, b: i64) -> bool {
    !key_is_nan(a) && !key_is_nan(b) && key_value(a) <= key_value(b)
}

/// f64's `>= 0.0` on the number a key stands for.
pub open spec fn number_nonneg(k: i64) -> bool {
    number_le(0, k)
}

pub fn key_lt(a: i64, b: i64) -> (r: bool)
    ensures
        r == number_lt(a, b),
{
    let nan_a = a > POS_INFINITY_KEY || a < NEG_INFINITY_KEY;
    let nan_b = b > POS_INFINITY_KEY || b < NEG_INFINITY_KEY;
    let va = if a == -1 {
        0
    } else {
        a
    };
    let vb = if b == -1 {
        0
    } else {
        b
    };
    !nan_a && !nan_b && va < vb
}

pub fn key_le(a: i64, b: i64) -> (r: bool)
    ensures
        r == number_le(a, b),
{
    let nan_a = a > POS_INFINITY_KEY || a < NEG_INFINITY_KEY;
    let nan_b = b > POS_INFINITY_KEY || b < NEG_INFINITY_KEY;
    let va = if a == -1 {
        0
    } else {
        a
    };
    let vb = if b == -1 {
        0
    } else {
        b
    };
    !nan_a && !nan_b && va <= vb
}

/// A chapter as the interface uses it.
///
/// `number_key` orders chapter numbers the way f64's total ordering does:
/// it is the chapter number's bit pattern with the magnitude bits flipped
/// for negative numbers, so comparing keys as integers compares the numbers.
pub struct Chapter {
    pub id: Id,
    pub manga_id: Id,
    pub url: String,
    pub name: String,
    pub read: bool,
    pub bookmark: bool,
    pub last_page_read: i64,
    pub source_order: i64,
    pub number_key: i64,
    pub date_upload: i64,
    pub scanlator: Option<String>,
}

impl Chapter {
    /// A chapter of a series, not stored yet: unread, chapter number zero,
    /// first in source order, with no upload date.
    pub fn new(manga_id: Id, url: String, name: String) -> (c: Chapter)
        ensures
            c.id == 0,
            c.manga_id == manga_id,
            c.url == url,
            c.name == name,
            !c.read,
            !c.bookmark,
            c.last_page_read == 0,
            c.source_order == 0,
            c.number_key == 0,
            c.date_upload == 0,
            c.scanlator is None,
    {
        Chapter {
            id: 0,
            manga_id,
            url,
            name,
            read: false,
            bookmark: false,
            last_page_read: 0,
            source_order: 0,
            number_key: 0,
            date_upload: 0,
            scanlator: None,
        }
    }

    /// Applies one of the bulk edits the chapter lists offer; the page
    /// reached is forgotten when a chapter is marked read, and when a
    /// selection marks it unread, but kept when the library marks a whole
    /// entry unread or a migration carries the read state over.
    pub fn apply_edit(&mut self, edit: ChapterEdit)
        ensures
            *final(self) == old(self).edited(edit),
    {
        match edit {
            ChapterEdit::MarkRead => {
                self.read = true;
                self.last_page_read = 0;
            },
            ChapterEdit::MarkUnread => {
                self.read = false;
                self.last_page_read = 0;
            },
            ChapterEdit::SetRead(read) => {
                self.read = read;
                if read {
                    self.last_page_read = 0;
                }
            },
            ChapterEdit::CarryRead => {
                self.read = true;
            },
            ChapterEdit::SetBookmark(b) => {
                self.bookmark = b;
            },
        }
    }

    /// The chapter after a bulk edit.
    pub open spec fn edited(self, edit: ChapterEdit) -> Chapter {
        match edit {
            ChapterEdit::MarkRead => Chapter { read: true, last_page_read: 0, ..self },
            ChapterEdit::MarkUnread => Chapter { read: false, last_page_read: 0, ..self },
            ChapterEdit::SetRead(read) => Chapter {
                read,
                last_page_read: if read {
                    0
                } else {
                    self.last_page_read
                },
                ..self
            },
            ChapterEdit::CarryRead => Chapter { read: true, ..self },
            ChapterEdit::SetBookmark(b) => Chapter { bookmark: b, ..self },
        }
    }
}

/// The bulk edits of chapter lists.
#[derive(Debug, Clone, Copy, PartialEq, Eq, Structural)]
pub enum ChapterEdit {
    /// A selection's "Mark read": read, from the first page next time.
    MarkRead,
    /// A selection's "Mark unread": unread, from the first page.
    MarkUnread,
    /// The library's read toggle for whole entries: marking read forgets the
    /// page reached, marking unread keeps it.
    SetRead(bool),
    /// Migration: the chapter counts as read, the page left as it is.
    CarryRead,
    /// Bookmarks a chapter, or removes its bookmark.
    SetBookmark(bool),
}

impl Clone for Chapter {
    fn clone(&self) -> (r: Self)
        ensures
            r == *self,
    {
        Chapter {
            id: self.id,
            manga_id: self.manga_id,
            url: self.url.clone(),
            name: self.name.clone(),
            read: self.read,
            bookmark: self.bookmark,
            last_page_read: self.last_page_read,
            source_order: self.source_order,
            number_key: self.number_key,
            date_upload: self.date_upload,
            scanlator: match &self.scanlator {
                Some(t) => Some(t.clone()),
                None => None,
            },
        }
    }
}

} // verus!

verus! {

/// How a manga's chapter list is ordered.
#[derive(Debug, Clone, Copy, PartialEq, Eq, Structural)]
pub enum ChapterSortMode {
    SourceOrder,
    ChapterNumber,
    UploadDate,
    Alphabet,
}

impl ChapterSortMode {
    /// Every sort mode, in the order the settings list them.
    pub const ALL: [ChapterSortMode; 4] = [
        ChapterSortMode::SourceOrder,
        ChapterSortMode::ChapterNumber,
        ChapterSortMode::UploadDate,
        ChapterSortMode::Alphabet,
    ];
}

/// Bit layout of a manga's chapter flags: direction, three tri-state filters,
/// sort mode and display mode, each in its own field.
pub const SORT_DIR_MASK: i64 = 0x1;
pub const UNREAD_MASK: i64 = 0x6;
pub const SHOW_UNREAD: i64 = 0x2;
pub const SHOW_READ: i64 = 0x4;
pub const DOWNLOADED_MASK: i64 = 0x18;
pub const SHOW_DOWNLOADED: i64 = 0x8;
pub const SHOW_NOT_DOWNLOADED: i64 = 0x10;
pub const BOOKMARKED_MASK: i64 = 0x60;
pub const SHOW_BOOKMARKED: i64 = 0x20;
pub const SHOW_NOT_BOOKMARKED: i64 = 0x40;
pub const SORTING_MASK: i64 = 0x300;
pub const SORTING_NUMBER: i64 = 0x100;
pub const SORTING_UPLOAD_DATE: i64 = 0x200;
pub const SORTING_ALPHABET: i64 = 0x300;
pub const DISPLAY_MASK: i64 = 0x100000;
pub const VIEWER_MASK: i64 = 0x7;

/// The tri-state stored in a two-bit field: `is` for the first bit, `not` for
/// the second; anything else is off.
pub open spec fn tri_of(field: i64, is: i64, not: i64) -> TriState {
    if field == is {
        TriState::EnabledIs
    } else if field == not {
        TriState::EnabledNot
    } else {
        TriState::Disabled
    }
}

pub open spec fn tri_bits(state: TriState, is: i64, not: i64) -> i64 {
    match state {
        TriState::Disabled => 0,
        TriState::EnabledIs => is,
        TriState::EnabledNot => not,
    }
}

/// `flags` with the field under `mask` replaced by `value`.
pub open spec fn with_field(flags: i64, mask: i64, value: i64) -> i64 {
    (flags & !mask) | value
}

pub open spec fn sort_mode_of(flags: i64) -> ChapterSortMode {
    let f = flags & SORTING_MASK;
    if f == SORTING_NUMBER {
        ChapterSortMode::ChapterNumber
    } else if f == SORTING_UPLOAD_DATE {
        ChapterSortMode::UploadDate
    } else if f == SORTING_ALPHABET {
        ChapterSortMode::Alphabet
    } else {
        ChapterSortMode::SourceOrder
    }
}

pub open spec fn sort_mode_bits(mode: ChapterSortMode) -> i64 {
    match mode {
        ChapterSortMode::SourceOrder => 0,
        ChapterSortMode::ChapterNumber => SORTING_NUMBER,
        ChapterSortMode::UploadDate => SORTING_UPLOAD_DATE,
        ChapterSortMode::Alphabet => SORTING_ALPHABET,
    }
}

/// A manga entry as the interface uses it.
pub struct Manga {
    pub id: Id,
    pub source: Id,
    pub url: String,
    pub title: String,
    pub author: Option<String>,
    pub thumbnail_url: Option<String>,
    pub favorite: bool,
    /// Publication status, as sources report it (2 is "completed").
    pub status: i64,
    pub date_added: i64,
    pub last_update: i64,
    pub initialized: bool,
    pub chapter_flags: i64,
    pub viewer_flags: i64,
    pub description: Option<String>,
    pub genre: Option<Vec<String>>,
    /// Private notes about the entry.
    pub notes: String,
}

/// Publication status of a finished series.
pub const STATUS_COMPLETED: i64 = 2;

fn tri_from_bits(field: i64, is: i64, not: i64) -> (t: TriState)
    ensures
        t == tri_of(field, is, not),
{
    if field == is {
        TriState::EnabledIs
    } else if field == not {
        TriState::EnabledNot
    } else {
        TriState::Disabled
    }
}

fn bits_from_tri(state: TriState, is: i64, not: i64) -> (b: i64)
    ensures
        b == tri_bits(state, is, not),
{
    match state {
        TriState::Disabled => 0,
        TriState::EnabledIs => is,
        TriState::EnabledNot => not,
    }
}

impl Manga {
    /// A series of a source, not stored yet: not in the library, no details
    /// fetched, every chapter setting at its default.
    pub fn new(source: Id, url: String, title: String) -> (m: Manga)
        ensures
            m.id == 0,
            m.source == source,
            m.url == url,
            m.title == title,
            m.author is None,
            m.thumbnail_url is None,
            !m.favorite,
            m.status == 0,
            m.date_added == 0,
            m.last_update == 0,
            !m.initialized,
            m.chapter_flags == 0,
            m.viewer_flags == 0,
            m.description is None,
            m.genre is None,
            m.notes@.len() == 0,
    {
        Manga {
            id: 0,
            source,
            url,
            title,
            author: None,
            thumbnail_url: None,
            favorite: false,
            status: 0,
            date_added: 0,
            last_update: 0,
            initialized: false,
            chapter_flags: 0,
            viewer_flags: 0,
            description: None,
            genre: None,
            notes: String::new(),
        }
    }

    pub fn chapter_sort_mode(&self) -> (m: ChapterSortMode)
        ensures
            m == sort_mode_of(self.chapter_flags),
    {
        let f = self.chapter_flags & SORTING_MASK;
        if f == SORTING_NUMBER {
            ChapterSortMode::ChapterNumber
        } else if f == SORTING_UPLOAD_DATE {
            ChapterSortMode::UploadDate
        } else if f == SORTING_ALPHABET {
            ChapterSortMode::Alphabet
        } else {
            ChapterSortMode::SourceOrder
        }
    }

    pub fn set_chapter_sort_mode(&mut self, mode: ChapterSortMode)
        ensures
            final(self).chapter_flags == with_field(
                old(self).chapter_flags,
                SORTING_MASK,
                sort_mode_bits(mode),
            ),
            *final(self) == (Manga { chapter_flags: final(self).chapter_flags, ..*old(self) }),
    {
        let bits = match mode {
            ChapterSortMode::SourceOrder => 0,
            ChapterSortMode::ChapterNumber => SORTING_NUMBER,
            ChapterSortMode::UploadDate => SORTING_UPLOAD_DATE,
            ChapterSortMode::Alphabet => SORTING_ALPHABET,
        };
        self.chapter_flags = (self.chapter_flags & !SORTING_MASK) | bits;
    }

    /// Newest first; the stored default (a clear bit).
    pub fn sort_descending(&self) -> (b: bool)
        ensures
            b == (self.chapter_flags & SORT_DIR_MASK == 0),
    {
        self.chapter_flags & SORT_DIR_MASK == 0
    }

    pub fn set_sort_descending(&mut self, descending: bool)
        ensures
            final(self).chapter_flags == with_field(
                old(self).chapter_flags,
                SORT_DIR_MASK,
                if descending { 0 } else { SORT_DIR_MASK },
            ),
            *final(self) == (Manga { chapter_flags: final(self).chapter_flags, ..*old(self) }),
    {
        let bits = if descending {
            0
        } else {
            SORT_DIR_MASK
        };
        self.chapter_flags = (self.chapter_flags & !SORT_DIR_MASK) | bits;
    }

    pub fn unread_filter(&self) -> (t: TriState)
        ensures
            t == tri_of(self.chapter_flags & UNREAD_MASK, SHOW_UNREAD, SHOW_READ),
    {
        tri_from_bits(self.chapter_flags & UNREAD_MASK, SHOW_UNREAD, SHOW_READ)
    }

    pub fn set_unread_filter(&mut self, state: TriState)
        ensures
            final(self).chapter_flags == with_field(
                old(self).chapter_flags,
                UNREAD_MASK,
                tri_bits(state, SHOW_UNREAD, SHOW_READ),
            ),
            *final(self) == (Manga { chapter_flags: final(self).chapter_flags, ..*old(self) }),
    {
        let bits = bits_from_tri(state, SHOW_UNREAD, SHOW_READ);
        self.chapter_flags = (self.chapter_flags & !UNREAD_MASK) | bits;
    }

    pub fn downloaded_filter(&self) -> (t: TriState)
        ensures
            t == tri_of(self.chapter_flags & DOWNLOADED_MASK, SHOW_DOWNLOADED, SHOW_NOT_DOWNLOADED),
    {
        tri_from_bits(self.chapter_flags & DOWNLOADED_MASK, SHOW_DOWNLOADED, SHOW_NOT_DOWNLOADED)
    }

    pub fn set_downloaded_filter(&mut self, state: TriState)
        ensures
            final(self).chapter_flags == with_field(
                old(self).chapter_flags,
                DOWNLOADED_MASK,
                tri_bits(state, SHOW_DOWNLOADED, SHOW_NOT_DOWNLOADED),
            ),
            *final(self) == (Manga { chapter_flags: final(self).chapter_flags, ..*old(self) }),
    {
        let bits = bits_from_tri(state, SHOW_DOWNLOADED, SHOW_NOT_DOWNLOADED);
        self.chapter_flags = (self.chapter_flags & !DOWNLOADED_MASK) | bits;
    }

    pub fn bookmarked_filter(&self) -> (t: TriState)
        ensures
            t == tri_of(self.chapter_flags & BOOKMARKED_MASK, SHOW_BOOKMARKED, SHOW_NOT_BOOKMARKED),
    {
        tri_from_bits(self.chapter_flags & BOOKMARKED_MASK, SHOW_BOOKMARKED, SHOW_NOT_BOOKMARKED)
    }

    pub fn set_bookmarked_filter(&mut self, state: TriState)
        ensures
            final(self).chapter_flags == with_field(
                old(self).chapter_flags,
                BOOKMARKED_MASK,
                tri_bits(state, SHOW_BOOKMARKED, SHOW_NOT_BOOKMARKED),
            ),
            *final(self) == (Manga { chapter_flags: final(self).chapter_flags, ..*old(self) }),
    {
        let bits = bits_from_tri(state, SHOW_BOOKMARKED, SHOW_NOT_BOOKMARKED);
        self.chapter_flags = (self.chapter_flags & !BOOKMARKED_MASK) | bits;
    }

    /// Whether chapter rows show "Chapter N" rather than the source's name.
    pub fn display_chapter_number(&self) -> (b: bool)
        ensures
            b == (self.chapter_flags & DISPLAY_MASK != 0),
    {
        self.chapter_flags & DISPLAY_MASK != 0
    }

    pub fn set_display_chapter_number(&mut self, by_number: bool)
        ensures
            final(self).chapter_flags == with_field(
                old(self).chapter_flags,
                DISPLAY_MASK,
                if by_number { DISPLAY_MASK } else { 0 },
            ),
            *final(self) == (Manga { chapter_flags: final(self).chapter_flags, ..*old(self) }),
    {
        let bits = if by_number {
            DISPLAY_MASK
        } else {
            0
        };
        self.chapter_flags = (self.chapter_flags & !DISPLAY_MASK) | bits;
    }

    /// The reading mode stored for this series, if one was chosen.
    pub fn reading_mode(&self) -> (m: Option<ReadingMode>)
        ensures
            m == ReadingMode::of_flag(self.viewer_flags & VIEWER_MASK),
    {
        ReadingMode::from_flag(self.viewer_flags & VIEWER_MASK)
    }

    pub fn set_reading_mode(&mut self, mode: Option<ReadingMode>)
        ensures
            final(self).viewer_flags == with_field(
                old(self).viewer_flags,
                VIEWER_MASK,
                match mode {
                    Some(m) => m.flag_value(),
                    None => 0,
                },
            ),
            *final(self) == (Manga { viewer_flags: final(self).viewer_flags, ..*old(self) }),
    {
        let bits = match mode {
            Some(m) => m.flag(),
            None => 0,
        };
        self.viewer_flags = (self.viewer_flags & !VIEWER_MASK) | bits;
    }
}

} // verus!

verus! {

/// Replacing one field leaves that field holding the new bits and any field
/// disjoint from it as it was.
proof fn lemma_field_update(flags: i64, mask: i64, value: i64, other: i64)
    requires
        value & !mask == 0,
        mask & other == 0,
    ensures
        with_field(flags, mask, value) & mask == value,
        with_field(flags, mask, value) & other == flags & other,
{
    lemma_field_set(flags, mask, value);
    assert(((flags & !mask) | value) & other == flags & other) by (bit_vector)
        requires
            value & !mask == 0,
            mask & other == 0,
    ;
}

/// Replacing a field leaves it holding the new bits.
proof fn lemma_field_set(flags: i64, mask: i64, value: i64)
    requires
        value & !mask == 0,
    ensures
        with_field(flags, mask, value) & mask == value,
{
    assert(((flags & !mask) | value) & mask == value) by (bit_vector)
        requires
            value & !mask == 0,
    ;
}

/// Every chapter-flag field as a tuple: direction, unread, downloaded,
/// bookmarked, sort mode, display.
pub open spec fn chapter_fields(flags: i64) -> (i64, i64, i64, i64, i64, i64) {
    (
        flags & SORT_DIR_MASK,
        flags & UNREAD_MASK,
        flags & DOWNLOADED_MASK,
        flags & BOOKMARKED_MASK,
        flags & SORTING_MASK,
        flags & DISPLAY_MASK,
    )
}

/// Choosing a sort mode reads back as that mode and changes no other field
/// of the chapter flags.
pub proof fn lemma_sort_mode_round_trip(flags: i64, mode: ChapterSortMode)
    ensures
        sort_mode_of(with_field(flags, SORTING_MASK, sort_mode_bits(mode))) == mode,
        ({
            let (d, u, w, b, _s, p) = chapter_fields(flags);
            let (d2, u2, w2, b2, _s2, p2) = chapter_fields(
                with_field(flags, SORTING_MASK, sort_mode_bits(mode)),
            );
            d2 == d && u2 == u && w2 == w && b2 == b && p2 == p
        }),
{
    let v = sort_mode_bits(mode);
    assert(0i64 & !0x300i64 == 0 && 0x100i64 & !0x300i64 == 0 && 0x200i64 & !0x300i64 == 0
        && 0x300i64 & !0x300i64 == 0) by (bit_vector);
    assert(0x300i64 & 0x1 == 0 && 0x300i64 & 0x6 == 0 && 0x300i64 & 0x18 == 0 && 0x300i64 & 0x60
        == 0 && 0x300i64 & 0x100000 == 0) by (bit_vector);
    lemma_field_set(flags, SORTING_MASK, v);
    lemma_field_update(flags, SORTING_MASK, v, SORT_DIR_MASK);
    lemma_field_update(flags, SORTING_MASK, v, UNREAD_MASK);
    lemma_field_update(flags, SORTING_MASK, v, DOWNLOADED_MASK);
    lemma_field_update(flags, SORTING_MASK, v, BOOKMARKED_MASK);
    lemma_field_update(flags, SORTING_MASK, v, DISPLAY_MASK);
}

/// Choosing a direction reads back as that direction and changes no other
/// field of the chapter flags.
pub proof fn lemma_direction_round_trip(flags: i64, descending: bool)
    ensures
        ({
            let f = with_field(flags, SORT_DIR_MASK, if descending { 0 } else { SORT_DIR_MASK });
            let (_d, u, w, b, s, p) = chapter_fields(flags);
            let (_d2, u2, w2, b2, s2, p2) = chapter_fields(f);
            &&& (f & SORT_DIR_MASK == 0) == descending
            &&& u2 == u && w2 == w && b2 == b && s2 == s && p2 == p
        }),
{
    let v: i64 = if descending {
        0
    } else {
        SORT_DIR_MASK
    };
    assert(0i64 & !1i64 == 0 && 1i64 & !1i64 == 0) by (bit_vector);
    assert(1i64 & 0x6 == 0 && 1i64 & 0x18 == 0 && 1i64 & 0x60 == 0 && 1i64 & 0x300 == 0 && 1i64
        & 0x100000 == 0) by (bit_vector);
    lemma_field_update(flags, SORT_DIR_MASK, v, UNREAD_MASK);
    lemma_field_update(flags, SORT_DIR_MASK, v, DOWNLOADED_MASK);
    lemma_field_update(flags, SORT_DIR_MASK, v, BOOKMARKED_MASK);
    lemma_field_update(flags, SORT_DIR_MASK, v, SORTING_MASK);
    lemma_field_update(flags, SORT_DIR_MASK, v, DISPLAY_MASK);
    lemma_field_set(flags, SORT_DIR_MASK, v);
}

/// The three chapter filters are independent: setting one reads back as set
/// and leaves the other fields as they were.
pub proof fn lemma_filters_independent(flags: i64, unread: TriState, downloaded: TriState, bookmarked: TriState)
    ensures
        ({
            let f = with_field(flags, UNREAD_MASK, tri_bits(unread, SHOW_UNREAD, SHOW_READ));
            let (d, _u, w, b, s, p) = chapter_fields(flags);
            let (d2, _u2, w2, b2, s2, p2) = chapter_fields(f);
            &&& tri_of(f & UNREAD_MASK, SHOW_UNREAD, SHOW_READ) == unread
            &&& d2 == d && w2 == w && b2 == b && s2 == s && p2 == p
        }),
        ({
            let f = with_field(
                flags,
                DOWNLOADED_MASK,
                tri_bits(downloaded, SHOW_DOWNLOADED, SHOW_NOT_DOWNLOADED),
            );
            let (d, u, _w, b, s, p) = chapter_fields(flags);
            let (d2, u2, _w2, b2, s2, p2) = chapter_fields(f);
            &&& tri_of(f & DOWNLOADED_MASK, SHOW_DOWNLOADED, SHOW_NOT_DOWNLOADED) == downloaded
            &&& d2 == d && u2 == u && b2 == b && s2 == s && p2 == p
        }),
        ({
            let f = with_field(
                flags,
                BOOKMARKED_MASK,
                tri_bits(bookmarked, SHOW_BOOKMARKED, SHOW_NOT_BOOKMARKED),
            );
            let (d, u, w, _b, s, p) = chapter_fields(flags);
            let (d2, u2, w2, _b2, s2, p2) = chapter_fields(f);
            &&& tri_of(f & BOOKMARKED_MASK, SHOW_BOOKMARKED, SHOW_NOT_BOOKMARKED) == bookmarked
            &&& d2 == d && u2 == u && w2 == w && s2 == s && p2 == p
        }),
{
    assert(0i64 & !6i64 == 0 && 2i64 & !6i64 == 0 && 4i64 & !6i64 == 0) by (bit_vector);
    assert(0i64 & !0x18i64 == 0 && 8i64 & !0x18i64 == 0 && 0x10i64 & !0x18i64 == 0) by (bit_vector);
    assert(0i64 & !0x60i64 == 0 && 0x20i64 & !0x60i64 == 0 && 0x40i64 & !0x60i64 == 0) by (bit_vector);
    assert(6i64 & 1 == 0 && 6i64 & 0x18 == 0 && 6i64 & 0x60 == 0 && 6i64 & 0x300 == 0 && 6i64
        & 0x100000 == 0) by (bit_vector);
    assert(0x18i64 & 1 == 0 && 0x18i64 & 6 == 0 && 0x18i64 & 0x60 == 0 && 0x18i64 & 0x300 == 0
        && 0x18i64 & 0x100000 == 0) by (bit_vector);
    assert(0x60i64 & 1 == 0 && 0x60i64 & 6 == 0 && 0x60i64 & 0x18 == 0 && 0x60i64 & 0x300 == 0
        && 0x60i64 & 0x100000 == 0) by (bit_vector);
    let vu = tri_bits(unread, SHOW_UNREAD, SHOW_READ);
    let vw = tri_bits(downloaded, SHOW_DOWNLOADED, SHOW_NOT_DOWNLOADED);
    let vb = tri_bits(bookmarked, SHOW_BOOKMARKED, SHOW_NOT_BOOKMARKED);
    lemma_field_set(flags, UNREAD_MASK, vu);
    lemma_field_set(flags, DOWNLOADED_MASK, vw);
    lemma_field_set(flags, BOOKMARKED_MASK, vb);
    lemma_field_update(flags, UNREAD_MASK, vu, SORT_DIR_MASK);
    lemma_field_update(flags, UNREAD_MASK, vu, DOWNLOADED_MASK);
    lemma_field_update(flags, UNREAD_MASK, vu, BOOKMARKED_MASK);
    lemma_field_update(flags, UNREAD_MASK, vu, SORTING_MASK);
    lemma_field_update(flags, UNREAD_MASK, vu, DISPLAY_MASK);
    lemma_field_update(flags, DOWNLOADED_MASK, vw, SORT_DIR_MASK);
    lemma_field_update(flags, DOWNLOADED_MASK, vw, UNREAD_MASK);
    lemma_field_update(flags, DOWNLOADED_MASK, vw, BOOKMARKED_MASK);
    lemma_field_update(flags, DOWNLOADED_MASK, vw, SORTING_MASK);
    lemma_field_update(flags, DOWNLOADED_MASK, vw, DISPLAY_MASK);
    lemma_field_update(flags, BOOKMARKED_MASK, vb, SORT_DIR_MASK);
    lemma_field_update(flags, BOOKMARKED_MASK, vb, UNREAD_MASK);
    lemma_field_update(flags, BOOKMARKED_MASK, vb, DOWNLOADED_MASK);
    lemma_field_update(flags, BOOKMARKED_MASK, vb, SORTING_MASK);
    lemma_field_update(flags, BOOKMARKED_MASK, vb, DISPLAY_MASK);
}

/// Showing chapter numbers reads back as set and does not disturb sorting or
/// filtering.
pub proof fn lemma_display_flag_keeps_sorting(flags: i64, by_number: bool)
    ensures
        ({
            let f = with_field(flags, DISPLAY_MASK, if by_number { DISPLAY_MASK } else { 0 });
            let (d, u, w, b, s, _p) = chapter_fields(flags);
            let (d2, u2, w2, b2, s2, _p2) = chapter_fields(f);
            &&& (f & DISPLAY_MASK != 0) == by_number
            &&& d2 == d && u2 == u && w2 == w && b2 == b && s2 == s
        }),
{
    let v: i64 = if by_number {
        DISPLAY_MASK
    } else {
        0
    };
    assert(0i64 & !0x100000i64 == 0 && 0x100000i64 & !0x100000i64 == 0) by (bit_vector);
    assert(0x100000i64 & 1 == 0 && 0x100000i64 & 6 == 0 && 0x100000i64 & 0x18 == 0 && 0x100000i64
        & 0x60 == 0 && 0x100000i64 & 0x300 == 0) by (bit_vector);
    lemma_field_update(flags, DISPLAY_MASK, v, SORT_DIR_MASK);
    lemma_field_update(flags, DISPLAY_MASK, v, UNREAD_MASK);
    lemma_field_update(flags, DISPLAY_MASK, v, DOWNLOADED_MASK);
    lemma_field_update(flags, DISPLAY_MASK, v, BOOKMARKED_MASK);
    lemma_field_update(flags, DISPLAY_MASK, v, SORTING_MASK);
    lemma_field_set(flags, DISPLAY_MASK, v);
}

/// A series' reading mode reads back as stored.
pub proof fn lemma_series_reading_mode_round_trip(flags: i64, mode: Option<ReadingMode>)
    ensures
        ReadingMode::of_flag(
            with_field(
                flags,
                VIEWER_MASK,
                match mode {
                    Some(m) => m.flag_value(),
                    None => 0,
                },
            ) & VIEWER_MASK,
        ) == mode,
{
    let v: i64 = match mode {
        Some(m) => m.flag_value(),
        None => 0,
    };
    assert(0i64 & !7i64 == 0 && 1i64 & !7i64 == 0 && 2i64 & !7i64 == 0 && 3i64 & !7i64 == 0 && 4i64
        & !7i64 == 0 && 5i64 & !7i64 == 0 && 6i64 & !7i64 == 0) by (bit_vector);
    lemma_field_set(flags, VIEWER_MASK, v);
}

/// Three clicks bring a filter back to where it was.
pub proof fn lemma_tri_state_cycles(t: TriState)
    ensures
        t.next_spec().next_spec().next_spec() == t,
        t.next_spec() != t,
{
}

} // verus!
