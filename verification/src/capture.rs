//! Scripted screenshots: which screen a named view opens, and the capture's
//! stages from navigating to saving the picture.

use vstd::prelude::*;

use crate::browse::SourceInfo;
use crate::model::{Id, ReadingMode};
use crate::nav::{Route, SettingsPage, Tab};
use crate::text::{
    chars_of, contains_chars, contains_seq, lowercase_chars, lowercased, push_char, same_text,
};

verus! {

/// Where a capture stands.
#[derive(Debug, Clone, Copy, PartialEq, Eq, Structural)]
pub enum Stage {
    Navigate,
    WaitForData,
    Requested,
    Done,
}

/// What the window does for the capture on this frame.
#[derive(Debug, Clone, Copy, PartialEq, Eq, Structural)]
pub enum CaptureAction {
    /// Nothing to do: no capture, or it is over.
    Idle,
    /// Open the requested screen.
    Navigate,
    /// Step deeper once data has arrived; then, when `screenshot` is set,
    /// ask for the screenshot.
    FollowUp { screenshot: bool },
    /// Keep waiting for the screenshot.
    AwaitScreenshot,
    /// Write the screenshot and close the window.
    SaveAndClose,
}

/// The screen a named view opens.
#[derive(Debug, Clone, Copy, PartialEq, Eq, Structural)]
pub enum ViewTarget {
    ShowTab(Tab),
    /// The Browse tab's extension pane.
    BrowseExtensions,
    Open(Route),
    /// The library entry whose title matches the requested one.
    LibraryItem,
    /// The next unread chapter of the matching library entry.
    LibraryRead,
    /// Search the first remote source for the requested title.
    Search,
    /// Browse the first remote source.
    RemoteSource,
    Unknown,
}

/// A scripted screenshot of one named view.
pub struct Capture {
    pub path: String,
    pub view: String,
    pub delay_millis: u64,
    pub stage: Stage,
    /// Which browse result to try next; some titles are licensed and expose no
    /// readable chapters, so the harness walks past them.
    pub attempt: usize,
}

pub open spec fn target_of(view: Seq<char>) -> ViewTarget {
    if view == "library"@ {
        ViewTarget::ShowTab(Tab::Library)
    } else if view == "updates"@ {
        ViewTarget::ShowTab(Tab::Updates)
    } else if view == "history"@ {
        ViewTarget::ShowTab(Tab::History)
    } else if view == "browse"@ {
        ViewTarget::ShowTab(Tab::Browse)
    } else if view == "more"@ {
        ViewTarget::ShowTab(Tab::More)
    } else if view == "extensions"@ {
        ViewTarget::BrowseExtensions
    } else if view == "downloads"@ {
        ViewTarget::Open(Route::Downloads)
    } else if view == "libitem"@ {
        ViewTarget::LibraryItem
    } else if view == "libread"@ {
        ViewTarget::LibraryRead
    } else if view == "glyphs"@ {
        ViewTarget::ShowTab(Tab::Library)
    } else if view == "settings"@ {
        ViewTarget::Open(Route::Settings(SettingsPage::Appearance))
    } else if view == "statistics"@ {
        ViewTarget::Open(Route::Statistics)
    } else if view == "search"@ {
        ViewTarget::Search
    } else if view == "source"@ || view == "manga"@ || view == "reader"@ || view == "seed"@ {
        ViewTarget::RemoteSource
    } else {
        ViewTarget::Unknown
    }
}

/// Whether a path names a PNG picture: captures are taken only then.
pub open spec fn names_png(path: Seq<char>) -> bool {
    path.len() >= 4 && path.subrange(path.len() - 4, path.len() as int) == ".png"@
}

pub fn is_png_path(path: &str) -> (b: bool)
    ensures
        b == names_png(path@),
{
    proof {
        reveal_strlit(".png");
    }
    let c = chars_of(path);
    let n = c.len();
    if n < 4 {
        return false;
    }
    let b = c[n - 4] == '.' && c[n - 3] == 'p' && c[n - 2] == 'n' && c[n - 1] == 'g';
    proof {
        let tail = path@.subrange(n - 4, n as int);
        if b {
            assert(tail =~= ".png"@);
        } else {
            assert(tail != ".png"@ ) by {
                if tail == ".png"@ {
                    assert(tail[0] == c@[n - 4]);
                    assert(tail[1] == c@[n - 3]);
                    assert(tail[2] == c@[n - 2]);
                    assert(tail[3] == c@[n - 1]);
                }
            }
        }
    }
    b
}

impl Capture {
    pub fn new(path: String, view: String, delay_millis: u64) -> (c: Capture)
        ensures
            c.path == path,
            c.view == view,
            c.delay_millis == delay_millis,
            c.stage is Navigate,
            c.attempt == 0,
    {
        Capture { path, view, delay_millis, stage: Stage::Navigate, attempt: 0 }
    }

    /// A capture from its settings: the picture's path, the view (the
    /// library when none is named) and the delay before the picture is
    /// taken. There is none unless the path names a `.png`.
    pub fn from_settings(path: Option<String>, view: Option<String>, delay_millis: u64) -> (r: Option<
        Capture,
    >)
        ensures
            r is Some <==> (path matches Some(p) && names_png(p@)),
            r matches Some(c) ==> {
                &&& path == Some(c.path)
                &&& c.view@ == (match view {
                    Some(v) => v@,
                    None => "library"@,
                })
                &&& c.delay_millis == delay_millis
                &&& c.stage is Navigate
                &&& c.attempt == 0
            },
    {
        let p = match path {
            Some(p) => p,
            None => {
                return None;
            },
        };
        if !is_png_path(p.as_str()) {
            return None;
        }
        let v = match view {
            Some(v) => v,
            None => String::from_str("library"),
        };
        Some(Capture::new(p, v, delay_millis))
    }

    /// The glyph probe is not a real screen: it renders candidate glyphs.
    pub fn is_glyph_probe(&self) -> (b: bool)
        ensures
            b == (self.view@ == "glyphs"@),
    {
        same_text(self.view.as_str(), "glyphs")
    }

    /// The screen the capture's view opens.
    pub fn target(&self) -> (t: ViewTarget)
        ensures
            t == target_of(self.view@),
    {
        let v = self.view.as_str();
        if same_text(v, "library") {
            ViewTarget::ShowTab(Tab::Library)
        } else if same_text(v, "updates") {
            ViewTarget::ShowTab(Tab::Updates)
        } else if same_text(v, "history") {
            ViewTarget::ShowTab(Tab::History)
        } else if same_text(v, "browse") {
            ViewTarget::ShowTab(Tab::Browse)
        } else if same_text(v, "more") {
            ViewTarget::ShowTab(Tab::More)
        } else if same_text(v, "extensions") {
            ViewTarget::BrowseExtensions
        } else if same_text(v, "downloads") {
            ViewTarget::Open(Route::Downloads)
        } else if same_text(v, "libitem") {
            ViewTarget::LibraryItem
        } else if same_text(v, "libread") {
            ViewTarget::LibraryRead
        } else if same_text(v, "glyphs") {
            ViewTarget::ShowTab(Tab::Library)
        } else if same_text(v, "settings") {
            ViewTarget::Open(Route::Settings(SettingsPage::Appearance))
        } else if same_text(v, "statistics") {
            ViewTarget::Open(Route::Statistics)
        } else if same_text(v, "search") {
            ViewTarget::Search
        } else if same_text(v, "source") || same_text(v, "manga") || same_text(v, "reader")
            || same_text(v, "seed") {
            ViewTarget::RemoteSource
        } else {
            ViewTarget::Unknown
        }
    }

    /// Advances the capture by one frame, given how long it has run and
    /// whether the screenshot has arrived.
    pub fn tick(&mut self, elapsed_millis: u64, screenshot_arrived: bool) -> (a: CaptureAction)
        ensures
            final(self).path == old(self).path,
            final(self).view == old(self).view,
            final(self).delay_millis == old(self).delay_millis,
            final(self).attempt == old(self).attempt,
            match old(self).stage {
                Stage::Navigate => a == CaptureAction::Navigate && final(self).stage
                    == Stage::WaitForData,
                Stage::WaitForData => {
                    let due = elapsed_millis >= old(self).delay_millis;
                    a == (CaptureAction::FollowUp { screenshot: due }) && final(self).stage == (if due {
                        Stage::Requested
                    } else {
                        Stage::WaitForData
                    })
                },
                Stage::Requested => if screenshot_arrived {
                    a == CaptureAction::SaveAndClose && final(self).stage == Stage::Done
                } else {
                    a == CaptureAction::AwaitScreenshot && final(self).stage == Stage::Requested
                },
                Stage::Done => a == CaptureAction::Idle && final(self).stage == Stage::Done,
            },
    {
        match self.stage {
            Stage::Navigate => {
                self.stage = Stage::WaitForData;
                CaptureAction::Navigate
            },
            Stage::WaitForData => {
                let due = elapsed_millis >= self.delay_millis;
                if due {
                    self.stage = Stage::Requested;
                }
                CaptureAction::FollowUp { screenshot: due }
            },
            Stage::Requested => {
                if screenshot_arrived {
                    self.stage = Stage::Done;
                    CaptureAction::SaveAndClose
                } else {
                    CaptureAction::AwaitScreenshot
                }
            },
            Stage::Done => CaptureAction::Idle,
        }
    }
}

/// How a view carries on once its first screen is open.
#[derive(Debug, Clone, Copy, PartialEq, Eq, Structural)]
pub enum FollowUpKind {
    /// Search hit, then details, then the reader.
    Search,
    /// Adds some browse results to the library, then shows the library.
    Seed,
    /// Opens a browse result, trying the next when it has no chapters; with
    /// `reader`, goes on to read it.
    Candidate { reader: bool },
    /// Turns the pages of the chapter opened from the library.
    LibraryRead,
    /// Nothing more to do.
    Plain,
}

pub open spec fn follow_up_of(view: Seq<char>) -> FollowUpKind {
    if view == "search"@ {
        FollowUpKind::Search
    } else if view == "seed"@ {
        FollowUpKind::Seed
    } else if view == "manga"@ {
        FollowUpKind::Candidate { reader: false }
    } else if view == "reader"@ {
        FollowUpKind::Candidate { reader: true }
    } else if view == "libread"@ {
        FollowUpKind::LibraryRead
    } else {
        FollowUpKind::Plain
    }
}

/// What the window shows, as far as the follow-up steps look at it.
#[derive(Debug, Clone, Copy, PartialEq, Eq, Structural)]
pub struct Screen {
    /// The screen on top browses a source.
    pub on_source: bool,
    /// The screen on top shows an entry's details.
    pub on_details: bool,
    /// How many results the source screen lists.
    pub results: usize,
    /// How many chapters the details screen lists.
    pub chapters: usize,
    pub details_loading: bool,
    /// How many screens are pushed over the tab.
    pub stack_len: usize,
    pub library_size: usize,
    /// How many pages the reader holds.
    pub reader_pages: usize,
}

/// A step of the search follow-up.
#[derive(Debug, Clone, Copy, PartialEq, Eq, Structural)]
pub enum SearchStep {
    Nothing,
    /// Open the first result.
    OpenFirstHit,
    /// Read the entry's next unread chapter.
    ReadNextUnread,
}

/// The seeding follow-up: how many of the first results to add to the
/// library, and whether to go back to the library tab.
#[derive(Debug, Clone, Copy, PartialEq, Eq, Structural)]
pub struct SeedStep {
    pub add: usize,
    pub show_library: bool,
}

/// How many browse results seeding adds, at most.
pub const SEED_COUNT: usize = 14;

/// The first part of the candidate follow-up, on the source screen.
#[derive(Debug, Clone, Copy, PartialEq, Eq, Structural)]
pub enum CandidateStep {
    /// Not on a source screen with results: go on with the details part.
    Skip,
    /// Open the result at this position, then go on with the details part.
    Open(usize),
    /// Every result was tried: stop here.
    Stop,
}

/// The second part of the candidate follow-up, on the details screen.
#[derive(Debug, Clone, Copy, PartialEq, Eq, Structural)]
pub enum DetailsStep {
    Nothing,
    /// The entry has no chapters yet: wait.
    Wait,
    /// The entry still has no chapters: go back and try the next result.
    NextCandidate,
    ReadNextUnread,
}

/// A step of the library-read follow-up.
#[derive(Debug, Clone, Copy, PartialEq, Eq, Structural)]
pub enum TurnStep {
    Nothing,
    /// Jump this many pages ahead, to the end of the run.
    JumpToEnd(i32),
    /// Turn one page.
    Turn,
}

pub open spec fn search_step_spec(s: Screen) -> SearchStep {
    if s.on_source && s.results > 0 {
        SearchStep::OpenFirstHit
    } else if s.on_details && s.chapters > 0 {
        SearchStep::ReadNextUnread
    } else {
        SearchStep::Nothing
    }
}

pub open spec fn seed_step_spec(s: Screen) -> Option<SeedStep> {
    if s.results == 0 {
        None
    } else {
        Some(
            SeedStep {
                add: if s.library_size == 0 {
                    if s.results < SEED_COUNT {
                        s.results
                    } else {
                        SEED_COUNT
                    }
                } else {
                    0
                },
                show_library: s.stack_len > 0,
            },
        )
    }
}

pub open spec fn candidate_step_spec(s: Screen, attempt: usize) -> CandidateStep {
    if s.on_source && s.results > 0 {
        if attempt < s.results {
            CandidateStep::Open(attempt)
        } else {
            CandidateStep::Stop
        }
    } else {
        CandidateStep::Skip
    }
}

pub open spec fn details_step_spec(s: Screen, stale: bool, reader: bool) -> DetailsStep {
    if s.on_details && s.chapters == 0 && !s.details_loading {
        if stale {
            DetailsStep::NextCandidate
        } else {
            DetailsStep::Wait
        }
    } else if reader && s.on_details && s.chapters > 0 {
        DetailsStep::ReadNextUnread
    } else {
        DetailsStep::Nothing
    }
}

pub open spec fn turn_step_spec(pages: usize, turns: i32, done: usize, ready: bool) -> TurnStep {
    if pages == 0 {
        TurnStep::Nothing
    } else if turns < 0 {
        if done == 0 {
            TurnStep::JumpToEnd(pages as i32)
        } else {
            TurnStep::Nothing
        }
    } else if turns == 0 {
        TurnStep::Nothing
    } else if (done as i32) < turns && ready {
        TurnStep::Turn
    } else {
        TurnStep::Nothing
    }
}

impl Capture {
    /// How the capture's view carries on after its first screen.
    pub fn follow_up_kind(&self) -> (k: FollowUpKind)
        ensures
            k == follow_up_of(self.view@),
    {
        let v = self.view.as_str();
        if same_text(v, "search") {
            FollowUpKind::Search
        } else if same_text(v, "seed") {
            FollowUpKind::Seed
        } else if same_text(v, "manga") {
            FollowUpKind::Candidate { reader: false }
        } else if same_text(v, "reader") {
            FollowUpKind::Candidate { reader: true }
        } else if same_text(v, "libread") {
            FollowUpKind::LibraryRead
        } else {
            FollowUpKind::Plain
        }
    }
}

/// The search follow-up, one step per frame: open the first hit, then read
/// the entry's next unread chapter.
pub fn search_step(s: Screen) -> (r: SearchStep)
    ensures
        r == search_step_spec(s),
{
    if s.on_source && s.results > 0 {
        SearchStep::OpenFirstHit
    } else if s.on_details && s.chapters > 0 {
        SearchStep::ReadNextUnread
    } else {
        SearchStep::Nothing
    }
}

/// The seeding follow-up: once results are listed, an empty library gets
/// the first of them, and the library tab is shown.
pub fn seed_step(s: Screen) -> (r: Option<SeedStep>)
    ensures
        r == seed_step_spec(s),
{
    if s.results == 0 {
        return None;
    }
    let add = if s.library_size == 0 {
        if s.results < SEED_COUNT {
            s.results
        } else {
            SEED_COUNT
        }
    } else {
        0
    };
    Some(SeedStep { add, show_library: s.stack_len > 0 })
}

/// The candidate follow-up on the source screen: open the result the
/// capture is at.
pub fn candidate_step(s: Screen, attempt: usize) -> (r: CandidateStep)
    ensures
        r == candidate_step_spec(s, attempt),
{
    if s.on_source && s.results > 0 {
        if attempt < s.results {
            CandidateStep::Open(attempt)
        } else {
            CandidateStep::Stop
        }
    } else {
        CandidateStep::Skip
    }
}

/// The candidate follow-up on the details screen: wait for chapters, give
/// up on the entry once waiting went stale, or read it.
pub fn details_step(s: Screen, stale: bool, reader: bool) -> (r: DetailsStep)
    ensures
        r == details_step_spec(s, stale, reader),
{
    if s.on_details && s.chapters == 0 && !s.details_loading {
        if stale {
            DetailsStep::NextCandidate
        } else {
            DetailsStep::Wait
        }
    } else if reader && s.on_details && s.chapters > 0 {
        DetailsStep::ReadNextUnread
    } else {
        DetailsStep::Nothing
    }
}

/// The library-read follow-up: a negative turn count jumps once to the end
/// of the run; a positive one turns that many pages, paced by `ready`.
pub fn turn_step(pages: usize, turns: i32, done: usize, ready: bool) -> (r: TurnStep)
    ensures
        r == turn_step_spec(pages, turns, done, ready),
{
    if pages == 0 {
        TurnStep::Nothing
    } else if turns < 0 {
        if done == 0 {
            TurnStep::JumpToEnd(pages as i32)
        } else {
            TurnStep::Nothing
        }
    } else if turns == 0 {
        TurnStep::Nothing
    } else if (done as i32) < turns && ready {
        TurnStep::Turn
    } else {
        TurnStep::Nothing
    }
}

/// Whether a source is the one a capture browses: not the local source,
/// and named like the wanted text, or English when nothing is wanted.
pub open spec fn remote_match(s: SourceInfo, wanted: Seq<char>, local_id: Id) -> bool {
    &&& s.id != local_id
    &&& if wanted.len() == 0 {
        s.lang@ == "en"@
    } else {
        contains_seq(lowercased(s.name@), wanted)
    }
}

/// The first source a capture browses; `wanted` is already lowercased.
pub fn first_remote_source(sources: &Vec<SourceInfo>, wanted: &str, local_id: Id) -> (r: Option<
    Id,
>)
    ensures
        r is None ==> forall|i: int|
            0 <= i < sources@.len() ==> !remote_match(#[trigger] sources@[i], wanted@, local_id),
        r matches Some(id) ==> exists|i: int|
            0 <= i < sources@.len() && remote_match(sources@[i], wanted@, local_id)
                && #[trigger] sources@[i].id == id && forall|j: int|
                0 <= j < i ==> !remote_match(#[trigger] sources@[j], wanted@, local_id),
{
    let needle = chars_of(wanted);
    let mut i: usize = 0;
    while i < sources.len()
        invariant
            0 <= i <= sources@.len(),
            needle@ == wanted@,
            forall|j: int|
                0 <= j < i ==> !remote_match(#[trigger] sources@[j], wanted@, local_id),
        decreases sources@.len() - i,
    {
        let s = &sources[i];
        if s.id != local_id {
            let hit = if needle.len() == 0 {
                same_text(s.lang.as_str(), "en")
            } else {
                let name = lowercase_chars(s.name.as_str());
                contains_chars(&name, &needle)
            };
            if hit {
                return Some(s.id);
            }
        }
        i = i + 1;
    }
    None
}

/// The reading mode a capture forces, by its short name.
pub open spec fn mode_named_spec(name: Seq<char>) -> Option<ReadingMode> {
    if name == "ltr"@ {
        Some(ReadingMode::LeftToRight)
    } else if name == "rtl"@ {
        Some(ReadingMode::RightToLeft)
    } else if name == "vertical"@ {
        Some(ReadingMode::Vertical)
    } else if name == "webtoon"@ {
        Some(ReadingMode::Webtoon)
    } else if name == "continuous"@ {
        Some(ReadingMode::ContinuousVertical)
    } else if name == "infinite"@ {
        Some(ReadingMode::Infinite)
    } else {
        None
    }
}

pub fn mode_named(name: &str) -> (m: Option<ReadingMode>)
    ensures
        m == mode_named_spec(name@),
{
    if same_text(name, "ltr") {
        Some(ReadingMode::LeftToRight)
    } else if same_text(name, "rtl") {
        Some(ReadingMode::RightToLeft)
    } else if same_text(name, "vertical") {
        Some(ReadingMode::Vertical)
    } else if same_text(name, "webtoon") {
        Some(ReadingMode::Webtoon)
    } else if same_text(name, "continuous") {
        Some(ReadingMode::ContinuousVertical)
    } else if same_text(name, "infinite") {
        Some(ReadingMode::Infinite)
    } else {
        None
    }
}

/// ASCII letters and digits; `char::is_ascii_alphanumeric`.
pub open spec fn ascii_alphanumeric(c: char) -> bool {
    ('0' <= c <= '9') || ('a' <= c <= 'z') || ('A' <= c <= 'Z')
}

/// `char::to_ascii_lowercase`.
pub open spec fn ascii_lower(c: char) -> char {
    if 'A' <= c <= 'Z' {
        ((c as u32) + 32) as char
    } else {
        c
    }
}

/// A theme name reduced to its letters and digits, lowercased, so that
/// "Teal & Turquoise", "teal-turquoise" and "Tealturquoise" compare equal.
pub open spec fn normalised(s: Seq<char>) -> Seq<char>
    decreases s.len(),
{
    if s.len() == 0 {
        seq![]
    } else {
        let rest = normalised(s.drop_last());
        if ascii_alphanumeric(s.last()) {
            rest.push(ascii_lower(s.last()))
        } else {
            rest
        }
    }
}

pub fn normalise(s: &str) -> (r: String)
    ensures
        r@ == normalised(s@),
{
    let cs = chars_of(s);
    let mut r = String::new();
    let mut i: usize = 0;
    while i < cs.len()
        invariant
            0 <= i <= cs@.len(),
            cs@ == s@,
            r@ == normalised(s@.take(i as int)),
        decreases cs@.len() - i,
    {
        let c = cs[i];
        proof {
            assert(s@.take(i + 1).drop_last() =~= s@.take(i as int));
        }
        if ('0' <= c && c <= '9') || ('a' <= c && c <= 'z') {
            push_char(&mut r, c);
        } else if 'A' <= c && c <= 'Z' {
            let lower = ((c as u32) + 32) as u8 as char;
            proof {
                assert(lower == ascii_lower(c));
            }
            push_char(&mut r, lower);
        }
        i = i + 1;
    }
    proof {
        assert(s@.take(cs@.len() as int) =~= s@);
    }
    r
}

} // verus!
