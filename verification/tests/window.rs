use mihon_desktop::browse::{migration_source_name, source_name_or_unknown, BrowseState};
use mihon_desktop::chapters::{carried_read_chapters, previous_chapters};
use mihon_desktop::capture::{is_png_path, Capture};
use mihon_desktop::details::DetailsState;
use mihon_desktop::dialog::DialogEffect;
use mihon_desktop::extensions::ExtensionsState;
use mihon_desktop::history::HistoryState;
use mihon_desktop::library::{
    shuffle_key, sheet_input, BadgePrefs, FilterRow, LibraryDisplayMode, LibraryFilters,
    LibrarySheetPrefs, LibrarySort, LibraryState, SheetInput, SheetOutcome, SheetToggle,
};
use mihon_desktop::model::{Chapter, ReadingMode, TriState};
use mihon_desktop::nav::{Navigation, Route, Tab};
use mihon_desktop::reader::{PagesOutcome, ReaderEffect, ReaderPrefs, ReaderState};
use mihon_desktop::source_browse::SourceBrowseState;
use mihon_desktop::time::{day_heading, format_timestamp, timestamp_label, LocalDate};
use mihon_desktop::updates::UpdatesState;
use mihon_desktop::window::{AppEvent, Command, FollowUp, Screens, Toast};

fn chapter(id: i64, name: &str) -> Chapter {
    let mut c = Chapter::new(7, format!("/c/{id}"), name.into());
    c.id = id;
    c
}

fn prefs(mark_on_last_page: bool) -> ReaderPrefs {
    ReaderPrefs {
        double_pages: false,
        mark_read_on_last_page: mark_on_last_page,
        skip_read_chapters_on_finish: false,
        remove_after_read: false,
        incognito: false,
    }
}

fn infinite_reader() -> ReaderState<u32> {
    let mut reader = ReaderState::open(
        7,
        1,
        "Title".into(),
        "One".into(),
        None,
        vec![chapter(1, "One"), chapter(2, "Two")],
        ReadingMode::Infinite,
    );
    assert_eq!(reader.pages_loaded(1, Ok(vec![10, 11])), PagesOutcome::Loaded(2));
    reader.appending = Some(2);
    assert_eq!(reader.pages_loaded(2, Ok(vec![20, 21])), PagesOutcome::Appended(2));
    reader
}

fn screens() -> Screens<u32> {
    Screens {
        nav: Navigation::new(Tab::Library),
        library: LibraryState::new(),
        updates: UpdatesState::new(),
        history: HistoryState::new(),
        browse: BrowseState::new(),
        source_browse: SourceBrowseState::new(),
        extensions: ExtensionsState::new(),
        details: DetailsState::new(),
        reader: infinite_reader(),
        extension_repos: vec![],
        prefs_dirty: false,
        update_progress: None,
        toasts: vec![],
    }
}

fn clean(s: &mut Screens<u32>) {
    s.library.dirty = false;
    s.updates.dirty = false;
    s.history.dirty = false;
    s.extensions.dirty = false;
}

#[test]
fn scrolling_past_a_chapter_marks_it_read_without_the_last_page_setting() {
    let mut reader = infinite_reader();
    let effects = reader.settle_scroll(2, false, &prefs(false));
    assert_eq!(reader.chapter_id, 2);
    assert_eq!(reader.chapter_name, "Two");
    assert!(effects.contains(&ReaderEffect::MarkRead { chapter_id: 1, delete_download: false }));

    let mut reader = infinite_reader();
    let mut incognito = prefs(false);
    incognito.incognito = true;
    let effects = reader.settle_scroll(2, false, &incognito);
    assert_eq!(reader.chapter_id, 2);
    assert!(!effects.iter().any(|e| matches!(e, ReaderEffect::MarkRead { .. })));
}

#[test]
fn an_empty_page_list_appends_an_empty_segment() {
    let mut reader = infinite_reader();
    assert!(reader.append_chapter(3, vec![]));
    assert_eq!(reader.segments.len(), 3);
    assert_eq!(reader.segments[2].start, 4);
    assert_eq!(reader.segments[2].len, 0);
    assert_eq!(reader.pages.len(), 4);
    assert!(!reader.append_chapter(3, vec![30]));
}

#[test]
fn a_finished_library_update_clears_progress_and_reports() {
    let mut s = screens();
    clean(&mut s);
    s.update_progress = Some((3, 9, "Berserk".into()));
    let f = s.handle_event(AppEvent::LibraryUpdateFinished { new_chapters: 4, failed: 1 });
    assert_eq!(f, FollowUp::Nothing);
    assert!(s.update_progress.is_none());
    assert!(s.library.dirty && s.updates.dirty && s.history.dirty);
    assert_eq!(
        s.toasts,
        vec![Toast { message: "Library updated — 4 new chapter(s), 1 failed".into(), error: false }]
    );
}

#[test]
fn a_failed_append_is_reported() {
    let mut s = screens();
    s.reader.appending = Some(3);
    let f = s.handle_event(AppEvent::PagesLoaded { chapter_id: 3, result: Err("timeout".into()) });
    assert_eq!(f, FollowUp::Pages(PagesOutcome::AppendFailed("timeout".into())));
    assert!(s.reader.reached_end);
    assert!(s.reader.appending.is_none());
    assert_eq!(s.toasts, vec![Toast { message: "could not continue: timeout".into(), error: true }]);

    let mut s = screens();
    s.reader.appending = Some(3);
    let f = s.handle_event(AppEvent::PagesLoaded { chapter_id: 3, result: Ok(vec![]) });
    assert_eq!(f, FollowUp::Pages(PagesOutcome::EndReached));
    assert!(s.toasts.is_empty());
}

#[test]
fn a_chapter_reply_for_another_entry_still_marks_the_lists() {
    let mut s = screens();
    clean(&mut s);
    s.details.manga_id = 5;
    s.details.loading = true;
    let f = s.handle_event(AppEvent::ChaptersLoaded { manga_id: 6, new_chapters: 2, result: Ok(()) });
    assert_eq!(f, FollowUp::Nothing);
    assert!(s.details.loading);
    assert!(s.toasts.is_empty());
    assert!(s.library.dirty && s.updates.dirty && !s.history.dirty);

    let f = s.handle_event(AppEvent::ChaptersLoaded { manga_id: 5, new_chapters: 2, result: Ok(()) });
    assert_eq!(f, FollowUp::RefreshDetails);
    assert!(!s.details.loading);
    assert_eq!(s.toasts, vec![Toast { message: "2 new chapter(s)".into(), error: false }]);
}

#[test]
fn library_changes_refresh_an_open_entry() {
    let mut s = screens();
    clean(&mut s);
    assert_eq!(s.handle_event(AppEvent::LibraryChanged), FollowUp::Nothing);
    assert!(s.library.dirty && s.updates.dirty && s.history.dirty);
    s.nav.push(Route::MangaDetails(5));
    assert_eq!(s.handle_event(AppEvent::LibraryChanged), FollowUp::RefreshDetails);
    s.handle_event(AppEvent::LibraryUpdateProgress { done: 1, total: 3, current: "A".into() });
    assert_eq!(s.update_progress, Some((1, 3, "A".into())));
}

#[test]
fn removing_entries_clears_the_selection_and_every_list() {
    let mut s = screens();
    clean(&mut s);
    s.library.selection.insert(1);
    s.library.selection.insert(2);
    let cmds = s.apply_dialog_effect(DialogEffect::RemoveFromLibrary {
        manga_ids: vec![1, 2],
        delete_downloads: true,
    });
    assert!(s.library.selection.is_empty());
    assert!(s.library.dirty && s.updates.dirty && s.history.dirty);
    assert_eq!(
        cmds,
        vec![
            Command::DeleteDownloads { manga_id: 1 },
            Command::Unfavorite { manga_id: 1 },
            Command::DeleteDownloads { manga_id: 2 },
            Command::Unfavorite { manga_id: 2 },
        ]
    );
    let cmds = s.apply_dialog_effect(DialogEffect::RemoveFromLibrary {
        manga_ids: vec![3],
        delete_downloads: false,
    });
    assert_eq!(cmds, vec![Command::Unfavorite { manga_id: 3 }]);
}

#[test]
fn adding_a_repository_loads_the_extensions_once() {
    let mut s = screens();
    let url = "https://example.com/index.json".to_string();
    let cmds = s.apply_dialog_effect(DialogEffect::AddRepository { url: url.clone() });
    assert_eq!(cmds, vec![Command::FetchRepo { url: url.clone() }]);
    assert!(s.extensions.loading);
    assert!(s.prefs_dirty);
    assert_eq!(s.extension_repos, vec![url.clone()]);

    s.prefs_dirty = false;
    let cmds = s.apply_dialog_effect(DialogEffect::AddRepository { url: url.clone() });
    assert_eq!(cmds, vec![Command::FetchRepo { url: url.clone() }]);
    assert!(!s.prefs_dirty);
    assert_eq!(s.extension_repos, vec![url]);

    let cmds = s.apply_dialog_effect(DialogEffect::ClearHistory);
    assert_eq!(cmds, vec![Command::ClearHistory]);
    assert!(s.history.dirty);
}

fn sheet_prefs() -> LibrarySheetPrefs {
    LibrarySheetPrefs {
        filters: LibraryFilters::new(),
        sort: LibrarySort::Alphabetical,
        sort_ascending: true,
        display_mode: LibraryDisplayMode::CompactGrid,
        columns: 6,
        badges: BadgePrefs { unread: true, downloaded: true, local: true, language: false },
        show_continue_button: true,
    }
}

#[test]
fn the_library_sheet_marks_changes_and_only_done_closes() {
    let mut p = sheet_prefs();
    let r = sheet_input(&mut p, SheetInput::Sort(LibrarySort::Alphabetical));
    assert_eq!(r, SheetOutcome { changed: true, close: false });
    assert!(!p.sort_ascending);
    assert_eq!(p.display_mode, LibraryDisplayMode::CompactGrid);

    let r = sheet_input(&mut p, SheetInput::Sort(LibrarySort::Random));
    assert_eq!(r, SheetOutcome { changed: true, close: false });
    assert_eq!(p.sort, LibrarySort::Random);
    assert!(!p.sort_ascending);

    sheet_input(&mut p, SheetInput::CycleFilter(FilterRow::Unread));
    assert_eq!(p.filters.unread, TriState::EnabledIs);
    sheet_input(&mut p, SheetInput::Toggle(SheetToggle::LanguageBadge));
    assert!(p.badges.language);

    assert_eq!(sheet_input(&mut p, SheetInput::Columns(6)).changed, false);
    assert_eq!(sheet_input(&mut p, SheetInput::Columns(8)).changed, true);
    assert_eq!(p.columns, 8);

    sheet_input(&mut p, SheetInput::ResetFilters);
    assert_eq!(p.filters, LibraryFilters::new());
    assert_eq!(
        sheet_input(&mut p, SheetInput::Done),
        SheetOutcome { changed: false, close: true }
    );
}

#[test]
fn the_random_order_never_ties_two_entries() {
    for seed in [0u64, 1, 0x5eed, u64::MAX] {
        let keys: Vec<u64> = (-50i64..50).map(|id| shuffle_key(id, seed)).collect();
        for i in 0..keys.len() {
            for j in (i + 1)..keys.len() {
                assert_ne!(keys[i], keys[j]);
            }
        }
    }
}

#[test]
fn captures_need_a_png() {
    assert!(is_png_path("out.png"));
    assert!(!is_png_path("out.jpg"));
    assert!(!is_png_path("png"));
    assert!(Capture::from_settings(None, None, 6000).is_none());
    assert!(Capture::from_settings(Some("shot.jpeg".into()), None, 6000).is_none());
    let c = Capture::from_settings(Some("shot.png".into()), None, 6000).unwrap();
    assert_eq!(c.path, "shot.png");
    assert_eq!(c.view, "library");
    let c = Capture::from_settings(Some("shot.png".into()), Some("reader".into()), 10).unwrap();
    assert_eq!(c.view, "reader");
    assert_eq!(c.delay_millis, 10);
}

#[test]
fn day_headings_and_timestamps_pick_their_pattern() {
    let date = LocalDate { year: 2024, month: 3, day: 5, day_number: 738950 };
    assert_eq!(day_heading(0, &date), "Today");
    assert_eq!(day_heading(1, &date), "Yesterday");
    assert_eq!(day_heading(4, &date), "4 days ago");
    assert_eq!(day_heading(-2, &date), "-2 days ago");
    assert_eq!(day_heading(30, &date), "05 March 2024");

    let day: i128 = 86_400_000;
    assert_eq!(timestamp_label(5 * 60_000, &date, true), "5 min ago");
    assert_eq!(timestamp_label(30 * day, &date, true), "05 Mar");
    assert_eq!(timestamp_label(400 * day, &date, true), "05 Mar 2024");
    assert_eq!(timestamp_label(5 * 60_000, &date, false), "05 Mar 2024");
    assert!(!format_timestamp(1_600_000_000_000, false).is_empty());
    assert_ne!(format_timestamp(1_600_000_000_000, true), "Unknown");
}

fn key(number: f64) -> i64 {
    let bits = number.to_bits() as i64;
    if bits < 0 {
        bits ^ i64::MAX
    } else {
        bits
    }
}

fn numbered(id: i64, number: f64, read: bool) -> Chapter {
    let mut c = chapter(id, "c");
    c.number_key = key(number);
    c.read = read;
    c
}

#[test]
fn mark_previous_read_takes_what_is_below_the_lowest_selection() {
    let list = vec![
        numbered(1, 1.0, false),
        numbered(2, 2.0, false),
        numbered(3, 2.5, false),
        numbered(4, 3.0, false),
        numbered(5, -1.0, false),
        numbered(6, f64::NAN, false),
        numbered(7, -0.0, false),
    ];
    assert_eq!(previous_chapters(&list, &vec![4, 3]), vec![1, 2, 7]);
    assert_eq!(previous_chapters(&list, &vec![1]), vec![7]);
    assert_eq!(previous_chapters(&list, &vec![6]), Vec::<i64>::new());
    assert_eq!(previous_chapters(&list, &vec![]), Vec::<i64>::new());
    assert_eq!(previous_chapters(&list, &vec![6, 3]), vec![1, 2, 7]);
}

#[test]
fn migration_carries_read_progress_by_number() {
    let old = vec![
        numbered(1, 1.0, true),
        numbered(2, 2.0, true),
        numbered(3, 3.0, false),
        numbered(4, f64::NAN, true),
    ];
    let new = vec![
        numbered(10, 0.0, false),
        numbered(11, 1.0, false),
        numbered(12, 2.0, false),
        numbered(13, 2.5, false),
        numbered(14, -1.0, false),
    ];
    assert_eq!(carried_read_chapters(&old, &new), vec![10, 11, 12]);
    let unread = vec![numbered(1, 1.0, false)];
    assert_eq!(carried_read_chapters(&unread, &new), Vec::<i64>::new());
}

#[test]
fn sources_that_are_gone_still_get_a_name() {
    assert_eq!(migration_source_name(42, None), "Source 42 (not installed)");
    assert_eq!(migration_source_name(42, Some("MangaDex".into())), "MangaDex");
    assert_eq!(source_name_or_unknown(None), "Unknown source");
    assert_eq!(source_name_or_unknown(Some("Local".into())), "Local");
}
