use std::collections::HashSet;

use mihon_desktop::browse::{
    entries_from_source, migration_categories, migration_date_added, pinned_sources,
    source_counts, source_sections, target_picked, BrowseState, SearchStart, SourceInfo,
};
use mihon_desktop::capture::{
    candidate_step, details_step, first_remote_source, mode_named, normalise, search_step,
    seed_step, turn_step, Capture, CandidateStep, DetailsStep, FollowUpKind, Screen, SearchStep,
    SeedStep, TurnStep,
};
use mihon_desktop::details::{
    chapter_meta, chapters_filtered, click_sort_mode, description_shown, filing, reading_label,
    toggle_favorite, DetailsState, Filing,
};
use mihon_desktop::dialog::{ids_of, Dialog, DialogButton, DialogEffect};
use mihon_desktop::downloads::{
    downloads_glyph, keeps_moving, pause_label, queue_summary, state_label, DownloadState,
};
use mihon_desktop::extensions::{
    add_repository, remove_repository, ExtensionManifest, ExtensionsState, InstalledExtension,
    RepoEntry,
};
use mihon_desktop::history::{history_action, history_meta, History, HistoryAction, HistoryEntry};
use mihon_desktop::library::{
    badges_for, category_tab_label, only_system, random_pick, BadgeKind, BadgePrefs, Category,
    LibraryEntry, DEFAULT_CATEGORY_ID,
};
use mihon_desktop::model::{
    Chapter, ChapterEdit, ChapterSortMode, Id, Manga, ReadingMode, TriState,
};
use mihon_desktop::nav::{Route, SettingsPage};
use mihon_desktop::session::{
    auto_update_due, library_update_message, prefs_flush_due, progress_detail, progress_label,
    texture_key,
};
use mihon_desktop::settings::{
    default_category_label, interval_label, is_update_included, more_cards, set_language_enabled,
    set_update_category, settings_index,
};
use mihon_desktop::source_browse::{
    mode_at, mode_index, BrowseMode, MangasPage, SManga, SourceBrowseState,
};
use mihon_desktop::statistics::{orphans, statistics, time_read};
use mihon_desktop::time::{age_of, bucket_of, Age, DayBucket};
use mihon_desktop::updates::{RowClick, UpdatesEntry, UpdatesState};

fn smanga(title: &str) -> SManga {
    SManga {
        url: format!("/m/{title}"),
        title: title.into(),
        thumbnail_url: None,
    }
}

fn library_entry(id: Id, source: Id, title: &str) -> LibraryEntry {
    let mut manga = Manga::new(source, format!("/m/{id}"), title.into());
    manga.id = id;
    manga.favorite = true;
    LibraryEntry {
        manga,
        category_ids: vec![],
        total_chapters: 10,
        unread_count: 4,
        downloaded_count: 2,
        has_started: true,
        bookmark_count: 0,
        latest_upload: 0,
        last_read: 0,
        chapter_fetch_date: 0,
        is_tracked: false,
    }
}

fn chapter(id: Id, read: bool) -> Chapter {
    let mut c = Chapter::new(1, format!("/c/{id}"), format!("Ch.{id}"));
    c.id = id;
    c.read = read;
    c
}

// -- dialogs ---------------------------------------------------------------

#[test]
fn a_blank_category_name_keeps_the_dialog_open() {
    let dialog = Dialog::NewCategory { name: "   ".into() };
    let (open, effect) = dialog.respond(DialogButton::Confirm);
    assert!(matches!(open, Some(Dialog::NewCategory { .. })));
    assert!(matches!(effect, DialogEffect::Nothing));
}

#[test]
fn category_names_are_trimmed() {
    let dialog = Dialog::NewCategory { name: "  Reading \t".into() };
    let (open, effect) = dialog.respond(DialogButton::Confirm);
    assert!(open.is_none());
    match effect {
        DialogEffect::CreateCategory { name } => assert_eq!(name, "Reading"),
        _ => panic!("expected a new category"),
    }
    let dialog = Dialog::RenameCategory { id: 4, name: "\u{3000}Done ".into() };
    match dialog.respond(DialogButton::Confirm).1 {
        DialogEffect::RenameCategory { id, name } => {
            assert_eq!(id, 4);
            assert_eq!(name, "Done");
        }
        _ => panic!("expected a rename"),
    }
}

#[test]
fn cancelling_does_nothing() {
    let dialog = Dialog::ConfirmClearHistory;
    let (open, effect) = dialog.respond(DialogButton::Cancel);
    assert!(open.is_none());
    assert!(matches!(effect, DialogEffect::Nothing));
    let (_, effect) = Dialog::ConfirmClearHistory.respond(DialogButton::Confirm);
    assert!(matches!(effect, DialogEffect::ClearHistory));
}

#[test]
fn the_category_picker_saves_what_is_ticked() {
    let mut dialog = Dialog::CategoryPicker {
        manga_ids: vec![7, 8],
        selected: HashSet::new(),
    };
    dialog.toggle_category(2);
    dialog.toggle_category(5);
    dialog.toggle_category(2);
    dialog.toggle_category(9);
    match dialog.respond(DialogButton::Confirm) {
        (None, DialogEffect::SetCategories { manga_ids, category_ids }) => {
            assert_eq!(manga_ids, vec![7, 8]);
            let mut ids = category_ids.clone();
            ids.sort();
            assert_eq!(ids, vec![5, 9]);
        }
        _ => panic!("expected categories to be set"),
    }
}

#[test]
fn removal_asks_with_the_right_count() {
    assert_eq!(
        Dialog::removal_warning(1),
        "1 entry will be removed from your library."
    );
    assert_eq!(
        Dialog::removal_warning(3),
        "3 entries will be removed from your library."
    );
    let dialog = Dialog::ConfirmRemove { manga_ids: vec![1, 2], delete_downloads: true };
    match dialog.respond(DialogButton::Confirm).1 {
        DialogEffect::RemoveFromLibrary { manga_ids, delete_downloads } => {
            assert_eq!(manga_ids, vec![1, 2]);
            assert!(delete_downloads);
        }
        _ => panic!("expected a removal"),
    }
}

#[test]
fn repository_addresses_are_trimmed_and_added_once() {
    match (Dialog::AddRepo { url: " https://x/index.json ".into() }).respond(DialogButton::Confirm) {
        (None, DialogEffect::AddRepository { url }) => {
            assert_eq!(url, "https://x/index.json");
            let mut repos = vec!["https://a".to_string()];
            add_repository(&mut repos, url.clone());
            add_repository(&mut repos, url);
            assert_eq!(repos, vec!["https://a".to_string(), "https://x/index.json".to_string()]);
            remove_repository(&mut repos, "https://a");
            assert_eq!(repos, vec!["https://x/index.json".to_string()]);
        }
        _ => panic!("expected a repository"),
    }
}

#[test]
fn a_set_lists_each_id_once() {
    let set: HashSet<Id> = [3, 1, 2].into_iter().collect();
    let mut ids = ids_of(&set);
    ids.sort();
    assert_eq!(ids, vec![1, 2, 3]);
}

// -- browse ----------------------------------------------------------------

fn sources() -> Vec<SourceInfo> {
    vec![
        SourceInfo { id: 0, name: "Local".into(), lang: "localsource".into() },
        SourceInfo { id: 5, name: "MangaDex".into(), lang: "en".into() },
        SourceInfo { id: 9, name: "Comick".into(), lang: "fr".into() },
    ]
}

#[test]
fn a_blank_global_search_clears_the_results() {
    let mut state = BrowseState::new();
    state.query = "  ".into();
    assert!(matches!(
        state.start_global_search(&sources(), &HashSet::new(), false),
        SearchStart::Cleared
    ));
    assert!(state.results.is_empty());
}

#[test]
fn a_global_search_asks_every_source_or_the_pinned_ones() {
    let mut state = BrowseState::new();
    state.query = " one piece ".into();
    match state.start_global_search(&sources(), &HashSet::new(), true) {
        SearchStart::Started { source_ids, query } => {
            assert_eq!(source_ids, vec![0, 5, 9]);
            assert_eq!(query, "one piece");
        }
        _ => panic!("expected a search"),
    }
    assert_eq!(state.submitted_query, "one piece");
    assert_eq!(state.results.len(), 3);
    assert!(state.results[&5].loading);
    assert_eq!(state.results[&9].source_name, "Comick");

    let pinned: HashSet<Id> = [9].into_iter().collect();
    match state.start_global_search(&sources(), &pinned, true) {
        SearchStart::Started { source_ids, .. } => assert_eq!(source_ids, vec![9]),
        _ => panic!("expected a search"),
    }
    assert_eq!(state.results.len(), 1);

    assert!(matches!(
        state.start_global_search(&vec![], &pinned, true),
        SearchStart::NoSources
    ));
}

#[test]
fn search_results_land_in_their_slot() {
    let mut state = BrowseState::new();
    state.query = "x".into();
    state.start_global_search(&sources(), &HashSet::new(), false);
    state.global_search_loaded(
        5,
        Ok(MangasPage { mangas: vec![smanga("X")], has_next_page: false }),
    );
    state.global_search_loaded(9, Err("timeout".into()));
    state.global_search_loaded(42, Err("gone".into()));
    assert!(!state.results[&5].loading);
    assert_eq!(state.results[&5].items.len(), 1);
    assert_eq!(state.results[&9].error.as_deref(), Some("timeout"));
    assert!(state.results[&0].loading);
    assert!(!state.results.contains_key(&42));
    state.clear_results();
    assert!(state.results.is_empty());
}

#[test]
fn migration_groups_the_library_by_source() {
    let entries = vec![
        library_entry(1, 5, "A"),
        library_entry(2, 9, "B"),
        library_entry(3, 5, "C"),
    ];
    let counts = source_counts(&entries);
    assert_eq!(counts.get(&5), Some(&2));
    assert_eq!(counts.get(&9), Some(&1));
    assert_eq!(counts.len(), 2);
    let rows = entries_from_source(&entries, 5);
    let ids: Vec<Id> = rows.iter().map(|e| e.manga.id).collect();
    assert_eq!(ids, vec![1, 3]);
    assert!(target_picked(9, 5));
    assert!(!target_picked(5, 5));
    assert!(!target_picked(0, 5));
    assert_eq!(migration_categories(vec![]), vec![DEFAULT_CATEGORY_ID]);
    assert_eq!(migration_categories(vec![3, 4]), vec![3, 4]);
    assert_eq!(migration_date_added(0), 1);
    assert_eq!(migration_date_added(77), 77);
}

// -- source browse ---------------------------------------------------------

#[test]
fn later_pages_extend_the_results() {
    let (mut state, request) = SourceBrowseState::open(5, vec![]);
    assert_eq!(request.page, 1);
    assert_eq!(request.mode, BrowseMode::Popular);
    assert!(state.loading);
    state.browse_loaded(
        5,
        1,
        Ok(MangasPage { mangas: vec![smanga("A"), smanga("B")], has_next_page: true }),
    );
    assert_eq!(state.items.len(), 2);
    let next = state.load_more().expect("a next page");
    assert_eq!(next.page, 2);
    assert!(state.load_more().is_none(), "already loading");
    state.browse_loaded(9, 2, Ok(MangasPage { mangas: vec![smanga("Z")], has_next_page: false }));
    assert_eq!(state.items.len(), 2, "another source's page is ignored");
    state.browse_loaded(5, 2, Ok(MangasPage { mangas: vec![smanga("C")], has_next_page: false }));
    assert_eq!(state.items.len(), 3);
    assert_eq!(state.items[2].title, "C");
    assert!(state.load_more().is_none());
    state.browse_loaded(5, 3, Err("offline".into()));
    assert_eq!(state.error.as_deref(), Some("offline"));
    assert_eq!(state.retry().page, 2);
}

#[test]
fn switching_mode_starts_over() {
    let (mut state, _) = SourceBrowseState::open(5, vec![]);
    state.items.push(smanga("A"));
    state.query = "berserk".into();
    let request = state.switch_mode(BrowseMode::Search);
    assert!(state.items.is_empty());
    assert_eq!(request.page, 1);
    assert_eq!(request.query, "berserk");
    assert!(request.with_filters);
    assert_eq!(mode_at(1, false), BrowseMode::Search);
    assert_eq!(mode_at(1, true), BrowseMode::Latest);
    assert_eq!(mode_index(BrowseMode::Search, 2), 1);
}

// -- updates and history ---------------------------------------------------

fn update(manga_id: Id, title: &str, chapter_id: Id) -> UpdatesEntry {
    UpdatesEntry {
        manga_id,
        manga_title: title.into(),
        cover_url: None,
        source: 1,
        chapter: chapter(chapter_id, false),
        downloaded: false,
    }
}

#[test]
fn updates_filter_by_title_and_queue_selected_chapters() {
    let mut state = UpdatesState::new();
    state.entries = vec![update(1, "Vinland Saga", 10), update(2, "Berserk", 20), update(1, "Vinland Saga", 11)];
    state.query = " saga".into();
    let rows: Vec<Id> = state.filtered().iter().map(|e| e.chapter.id).collect();
    assert_eq!(rows, vec![10, 11]);

    assert_eq!(state.click_row(1, 10), RowClick::OpenReader { manga_id: 1, chapter_id: 10 });
    state.selection.insert(20);
    assert_eq!(state.click_row(1, 11), RowClick::Toggled);
    assert_eq!(state.download_jobs(), vec![(2, 20), (1, 11)]);
}

#[test]
fn history_rows_prefer_their_buttons() {
    let entry = HistoryEntry {
        manga_id: 3,
        manga_title: "Pluto".into(),
        cover_url: None,
        source: 1,
        chapter: chapter(30, true),
        history: History { read_at: 1, time_read: 90_000 },
    };
    assert_eq!(history_action(&entry, true, true, true, true), HistoryAction::Remove { chapter_id: 30 });
    assert_eq!(
        history_action(&entry, false, false, true, false),
        HistoryAction::OpenReader { manga_id: 3, chapter_id: 30 }
    );
    assert_eq!(history_action(&entry, false, false, true, true), HistoryAction::OpenDetails { manga_id: 3 });
    assert_eq!(history_action(&entry, false, false, false, false), HistoryAction::Nothing);
    assert_eq!(history_meta("2 h ago".into(), 90_000), "2 h ago · 1 min");
    assert_eq!(history_meta("2 h ago".into(), 0), "2 h ago");
}

// -- details ---------------------------------------------------------------

#[test]
fn an_entry_with_chapters_needs_no_fetch() {
    let mut state = DetailsState::opened(4);
    assert!(state.loading);
    assert_eq!(state.fetch_plan(), Some(true));
    let mut manga = Manga::new(1, "/m/4".into(), "Monster".into());
    manga.initialized = true;
    manga.notes = "reread".into();
    state.refreshed(Some(manga), vec![chapter(1, false)]);
    assert_eq!(state.notes_buffer, "reread");
    assert_eq!(state.fetch_plan(), None);
    assert!(!state.loading);
}

#[test]
fn fetched_chapters_are_announced() {
    let mut state = DetailsState::opened(4);
    let outcome = state.chapters_loaded(4, 3, Ok(()));
    assert!(outcome.refresh);
    assert_eq!(outcome.toast.as_deref(), Some("3 new chapter(s)"));
    assert!(!state.loading);
    let outcome = state.chapters_loaded(5, 3, Ok(()));
    assert!(!outcome.refresh);
    assert!(state.details_loaded(4, Err("404".into())));
    assert_eq!(state.error.as_deref(), Some("404"));
}

#[test]
fn the_download_button_takes_unread_chapters_not_yet_downloaded() {
    let mut state = DetailsState::opened(4);
    state.chapters = vec![chapter(1, true), chapter(2, false), chapter(3, false)];
    let downloaded: HashSet<Id> = [3].into_iter().collect();
    assert_eq!(state.unread_to_download(&downloaded), vec![2]);
    assert!(state.any_read());
    state.select_all();
    assert_eq!(state.selection.len(), 3);
}

#[test]
fn long_descriptions_collapse() {
    let long: String = "x".repeat(300);
    let (text, toggle) = description_shown(&long, false);
    assert!(toggle);
    assert_eq!(text.chars().count(), 281);
    assert!(text.ends_with('…'));
    let (text, _) = description_shown(&long, true);
    assert_eq!(text, long);
    let (text, toggle) = description_shown("short", false);
    assert_eq!(text, "short");
    assert!(!toggle);
    assert_eq!(reading_label(true, "Ch.3"), "▶  Continue — Ch.3");
    assert_eq!(reading_label(false, "Ch.1"), "▶  Start reading — Ch.1");
}

#[test]
fn joining_the_library_files_and_dates_the_entry() {
    assert_eq!(filing(true, 3), Filing::AskForCategories);
    assert_eq!(filing(false, 3), Filing::Into(3));
    assert_eq!(filing(false, -1), Filing::Into(DEFAULT_CATEGORY_ID));
    let mut manga = Manga::new(1, "/m/1".into(), "Dororo".into());
    toggle_favorite(&mut manga, 1234);
    assert!(manga.favorite);
    assert_eq!(manga.date_added, 1234);
    toggle_favorite(&mut manga, 9999);
    assert!(!manga.favorite);
    toggle_favorite(&mut manga, 9999);
    assert_eq!(manga.date_added, 1234);
}

// -- extensions ------------------------------------------------------------

fn repo_entry(id: &str) -> RepoEntry {
    RepoEntry {
        id: id.into(),
        name: id.into(),
        lang: "en".into(),
        version: 1,
        nsfw: false,
        description: None,
        url: format!("https://x/{id}.json"),
    }
}

#[test]
fn repository_listings_stay_ordered_by_address() {
    let mut state = ExtensionsState::new();
    state.loading = true;
    assert!(state.repo_loaded("https://b".into(), Ok(vec![repo_entry("one")])).is_none());
    assert!(!state.loading);
    state.repo_loaded("https://a".into(), Ok(vec![]));
    state.repo_loaded("https://c".into(), Ok(vec![]));
    state.repo_loaded("https://b".into(), Ok(vec![repo_entry("one"), repo_entry("two")]));
    let keys: Vec<&str> = state.available.listings.iter().map(|(k, _)| k.as_str()).collect();
    assert_eq!(keys, vec!["https://a", "https://b", "https://c"]);
    assert_eq!(state.available.listings[1].1.len(), 2);
    let toast = state.repo_loaded("https://d".into(), Err("404".into()));
    assert_eq!(toast.as_deref(), Some("could not read the repository: 404"));
    state.available.remove("https://b");
    let keys: Vec<&str> = state.available.listings.iter().map(|(k, _)| k.as_str()).collect();
    assert_eq!(keys, vec!["https://a", "https://c"]);
}

#[test]
fn installed_extensions_filter_by_name() {
    let mut state = ExtensionsState::new();
    for (id, name) in [("md", "MangaDex"), ("ck", "Comick")] {
        state.installed.push(InstalledExtension {
            manifest: ExtensionManifest {
                id: id.into(),
                name: name.into(),
                lang: "en".into(),
                base_url: "https://x".into(),
                version: 1,
                nsfw: false,
                author: None,
                description: None,
            },
            path: format!("{id}.json"),
            source_id: 1,
        });
    }
    state.query = "DEX ".into();
    let shown: Vec<&str> = state.installed_shown().iter().map(|e| e.manifest.id.as_str()).collect();
    assert_eq!(shown, vec!["md"]);
    assert!(state.is_installed("ck"));
    assert!(!state.is_installed("zz"));
}

// -- session ---------------------------------------------------------------

#[test]
fn library_checks_report_what_they_found() {
    assert_eq!(library_update_message(0, 0), "Library updated — nothing new");
    assert_eq!(library_update_message(4, 0), "Library updated — 4 new chapter(s)");
    assert_eq!(library_update_message(0, 2), "Library updated — nothing new, 2 failed");
}

#[test]
fn library_checks_run_on_schedule() {
    let hour = 3_600_000;
    assert!(!auto_update_due(0, 10, 100 * hour, 0));
    assert!(!auto_update_due(12, 0, 100 * hour, 0));
    assert!(auto_update_due(12, 10, 100 * hour, 0));
    assert!(!auto_update_due(12, 10, 100 * hour, 95 * hour));
    assert!(auto_update_due(12, 10, 100 * hour, 88 * hour));
}

// -- capture ---------------------------------------------------------------

fn screen() -> Screen {
    Screen {
        on_source: false,
        on_details: false,
        results: 0,
        chapters: 0,
        details_loading: false,
        stack_len: 0,
        library_size: 0,
        reader_pages: 0,
    }
}

#[test]
fn capture_follow_ups_step_through_the_screens() {
    let capture = Capture::new("o.png".into(), "reader".into(), 1);
    assert_eq!(capture.follow_up_kind(), FollowUpKind::Candidate { reader: true });

    let on_source = Screen { on_source: true, results: 2, ..screen() };
    assert_eq!(search_step(on_source), SearchStep::OpenFirstHit);
    assert_eq!(candidate_step(on_source, 1), CandidateStep::Open(1));
    assert_eq!(candidate_step(on_source, 2), CandidateStep::Stop);
    assert_eq!(candidate_step(screen(), 0), CandidateStep::Skip);

    let empty_details = Screen { on_details: true, ..screen() };
    assert_eq!(details_step(empty_details, false, true), DetailsStep::Wait);
    assert_eq!(details_step(empty_details, true, true), DetailsStep::NextCandidate);
    let details = Screen { on_details: true, chapters: 5, ..screen() };
    assert_eq!(details_step(details, false, true), DetailsStep::ReadNextUnread);
    assert_eq!(details_step(details, false, false), DetailsStep::Nothing);
    assert_eq!(search_step(details), SearchStep::ReadNextUnread);

    let listed = Screen { results: 30, stack_len: 1, ..screen() };
    assert_eq!(seed_step(listed), Some(SeedStep { add: 14, show_library: true }));
    assert_eq!(seed_step(screen()), None);

    assert_eq!(turn_step(12, -1, 0, true), TurnStep::JumpToEnd(12));
    assert_eq!(turn_step(12, -1, 1, true), TurnStep::Nothing);
    assert_eq!(turn_step(12, 3, 2, true), TurnStep::Turn);
    assert_eq!(turn_step(12, 3, 2, false), TurnStep::Nothing);
    assert_eq!(turn_step(0, 3, 0, true), TurnStep::Nothing);
}

#[test]
fn captures_pick_a_remote_source_and_read_their_settings() {
    assert_eq!(first_remote_source(&sources(), "", 0), Some(5));
    assert_eq!(first_remote_source(&sources(), "comi", 0), Some(9));
    assert_eq!(first_remote_source(&sources(), "loc", 0), None);
    assert_eq!(mode_named("webtoon"), Some(ReadingMode::Webtoon));
    assert_eq!(mode_named("sideways"), None);
    assert_eq!(normalise("Teal & Turquoise"), "tealturquoise");
    assert_eq!(normalise("teal-turquoise"), "tealturquoise");
}

// -- library extras and statistics -----------------------------------------

#[test]
fn tiles_show_the_badges_asked_for() {
    let prefs = BadgePrefs { unread: true, downloaded: false, local: true, language: true };
    let badges = badges_for(&prefs, 7, 3, true, Some("en"));
    let shown: Vec<(BadgeKind, &str)> = badges.iter().map(|b| (b.kind, b.text.as_str())).collect();
    assert_eq!(
        shown,
        vec![(BadgeKind::Unread, "7"), (BadgeKind::Local, "local"), (BadgeKind::Language, "EN")]
    );
    assert_eq!(random_pick(0, 99), None);
    assert_eq!(random_pick(4, 10), Some(2));
}

#[test]
fn statistics_add_up_the_library() {
    let mut a = library_entry(1, 5, "A");
    a.manga.status = 2;
    let b = library_entry(2, 5, "B");
    let stats = statistics(&vec![a, b]);
    assert_eq!(stats.entries, 2);
    assert_eq!(stats.chapters, 20);
    assert_eq!(stats.unread, 8);
    assert_eq!(stats.read, 12);
    assert_eq!(stats.downloaded, 4);
    assert_eq!(stats.completed, 1);

    let history = vec![HistoryEntry {
        manga_id: 1,
        manga_title: "A".into(),
        cover_url: None,
        source: 5,
        chapter: chapter(1, true),
        history: History { read_at: 5, time_read: 60_000 },
    }];
    assert_eq!(time_read(&history), 60_000);

    let mut kept = Manga::new(1, "/m/1".into(), "Kept".into());
    kept.id = 1;
    let mut fav = Manga::new(1, "/m/2".into(), "Fav".into());
    fav.id = 2;
    fav.favorite = true;
    let mut gone = Manga::new(1, "/m/3".into(), "Gone".into());
    gone.id = 3;
    let keep: HashSet<Id> = [1].into_iter().collect();
    assert_eq!(orphans(&vec![kept, fav, gone], &keep), vec![3]);
}

#[test]
fn the_source_list_groups_by_language_then_name() {
    let sources = vec![
        SourceInfo { id: 1, name: "mangadex".into(), lang: "en".into() },
        SourceInfo { id: 2, name: "Local source".into(), lang: "localsource".into() },
        SourceInfo { id: 3, name: "Comick".into(), lang: "en".into() },
        SourceInfo { id: 4, name: "Japscan".into(), lang: "fr".into() },
        SourceInfo { id: 5, name: "Asura".into(), lang: "en".into() },
    ];
    let sections = source_sections(&sources, "localsource");
    let shown: Vec<(&str, Vec<Id>)> = sections
        .iter()
        .map(|s| (s.label.as_str(), s.sources.iter().map(|&i| sources[i].id).collect()))
        .collect();
    assert_eq!(
        shown,
        vec![("EN", vec![5, 3, 1]), ("FR", vec![4]), ("Local", vec![2])]
    );
    let pinned: HashSet<Id> = [4, 1].into_iter().collect();
    assert_eq!(pinned_sources(&sources, &pinned), vec![0, 3]);
}

#[test]
fn the_download_queue_describes_itself() {
    assert_eq!(queue_summary(3, 2048), "3 queued · 2.0 KB on disk");
    assert_eq!(state_label(&DownloadState::Running { done: 4, total: 20 }), "4/20 pages");
    assert_eq!(state_label(&DownloadState::Queued), "waiting");
    assert_eq!(state_label(&DownloadState::Finished), "done");
    assert_eq!(state_label(&DownloadState::Failed("404".into())), "failed — 404");
    assert_eq!(pause_label(true), "▶ Resume");
    assert!(keeps_moving(&vec![DownloadState::Finished, DownloadState::Queued]));
    assert!(!keeps_moving(&vec![DownloadState::Finished]));
}

#[test]
fn the_more_tab_and_settings_index_lead_somewhere() {
    let cards = more_cards(0, 3, 1);
    let subtitles: Vec<&str> = cards.iter().map(|c| c.subtitle.as_str()).collect();
    assert_eq!(
        subtitles,
        vec![
            "Nothing queued",
            "3 configured",
            "1 installed",
            "Library at a glance",
            "Appearance, reader, downloads…"
        ]
    );
    assert_eq!(more_cards(2, 0, 0)[0].subtitle, "2 in the queue");
    assert_eq!(cards[4].route, Route::Settings(SettingsPage::Root));
    let pages = settings_index();
    assert_eq!(pages.len(), 7);
    assert_eq!(pages[0].0, SettingsPage::Appearance);
    assert_eq!(pages[6].1, "Version and data locations");
}

#[test]
fn library_settings_read_and_edit_the_update_list() {
    let cats = vec![
        Category { id: 0, name: "Default".into(), order: 0, hidden: false },
        Category { id: 4, name: "Reading".into(), order: 1, hidden: false },
        Category { id: 6, name: "Done".into(), order: 2, hidden: false },
    ];
    assert_eq!(default_category_label(&cats, -1), "Always ask");
    assert_eq!(default_category_label(&cats, 4), "Reading");
    assert_eq!(default_category_label(&cats, 9), "Default");
    assert_eq!(interval_label(0), "Never");
    assert_eq!(interval_label(12), "12 h");

    let mut list: Vec<Id> = vec![];
    assert!(is_update_included(&list, 6));
    set_update_category(&mut list, &cats, 6, false);
    assert_eq!(list, vec![0, 4]);
    set_update_category(&mut list, &cats, 6, true);
    assert_eq!(list, vec![0, 4, 6]);
    set_update_category(&mut list, &cats, 4, true);
    assert_eq!(list, vec![0, 4, 6]);
    assert!(!is_update_included(&vec![0], 4));

    let mut langs = vec!["en".to_string()];
    set_language_enabled(&mut langs, "fr".into(), true);
    set_language_enabled(&mut langs, "en".into(), false);
    assert_eq!(langs, vec!["fr".to_string()]);
}

#[test]
fn filters_cycle_through_their_three_states() {
    let t = TriState::Disabled;
    assert_eq!(t.next(), TriState::EnabledIs);
    assert_eq!(t.next().next(), TriState::EnabledNot);
    assert_eq!(t.next().next().next(), TriState::Disabled);
    assert_eq!(TriState::EnabledIs.glyph(), "☑");
}

#[test]
fn chapter_rows_say_what_is_known() {
    let mut c = chapter(1, false);
    assert_eq!(chapter_meta("01 Mar".into(), &c), None);
    c.date_upload = 5;
    c.scanlator = Some("Team".into());
    c.last_page_read = 6;
    assert_eq!(chapter_meta("01 Mar".into(), &c).as_deref(), Some("01 Mar · Team · page 7"));
    c.read = true;
    c.date_upload = 0;
    assert_eq!(chapter_meta("01 Mar".into(), &c).as_deref(), Some("Team"));

    let mut manga = Manga::new(1, "/m".into(), "M".into());
    assert!(!chapters_filtered(&manga));
    manga.set_bookmarked_filter(mihon_desktop::model::TriState::EnabledIs);
    assert!(chapters_filtered(&manga));
}

#[test]
fn sort_clicks_flip_or_switch() {
    let mut manga = Manga::new(1, "/m".into(), "M".into());
    assert!(manga.sort_descending());
    click_sort_mode(&mut manga, ChapterSortMode::SourceOrder);
    assert!(!manga.sort_descending());
    click_sort_mode(&mut manga, ChapterSortMode::Alphabet);
    assert_eq!(manga.chapter_sort_mode(), ChapterSortMode::Alphabet);
    assert!(!manga.sort_descending());
}

#[test]
fn categories_know_the_built_in_one() {
    let default = Category { id: DEFAULT_CATEGORY_ID, name: "Default".into(), order: 0, hidden: false };
    assert!(default.is_system());
    assert!(only_system(&vec![default.clone()]));
    let extra = Category { id: 3, name: "Later".into(), order: 1, hidden: false };
    assert!(!only_system(&vec![default, extra]));
    assert_eq!(category_tab_label("Later", 4), "Later (4)");
}

#[test]
fn session_helpers_decide_writes_and_keys() {
    assert!(!prefs_flush_due(None, true));
    assert!(prefs_flush_due(Some(10), true));
    assert!(!prefs_flush_due(Some(700), false));
    assert!(prefs_flush_due(Some(701), false));
    let urls = vec!["https://a/1.png".to_string(), "https://b/1.png".to_string()];
    assert_eq!(texture_key(&urls).map(|s| s.as_str()), Some("https://a/1.png"));
    assert_eq!(texture_key(&vec!["".to_string()]), None);
    assert_eq!(texture_key(&vec![]), None);
}

#[test]
fn the_clock_sorts_rows_into_days() {
    assert_eq!(bucket_of(0), DayBucket::Today);
    assert_eq!(bucket_of(1), DayBucket::Yesterday);
    assert_eq!(bucket_of(3), DayBucket::DaysAgo(3));
    assert_eq!(bucket_of(-2), DayBucket::DaysAgo(-2));
    assert_eq!(bucket_of(7), DayBucket::OnDate);
    assert_eq!(age_of(59_999), Age::JustNow);
    assert_eq!(age_of(-5_000_000), Age::JustNow);
    assert_eq!(age_of(60_000), Age::Minutes(1));
    assert_eq!(age_of(3_600_000), Age::Hours(1));
    assert_eq!(age_of(86_400_000 * 6), Age::Days(6));
    assert_eq!(age_of(86_400_000 * 7), Age::ThisYear);
    assert_eq!(age_of(86_400_000 * 365), Age::Older);
}

#[test]
fn the_downloads_entry_counts_the_queue_only_when_busy() {
    assert_eq!(downloads_glyph(0), "📥");
    assert_eq!(downloads_glyph(1), "📥 1");
    assert_eq!(downloads_glyph(27), "📥 27");
}

#[test]
fn update_progress_reads_done_over_total() {
    assert_eq!(progress_label(0, 12), "0/12");
    assert_eq!(progress_label(5, 12), "5/12");
    assert_eq!(progress_detail(5, 12, "Berserk"), "5/12 · Berserk");
}

#[test]
fn bulk_edits_forget_the_page_only_where_the_lists_do() {
    let mut base = Chapter::new(3, "/c/1".into(), "Chapter 1".into());
    base.last_page_read = 5;

    let mut c = base.clone();
    c.apply_edit(ChapterEdit::MarkRead);
    assert!(c.read);
    assert_eq!(c.last_page_read, 0);

    c.apply_edit(ChapterEdit::MarkUnread);
    assert!(!c.read);
    assert_eq!(c.last_page_read, 0);

    let mut c = base.clone();
    c.apply_edit(ChapterEdit::SetRead(false));
    assert!(!c.read);
    assert_eq!(c.last_page_read, 5);
    c.apply_edit(ChapterEdit::SetRead(true));
    assert!(c.read);
    assert_eq!(c.last_page_read, 0);

    let mut c = base.clone();
    c.apply_edit(ChapterEdit::CarryRead);
    assert!(c.read);
    assert_eq!(c.last_page_read, 5);
    assert!(!c.bookmark);
    c.apply_edit(ChapterEdit::SetBookmark(true));
    assert!(c.bookmark);
    assert!(c.read);
    c.apply_edit(ChapterEdit::SetBookmark(false));
    assert!(!c.bookmark);
}
