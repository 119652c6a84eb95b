use std::collections::HashSet;

use mihon_desktop::capture::{Capture, CaptureAction, Stage, ViewTarget};
use mihon_desktop::chapters::order_chapters;
use mihon_desktop::format::{entries_label, format_bytes, format_duration};
use mihon_desktop::library::{
    count_in_category, entry_in_category, reordered_ids, select_entries, shuffle_key,
    sort_entries, toggle_selection, Category, LibraryEntry, LibraryFilters, LibrarySort,
    DEFAULT_CATEGORY_ID,
};
use mihon_desktop::model::{Chapter, ChapterSortMode, Id, Manga, ReadingMode, ThemeMode, TriState};
use mihon_desktop::nav::{Navigation, Route, SettingsPage, Tab};
use mihon_desktop::reader::{local_index, page_counter, ReaderSegment};
use mihon_desktop::theme::{large_radius, rounding_name, small_radius};
use mihon_desktop::time::{day_bucket, format_timestamp};

fn entry(id: Id, title: &str, unread: i64, added: i64) -> LibraryEntry {
    let mut manga = Manga::new(1, format!("/m/{id}"), title.into());
    manga.id = id;
    manga.favorite = true;
    manga.date_added = added;
    LibraryEntry {
        manga,
        category_ids: vec![DEFAULT_CATEGORY_ID],
        total_chapters: 10,
        unread_count: unread,
        downloaded_count: 0,
        has_started: false,
        bookmark_count: 0,
        latest_upload: 0,
        last_read: 0,
        chapter_fetch_date: 0,
        is_tracked: false,
    }
}

/// The key that orders chapter numbers as `f64::total_cmp` does.
fn number_key(x: f64) -> i64 {
    let bits = x.to_bits() as i64;
    if bits < 0 {
        bits ^ i64::MAX
    } else {
        bits
    }
}

fn number_of(key: i64) -> f64 {
    let bits = if key < 0 { key ^ i64::MAX } else { key };
    f64::from_bits(bits as u64)
}

fn manga_with(flags: i64) -> Manga {
    let mut manga = Manga::new(1, "/m/1".into(), "Test".into());
    manga.id = 1;
    manga.chapter_flags = flags;
    manga
}

fn chapters() -> Vec<Chapter> {
    // As a source returns them: newest first, so source_order 0 is newest.
    [(3.0, 0, 300), (2.0, 1, 200), (1.0, 2, 100)]
        .into_iter()
        .map(|(number, order, date)| {
            let mut chapter = Chapter::new(1, format!("/c/{number}"), format!("Ch.{number}"));
            chapter.id = order + 1;
            chapter.number_key = number_key(number);
            chapter.source_order = order;
            chapter.date_upload = date;
            chapter
        })
        .collect()
}

fn segments() -> Vec<ReaderSegment> {
    // Two chapters back to back: 5 pages then 3.
    vec![
        ReaderSegment {
            chapter_id: 10,
            name: "Ch.1".into(),
            start: 0,
            len: 5,
        },
        ReaderSegment {
            chapter_id: 11,
            name: "Ch.2".into(),
            start: 5,
            len: 3,
        },
    ]
}

// -- history ---------------------------------------------------------------

#[test]
fn durations_scale_by_unit() {
    assert_eq!(format_duration(5_000), "5 s");
    assert_eq!(format_duration(120_000), "2 min");
    assert_eq!(format_duration(3_900_000), "1 h 05");
}

#[test]
fn durations_round_towards_zero_and_pad_minutes() {
    assert_eq!(format_duration(0), "0 s");
    assert_eq!(format_duration(59_999), "59 s");
    assert_eq!(format_duration(3_600_000), "1 h 00");
    assert_eq!(format_duration(36_000_000 + 600_000), "10 h 10");
    assert_eq!(format_duration(-1_500), "-1 s");
}

// -- library ---------------------------------------------------------------

#[test]
fn alphabetical_sort_respects_direction() {
    let a = entry(1, "Bleach", 0, 0);
    let b = entry(2, "Akira", 0, 0);
    let mut refs = vec![&a, &b];

    sort_entries(&mut refs, LibrarySort::Alphabetical, true, 0);
    assert_eq!(refs[0].manga.title, "Akira");

    sort_entries(&mut refs, LibrarySort::Alphabetical, false, 0);
    assert_eq!(refs[0].manga.title, "Bleach");
}

#[test]
fn ties_fall_back_to_title_for_stability() {
    // Same unread count: order must be deterministic, not frame-dependent.
    let a = entry(1, "Zeta", 3, 0);
    let b = entry(2, "Alpha", 3, 0);
    let mut refs = vec![&a, &b];
    sort_entries(&mut refs, LibrarySort::UnreadCount, true, 0);
    assert_eq!(refs[0].manga.title, "Alpha");
}

#[test]
fn random_sort_is_stable_for_a_given_seed() {
    let a = entry(1, "A", 0, 0);
    let b = entry(2, "B", 0, 0);
    let c = entry(3, "C", 0, 0);

    let order = |seed| {
        let mut refs = vec![&a, &b, &c];
        sort_entries(&mut refs, LibrarySort::Random, true, seed);
        refs.iter().map(|e| e.manga.id).collect::<Vec<_>>()
    };
    assert_eq!(order(42), order(42));
}

#[test]
fn entries_without_categories_fall_into_default() {
    let mut e = entry(1, "X", 0, 0);
    e.category_ids.clear();
    assert!(entry_in_category(&e, DEFAULT_CATEGORY_ID));
    assert!(!entry_in_category(&e, 5));
}

#[test]
fn filters_narrow_the_list() {
    let mut filters = LibraryFilters::default();
    let unread = entry(1, "A", 4, 0);
    let read = entry(2, "B", 0, 0);

    filters.unread = TriState::EnabledIs;
    assert!(filters.matches(&unread));
    assert!(!filters.matches(&read));

    filters.unread = TriState::EnabledNot;
    assert!(!filters.matches(&unread));
    assert!(filters.matches(&read));
}

#[test]
fn shuffle_keys_mix_the_seed_in() {
    fn expected(id: i64, seed: u64) -> u64 {
        let mut v = (id as u64) ^ seed.wrapping_mul(0x9e37_79b9_7f4a_7c15);
        v ^= v >> 33;
        v = v.wrapping_mul(0xff51_afd7_ed55_8ccd);
        v ^ (v >> 29)
    }
    assert_eq!(shuffle_key(1, 0), expected(1, 0));
    assert_eq!(shuffle_key(2, 42), expected(2, 42));
    assert_eq!(shuffle_key(-7, u64::MAX), expected(-7, u64::MAX));
    assert_ne!(shuffle_key(1, 1), shuffle_key(1, 2));
}

#[test]
fn category_counts_and_search() {
    let mut a = entry(1, "Kumo desu ga", 0, 0);
    a.category_ids = vec![3];
    let b = entry(2, "Berserk", 0, 0);
    let entries = vec![a, b];
    assert_eq!(count_in_category(&entries, 3), 1);
    assert_eq!(count_in_category(&entries, DEFAULT_CATEGORY_ID), 1);

    let rows = select_entries(
        &entries,
        None,
        "  KUMO ",
        &LibraryFilters::default(),
        false,
        LibrarySort::Alphabetical,
        true,
        0,
    );
    assert_eq!(rows.len(), 1);
    assert_eq!(rows[0].manga.id, 1);
}

#[test]
fn selection_toggles() {
    let mut selection: HashSet<Id> = HashSet::new();
    toggle_selection(&mut selection, 4);
    assert!(selection.contains(&4));
    toggle_selection(&mut selection, 4);
    assert!(selection.is_empty());
}

#[test]
fn categories_swap_with_their_neighbour() {
    let cats = vec![
        Category { id: 1, name: "A".into(), order: 0, hidden: false },
        Category { id: 2, name: "B".into(), order: 1, hidden: false },
        Category { id: 3, name: "C".into(), order: 2, hidden: false },
    ];
    assert_eq!(reordered_ids(&cats, 2, -1), Some(vec![2, 1, 3]));
    assert_eq!(reordered_ids(&cats, 2, 1), Some(vec![1, 3, 2]));
    assert_eq!(reordered_ids(&cats, 1, -1), None);
    assert_eq!(reordered_ids(&cats, 3, 1), None);
    assert_eq!(reordered_ids(&cats, 9, 1), None);
}

// -- chapter flags and ordering --------------------------------------------

#[test]
fn sort_flags_round_trip() {
    let mut manga = manga_with(0);
    manga.set_chapter_sort_mode(ChapterSortMode::UploadDate);
    assert_eq!(manga.chapter_sort_mode(), ChapterSortMode::UploadDate);

    manga.set_sort_descending(false);
    assert!(!manga.sort_descending());
    manga.set_sort_descending(true);
    assert!(manga.sort_descending());

    // Changing the direction must not disturb the sort mode.
    assert_eq!(manga.chapter_sort_mode(), ChapterSortMode::UploadDate);
}

#[test]
fn filter_flags_are_independent() {
    let mut manga = manga_with(0);
    manga.set_unread_filter(TriState::EnabledIs);
    manga.set_bookmarked_filter(TriState::EnabledNot);

    assert_eq!(manga.unread_filter(), TriState::EnabledIs);
    assert_eq!(manga.bookmarked_filter(), TriState::EnabledNot);
    assert_eq!(manga.downloaded_filter(), TriState::Disabled);

    manga.set_unread_filter(TriState::Disabled);
    assert_eq!(manga.unread_filter(), TriState::Disabled);
    assert_eq!(manga.bookmarked_filter(), TriState::EnabledNot);
}

#[test]
fn default_ordering_puts_the_newest_chapter_first() {
    let mut list = chapters();
    // Default flags: source order, descending.
    order_chapters(&mut list, ChapterSortMode::SourceOrder, true);
    assert_eq!(number_of(list[0].number_key), 3.0);
    assert_eq!(number_of(list[2].number_key), 1.0);
}

#[test]
fn ascending_reverses_every_mode_consistently() {
    for mode in ChapterSortMode::ALL {
        let mut descending = chapters();
        order_chapters(&mut descending, mode, true);
        let mut ascending = chapters();
        order_chapters(&mut ascending, mode, false);

        let descending: Vec<f64> = descending.iter().map(|c| number_of(c.number_key)).collect();
        let mut reversed = ascending
            .iter()
            .map(|c| number_of(c.number_key))
            .collect::<Vec<_>>();
        reversed.reverse();
        assert_eq!(descending, reversed, "mode {mode:?} is inconsistent");
        assert_eq!(
            descending[0], 3.0,
            "mode {mode:?} should lead with the newest"
        );
    }
}

#[test]
fn display_flag_does_not_clobber_sorting() {
    let mut manga = manga_with(0);
    manga.set_chapter_sort_mode(ChapterSortMode::Alphabet);
    manga.set_display_chapter_number(true);
    assert!(manga.display_chapter_number());
    assert_eq!(manga.chapter_sort_mode(), ChapterSortMode::Alphabet);
}

#[test]
fn chapter_numbers_follow_the_total_order() {
    let mut list = chapters();
    list[0].number_key = number_key(-1.0);
    list[1].number_key = number_key(10.5);
    list[2].number_key = number_key(2.0);
    order_chapters(&mut list, ChapterSortMode::ChapterNumber, false);
    let numbers: Vec<f64> = list.iter().map(|c| number_of(c.number_key)).collect();
    assert_eq!(numbers, vec![-1.0, 2.0, 10.5]);
}

#[test]
fn alphabet_order_is_natural() {
    let mut list = chapters();
    list[0].name = "Ch.10".into();
    list[1].name = "Ch.9".into();
    list[2].name = "Ch.1".into();
    order_chapters(&mut list, ChapterSortMode::Alphabet, false);
    let names: Vec<&str> = list.iter().map(|c| c.name.as_str()).collect();
    assert_eq!(names, vec!["Ch.1", "Ch.9", "Ch.10"]);
}

// -- reader ----------------------------------------------------------------

#[test]
fn page_numbers_stay_chapter_local_across_a_boundary() {
    let segments = segments();
    // Third page of the first chapter.
    assert_eq!(local_index(&segments, 10, 2, 8), (2, 5));
    // First page of the second chapter, not "page 6 of 8".
    assert_eq!(local_index(&segments, 11, 5, 8), (0, 3));
    assert_eq!(local_index(&segments, 11, 7, 8), (2, 3));
}

#[test]
fn an_unknown_chapter_falls_back_to_the_whole_run() {
    assert_eq!(local_index(&segments(), 99, 4, 8), (4, 8));
    assert_eq!(local_index(&[], 10, 3, 8), (3, 8));
}

#[test]
fn infinite_is_continuous_but_the_others_are_not_infinite() {
    assert!(ReadingMode::Infinite.is_continuous());
    assert!(ReadingMode::Infinite.is_infinite());
    assert!(ReadingMode::Webtoon.is_continuous());
    assert!(!ReadingMode::Webtoon.is_infinite());
    assert!(!ReadingMode::RightToLeft.is_continuous());
    // The flag must round-trip so a per-manga override survives a restart.
    assert_eq!(
        ReadingMode::from_flag(ReadingMode::Infinite.flag()),
        Some(ReadingMode::Infinite)
    );
}

#[test]
fn the_page_counter_counts_from_one() {
    assert_eq!(page_counter(0, 5), "1 / 5");
    assert_eq!(page_counter(4, 0), "5 / 1");
}

// -- theme -----------------------------------------------------------------

#[test]
fn system_mode_follows_what_the_desktop_reports() {
    assert!(!ThemeMode::System.is_dark(Some(false)));
    assert!(ThemeMode::System.is_dark(Some(true)));
    // An explicit choice ignores the desktop entirely.
    assert!(ThemeMode::Dark.is_dark(Some(false)));
    assert!(!ThemeMode::Light.is_dark(Some(true)));
}

#[test]
fn rounding_follows_the_preference() {
    for radius in [0u8, 6, 18] {
        assert!(small_radius(radius) <= radius);
        assert!(large_radius(radius) >= radius);
    }
}

#[test]
fn rounding_matches_the_float_formula() {
    for radius in 0..=255u8 {
        let small = (radius as f32 * 0.6).round() as u8;
        let large = (radius as f32 * 1.6).round().min(24.0) as u8;
        assert_eq!(small_radius(radius), small, "radius {radius}");
        assert_eq!(large_radius(radius), large, "radius {radius}");
    }
    assert_eq!(rounding_name(0), "Square");
    assert_eq!(rounding_name(8), "Soft");
    assert_eq!(rounding_name(9), "Rounded");
    assert_eq!(rounding_name(14), "Pill");
}

// -- dates -----------------------------------------------------------------

#[test]
fn buckets_name_recent_days() {
    let now = chrono::Local::now();
    assert_eq!(day_bucket(now.timestamp_millis()), "Today");

    let yesterday = now - chrono::Duration::days(1);
    assert_eq!(day_bucket(yesterday.timestamp_millis()), "Yesterday");

    let old = now - chrono::Duration::days(40);
    let label = day_bucket(old.timestamp_millis());
    assert!(label.contains(&old.format("%Y").to_string()), "got {label}");
}

#[test]
fn invalid_timestamps_do_not_panic() {
    assert_eq!(day_bucket(i64::MAX), "Unknown date");
}

#[test]
fn timestamps_degrade_gracefully() {
    assert_eq!(format_timestamp(0, true), "Unknown");
    assert_eq!(format_timestamp(-5, false), "Unknown");
    assert!(!format_timestamp(1_600_000_000_000, false).is_empty());
}

#[test]
fn relative_timestamps_count_back_from_now() {
    let now = chrono::Local::now();
    assert_eq!(format_timestamp(now.timestamp_millis(), true), "Just now");
    let earlier = now - chrono::Duration::minutes(5) - chrono::Duration::seconds(10);
    assert_eq!(format_timestamp(earlier.timestamp_millis(), true), "5 min ago");
    let earlier = now - chrono::Duration::hours(3) - chrono::Duration::minutes(1);
    assert_eq!(format_timestamp(earlier.timestamp_millis(), true), "3 h ago");
    let earlier = now - chrono::Duration::days(2) - chrono::Duration::minutes(1);
    assert_eq!(format_timestamp(earlier.timestamp_millis(), true), "2 d ago");
    let older = now - chrono::Duration::days(400);
    assert_eq!(
        format_timestamp(older.timestamp_millis(), true),
        older.format("%d %b %Y").to_string()
    );
}

// -- bytes -----------------------------------------------------------------

#[test]
fn byte_formatting_is_readable() {
    assert_eq!(format_bytes(512), "512 B");
    assert_eq!(format_bytes(2048), "2.0 KB");
    assert_eq!(format_bytes(5 * 1024 * 1024), "5.0 MB");
}

/// What the screens printed before: repeated division in `f64`, then one
/// decimal.
fn bytes_by_float(bytes: u64) -> String {
    const UNITS: [&str; 5] = ["B", "KB", "MB", "GB", "TB"];
    let mut value = bytes as f64;
    let mut unit = 0;
    while value >= 1024.0 && unit < UNITS.len() - 1 {
        value /= 1024.0;
        unit += 1;
    }
    if unit == 0 {
        format!("{} {}", bytes, UNITS[0])
    } else {
        format!("{value:.1} {}", UNITS[unit])
    }
}

#[test]
fn byte_formatting_agrees_with_float_formatting() {
    let mut samples: Vec<u64> = vec![
        0,
        1,
        1023,
        1024,
        1075,
        1280,
        1331,
        1536,
        10_188,
        1_048_575,
        1_048_576,
        1_100_000,
        u64::MAX,
        u64::MAX - 1,
        1 << 50,
        (1 << 50) - 1,
        (1 << 60) + 12345,
    ];
    let mut x: u64 = 0x1234_5678_9abc_def1;
    for _ in 0..5000 {
        x ^= x << 13;
        x ^= x >> 7;
        x ^= x << 17;
        samples.push(x >> (x % 64));
    }
    for k in 1..=4u32 {
        let unit = 1024u64.pow(k);
        for tenths in 0..200u64 {
            samples.push(unit * tenths / 20);
            samples.push(unit * tenths / 20 + 1);
        }
    }
    for bytes in samples {
        assert_eq!(format_bytes(bytes), bytes_by_float(bytes), "bytes {bytes}");
    }
}

#[test]
fn entry_counts_agree_in_number() {
    assert_eq!(entries_label(1), "1 entry");
    assert_eq!(entries_label(0), "0 entries");
    assert_eq!(entries_label(12), "12 entries");
}

// -- navigation ------------------------------------------------------------

#[test]
fn tabs_round_trip_through_their_index() {
    for tab in Tab::ALL {
        assert_eq!(Tab::from_index(tab.index()), tab);
    }
    assert_eq!(Tab::from_index(99), Tab::Library);
    assert_eq!(Tab::Browse.label(), "Browse");
    assert_eq!(SettingsPage::Appearance.title(), "Appearance");
}

#[test]
fn pushing_twice_opens_one_screen() {
    let mut nav = Navigation::new(Tab::Library);
    nav.push(Route::Downloads);
    nav.push(Route::Downloads);
    assert_eq!(nav.stack.len(), 1);
    nav.pop();
    assert!(nav.current_route().is_none());
    nav.push(Route::MangaDetails(3));
    assert!(nav.any_details());
    assert!(nav.escape(true));
    assert_eq!(nav.stack.len(), 1);
    assert!(!nav.escape(false));
    assert!(nav.stack.is_empty());
}

// -- capture ---------------------------------------------------------------

#[test]
fn the_glyph_probe_is_recognised() {
    let capture = Capture::new("out.png".into(), "glyphs".into(), 6000);
    assert!(capture.is_glyph_probe());
    assert_eq!(capture.target(), ViewTarget::ShowTab(Tab::Library));
    let capture = Capture::new("out.png".into(), "library".into(), 6000);
    assert!(!capture.is_glyph_probe());
}

#[test]
fn a_capture_runs_its_stages_in_order() {
    let mut capture = Capture::new("out.png".into(), "settings".into(), 100);
    assert_eq!(
        capture.target(),
        ViewTarget::Open(Route::Settings(SettingsPage::Appearance))
    );
    assert_eq!(capture.tick(0, false), CaptureAction::Navigate);
    assert_eq!(capture.tick(50, false), CaptureAction::FollowUp { screenshot: false });
    assert_eq!(capture.tick(150, false), CaptureAction::FollowUp { screenshot: true });
    assert_eq!(capture.tick(160, false), CaptureAction::AwaitScreenshot);
    assert_eq!(capture.tick(170, true), CaptureAction::SaveAndClose);
    assert_eq!(capture.stage, Stage::Done);
    assert_eq!(capture.tick(180, true), CaptureAction::Idle);
}
