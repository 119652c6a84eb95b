//! The More tab and the settings index: which screens they lead to, and
//! what each card says.

use vstd::prelude::*;

use crate::extensions::{remove_repository, without};
use crate::format::{decimal, push_decimal};
use crate::library::Category;
use crate::model::Id;
use crate::nav::{Route, SettingsPage};

verus! {

/// A card of the More tab or of the settings index.
pub struct NavCard {
    pub glyph: &'static str,
    pub title: &'static str,
    pub subtitle: String,
    pub route: Route,
}

fn count_text(n: usize, what: &str) -> (s: String)
    ensures
        s@ == decimal(n as nat) + what@,
{
    let mut s = String::new();
    push_decimal(&mut s, n as u64);
    s.append(what);
    s
}

/// The cards' subtitles of the More tab, in order.
pub open spec fn more_subtitles(queued: usize, categories: usize, installed: usize) -> Seq<Seq<char>> {
    seq![
        if queued > 0 {
            decimal(queued as nat) + " in the queue"@
        } else {
            "Nothing queued"@
        },
        decimal(categories as nat) + " configured"@,
        decimal(installed as nat) + " installed"@,
        "Library at a glance"@,
        "Appearance, reader, downloads…"@,
    ]
}

/// The cards of the More tab: the download queue, categories, extensions,
/// statistics and settings, with counts where they have one.
pub fn more_cards(queued: usize, categories: usize, installed: usize) -> (cards: Vec<NavCard>)
    ensures
        cards@.len() == 5,
        cards@.map_values(|c: NavCard| c.route) == seq![
            Route::Downloads,
            Route::Categories,
            Route::Extensions,
            Route::Statistics,
            Route::Settings(SettingsPage::Root),
        ],
        cards@.map_values(|c: NavCard| c.title@) == seq![
            "Download queue"@,
            "Categories"@,
            "Extensions"@,
            "Statistics"@,
            "Settings"@,
        ],
        cards@.map_values(|c: NavCard| c.subtitle@) == more_subtitles(
            queued,
            categories,
            installed,
        ),
{
    let queue = if queued > 0 {
        count_text(queued, " in the queue")
    } else {
        String::from_str("Nothing queued")
    };
    let mut cards: Vec<NavCard> = Vec::new();
    cards.push(
        NavCard { glyph: "📥", title: "Download queue", subtitle: queue, route: Route::Downloads },
    );
    cards.push(
        NavCard {
            glyph: "🏷",
            title: "Categories",
            subtitle: count_text(categories, " configured"),
            route: Route::Categories,
        },
    );
    cards.push(
        NavCard {
            glyph: "◎",
            title: "Extensions",
            subtitle: count_text(installed, " installed"),
            route: Route::Extensions,
        },
    );
    cards.push(
        NavCard {
            glyph: "▣",
            title: "Statistics",
            subtitle: String::from_str("Library at a glance"),
            route: Route::Statistics,
        },
    );
    cards.push(
        NavCard {
            glyph: "⚙",
            title: "Settings",
            subtitle: String::from_str("Appearance, reader, downloads…"),
            route: Route::Settings(SettingsPage::Root),
        },
    );
    proof {
        assert(cards@.map_values(|c: NavCard| c.route) =~= seq![
            Route::Downloads,
            Route::Categories,
            Route::Extensions,
            Route::Statistics,
            Route::Settings(SettingsPage::Root),
        ]);
        assert(cards@.map_values(|c: NavCard| c.title@) =~= seq![
            "Download queue"@,
            "Categories"@,
            "Extensions"@,
            "Statistics"@,
            "Settings"@,
        ]);
        assert(cards@.map_values(|c: NavCard| c.subtitle@) =~= more_subtitles(
            queued,
            categories,
            installed,
        ));
    }
    cards
}

/// The pages of the settings index, in order, with what each covers.
pub fn settings_index() -> (pages: Vec<(SettingsPage, &'static str)>)
    ensures
        pages@.map_values(|p: (SettingsPage, &'static str)| p.0) == seq![
            SettingsPage::Appearance,
            SettingsPage::Library,
            SettingsPage::Reader,
            SettingsPage::Downloads,
            SettingsPage::Browse,
            SettingsPage::DataStorage,
            SettingsPage::About,
        ],
        pages@.map_values(|p: (SettingsPage, &'static str)| p.1@) == seq![
            "Theme, accent colour, scaling"@,
            "Categories, global update, badges"@,
            "Default reading mode and page handling"@,
            "Location, concurrency, storage format"@,
            "Sources, languages, extension repositories"@,
            "Backup, restore, caches"@,
            "Version and data locations"@,
        ],
{
    let pages = vec![
        (SettingsPage::Appearance, "Theme, accent colour, scaling"),
        (SettingsPage::Library, "Categories, global update, badges"),
        (SettingsPage::Reader, "Default reading mode and page handling"),
        (SettingsPage::Downloads, "Location, concurrency, storage format"),
        (SettingsPage::Browse, "Sources, languages, extension repositories"),
        (SettingsPage::DataStorage, "Backup, restore, caches"),
        (SettingsPage::About, "Version and data locations"),
    ];
    proof {
        assert(pages@.map_values(|p: (SettingsPage, &'static str)| p.0) =~= seq![
            SettingsPage::Appearance,
            SettingsPage::Library,
            SettingsPage::Reader,
            SettingsPage::Downloads,
            SettingsPage::Browse,
            SettingsPage::DataStorage,
            SettingsPage::About,
        ]);
        assert(pages@.map_values(|p: (SettingsPage, &'static str)| p.1@) =~= seq![
            "Theme, accent colour, scaling"@,
            "Categories, global update, badges"@,
            "Default reading mode and page handling"@,
            "Location, concurrency, storage format"@,
            "Sources, languages, extension repositories"@,
            "Backup, restore, caches"@,
            "Version and data locations"@,
        ]);
    }
    pages
}

/// The choices of the automatic library check, in hours (0: never).
pub const UPDATE_INTERVALS: [u32; 7] = [0, 6, 12, 24, 48, 72, 168];

/// How an update interval reads: "Never", or "12 h".
pub open spec fn interval_text(hours: u32) -> Seq<char> {
    if hours == 0 {
        "Never"@
    } else {
        decimal(hours as nat) + " h"@
    }
}

pub fn interval_label(hours: u32) -> (s: String)
    ensures
        s@ == interval_text(hours),
{
    if hours == 0 {
        String::from_str("Never")
    } else {
        count_text(hours as usize, " h")
    }
}

/// The name of the first category from the `k`-th on with id `id`.
pub open spec fn first_name(c: Seq<Category>, id: Id, k: int) -> Option<Seq<char>>
    decreases c.len() - k,
{
    if k < 0 || k >= c.len() {
        None
    } else if c[k].id == id {
        Some(c[k].name@)
    } else {
        first_name(c, id, k + 1)
    }
}

/// The category new entries go to, as the library settings name it:
/// "Always ask" for none (a negative id), the category's name, or "Default"
/// when no category has that id.
pub fn default_category_label(categories: &Vec<Category>, default_category: Id) -> (s: String)
    ensures
        default_category < 0 ==> s@ == "Always ask"@,
        default_category >= 0 ==> s@ == (match first_name(categories@, default_category, 0) {
            Some(n) => n,
            None => "Default"@,
        }),
{
    if default_category < 0 {
        return String::from_str("Always ask");
    }
    let mut i: usize = 0;
    while i < categories.len()
        invariant
            0 <= i <= categories@.len(),
            default_category >= 0,
            first_name(categories@, default_category, 0) == first_name(
                categories@,
                default_category,
                i as int,
            ),
        decreases categories@.len() - i,
    {
        if categories[i].id == default_category {
            return categories[i].name.clone();
        }
        i = i + 1;
    }
    String::from_str("Default")
}

/// Whether a category's entries are checked for new chapters: an empty
/// list means every category.
pub open spec fn update_includes(list: Seq<Id>, id: Id) -> bool {
    list.len() == 0 || list.contains(id)
}

pub fn is_update_included(list: &Vec<Id>, id: Id) -> (b: bool)
    ensures
        b == update_includes(list@, id),
{
    if list.len() == 0 {
        return true;
    }
    let mut i: usize = 0;
    while i < list.len()
        invariant
            0 <= i <= list@.len(),
            forall|j: int| 0 <= j < i ==> list@[j] != id,
        decreases list@.len() - i,
    {
        if list[i] == id {
            return true;
        }
        i = i + 1;
    }
    false
}

/// Whether an id is another than `id`.
pub open spec fn other_than(id: Id) -> spec_fn(Id) -> bool {
    |x: Id| x != id
}

/// The update list with `id` left out, every copy of it.
pub open spec fn ids_without(list: Seq<Id>, id: Id) -> Seq<Id> {
    list.filter(other_than(id))
}

/// Ticks or unticks a category for the automatic check. An empty list
/// (every category) first becomes the list of all categories, so that
/// unticking one leaves the others.
pub fn set_update_category(list: &mut Vec<Id>, all: &Vec<Category>, id: Id, included: bool)
    ensures
        ({
            let base = if old(list)@.len() == 0 {
                all@.map_values(|c: Category| c.id)
            } else {
                old(list)@
            };
            if included {
                final(list)@ == (if base.contains(id) {
                    base
                } else {
                    base.push(id)
                })
            } else {
                final(list)@ == ids_without(base, id)
            }
        }),
{
    if list.len() == 0 {
        let mut i: usize = 0;
        while i < all.len()
            invariant
                0 <= i <= all@.len(),
                list@ == all@.take(i as int).map_values(|c: Category| c.id),
            decreases all@.len() - i,
        {
            list.push(all[i].id);
            proof {
                assert(all@.take(i + 1).map_values(|c: Category| c.id) =~= all@.take(
                    i as int,
                ).map_values(|c: Category| c.id).push(all@[i as int].id));
            }
            i = i + 1;
        }
        proof {
            assert(all@.take(all@.len() as int) =~= all@);
        }
    }
    let ghost base = list@;
    if included {
        let mut found = false;
        let mut i: usize = 0;
        while i < list.len()
            invariant
                0 <= i <= list@.len(),
                list@ == base,
                !found ==> forall|j: int| 0 <= j < i ==> list@[j] != id,
                found ==> base.contains(id),
            decreases list@.len() - i,
        {
            if list[i] == id {
                found = true;
                proof {
                    assert(base[i as int] == id);
                }
            }
            i = i + 1;
        }
        if !found {
            list.push(id);
        }
    } else {
        let mut kept: Vec<Id> = Vec::new();
        let mut i: usize = 0;
        while i < list.len()
            invariant
                0 <= i <= list@.len(),
                list@ == base,
                kept@ == base.take(i as int).filter(other_than(id)),
            decreases list@.len() - i,
        {
            proof {
                assert(base.take(i + 1) =~= base.take(i as int).push(base[i as int]));
                base.take(i as int).lemma_filter_push(base[i as int], other_than(id));
            }
            if list[i] != id {
                kept.push(list[i]);
            }
            i = i + 1;
        }
        proof {
            assert(base.take(base.len() as int) =~= base);
        }
        *list = kept;
    }
}

/// Ticks or unticks a language of the source list: a ticked one is added,
/// an unticked one removed.
pub fn set_language_enabled(languages: &mut Vec<String>, language: String, enabled: bool)
    ensures
        enabled ==> final(languages)@ == old(languages)@.push(language),
        !enabled ==> final(languages)@ == without(
            old(languages)@,
            language@,
            old(languages)@.len() as int,
        ),
{
    if enabled {
        languages.push(language);
    } else {
        remove_repository(languages, language.as_str());
    }
}

} // verus!
