//! The Library tab's selection and ordering: categories, search, filters and
//! the nine sort orders.

use vstd::prelude::*;

use std::collections::HashSet;

use crate::model::{Id, Manga, TriState, STATUS_COMPLETED};
use crate::order::{
    is_permutation, permute, permuted, sort_ranked, three_way, KeyRanking, Ranking,
};
use crate::text::{
    contains_chars, contains_seq, lemma_lex_antisymmetric, lex_order, lowercase_chars, lowercased,
    search_needle, trimmed, compare_chars, to_uppercase, uppercased, lemma_lex_le_transitive,
};
use crate::order::{adjacent_sorted, lemma_permutation_onto, lemma_stable_order_unique, total_preorder};
use crate::format::{decimal, int_text, push_decimal, push_int};

verus! {

broadcast use vstd::std_specs::hash::group_hash_axioms;

/// The category entries without one are filed under.
pub const DEFAULT_CATEGORY_ID: Id = 0;

/// A user category of the library.
pub struct Category {
    pub id: Id,
    pub name: String,
    pub order: i64,
    pub hidden: bool,
}

impl Category {
    /// The built-in category entries fall into when they have none.
    pub fn is_system(&self) -> (b: bool)
        ensures
            b == (self.id == DEFAULT_CATEGORY_ID),
    {
        self.id == DEFAULT_CATEGORY_ID
    }
}

impl Clone for Category {
    fn clone(&self) -> (r: Self)
        ensures
            r == *self,
    {
        Category { id: self.id, name: self.name.clone(), order: self.order, hidden: self.hidden }
    }
}

/// A favourited manga with the counts the library shows.
pub struct LibraryEntry {
    pub manga: Manga,
    pub category_ids: Vec<Id>,
    pub total_chapters: i64,
    pub unread_count: i64,
    pub downloaded_count: i64,
    pub has_started: bool,
    pub bookmark_count: i64,
    pub latest_upload: i64,
    pub last_read: i64,
    pub chapter_fetch_date: i64,
    pub is_tracked: bool,
}

/// The library's sort orders.
#[derive(Debug, Clone, Copy, PartialEq, Eq, Structural)]
pub enum LibrarySort {
    Alphabetical,
    LastRead,
    LastUpdate,
    UnreadCount,
    TotalChapters,
    LatestChapter,
    ChapterFetchDate,
    DateAdded,
    Random,
}

/// The library's six tri-state filters.
#[derive(Debug, Clone, Copy, PartialEq, Eq, Structural)]
pub struct LibraryFilters {
    pub downloaded: TriState,
    pub unread: TriState,
    pub started: TriState,
    pub bookmarked: TriState,
    pub completed: TriState,
    pub tracking: TriState,
}

impl Default for LibraryFilters {
    fn default() -> (f: LibraryFilters)
        ensures
            f == LibraryFilters::new_spec(),
    {
        LibraryFilters::new()
    }
}

impl LibraryFilters {
    /// Every filter off.
    pub open spec fn new_spec() -> LibraryFilters {
        LibraryFilters {
            downloaded: TriState::Disabled,
            unread: TriState::Disabled,
            started: TriState::Disabled,
            bookmarked: TriState::Disabled,
            completed: TriState::Disabled,
            tracking: TriState::Disabled,
        }
    }

    /// Every filter off.
    pub fn new() -> (f: LibraryFilters)
        ensures
            f.downloaded is Disabled && f.unread is Disabled && f.started is Disabled
                && f.bookmarked is Disabled && f.completed is Disabled && f.tracking is Disabled,
    {
        LibraryFilters {
            downloaded: TriState::Disabled,
            unread: TriState::Disabled,
            started: TriState::Disabled,
            bookmarked: TriState::Disabled,
            completed: TriState::Disabled,
            tracking: TriState::Disabled,
        }
    }

    pub open spec fn admits(self, e: LibraryEntry) -> bool {
        &&& self.downloaded.admits(e.downloaded_count > 0)
        &&& self.unread.admits(e.unread_count > 0)
        &&& self.started.admits(e.has_started)
        &&& self.bookmarked.admits(e.bookmark_count > 0)
        &&& self.completed.admits(e.manga.status == STATUS_COMPLETED)
        &&& self.tracking.admits(e.is_tracked)
    }

    /// Whether an entry passes every filter.
    pub fn matches(&self, e: &LibraryEntry) -> (b: bool)
        ensures
            b == self.admits(*e),
    {
        self.downloaded.matches(e.downloaded_count > 0) && self.unread.matches(e.unread_count > 0)
            && self.started.matches(e.has_started) && self.bookmarked.matches(e.bookmark_count > 0)
            && self.completed.matches(e.manga.status == STATUS_COMPLETED) && self.tracking.matches(
            e.is_tracked,
        )
    }
}

/// An entry without categories belongs to the default one.
pub open spec fn in_category(e: LibraryEntry, category_id: Id) -> bool {
    if e.category_ids@.len() == 0 {
        category_id == DEFAULT_CATEGORY_ID
    } else {
        e.category_ids@.contains(category_id)
    }
}

pub fn entry_in_category(entry: &LibraryEntry, category_id: Id) -> (b: bool)
    ensures
        b == in_category(*entry, category_id),
{
    if entry.category_ids.len() == 0 {
        return category_id == DEFAULT_CATEGORY_ID;
    }
    let mut i: usize = 0;
    while i < entry.category_ids.len()
        invariant
            0 <= i <= entry.category_ids@.len(),
            forall|k: int| 0 <= k < i ==> entry.category_ids@[k] != category_id,
        decreases entry.category_ids@.len() - i,
    {
        if entry.category_ids[i] == category_id {
            proof {
                assert(entry.category_ids@[i as int] == category_id);
            }
            return true;
        }
        i = i + 1;
    }
    false
}

/// Number of entries filed under `category_id`, counting the first `k`.
pub open spec fn count_prefix(entries: Seq<LibraryEntry>, category_id: Id, k: int) -> nat
    decreases k,
{
    if k <= 0 {
        0
    } else {
        count_prefix(entries, category_id, k - 1) + if in_category(entries[k - 1], category_id) {
            1nat
        } else {
            0nat
        }
    }
}

proof fn lemma_count_prefix_bound(entries: Seq<LibraryEntry>, category_id: Id, k: int)
    requires
        0 <= k,
    ensures
        count_prefix(entries, category_id, k) <= k,
    decreases k,
{
    if k > 0 {
        lemma_count_prefix_bound(entries, category_id, k - 1);
    }
}

pub fn count_in_category(entries: &Vec<LibraryEntry>, category_id: Id) -> (n: usize)
    ensures
        n == count_prefix(entries@, category_id, entries@.len() as int),
{
    let mut n: usize = 0;
    let mut i: usize = 0;
    while i < entries.len()
        invariant
            0 <= i <= entries@.len(),
            n == count_prefix(entries@, category_id, i as int),
        decreases entries@.len() - i,
    {
        proof {
            lemma_count_prefix_bound(entries@, category_id, i as int);
        }
        if entry_in_category(&entries[i], category_id) {
            n = n + 1;
        }
        i = i + 1;
    }
    n
}

/// The multiplier that spreads the seed of the random sort.
pub const SHUFFLE_SEED_MULTIPLIER: u64 = 0x9e37_79b9_7f4a_7c15;

/// The multiplier of the random sort's mixing step.
pub const SHUFFLE_MIX_MULTIPLIER: u64 = 0xff51_afd7_ed55_8ccd;

pub open spec fn wrap_mul(a: u64, b: u64) -> u64 {
    ((a as int * b as int) % 0x1_0000_0000_0000_0000) as u64
}

/// Deterministic per-entry key for the "random" sort.
pub open spec fn shuffle_of(id: Id, seed: u64) -> u64 {
    let v0 = (id as u64) ^ wrap_mul(seed, SHUFFLE_SEED_MULTIPLIER);
    let v1 = v0 ^ (v0 >> 33u64);
    let v2 = wrap_mul(v1, SHUFFLE_MIX_MULTIPLIER);
    v2 ^ (v2 >> 29u64)
}

pub fn shuffle_key(id: Id, seed: u64) -> (k: u64)
    ensures
        k == shuffle_of(id, seed),
{
    let mut value = (id as u64) ^ seed.wrapping_mul(SHUFFLE_SEED_MULTIPLIER);
    value = value ^ (value >> 33u64);
    value = value.wrapping_mul(SHUFFLE_MIX_MULTIPLIER);
    value = value ^ (value >> 29u64);
    value
}

/// The inverse of the mixing multiplier, modulo 2^64.
pub const SHUFFLE_MIX_INVERSE: u64 = 0x4f74_430c_22a5_4005;

proof fn lemma_xor_shift_33_injective(a: u64, b: u64)
    requires
        a ^ (a >> 33u64) == b ^ (b >> 33u64),
    ensures
        a == b,
{
    assert(a ^ (a >> 33u64) == b ^ (b >> 33u64) ==> a == b) by (bit_vector);
}

proof fn lemma_xor_shift_29_injective(a: u64, b: u64)
    requires
        a ^ (a >> 29u64) == b ^ (b >> 29u64),
    ensures
        a == b,
{
    assert(a ^ (a >> 29u64) == b ^ (b >> 29u64) ==> a == b) by (bit_vector);
}

proof fn lemma_mix_multiplier_inverse(x: u64)
    ensures
        (wrap_mul(x, SHUFFLE_MIX_MULTIPLIER) as int * SHUFFLE_MIX_INVERSE as int) % 0x1_0000_0000_0000_0000
            == x as int,
{
    let m: int = 0x1_0000_0000_0000_0000;
    let p: int = x as int * SHUFFLE_MIX_MULTIPLIER as int;
    let q: int = p / m;
    let r: int = p % m;
    let k: int = 5710046619856821070;
    assert(SHUFFLE_MIX_MULTIPLIER as int * SHUFFLE_MIX_INVERSE as int == 1 + k * m);
    assert(p == q * m + r) by (nonlinear_arith)
        requires
            q == p / m,
            r == p % m,
            m > 0,
    ;
    assert(wrap_mul(x, SHUFFLE_MIX_MULTIPLIER) as int == r);
    assert(r * SHUFFLE_MIX_INVERSE as int == x as int + (x as int * k - q * SHUFFLE_MIX_INVERSE as int)
        * m) by (nonlinear_arith)
        requires
            p == q * m + r,
            p == x as int * SHUFFLE_MIX_MULTIPLIER as int,
            SHUFFLE_MIX_MULTIPLIER as int * SHUFFLE_MIX_INVERSE as int == 1 + k * m,
    ;
    vstd::arithmetic::div_mod::lemma_mod_multiples_vanish(
        x as int * k - q * SHUFFLE_MIX_INVERSE as int,
        x as int,
        m,
    );
    vstd::arithmetic::div_mod::lemma_small_mod(x as nat, m as nat);
}

/// For a fixed seed, distinct entries get distinct "random" keys: every
/// step of the mixing is undone by another, so the random order never ties
/// two entries.
pub proof fn lemma_shuffle_injective(a: Id, b: Id, seed: u64)
    requires
        a != b,
    ensures
        shuffle_of(a, seed) != shuffle_of(b, seed),
{
    let c = wrap_mul(seed, SHUFFLE_SEED_MULTIPLIER);
    let a0 = (a as u64) ^ c;
    let b0 = (b as u64) ^ c;
    let a1 = a0 ^ (a0 >> 33u64);
    let b1 = b0 ^ (b0 >> 33u64);
    let a2 = wrap_mul(a1, SHUFFLE_MIX_MULTIPLIER);
    let b2 = wrap_mul(b1, SHUFFLE_MIX_MULTIPLIER);
    if shuffle_of(a, seed) == shuffle_of(b, seed) {
        lemma_xor_shift_29_injective(a2, b2);
        lemma_mix_multiplier_inverse(a1);
        lemma_mix_multiplier_inverse(b1);
        lemma_xor_shift_33_injective(a0, b0);
        let ua = a as u64;
        let ub = b as u64;
        assert(ua ^ c == ub ^ c ==> ua == ub) by (bit_vector);
        assert(a as u64 == b as u64 ==> a == b) by (bit_vector);
    }
}

/// The sort key an entry has for an integer-valued sort order.
pub open spec fn sort_key(e: LibraryEntry, sort: LibrarySort, seed: u64) -> int {
    match sort {
        LibrarySort::Alphabetical => 0,
        LibrarySort::LastRead => e.last_read as int,
        LibrarySort::LastUpdate => e.manga.last_update as int,
        LibrarySort::UnreadCount => e.unread_count as int,
        LibrarySort::TotalChapters => e.total_chapters as int,
        LibrarySort::LatestChapter => e.latest_upload as int,
        LibrarySort::ChapterFetchDate => e.chapter_fetch_date as int,
        LibrarySort::DateAdded => e.manga.date_added as int,
        LibrarySort::Random => shuffle_of(e.manga.id, seed) as int,
    }
}

/// How entry `a` sorts against entry `b`: by the chosen order, ties broken
/// by lowercased title so the order never jitters between frames, and the
/// whole turned around when descending.
pub open spec fn entry_rank(a: LibraryEntry, b: LibraryEntry, sort: LibrarySort, ascending: bool, seed: u64) -> int {
    let ta = lowercased(a.manga.title@);
    let tb = lowercased(b.manga.title@);
    let primary = if sort is Alphabetical {
        lex_order(ta, tb)
    } else {
        three_way(sort_key(a, sort, seed), sort_key(b, sort, seed))
    };
    let full = if primary != 0 {
        primary
    } else {
        lex_order(ta, tb)
    };
    if ascending {
        full
    } else {
        -full
    }
}

/// Entries ranked for the library's sort: each entry's lowercased title and
/// its key for the chosen order.
pub struct EntryRanking {
    pub items: Vec<(Vec<char>, i128)>,
    pub by_title: bool,
    pub ascending: bool,
}

impl Ranking for EntryRanking {
    open spec fn size(&self) -> nat {
        self.items@.len()
    }

    open spec fn rank(&self, a: int, b: int) -> int {
        let ta = self.items@[a].0@;
        let tb = self.items@[b].0@;
        let primary = if self.by_title {
            lex_order(ta, tb)
        } else {
            three_way(self.items@[a].1 as int, self.items@[b].1 as int)
        };
        let full = if primary != 0 {
            primary
        } else {
            lex_order(ta, tb)
        };
        if self.ascending {
            full
        } else {
            -full
        }
    }

    proof fn rank_antisymmetric(&self, a: int, b: int) {
        lemma_lex_antisymmetric(self.items@[a].0@, self.items@[b].0@, 0);
    }

    fn count(&self) -> (n: usize) {
        self.items.len()
    }

    fn compare(&self, a: usize, b: usize) -> (c: i8) {
        proof {
            lemma_lex_antisymmetric(self.items@[a as int].0@, self.items@[b as int].0@, 0);
        }
        let ka = self.items[a].1;
        let kb = self.items[b].1;
        let primary: i8 = if self.by_title {
            compare_chars(&self.items[a].0, &self.items[b].0)
        } else if ka < kb {
            -1
        } else if ka > kb {
            1
        } else {
            0
        };
        let full = if primary != 0 {
            primary
        } else {
            compare_chars(&self.items[a].0, &self.items[b].0)
        };
        if self.ascending {
            full
        } else {
            -full
        }
    }
}

/// Adjacent entries of `order` are in library order, ties by position.
pub open spec fn entries_sorted(
    entries: Seq<LibraryEntry>,
    sort: LibrarySort,
    ascending: bool,
    seed: u64,
    order: Seq<usize>,
) -> bool {
    forall|i: int|
        0 <= i < order.len() - 1 ==> {
            let r = entry_rank(
                entries[#[trigger] order[i] as int],
                entries[order[i + 1] as int],
                sort,
                ascending,
                seed,
            );
            r < 0 || (r == 0 && order[i] < order[i + 1])
        }
}

/// The entries a list of references points at.
pub open spec fn derefs(s: Seq<&LibraryEntry>) -> Seq<LibraryEntry> {
    s.map_values(|e: &LibraryEntry| *e)
}

/// `result` is `entries` stably sorted in library order.
pub open spec fn sorted_entries(
    entries: Seq<LibraryEntry>,
    sort: LibrarySort,
    ascending: bool,
    seed: u64,
    result: Seq<LibraryEntry>,
) -> bool {
    exists|order: Seq<usize>|
        #![trigger permuted(entries, order)]
        is_permutation(order, entries.len() as int) && entries_sorted(
            entries,
            sort,
            ascending,
            seed,
            order,
        ) && result == permuted(entries, order)
}

/// The stable library order of `entries`.
fn entry_order(entries: &Vec<&LibraryEntry>, sort: LibrarySort, ascending: bool, seed: u64) -> (order: Vec<usize>)
    ensures
        is_permutation(order@, entries@.len() as int),
        entries_sorted(derefs(entries@), sort, ascending, seed, order@),
{
    let n = entries.len();
    let mut items: Vec<(Vec<char>, i128)> = Vec::new();
    let mut i: usize = 0;
    while i < n
        invariant
            0 <= i <= n,
            n == entries@.len(),
            items@.len() == i,
            forall|k: int|
                0 <= k < i ==> (#[trigger] items@[k]).0@ == lowercased(entries@[k].manga.title@)
                    && items@[k].1 as int == sort_key(*entries@[k], sort, seed),
        decreases n - i,
    {
        let e: &LibraryEntry = entries[i];
        let title = lowercase_chars(e.manga.title.as_str());
        let key: i128 = match sort {
            LibrarySort::Alphabetical => 0,
            LibrarySort::LastRead => e.last_read as i128,
            LibrarySort::LastUpdate => e.manga.last_update as i128,
            LibrarySort::UnreadCount => e.unread_count as i128,
            LibrarySort::TotalChapters => e.total_chapters as i128,
            LibrarySort::LatestChapter => e.latest_upload as i128,
            LibrarySort::ChapterFetchDate => e.chapter_fetch_date as i128,
            LibrarySort::DateAdded => e.manga.date_added as i128,
            LibrarySort::Random => shuffle_key(e.manga.id, seed) as i128,
        };
        items.push((title, key));
        proof {
            assert(key as int == sort_key(*entries@[i as int], sort, seed));
            assert(title@ == lowercased(entries@[i as int].manga.title@));
        }
        i = i + 1;
    }
    let by_title = match sort {
        LibrarySort::Alphabetical => true,
        _ => false,
    };
    let ranking = EntryRanking { items, by_title, ascending };
    let order = sort_ranked(&ranking);
    let ghost original = entries@;
    proof {
        assert forall|i: int| 0 <= i < order@.len() - 1 implies {
            let r = entry_rank(
                derefs(original)[#[trigger] order@[i] as int],
                derefs(original)[order@[i + 1] as int],
                sort,
                ascending,
                seed,
            );
            r < 0 || (r == 0 && order@[i] < order@[i + 1])
        } by {
            assert(ranking.rank(order@[i] as int, order@[i + 1] as int) == entry_rank(
                *original[order@[i] as int],
                *original[order@[i + 1] as int],
                sort,
                ascending,
                seed,
            ));
        }
    }
    order
}

/// Sorts library entries for display.
pub fn sort_entries(entries: &mut Vec<&LibraryEntry>, sort: LibrarySort, ascending: bool, seed: u64)
    ensures
        sorted_entries(derefs(old(entries)@), sort, ascending, seed, derefs(final(entries)@)),
{
    let order = entry_order(entries, sort, ascending, seed);
    let ghost original = entries@;
    let mut taken: Vec<&LibraryEntry> = Vec::new();
    std::mem::swap(&mut taken, entries);
    *entries = permute(taken, &order);
    proof {
        assert(derefs(entries@) =~= permuted(derefs(original), order@));
        assert(is_permutation(order@, derefs(original).len() as int) && entries_sorted(
            derefs(original),
            sort,
            ascending,
            seed,
            order@,
        ) && derefs(entries@) == permuted(derefs(original), order@));
    }
}

/// Whether `a` may come right before `b` in the `sort` order: the field the
/// order is named after does not go backwards (the lowercased titles in
/// code-point order for the alphabetical order, the shuffled key for the
/// random one).
pub open spec fn field_ordered(a: LibraryEntry, b: LibraryEntry, sort: LibrarySort, ascending: bool, seed: u64) -> bool {
    let (x, y): (int, int) = match sort {
        LibrarySort::Alphabetical => (lex_order(lowercased(a.manga.title@), lowercased(b.manga.title@)), 0),
        LibrarySort::LastRead => (a.last_read as int, b.last_read as int),
        LibrarySort::LastUpdate => (a.manga.last_update as int, b.manga.last_update as int),
        LibrarySort::UnreadCount => (a.unread_count as int, b.unread_count as int),
        LibrarySort::TotalChapters => (a.total_chapters as int, b.total_chapters as int),
        LibrarySort::LatestChapter => (a.latest_upload as int, b.latest_upload as int),
        LibrarySort::ChapterFetchDate => (a.chapter_fetch_date as int, b.chapter_fetch_date as int),
        LibrarySort::DateAdded => (a.manga.date_added as int, b.manga.date_added as int),
        LibrarySort::Random => (shuffle_of(a.manga.id, seed) as int, shuffle_of(b.manga.id, seed) as int),
    };
    if ascending {
        x <= y
    } else {
        x >= y
    }
}

/// The library is sorted by the field each order is named after: along the
/// sorted list that field never goes backwards (never forwards, descending).
pub proof fn lemma_library_sorted_by_field(
    entries: Seq<LibraryEntry>,
    sort: LibrarySort,
    ascending: bool,
    seed: u64,
    result: Seq<LibraryEntry>,
)
    requires
        sorted_entries(entries, sort, ascending, seed, result),
    ensures
        forall|i: int|
            0 <= i < result.len() - 1 ==> field_ordered(#[trigger] result[i], result[i + 1], sort, ascending, seed),
{
    let order = choose|order: Seq<usize>|
        #![trigger permuted(entries, order)]
        is_permutation(order, entries.len() as int) && entries_sorted(entries, sort, ascending, seed, order)
            && result == permuted(entries, order);
    assert forall|i: int| 0 <= i < result.len() - 1 implies field_ordered(
        #[trigger] result[i],
        result[i + 1],
        sort,
        ascending,
        seed,
    ) by {
        assert(result[i] == entries[order[i] as int]);
        assert(result[i + 1] == entries[order[i + 1] as int]);
        let r = entry_rank(entries[order[i] as int], entries[order[i + 1] as int], sort, ascending, seed);
        assert(r < 0 || (r == 0 && order[i] < order[i + 1]));
    }
}

/// The selection with `id` taken out if it was in, put in otherwise.
pub open spec fn toggled(selection: Set<Id>, id: Id) -> Set<Id> {
    if selection.contains(id) {
        selection.remove(id)
    } else {
        selection.insert(id)
    }
}

/// Toggling the same entry twice leaves the selection as it was.
pub proof fn lemma_toggle_twice(selection: Set<Id>, id: Id)
    ensures
        toggled(toggled(selection, id), id) == selection,
{
    assert(toggled(toggled(selection, id), id) =~= selection);
}

/// Adds an entry to the selection, or takes it out if it was there.
pub fn toggle_selection(selection: &mut HashSet<Id>, id: Id)
    ensures
        final(selection)@ == toggled(old(selection)@, id),
{
    if !selection.remove(&id) {
        selection.insert(id);
    }
}

/// The visible categories among the first `k`, in list order.
pub open spec fn unhidden_prefix(c: Seq<Category>, k: int) -> Seq<Category>
    decreases k,
{
    if k <= 0 {
        seq![]
    } else {
        let rest = unhidden_prefix(c, k - 1);
        if c[k - 1].hidden {
            rest
        } else {
            rest.push(c[k - 1])
        }
    }
}

/// `result` is `c` stably sorted by the categories' order field.
pub open spec fn categories_by_order(c: Seq<Category>, result: Seq<Category>) -> bool {
    exists|order: Seq<usize>|
        #![trigger permuted(c, order)]
        is_permutation(order, c.len() as int) && (forall|i: int|
            0 <= i < order.len() - 1 ==> {
                let a = #[trigger] order[i] as int;
                let b = order[i + 1] as int;
                c[a].order < c[b].order || (c[a].order == c[b].order && a < b)
            }) && result == permuted(c, order)
}

/// The categories shown as tabs: hidden ones left out, the rest by their
/// order.
pub fn visible_categories(categories: &Vec<Category>) -> (shown: Vec<Category>)
    ensures
        categories_by_order(unhidden_prefix(categories@, categories@.len() as int), shown@),
{
    let mut kept: Vec<Category> = Vec::new();
    let mut i: usize = 0;
    while i < categories.len()
        invariant
            0 <= i <= categories@.len(),
            kept@ == unhidden_prefix(categories@, i as int),
        decreases categories@.len() - i,
    {
        if !categories[i].hidden {
            kept.push(categories[i].clone());
        }
        i = i + 1;
    }
    let mut keys: Vec<i64> = Vec::new();
    let mut j: usize = 0;
    while j < kept.len()
        invariant
            0 <= j <= kept@.len(),
            keys@.len() == j,
            forall|k: int| 0 <= k < j ==> #[trigger] keys@[k] == kept@[k].order,
        decreases kept@.len() - j,
    {
        keys.push(kept[j].order);
        j = j + 1;
    }
    let ranking = KeyRanking { keys, descending: false };
    let order = sort_ranked(&ranking);
    let ghost original = kept@;
    let shown = permute(kept, &order);
    proof {
        assert forall|i: int| 0 <= i < order@.len() - 1 implies {
            let a = #[trigger] order@[i] as int;
            let b = order@[i + 1] as int;
            original[a].order < original[b].order || (original[a].order == original[b].order
                && a < b)
        } by {
            assert(ranking.rank(order@[i] as int, order@[i + 1] as int) == three_way(
                original[order@[i] as int].order as int,
                original[order@[i + 1] as int].order as int,
            ));
        }
        assert(is_permutation(order@, original.len() as int) && shown@ == permuted(
            original,
            order@,
        ));
    }
    shown
}

/// The category the library is filtered to: none while there are fewer than
/// two tabs, otherwise the selected one.
pub fn current_category_id(visible: &Vec<Category>, index: usize) -> (id: Option<Id>)
    ensures
        id == (if visible@.len() <= 1 || index >= visible@.len() {
            None
        } else {
            Some(visible@[index as int].id)
        }),
{
    if visible.len() <= 1 || index >= visible.len() {
        None
    } else {
        Some(visible[index].id)
    }
}

/// Whether an entry's title or author contains the search needle.
pub open spec fn matches_search(e: LibraryEntry, needle: Seq<char>) -> bool {
    ||| needle.len() == 0
    ||| contains_seq(lowercased(e.manga.title@), needle)
    ||| (e.manga.author matches Some(a) && contains_seq(lowercased(a@), needle))
}

/// Whether an entry is listed: in the category, matching the search and the
/// filters, and downloaded when only downloads are shown.
pub open spec fn entry_listed(
    e: LibraryEntry,
    category: Option<Id>,
    needle: Seq<char>,
    filters: LibraryFilters,
    downloaded_only: bool,
) -> bool {
    &&& match category {
        Some(id) => in_category(e, id),
        None => true,
    }
    &&& matches_search(e, needle)
    &&& filters.admits(e)
    &&& !downloaded_only || e.downloaded_count > 0
}

/// The listed entries among the first `k`, in list order.
pub open spec fn listed_prefix(
    entries: Seq<LibraryEntry>,
    category: Option<Id>,
    needle: Seq<char>,
    filters: LibraryFilters,
    downloaded_only: bool,
    k: int,
) -> Seq<LibraryEntry>
    decreases k,
{
    if k <= 0 {
        seq![]
    } else {
        let rest = listed_prefix(entries, category, needle, filters, downloaded_only, k - 1);
        if entry_listed(entries[k - 1], category, needle, filters, downloaded_only) {
            rest.push(entries[k - 1])
        } else {
            rest
        }
    }
}

proof fn lemma_listed_prefix_has(
    entries: Seq<LibraryEntry>,
    category: Option<Id>,
    needle: Seq<char>,
    filters: LibraryFilters,
    downloaded_only: bool,
    k: int,
    j: int,
)
    requires
        0 <= j < k <= entries.len(),
        entry_listed(entries[j], category, needle, filters, downloaded_only),
    ensures
        exists|m: int|
            0 <= m < listed_prefix(entries, category, needle, filters, downloaded_only, k).len()
                && #[trigger] listed_prefix(entries, category, needle, filters, downloaded_only, k)[m]
                == entries[j],
    decreases k,
{
    let s = listed_prefix(entries, category, needle, filters, downloaded_only, k);
    if j == k - 1 {
        assert(s[s.len() - 1] == entries[j]);
    } else {
        lemma_listed_prefix_has(entries, category, needle, filters, downloaded_only, k - 1, j);
        let rest = listed_prefix(entries, category, needle, filters, downloaded_only, k - 1);
        let m = choose|m: int| 0 <= m < rest.len() && #[trigger] rest[m] == entries[j];
        assert(s[m] == entries[j]);
    }
}

/// Every entry that satisfies the listing field by field is listed: in
/// particular the search finds an entry by its title or by its author, when
/// the lowercased query occurs in either.
pub proof fn lemma_search_finds_title_or_author(
    entries: Seq<LibraryEntry>,
    category: Option<Id>,
    needle: Seq<char>,
    filters: LibraryFilters,
    downloaded_only: bool,
    sort: LibrarySort,
    ascending: bool,
    seed: u64,
    result: Seq<LibraryEntry>,
    j: int,
)
    requires
        sorted_entries(
            listed_prefix(entries, category, needle, filters, downloaded_only, entries.len() as int),
            sort,
            ascending,
            seed,
            result,
        ),
        0 <= j < entries.len(),
        listing_holds(entries[j], category, needle, filters, downloaded_only),
    ensures
        exists|i: int| 0 <= i < result.len() && #[trigger] result[i] == entries[j],
{
    let s = listed_prefix(entries, category, needle, filters, downloaded_only, entries.len() as int);
    lemma_listed_prefix_has(entries, category, needle, filters, downloaded_only, entries.len() as int, j);
    let m = choose|m: int| 0 <= m < s.len() && #[trigger] s[m] == entries[j];
    let order = choose|order: Seq<usize>|
        #![trigger permuted(s, order)]
        is_permutation(order, s.len() as int) && entries_sorted(s, sort, ascending, seed, order)
            && result == permuted(s, order);
    lemma_permutation_onto(order, s.len() as int, m);
    let i = choose|i: int| 0 <= i < s.len() && order[i] == m;
    assert(result[i] == s[m]);
}

/// Whether a state of a filter lets a value through: off lets everything
/// through, "include" only what has the property, "exclude" only what lacks it.
pub open spec fn tri_passes(t: TriState, has: bool) -> bool {
    (t is EnabledIs ==> has) && (t is EnabledNot ==> !has)
}

/// What every listed entry satisfies, field by field: it is in the category
/// (an entry without categories is in the default one), the query occurs in
/// its lowercased title or author, each filter lets it through, and it has
/// downloads when only downloads are shown.
pub open spec fn listing_holds(
    e: LibraryEntry,
    category: Option<Id>,
    needle: Seq<char>,
    filters: LibraryFilters,
    downloaded_only: bool,
) -> bool {
    &&& category matches Some(id) ==> (if e.category_ids@.len() == 0 {
        id == DEFAULT_CATEGORY_ID
    } else {
        e.category_ids@.contains(id)
    })
    &&& needle.len() == 0 || contains_seq(lowercased(e.manga.title@), needle) || (
    e.manga.author matches Some(a) && contains_seq(lowercased(a@), needle))
    &&& tri_passes(filters.downloaded, e.downloaded_count > 0)
    &&& tri_passes(filters.unread, e.unread_count > 0)
    &&& tri_passes(filters.started, e.has_started)
    &&& tri_passes(filters.bookmarked, e.bookmark_count > 0)
    &&& tri_passes(filters.completed, e.manga.status == STATUS_COMPLETED)
    &&& tri_passes(filters.tracking, e.is_tracked)
    &&& downloaded_only ==> e.downloaded_count > 0
}

proof fn lemma_listed_prefix_holds(
    entries: Seq<LibraryEntry>,
    category: Option<Id>,
    needle: Seq<char>,
    filters: LibraryFilters,
    downloaded_only: bool,
    k: int,
)
    requires
        0 <= k <= entries.len(),
    ensures
        forall|m: int|
            0 <= m < listed_prefix(entries, category, needle, filters, downloaded_only, k).len() ==> {
                let e = #[trigger] listed_prefix(entries, category, needle, filters, downloaded_only, k)[m];
                &&& listing_holds(e, category, needle, filters, downloaded_only)
                &&& exists|j: int| 0 <= j < k && entries[j] == e
            },
    decreases k,
{
    if k > 0 {
        lemma_listed_prefix_holds(entries, category, needle, filters, downloaded_only, k - 1);
        let rest = listed_prefix(entries, category, needle, filters, downloaded_only, k - 1);
        let s = listed_prefix(entries, category, needle, filters, downloaded_only, k);
        assert forall|m: int| 0 <= m < s.len() implies {
            let e = #[trigger] s[m];
            &&& listing_holds(e, category, needle, filters, downloaded_only)
            &&& exists|j: int| 0 <= j < k && entries[j] == e
        } by {
            if m < rest.len() {
                assert(s[m] == rest[m]);
            } else {
                assert(s[m] == entries[k - 1]);
            }
        }
    }
}

/// Every entry the library lists is one of its entries and satisfies the
/// listing field by field (see `listing_holds`).
pub proof fn lemma_listed_entries_hold(
    entries: Seq<LibraryEntry>,
    category: Option<Id>,
    needle: Seq<char>,
    filters: LibraryFilters,
    downloaded_only: bool,
    sort: LibrarySort,
    ascending: bool,
    seed: u64,
    result: Seq<LibraryEntry>,
)
    requires
        sorted_entries(
            listed_prefix(entries, category, needle, filters, downloaded_only, entries.len() as int),
            sort,
            ascending,
            seed,
            result,
        ),
    ensures
        forall|i: int|
            0 <= i < result.len() ==> listing_holds(#[trigger] result[i], category, needle, filters, downloaded_only)
                && exists|j: int| 0 <= j < entries.len() && entries[j] == result[i],
{
    let s = listed_prefix(entries, category, needle, filters, downloaded_only, entries.len() as int);
    lemma_listed_prefix_holds(entries, category, needle, filters, downloaded_only, entries.len() as int);
    let order = choose|order: Seq<usize>|
        #![trigger permuted(s, order)]
        is_permutation(order, s.len() as int) && entries_sorted(s, sort, ascending, seed, order)
            && result == permuted(s, order);
    assert forall|i: int| 0 <= i < result.len() implies listing_holds(
        #[trigger] result[i],
        category,
        needle,
        filters,
        downloaded_only,
    ) && exists|j: int| 0 <= j < entries.len() && entries[j] == result[i] by {
        assert(result[i] == s[order[i] as int]);
        let e = s[order[i] as int];
        assert(listing_holds(e, category, needle, filters, downloaded_only));
    }
}

fn search_matches(e: &LibraryEntry, needle: &Vec<char>) -> (b: bool)
    ensures
        b == matches_search(*e, needle@),
{
    if needle.len() == 0 {
        return true;
    }
    let title = lowercase_chars(e.manga.title.as_str());
    if contains_chars(&title, needle) {
        return true;
    }
    match &e.manga.author {
        Some(a) => {
            let author = lowercase_chars(a.as_str());
            contains_chars(&author, needle)
        },
        None => false,
    }
}

/// The library as listed: the category, search and filter state applied,
/// then sorted. The search is the query trimmed and lowercased, matched
/// against lowercased titles and authors.
pub fn select_entries<'a>(
    entries: &'a Vec<LibraryEntry>,
    category: Option<Id>,
    query: &str,
    filters: &LibraryFilters,
    downloaded_only: bool,
    sort: LibrarySort,
    ascending: bool,
    seed: u64,
) -> (rows: Vec<&'a LibraryEntry>)
    ensures
        sorted_entries(
            listed_prefix(
                entries@,
                category,
                lowercased(trimmed(query@)),
                *filters,
                downloaded_only,
                entries@.len() as int,
            ),
            sort,
            ascending,
            seed,
            derefs(rows@),
        ),
{
    let needle = search_needle(query);
    let mut rows: Vec<&'a LibraryEntry> = Vec::new();
    let mut i: usize = 0;
    while i < entries.len()
        invariant
            0 <= i <= entries@.len(),
            needle@ == lowercased(trimmed(query@)),
            derefs(rows@) == listed_prefix(
                entries@,
                category,
                needle@,
                *filters,
                downloaded_only,
                i as int,
            ),
        decreases entries@.len() - i,
    {
        let e = &entries[i];
        let in_cat = match category {
            Some(id) => entry_in_category(e, id),
            None => true,
        };
        if in_cat && search_matches(e, &needle) && filters.matches(e) && (!downloaded_only
            || e.downloaded_count > 0) {
            let ghost before = rows@;
            rows.push(e);
            proof {
                assert(derefs(rows@) =~= derefs(before).push(entries@[i as int]));
            }
        }
        i = i + 1;
    }
    sort_entries(&mut rows, sort, ascending, seed);
    rows
}

/// The library tab's state.
pub struct LibraryState {
    pub entries: Vec<LibraryEntry>,
    pub categories: Vec<Category>,
    pub category_index: usize,
    pub query: String,
    pub selection: HashSet<Id>,
    pub dirty: bool,
    /// Seed so the "random" sort stays stable between frames.
    pub random_seed: u64,
}

/// The seed the random sort starts from.
pub const DEFAULT_RANDOM_SEED: u64 = 0x5eed;

impl LibraryState {
    /// An empty library waiting for its first load.
    pub fn new() -> (s: LibraryState)
        ensures
            s.entries@.len() == 0,
            s.categories@.len() == 0,
            s.category_index == 0,
            s.query@ == Seq::<char>::empty(),
            s.selection@ == Set::<Id>::empty(),
            s.dirty,
            s.random_seed == DEFAULT_RANDOM_SEED,
    {
        LibraryState {
            entries: Vec::new(),
            categories: Vec::new(),
            category_index: 0,
            query: String::new(),
            selection: HashSet::new(),
            dirty: true,
            random_seed: DEFAULT_RANDOM_SEED,
        }
    }
}

/// The category ids in list order with the category `id` swapped with its
/// neighbour `delta` places away; `None` when there is no such category or
/// the move would leave the list.
pub open spec fn reordered(categories: Seq<Category>, id: Id, delta: i32) -> Option<Seq<Id>> {
    let ids = categories.map_values(|c: Category| c.id);
    if exists|i: int| 0 <= i < categories.len() && categories[i].id == id {
        let index = choose|i: int|
            0 <= i < categories.len() && categories[i].id == id && forall|j: int|
                0 <= j < i ==> categories[j].id != id;
        let target = index + delta;
        if target < 0 || target >= categories.len() {
            None
        } else {
            Some(ids.update(index, ids[target]).update(target, ids[index]))
        }
    } else {
        None
    }
}

/// The new order of the categories when one moves up (`delta` -1) or down
/// (+1) a place.
pub fn reordered_ids(categories: &Vec<Category>, id: Id, delta: i32) -> (r: Option<Vec<Id>>)
    ensures
        match reordered(categories@, id, delta) {
            Some(ids) => r matches Some(v) && v@ == ids,
            None => r is None,
        },
{
    let mut index: usize = 0;
    while index < categories.len() && categories[index].id != id
        invariant
            0 <= index <= categories@.len(),
            forall|j: int| 0 <= j < index ==> categories@[j].id != id,
        decreases categories@.len() - index,
    {
        index = index + 1;
    }
    if index == categories.len() {
        return None;
    }
    proof {
        let k = index as int;
        assert(0 <= k < categories@.len() && categories@[k].id == id && forall|j: int|
            0 <= j < k ==> categories@[j].id != id);
        let chosen = choose|i: int|
            0 <= i < categories@.len() && categories@[i].id == id && forall|j: int|
                0 <= j < i ==> categories@[j].id != id;
        if chosen < k {
            assert(categories@[chosen].id != id);
        } else if chosen > k {
            assert(categories@[k].id != id);
        }
        assert(chosen == k);
    }
    let target = index as i128 + delta as i128;
    if target < 0 || target >= categories.len() as i128 {
        return None;
    }
    let t = target as usize;
    let mut ids: Vec<Id> = Vec::new();
    let mut i: usize = 0;
    while i < categories.len()
        invariant
            0 <= i <= categories@.len(),
            ids@ == categories@.take(i as int).map_values(|c: Category| c.id),
        decreases categories@.len() - i,
    {
        ids.push(categories[i].id);
        proof {
            assert(categories@.take(i + 1).map_values(|c: Category| c.id) =~= categories@.take(
                i as int,
            ).map_values(|c: Category| c.id).push(categories@[i as int].id));
        }
        i = i + 1;
    }
    proof {
        assert(categories@.take(categories@.len() as int) =~= categories@);
    }
    let a = ids[index];
    let b = ids[t];
    ids.set(index, b);
    ids.set(t, a);
    Some(ids)
}

/// The entry a "random" pick opens among `count` listed ones, from a
/// varying number such as the clock's nanoseconds; none when the library
/// shows nothing.
pub fn random_pick(count: usize, seed: usize) -> (r: Option<usize>)
    ensures
        count == 0 ==> r is None,
        count > 0 ==> r == Some((seed % count) as usize),
{
    if count == 0 {
        None
    } else {
        Some(seed % count)
    }
}

/// Which badges a library tile shows.
#[derive(Debug, Clone, Copy, PartialEq, Eq, Structural)]
pub struct BadgePrefs {
    pub unread: bool,
    pub downloaded: bool,
    pub local: bool,
    pub language: bool,
}

/// What a badge counts, which picks its colour.
#[derive(Debug, Clone, Copy, PartialEq, Eq, Structural)]
pub enum BadgeKind {
    Unread,
    Downloaded,
    Local,
    Language,
}

pub struct Badge {
    pub kind: BadgeKind,
    pub text: String,
}

/// The badges of a tile, in the order they are drawn.
pub open spec fn badges_spec(
    prefs: BadgePrefs,
    unread: i64,
    downloaded: i64,
    is_local: bool,
    lang: Option<Seq<char>>,
) -> Seq<(BadgeKind, Seq<char>)> {
    let a: Seq<(BadgeKind, Seq<char>)> = if prefs.unread && unread > 0 {
        seq![(BadgeKind::Unread, int_text(unread as int))]
    } else {
        seq![]
    };
    let b: Seq<(BadgeKind, Seq<char>)> = if prefs.downloaded && downloaded > 0 {
        seq![(BadgeKind::Downloaded, int_text(downloaded as int))]
    } else {
        seq![]
    };
    let c: Seq<(BadgeKind, Seq<char>)> = if prefs.local && is_local {
        seq![(BadgeKind::Local, "local"@)]
    } else {
        seq![]
    };
    let d: Seq<(BadgeKind, Seq<char>)> = match lang {
        Some(l) => if prefs.language {
            seq![(BadgeKind::Language, uppercased(l))]
        } else {
            seq![]
        },
        None => seq![],
    };
    a + b + c + d
}

pub open spec fn badge_views(badges: Seq<Badge>) -> Seq<(BadgeKind, Seq<char>)> {
    badges.map_values(|b: Badge| (b.kind, b.text@))
}

pub fn badges_for(
    prefs: &BadgePrefs,
    unread: i64,
    downloaded: i64,
    is_local: bool,
    lang: Option<&str>,
) -> (badges: Vec<Badge>)
    ensures
        badge_views(badges@) == badges_spec(
            *prefs,
            unread,
            downloaded,
            is_local,
            match lang {
                Some(l) => Some(l@),
                None => None,
            },
        ),
{
    let mut badges: Vec<Badge> = Vec::new();
    if prefs.unread && unread > 0 {
        let mut t = String::new();
        push_int(&mut t, unread);
        badges.push(Badge { kind: BadgeKind::Unread, text: t });
    }
    let ghost after_a = badge_views(badges@);
    if prefs.downloaded && downloaded > 0 {
        let mut t = String::new();
        push_int(&mut t, downloaded);
        badges.push(Badge { kind: BadgeKind::Downloaded, text: t });
    }
    let ghost after_b = badge_views(badges@);
    if prefs.local && is_local {
        badges.push(Badge { kind: BadgeKind::Local, text: String::from_str("local") });
    }
    let ghost after_c = badge_views(badges@);
    match lang {
        Some(l) => {
            if prefs.language {
                badges.push(Badge { kind: BadgeKind::Language, text: to_uppercase(l) });
            }
        },
        None => {},
    }
    proof {
        assert(badge_views(badges@) =~= badges_spec(
            *prefs,
            unread,
            downloaded,
            is_local,
            match lang {
                Some(l) => Some(l@),
                None => None,
            },
        ));
    }
    badges
}

/// The library order of entries `a` and `b` of a list, by position.
pub open spec fn rank_at(
    entries: Seq<LibraryEntry>,
    sort: LibrarySort,
    ascending: bool,
    seed: u64,
) -> spec_fn(int, int) -> int {
    |a: int, b: int| entry_rank(entries[a], entries[b], sort, ascending, seed)
}

proof fn lemma_entry_rank_ascending_transitive(
    a: LibraryEntry,
    b: LibraryEntry,
    c: LibraryEntry,
    sort: LibrarySort,
    seed: u64,
)
    requires
        entry_rank(a, b, sort, true, seed) <= 0,
        entry_rank(b, c, sort, true, seed) <= 0,
    ensures
        entry_rank(a, c, sort, true, seed) <= 0,
{
    let ta = lowercased(a.manga.title@);
    let tb = lowercased(b.manga.title@);
    let tc = lowercased(c.manga.title@);
    lemma_lex_antisymmetric(ta, tb, 0);
    lemma_lex_antisymmetric(tb, tc, 0);
    lemma_lex_antisymmetric(ta, tc, 0);
    if sort is Alphabetical {
        lemma_lex_le_transitive(ta, tb, tc);
    } else {
        let ka = sort_key(a, sort, seed);
        let kb = sort_key(b, sort, seed);
        let kc = sort_key(c, sort, seed);
        if ka == kb && kb == kc {
            lemma_lex_le_transitive(ta, tb, tc);
        }
    }
}

proof fn lemma_entry_rank_preorder(
    entries: Seq<LibraryEntry>,
    sort: LibrarySort,
    ascending: bool,
    seed: u64,
)
    ensures
        total_preorder(rank_at(entries, sort, ascending, seed), entries.len() as int),
{
    let rank = rank_at(entries, sort, ascending, seed);
    let n = entries.len() as int;
    assert forall|a: int, b: int| 0 <= a < n && 0 <= b < n implies #[trigger] rank(a, b) == -rank(
        b,
        a,
    ) by {
        lemma_lex_antisymmetric(
            lowercased(entries[a].manga.title@),
            lowercased(entries[b].manga.title@),
            0,
        );
    }
    assert forall|a: int, b: int, c: int|
        0 <= a < n && 0 <= b < n && 0 <= c < n && #[trigger] rank(a, b) <= 0 && #[trigger] rank(
            b,
            c,
        ) <= 0 implies rank(a, c) <= 0 by {
        let (ea, eb, ec) = (entries[a], entries[b], entries[c]);
        lemma_lex_antisymmetric(lowercased(ea.manga.title@), lowercased(eb.manga.title@), 0);
        lemma_lex_antisymmetric(lowercased(eb.manga.title@), lowercased(ec.manga.title@), 0);
        lemma_lex_antisymmetric(lowercased(ea.manga.title@), lowercased(ec.manga.title@), 0);
        if ascending {
            lemma_entry_rank_ascending_transitive(ea, eb, ec, sort, seed);
        } else {
            lemma_entry_rank_ascending_transitive(ec, eb, ea, sort, seed);
        }
    }
}

/// Sorting the library is deterministic: the same entries, sort, direction
/// and seed always give the same list, so the "random" order stays put for
/// a given seed and ties never jitter between frames.
pub proof fn lemma_library_order_deterministic(
    entries: Seq<LibraryEntry>,
    sort: LibrarySort,
    ascending: bool,
    seed: u64,
    first: Seq<LibraryEntry>,
    second: Seq<LibraryEntry>,
)
    requires
        sorted_entries(entries, sort, ascending, seed, first),
        sorted_entries(entries, sort, ascending, seed, second),
    ensures
        first == second,
{
    let o1 = choose|order: Seq<usize>|
        #![trigger permuted(entries, order)]
        is_permutation(order, entries.len() as int) && entries_sorted(
            entries,
            sort,
            ascending,
            seed,
            order,
        ) && first == permuted(entries, order);
    let o2 = choose|order: Seq<usize>|
        #![trigger permuted(entries, order)]
        is_permutation(order, entries.len() as int) && entries_sorted(
            entries,
            sort,
            ascending,
            seed,
            order,
        ) && second == permuted(entries, order);
    let rank = rank_at(entries, sort, ascending, seed);
    lemma_entry_rank_preorder(entries, sort, ascending, seed);
    assert(adjacent_sorted(rank, o1)) by {
        assert forall|i: int| 0 <= i < o1.len() - 1 implies crate::order::precedes(
            rank,
            #[trigger] o1[i] as int,
            o1[i + 1] as int,
        ) by {
            assert(o1[i] < entries.len());
        }
    }
    assert(adjacent_sorted(rank, o2)) by {
        assert forall|i: int| 0 <= i < o2.len() - 1 implies crate::order::precedes(
            rank,
            #[trigger] o2[i] as int,
            o2[i + 1] as int,
        ) by {
            assert(o2[i] < entries.len());
        }
    }
    lemma_stable_order_unique(rank, entries.len() as int, o1, o2);
}

/// A category tab's label: its name and how many entries it holds.
pub fn category_tab_label(name: &str, count: usize) -> (s: String)
    ensures
        s@ == name@ + " ("@ + decimal(count as nat) + ")"@,
{
    let mut s = String::from_str(name);
    s.append(" (");
    push_decimal(&mut s, count as u64);
    s.append(")");
    s
}

/// Whether only the built-in category exists (or none), which the category
/// screen and the category picker point out.
pub fn only_system(categories: &Vec<Category>) -> (b: bool)
    ensures
        b == forall|i: int| 0 <= i < categories@.len() ==> (#[trigger] categories@[i]).id
            == DEFAULT_CATEGORY_ID,
{
    let mut i: usize = 0;
    while i < categories.len()
        invariant
            0 <= i <= categories@.len(),
            forall|j: int| 0 <= j < i ==> (#[trigger] categories@[j]).id == DEFAULT_CATEGORY_ID,
        decreases categories@.len() - i,
    {
        if !categories[i].is_system() {
            return false;
        }
        i = i + 1;
    }
    true
}

/// A click on a sort order in the library settings: the order in use
/// flips direction, another one becomes the order.
pub fn click_sort(current: LibrarySort, ascending: bool, clicked: LibrarySort) -> (r: (
    LibrarySort,
    bool,
))
    ensures
        r == (if current == clicked {
            (current, !ascending)
        } else {
            (clicked, ascending)
        }),
{
    if current == clicked {
        (current, !ascending)
    } else {
        (clicked, ascending)
    }
}

/// The mark in front of a sort order: the direction for the order in use,
/// blank space for the others.
pub fn sort_arrow(selected: bool, ascending: bool) -> (s: &'static str)
    ensures
        s@ == (if !selected {
            "     "@
        } else if ascending {
            " ⬆ "@
        } else {
            " ⬇ "@
        }),
{
    if !selected {
        "     "
    } else if ascending {
        " ⬆ "
    } else {
        " ⬇ "
    }
}

/// How the library lists its entries.
#[derive(Debug, Clone, Copy, PartialEq, Eq, Structural)]
pub enum LibraryDisplayMode {
    CompactGrid,
    ComfortableGrid,
    CoverOnlyGrid,
    List,
}

/// The library preferences the settings sheet edits.
#[derive(Debug, Clone, Copy, PartialEq, Eq, Structural)]
pub struct LibrarySheetPrefs {
    pub filters: LibraryFilters,
    pub sort: LibrarySort,
    pub sort_ascending: bool,
    pub display_mode: LibraryDisplayMode,
    /// Covers per row in the grids.
    pub columns: u32,
    pub badges: BadgePrefs,
    pub show_continue_button: bool,
}

/// The filter rows of the sheet.
#[derive(Debug, Clone, Copy, PartialEq, Eq, Structural)]
pub enum FilterRow {
    Downloaded,
    Unread,
    Started,
    Bookmarked,
    Completed,
    Tracking,
}

/// The check boxes of the sheet.
#[derive(Debug, Clone, Copy, PartialEq, Eq, Structural)]
pub enum SheetToggle {
    UnreadBadge,
    DownloadedBadge,
    LocalBadge,
    LanguageBadge,
    ContinueButton,
}

/// What the user did in the library settings sheet during a frame.
#[derive(Debug, Clone, Copy, PartialEq, Eq, Structural)]
pub enum SheetInput {
    /// A filter row was clicked: it moves to its next state.
    CycleFilter(FilterRow),
    /// A sort order was clicked.
    Sort(LibrarySort),
    /// A display mode was picked.
    Display(LibraryDisplayMode),
    /// The grid density slider now reads this many columns.
    Columns(u32),
    /// A check box was clicked.
    Toggle(SheetToggle),
    ResetFilters,
    Done,
}

/// What a frame of the sheet did: the preferences changed (to be written),
/// and whether the sheet closes.
#[derive(Debug, Clone, Copy, PartialEq, Eq, Structural)]
pub struct SheetOutcome {
    pub changed: bool,
    pub close: bool,
}

pub open spec fn cycled(f: LibraryFilters, row: FilterRow) -> LibraryFilters {
    match row {
        FilterRow::Downloaded => LibraryFilters { downloaded: f.downloaded.next_spec(), ..f },
        FilterRow::Unread => LibraryFilters { unread: f.unread.next_spec(), ..f },
        FilterRow::Started => LibraryFilters { started: f.started.next_spec(), ..f },
        FilterRow::Bookmarked => LibraryFilters { bookmarked: f.bookmarked.next_spec(), ..f },
        FilterRow::Completed => LibraryFilters { completed: f.completed.next_spec(), ..f },
        FilterRow::Tracking => LibraryFilters { tracking: f.tracking.next_spec(), ..f },
    }
}

pub open spec fn toggled_pref(p: LibrarySheetPrefs, t: SheetToggle) -> LibrarySheetPrefs {
    let b = p.badges;
    match t {
        SheetToggle::UnreadBadge => LibrarySheetPrefs { badges: BadgePrefs { unread: !b.unread, ..b }, ..p },
        SheetToggle::DownloadedBadge => LibrarySheetPrefs {
            badges: BadgePrefs { downloaded: !b.downloaded, ..b },
            ..p
        },
        SheetToggle::LocalBadge => LibrarySheetPrefs { badges: BadgePrefs { local: !b.local, ..b }, ..p },
        SheetToggle::LanguageBadge => LibrarySheetPrefs {
            badges: BadgePrefs { language: !b.language, ..b },
            ..p
        },
        SheetToggle::ContinueButton => LibrarySheetPrefs {
            show_continue_button: !p.show_continue_button,
            ..p
        },
    }
}

/// The library settings sheet, one input at a time: the preferences after it
/// and what the frame did. Only "Done" closes the sheet; everything else but
/// an unmoved slider changes the preferences.
pub open spec fn sheet_step(p: LibrarySheetPrefs, input: SheetInput) -> (LibrarySheetPrefs, SheetOutcome) {
    let changed = SheetOutcome { changed: true, close: false };
    match input {
        SheetInput::CycleFilter(row) => (LibrarySheetPrefs { filters: cycled(p.filters, row), ..p }, changed),
        SheetInput::Sort(s) => if p.sort == s {
            (LibrarySheetPrefs { sort_ascending: !p.sort_ascending, ..p }, changed)
        } else {
            (LibrarySheetPrefs { sort: s, ..p }, changed)
        },
        SheetInput::Display(m) => (LibrarySheetPrefs { display_mode: m, ..p }, changed),
        SheetInput::Columns(n) => (
            LibrarySheetPrefs { columns: n, ..p },
            SheetOutcome { changed: n != p.columns, close: false },
        ),
        SheetInput::Toggle(t) => (toggled_pref(p, t), changed),
        SheetInput::ResetFilters => (LibrarySheetPrefs { filters: LibraryFilters::new_spec(), ..p }, changed),
        SheetInput::Done => (p, SheetOutcome { changed: false, close: true }),
    }
}

/// Applies one input of the library settings sheet.
pub fn sheet_input(prefs: &mut LibrarySheetPrefs, input: SheetInput) -> (r: SheetOutcome)
    ensures
        (*final(prefs), r) == sheet_step(*old(prefs), input),
{
    match input {
        SheetInput::CycleFilter(row) => {
            match row {
                FilterRow::Downloaded => prefs.filters.downloaded = prefs.filters.downloaded.next(),
                FilterRow::Unread => prefs.filters.unread = prefs.filters.unread.next(),
                FilterRow::Started => prefs.filters.started = prefs.filters.started.next(),
                FilterRow::Bookmarked => prefs.filters.bookmarked = prefs.filters.bookmarked.next(),
                FilterRow::Completed => prefs.filters.completed = prefs.filters.completed.next(),
                FilterRow::Tracking => prefs.filters.tracking = prefs.filters.tracking.next(),
            }
            SheetOutcome { changed: true, close: false }
        },
        SheetInput::Sort(s) => {
            let (sort, ascending) = click_sort(prefs.sort, prefs.sort_ascending, s);
            prefs.sort = sort;
            prefs.sort_ascending = ascending;
            SheetOutcome { changed: true, close: false }
        },
        SheetInput::Display(m) => {
            prefs.display_mode = m;
            SheetOutcome { changed: true, close: false }
        },
        SheetInput::Columns(n) => {
            let moved = n != prefs.columns;
            prefs.columns = n;
            SheetOutcome { changed: moved, close: false }
        },
        SheetInput::Toggle(t) => {
            match t {
                SheetToggle::UnreadBadge => prefs.badges.unread = !prefs.badges.unread,
                SheetToggle::DownloadedBadge => prefs.badges.downloaded = !prefs.badges.downloaded,
                SheetToggle::LocalBadge => prefs.badges.local = !prefs.badges.local,
                SheetToggle::LanguageBadge => prefs.badges.language = !prefs.badges.language,
                SheetToggle::ContinueButton => prefs.show_continue_button = !prefs.show_continue_button,
            }
            SheetOutcome { changed: true, close: false }
        },
        SheetInput::ResetFilters => {
            prefs.filters = LibraryFilters::new();
            SheetOutcome { changed: true, close: false }
        },
        SheetInput::Done => SheetOutcome { changed: false, close: true },
    }
}

} // verus!
