//! A manga's chapter list as the details screen shows it: filtered by the
//! series' stored flags and ordered by its sort mode.

use vstd::prelude::*;

use crate::model::{
    key_le, key_lt, number_le, number_lt, number_nonneg, Id, MAX_NUMBER_KEY, MIN_NUMBER_KEY,
    sort_mode_of, tri_of, Chapter, ChapterSortMode, Manga, BOOKMARKED_MASK, DOWNLOADED_MASK,
    SHOW_BOOKMARKED, SHOW_DOWNLOADED, SHOW_NOT_BOOKMARKED, SHOW_NOT_DOWNLOADED, SHOW_READ,
    SHOW_UNREAD, SORT_DIR_MASK, UNREAD_MASK,
};
use crate::order::{
    is_permutation, permute, permuted, reversed, sort_ranked, three_way, KeyRanking, Ranking,
};
use crate::order::{
    adjacent_sorted, lemma_permutation_onto, lemma_stable_order_unique, precedes, total_preorder,
};
use crate::text::{
    chars_of, compare_natural, lemma_natural_antisymmetric, lemma_natural_transitive,
    natural_order,
};

verus! {

/// Where chapter `a` sorts against chapter `b` in `mode`, oldest first:
/// sources list the newest first, hence source order reversed.
pub open spec fn chapter_rank(c: Seq<Chapter>, mode: ChapterSortMode, a: int, b: int) -> int {
    match mode {
        ChapterSortMode::SourceOrder => three_way(c[b].source_order as int, c[a].source_order as int),
        ChapterSortMode::ChapterNumber => three_way(c[a].number_key as int, c[b].number_key as int),
        ChapterSortMode::UploadDate => three_way(c[a].date_upload as int, c[b].date_upload as int),
        ChapterSortMode::Alphabet => natural_order(c[a].name@, c[b].name@),
    }
}

/// Adjacent positions of `order` are ranked in order, ties by position.
pub open spec fn chapters_sorted(c: Seq<Chapter>, mode: ChapterSortMode, order: Seq<usize>) -> bool {
    forall|i: int|
        0 <= i < order.len() - 1 ==> {
            let r = chapter_rank(c, mode, #[trigger] order[i] as int, order[i + 1] as int);
            r < 0 || (r == 0 && order[i] < order[i + 1])
        }
}

/// `result` is `c` stably sorted oldest first by `mode`, then turned around
/// when `descending`.
pub open spec fn ordered_chapters(
    c: Seq<Chapter>,
    mode: ChapterSortMode,
    descending: bool,
    result: Seq<Chapter>,
) -> bool {
    exists|order: Seq<usize>|
        #![trigger permuted(c, order)]
        is_permutation(order, c.len() as int) && chapters_sorted(c, mode, order) && result == (
        if descending {
            permuted(c, order).reverse()
        } else {
            permuted(c, order)
        })
}

/// Whether chapter `a` may come right before `b` in `mode`: the field the
/// mode is named after does not go backwards, oldest first (sources list the
/// newest first, so source order counts down), or forwards when descending.
pub open spec fn chapter_field_ordered(a: Chapter, b: Chapter, mode: ChapterSortMode, descending: bool) -> bool {
    let (x, y): (int, int) = match mode {
        ChapterSortMode::SourceOrder => (b.source_order as int, a.source_order as int),
        ChapterSortMode::ChapterNumber => (a.number_key as int, b.number_key as int),
        ChapterSortMode::UploadDate => (a.date_upload as int, b.date_upload as int),
        ChapterSortMode::Alphabet => (natural_order(a.name@, b.name@), 0),
    };
    if descending {
        x >= y
    } else {
        x <= y
    }
}

proof fn lemma_rank_orders_fields(c: Seq<Chapter>, mode: ChapterSortMode, a: int, b: int)
    requires
        0 <= a < c.len(),
        0 <= b < c.len(),
        chapter_rank(c, mode, a, b) <= 0,
    ensures
        chapter_field_ordered(c[a], c[b], mode, false),
        chapter_field_ordered(c[b], c[a], mode, true),
{
    lemma_natural_antisymmetric(c[a].name@, c[b].name@, 0, 0);
}

/// An ordered chapter list follows the field its mode is named after: upload
/// dates never go backwards oldest first, chapter numbers likewise, source
/// positions count down, names follow natural order; all turned around when
/// descending.
#[verifier::rlimit(40)]
pub proof fn lemma_chapters_sorted_by_field(
    c: Seq<Chapter>,
    mode: ChapterSortMode,
    descending: bool,
    result: Seq<Chapter>,
)
    requires
        ordered_chapters(c, mode, descending, result),
    ensures
        forall|i: int|
            0 <= i < result.len() - 1 ==> chapter_field_ordered(
                #[trigger] result[i],
                result[i + 1],
                mode,
                descending,
            ),
{
    let order = choose|order: Seq<usize>|
        #![trigger permuted(c, order)]
        is_permutation(order, c.len() as int) && chapters_sorted(c, mode, order) && result == (
        if descending {
            permuted(c, order).reverse()
        } else {
            permuted(c, order)
        });
    let p = permuted(c, order);
    let n = result.len();
    assert(n == order.len());
    assert forall|j: int| 0 <= j < n - 1 implies chapter_field_ordered(
        #[trigger] p[j],
        p[j + 1],
        mode,
        false,
    ) && chapter_field_ordered(p[j + 1], p[j], mode, true) by {
        let r = chapter_rank(c, mode, order[j] as int, order[j + 1] as int);
        assert(r < 0 || (r == 0 && order[j] < order[j + 1]));
        lemma_rank_orders_fields(c, mode, order[j] as int, order[j + 1] as int);
    }
    assert forall|i: int| 0 <= i < n - 1 implies chapter_field_ordered(
        #[trigger] result[i],
        result[i + 1],
        mode,
        descending,
    ) by {
        if descending {
            let j = n - 2 - i;
            assert(result[i] == p[j + 1]);
            assert(result[i + 1] == p[j]);
            assert(chapter_field_ordered(p[j + 1], p[j], mode, true));
        } else {
            assert(chapter_field_ordered(p[i], p[i + 1], mode, false));
        }
    }
}

/// Chapters ranked by natural order of their names.
pub struct NameRanking {
    pub names: Vec<Vec<char>>,
}

impl Ranking for NameRanking {
    open spec fn size(&self) -> nat {
        self.names@.len()
    }

    open spec fn rank(&self, a: int, b: int) -> int {
        natural_order(self.names@[a]@, self.names@[b]@)
    }

    proof fn rank_antisymmetric(&self, a: int, b: int) {
        lemma_natural_antisymmetric(self.names@[a]@, self.names@[b]@, 0, 0);
    }

    fn count(&self) -> (n: usize) {
        self.names.len()
    }

    fn compare(&self, a: usize, b: usize) -> (c: i8) {
        compare_natural(&self.names[a], &self.names[b])
    }
}

/// The stable sort order of the chapters in `mode`.
fn chapter_order(chapters: &Vec<Chapter>, mode: ChapterSortMode) -> (order: Vec<usize>)
    ensures
        is_permutation(order@, chapters@.len() as int),
        chapters_sorted(chapters@, mode, order@),
{
    let n = chapters.len();
    match mode {
        ChapterSortMode::Alphabet => {
            let mut names: Vec<Vec<char>> = Vec::new();
            let mut i: usize = 0;
            while i < n
                invariant
                    0 <= i <= n,
                    n == chapters@.len(),
                    names@.len() == i,
                    forall|k: int| 0 <= k < i ==> #[trigger] names@[k]@ == chapters@[k].name@,
                decreases n - i,
            {
                names.push(chars_of(chapters[i].name.as_str()));
                i = i + 1;
            }
            let ranking = NameRanking { names };
            let order = sort_ranked(&ranking);
            proof {
                assert forall|i: int| 0 <= i < order@.len() - 1 implies {
                    let r = chapter_rank(chapters@, mode, #[trigger] order@[i] as int, order@[i + 1] as int);
                    r < 0 || (r == 0 && order@[i] < order@[i + 1])
                } by {
                    assert(ranking.rank(order@[i] as int, order@[i + 1] as int) == chapter_rank(
                        chapters@,
                        mode,
                        order@[i] as int,
                        order@[i + 1] as int,
                    ));
                }
            }
            order
        },
        _ => {
            let mut keys: Vec<i64> = Vec::new();
            let mut i: usize = 0;
            while i < n
                invariant
                    0 <= i <= n,
                    n == chapters@.len(),
                    keys@.len() == i,
                    !(mode is Alphabet),
                    forall|k: int|
                        0 <= k < i ==> #[trigger] keys@[k] == (match mode {
                            ChapterSortMode::SourceOrder => chapters@[k].source_order,
                            ChapterSortMode::ChapterNumber => chapters@[k].number_key,
                            _ => chapters@[k].date_upload,
                        }),
                decreases n - i,
            {
                let key = match mode {
                    ChapterSortMode::SourceOrder => chapters[i].source_order,
                    ChapterSortMode::ChapterNumber => chapters[i].number_key,
                    _ => chapters[i].date_upload,
                };
                keys.push(key);
                i = i + 1;
            }
            let descending = match mode {
                ChapterSortMode::SourceOrder => true,
                _ => false,
            };
            let ranking = KeyRanking { keys, descending };
            let order = sort_ranked(&ranking);
            proof {
                assert forall|i: int| 0 <= i < order@.len() - 1 implies {
                    let r = chapter_rank(chapters@, mode, #[trigger] order@[i] as int, order@[i + 1] as int);
                    r < 0 || (r == 0 && order@[i] < order@[i + 1])
                } by {
                    assert(ranking.rank(order@[i] as int, order@[i + 1] as int) == chapter_rank(
                        chapters@,
                        mode,
                        order@[i] as int,
                        order@[i + 1] as int,
                    ));
                }
            }
            order
        },
    }
}

/// Orders a chapter list in place.
///
/// Every mode is first put in "oldest first" order so the direction flag means
/// the same thing everywhere. Descending is the stored default, putting the
/// newest chapter at the top.
pub fn order_chapters(chapters: &mut Vec<Chapter>, mode: ChapterSortMode, descending: bool)
    ensures
        ordered_chapters(old(chapters)@, mode, descending, final(chapters)@),
{
    let order = chapter_order(chapters, mode);
    let ghost before = chapters@;
    let mut taken: Vec<Chapter> = Vec::new();
    std::mem::swap(&mut taken, chapters);
    let sorted = permute(taken, &order);
    let result = if descending {
        reversed(sorted)
    } else {
        sorted
    };
    *chapters = result;
    proof {
        assert(is_permutation(order@, before.len() as int) && chapters_sorted(before, mode, order@)
            && chapters@ == (if descending {
            permuted(before, order@).reverse()
        } else {
            permuted(before, order@)
        }));
    }
}

/// Whether a chapter passes the series' stored filters (unread, downloaded,
/// bookmarked) and the global "downloaded only" switch.
pub open spec fn chapter_shown(c: Chapter, flags: i64, downloaded: bool, downloaded_only: bool) -> bool {
    &&& tri_of(flags & UNREAD_MASK, SHOW_UNREAD, SHOW_READ).admits(!c.read)
    &&& tri_of(flags & DOWNLOADED_MASK, SHOW_DOWNLOADED, SHOW_NOT_DOWNLOADED).admits(downloaded)
    &&& tri_of(flags & BOOKMARKED_MASK, SHOW_BOOKMARKED, SHOW_NOT_BOOKMARKED).admits(c.bookmark)
    &&& !downloaded_only || downloaded
}

/// The chapters among the first `k` that are shown, in list order.
pub open spec fn shown_prefix(
    c: Seq<Chapter>,
    downloaded: Seq<bool>,
    flags: i64,
    downloaded_only: bool,
    k: int,
) -> Seq<Chapter>
    decreases k,
{
    if k <= 0 {
        seq![]
    } else {
        let rest = shown_prefix(c, downloaded, flags, downloaded_only, k - 1);
        if chapter_shown(c[k - 1], flags, downloaded[k - 1], downloaded_only) {
            rest.push(c[k - 1])
        } else {
            rest
        }
    }
}

/// Whether chapter `j` of the list passes each of the series' filters, read
/// straight from the stored bits: the unread filter shows unread (or read)
/// chapters only, the downloaded filter downloaded (or not downloaded) ones,
/// the bookmark filter bookmarked (or not bookmarked) ones, and "downloaded
/// only" downloaded ones.
pub open spec fn passes_filters(c: Chapter, on_disk: bool, flags: i64, downloaded_only: bool) -> bool {
    &&& flags & UNREAD_MASK == SHOW_UNREAD ==> !c.read
    &&& flags & UNREAD_MASK == SHOW_READ ==> c.read
    &&& flags & DOWNLOADED_MASK == SHOW_DOWNLOADED ==> on_disk
    &&& flags & DOWNLOADED_MASK == SHOW_NOT_DOWNLOADED ==> !on_disk
    &&& flags & BOOKMARKED_MASK == SHOW_BOOKMARKED ==> c.bookmark
    &&& flags & BOOKMARKED_MASK == SHOW_NOT_BOOKMARKED ==> !c.bookmark
    &&& downloaded_only ==> on_disk
}

proof fn lemma_shown_prefix_passes(
    c: Seq<Chapter>,
    downloaded: Seq<bool>,
    flags: i64,
    downloaded_only: bool,
    k: int,
)
    requires
        0 <= k <= c.len(),
        downloaded.len() == c.len(),
    ensures
        forall|i: int|
            0 <= i < shown_prefix(c, downloaded, flags, downloaded_only, k).len() ==> exists|j: int|
                0 <= j < k && c[j] == #[trigger] shown_prefix(c, downloaded, flags, downloaded_only, k)[i]
                    && passes_filters(c[j], downloaded[j], flags, downloaded_only),
    decreases k,
{
    if k > 0 {
        lemma_shown_prefix_passes(c, downloaded, flags, downloaded_only, k - 1);
        let rest = shown_prefix(c, downloaded, flags, downloaded_only, k - 1);
        let s = shown_prefix(c, downloaded, flags, downloaded_only, k);
        assert forall|i: int| 0 <= i < s.len() implies exists|j: int|
            0 <= j < k && c[j] == #[trigger] s[i] && passes_filters(c[j], downloaded[j], flags, downloaded_only) by {
            if i < rest.len() {
                assert(s[i] == rest[i]);
                let j = choose|j: int|
                    0 <= j < k - 1 && c[j] == #[trigger] rest[i] && passes_filters(
                        c[j],
                        downloaded[j],
                        flags,
                        downloaded_only,
                    );
                assert(c[j] == s[i]);
            } else {
                assert(s[i] == c[k - 1]);
                assert(chapter_shown(c[k - 1], flags, downloaded[k - 1], downloaded_only));
            }
        }
    }
}

/// Every chapter the filtered list shows is one of the series' chapters that
/// passes each stored filter: with the bookmark filter on only bookmarked
/// chapters show, with it inverted only the others, and so on for the unread
/// and downloaded filters and the "downloaded only" switch.
pub proof fn lemma_visible_chapters_pass_filters(
    c: Seq<Chapter>,
    downloaded: Seq<bool>,
    flags: i64,
    downloaded_only: bool,
    mode: ChapterSortMode,
    descending: bool,
    result: Seq<Chapter>,
)
    requires
        downloaded.len() == c.len(),
        ordered_chapters(shown_prefix(c, downloaded, flags, downloaded_only, c.len() as int), mode, descending, result),
    ensures
        forall|i: int|
            0 <= i < result.len() ==> exists|j: int|
                0 <= j < c.len() && c[j] == #[trigger] result[i] && passes_filters(
                    c[j],
                    downloaded[j],
                    flags,
                    downloaded_only,
                ),
{
    let s = shown_prefix(c, downloaded, flags, downloaded_only, c.len() as int);
    lemma_shown_prefix_passes(c, downloaded, flags, downloaded_only, c.len() as int);
    let order = choose|order: Seq<usize>|
        #![trigger permuted(s, order)]
        is_permutation(order, s.len() as int) && chapters_sorted(s, mode, order) && result == (
        if descending {
            permuted(s, order).reverse()
        } else {
            permuted(s, order)
        });
    let p = permuted(s, order);
    assert forall|i: int| 0 <= i < result.len() implies exists|j: int|
        0 <= j < c.len() && c[j] == #[trigger] result[i] && passes_filters(
            c[j],
            downloaded[j],
            flags,
            downloaded_only,
        ) by {
        let q = if descending {
            p.len() - 1 - i
        } else {
            i
        };
        assert(result[i] == p[q]);
        assert(p[q] == s[order[q] as int]);
        let m = order[q] as int;
        assert(0 <= m < s.len());
        let j = choose|j: int|
            0 <= j < c.len() && c[j] == #[trigger] s[m] && passes_filters(
                c[j],
                downloaded[j],
                flags,
                downloaded_only,
            );
        assert(c[j] == result[i]);
    }
}

proof fn lemma_shown_prefix_has(
    c: Seq<Chapter>,
    downloaded: Seq<bool>,
    flags: i64,
    downloaded_only: bool,
    k: int,
    j: int,
)
    requires
        0 <= j < k <= c.len(),
        downloaded.len() == c.len(),
        passes_filters(c[j], downloaded[j], flags, downloaded_only),
    ensures
        exists|m: int|
            0 <= m < shown_prefix(c, downloaded, flags, downloaded_only, k).len()
                && #[trigger] shown_prefix(c, downloaded, flags, downloaded_only, k)[m] == c[j],
    decreases k,
{
    let s = shown_prefix(c, downloaded, flags, downloaded_only, k);
    if j == k - 1 {
        assert(chapter_shown(c[j], flags, downloaded[j], downloaded_only));
        assert(s[s.len() - 1] == c[j]);
    } else {
        lemma_shown_prefix_has(c, downloaded, flags, downloaded_only, k - 1, j);
        let rest = shown_prefix(c, downloaded, flags, downloaded_only, k - 1);
        let m = choose|m: int| 0 <= m < rest.len() && #[trigger] rest[m] == c[j];
        assert(s[m] == c[j]);
    }
}

/// Every chapter that passes each stored filter is shown.
pub proof fn lemma_visible_chapters_keep_passing(
    c: Seq<Chapter>,
    downloaded: Seq<bool>,
    flags: i64,
    downloaded_only: bool,
    mode: ChapterSortMode,
    descending: bool,
    result: Seq<Chapter>,
    j: int,
)
    requires
        downloaded.len() == c.len(),
        ordered_chapters(shown_prefix(c, downloaded, flags, downloaded_only, c.len() as int), mode, descending, result),
        0 <= j < c.len(),
        passes_filters(c[j], downloaded[j], flags, downloaded_only),
    ensures
        exists|i: int| 0 <= i < result.len() && #[trigger] result[i] == c[j],
{
    let s = shown_prefix(c, downloaded, flags, downloaded_only, c.len() as int);
    lemma_shown_prefix_has(c, downloaded, flags, downloaded_only, c.len() as int, j);
    let m = choose|m: int| 0 <= m < s.len() && #[trigger] s[m] == c[j];
    let order = choose|order: Seq<usize>|
        #![trigger permuted(s, order)]
        is_permutation(order, s.len() as int) && chapters_sorted(s, mode, order) && result == (
        if descending {
            permuted(s, order).reverse()
        } else {
            permuted(s, order)
        });
    lemma_permutation_onto(order, s.len() as int, m);
    let q = choose|q: int| 0 <= q < s.len() && order[q] == m;
    let p = permuted(s, order);
    assert(p[q] == c[j]);
    if descending {
        let i = p.len() - 1 - q;
        assert(result[i] == p[q]);
    } else {
        assert(result[q] == p[q]);
    }
}

/// Applies the manga's stored filter and sort flags to the chapter list.
/// `downloaded` tells, chapter by chapter, which are on disk.
pub fn visible_chapters(
    chapters: &Vec<Chapter>,
    manga: &Manga,
    downloaded: &Vec<bool>,
    downloaded_only: bool,
) -> (shown: Vec<Chapter>)
    requires
        downloaded@.len() == chapters@.len(),
    ensures
        ordered_chapters(
            shown_prefix(
                chapters@,
                downloaded@,
                manga.chapter_flags,
                downloaded_only,
                chapters@.len() as int,
            ),
            sort_mode_of(manga.chapter_flags),
            manga.chapter_flags & SORT_DIR_MASK == 0,
            shown@,
        ),
{
    let unread = manga.unread_filter();
    let on_disk = manga.downloaded_filter();
    let bookmarked = manga.bookmarked_filter();
    let mut shown: Vec<Chapter> = Vec::new();
    let mut i: usize = 0;
    while i < chapters.len()
        invariant
            0 <= i <= chapters@.len(),
            downloaded@.len() == chapters@.len(),
            unread == tri_of(manga.chapter_flags & UNREAD_MASK, SHOW_UNREAD, SHOW_READ),
            on_disk == tri_of(
                manga.chapter_flags & DOWNLOADED_MASK,
                SHOW_DOWNLOADED,
                SHOW_NOT_DOWNLOADED,
            ),
            bookmarked == tri_of(
                manga.chapter_flags & BOOKMARKED_MASK,
                SHOW_BOOKMARKED,
                SHOW_NOT_BOOKMARKED,
            ),
            shown@ == shown_prefix(
                chapters@,
                downloaded@,
                manga.chapter_flags,
                downloaded_only,
                i as int,
            ),
        decreases chapters@.len() - i,
    {
        let c = &chapters[i];
        if unread.matches(!c.read) && on_disk.matches(downloaded[i]) && bookmarked.matches(c.bookmark)
            && (!downloaded_only || downloaded[i]) {
            shown.push(c.clone());
        }
        i = i + 1;
    }
    order_chapters(&mut shown, manga.chapter_sort_mode(), manga.sort_descending());
    shown
}

/// The order of chapters `a` and `b` of a list in a sort mode, by position.
pub open spec fn chapter_rank_at(c: Seq<Chapter>, mode: ChapterSortMode) -> spec_fn(int, int) -> int {
    |a: int, b: int| chapter_rank(c, mode, a, b)
}

proof fn lemma_chapter_rank_preorder(c: Seq<Chapter>, mode: ChapterSortMode)
    ensures
        total_preorder(chapter_rank_at(c, mode), c.len() as int),
{
    let rank = chapter_rank_at(c, mode);
    let n = c.len() as int;
    assert forall|a: int, b: int| 0 <= a < n && 0 <= b < n implies #[trigger] rank(a, b) == -rank(
        b,
        a,
    ) by {
        lemma_natural_antisymmetric(c[a].name@, c[b].name@, 0, 0);
    }
    assert forall|a: int, b: int, d: int|
        0 <= a < n && 0 <= b < n && 0 <= d < n && #[trigger] rank(a, b) <= 0 && #[trigger] rank(
            b,
            d,
        ) <= 0 implies rank(a, d) <= 0 by {
        if mode is Alphabet {
            lemma_natural_transitive(c[a].name@, c[b].name@, c[d].name@, 0, 0, 0);
        }
    }
}

proof fn lemma_chapter_order_unique(
    c: Seq<Chapter>,
    mode: ChapterSortMode,
    o1: Seq<usize>,
    o2: Seq<usize>,
)
    requires
        is_permutation(o1, c.len() as int),
        is_permutation(o2, c.len() as int),
        chapters_sorted(c, mode, o1),
        chapters_sorted(c, mode, o2),
    ensures
        o1 == o2,
{
    let rank = chapter_rank_at(c, mode);
    lemma_chapter_rank_preorder(c, mode);
    assert(adjacent_sorted(rank, o1)) by {
        assert forall|i: int| 0 <= i < o1.len() - 1 implies precedes(
            rank,
            #[trigger] o1[i] as int,
            o1[i + 1] as int,
        ) by {
            assert(o1[i] < c.len());
        }
    }
    assert(adjacent_sorted(rank, o2)) by {
        assert forall|i: int| 0 <= i < o2.len() - 1 implies precedes(
            rank,
            #[trigger] o2[i] as int,
            o2[i + 1] as int,
        ) by {
            assert(o2[i] < c.len());
        }
    }
    lemma_stable_order_unique(rank, c.len() as int, o1, o2);
}

/// Ordering a chapter list is deterministic, and the descending list is
/// the ascending one turned around, in every sort mode.
pub proof fn lemma_descending_reverses_ascending(
    c: Seq<Chapter>,
    mode: ChapterSortMode,
    descending: Seq<Chapter>,
    ascending: Seq<Chapter>,
)
    requires
        ordered_chapters(c, mode, true, descending),
        ordered_chapters(c, mode, false, ascending),
    ensures
        descending == ascending.reverse(),
{
    let o1 = choose|order: Seq<usize>|
        #![trigger permuted(c, order)]
        is_permutation(order, c.len() as int) && chapters_sorted(c, mode, order) && descending
            == permuted(c, order).reverse();
    let o2 = choose|order: Seq<usize>|
        #![trigger permuted(c, order)]
        is_permutation(order, c.len() as int) && chapters_sorted(c, mode, order) && ascending
            == permuted(c, order);
    lemma_chapter_order_unique(c, mode, o1, o2);
}

/// Ordering the same chapters the same way always gives the same list.
pub proof fn lemma_chapter_order_deterministic(
    c: Seq<Chapter>,
    mode: ChapterSortMode,
    descending: bool,
    first: Seq<Chapter>,
    second: Seq<Chapter>,
)
    requires
        ordered_chapters(c, mode, descending, first),
        ordered_chapters(c, mode, descending, second),
    ensures
        first == second,
{
    let o1 = choose|order: Seq<usize>|
        #![trigger permuted(c, order)]
        is_permutation(order, c.len() as int) && chapters_sorted(c, mode, order) && first == (
        if descending {
            permuted(c, order).reverse()
        } else {
            permuted(c, order)
        });
    let o2 = choose|order: Seq<usize>|
        #![trigger permuted(c, order)]
        is_permutation(order, c.len() as int) && chapters_sorted(c, mode, order) && second == (
        if descending {
            permuted(c, order).reverse()
        } else {
            permuted(c, order)
        });
    lemma_chapter_order_unique(c, mode, o1, o2);
}

/// The lowest number among the selected chapters, as folding `f64::min`
/// from `f64::MAX` finds it: a NaN never wins.
pub open spec fn lowest_selected(chapters: Seq<Chapter>, selected: Seq<Id>) -> i64
    decreases chapters.len(),
{
    if chapters.len() == 0 {
        MAX_NUMBER_KEY
    } else {
        let acc = lowest_selected(chapters.drop_last(), selected);
        let c = chapters.last();
        if selected.contains(c.id) && number_lt(c.number_key, acc) {
            c.number_key
        } else {
            acc
        }
    }
}

/// The highest number among the read chapters, as folding `f64::max` from
/// `f64::MIN` finds it: a NaN never wins.
pub open spec fn highest_read(chapters: Seq<Chapter>) -> i64
    decreases chapters.len(),
{
    if chapters.len() == 0 {
        MIN_NUMBER_KEY
    } else {
        let acc = highest_read(chapters.drop_last());
        let c = chapters.last();
        if c.read && number_lt(acc, c.number_key) {
            c.number_key
        } else {
            acc
        }
    }
}

/// The chapters numbered from zero up to, but below, `t`, in list order.
pub open spec fn ids_below(chapters: Seq<Chapter>, t: i64) -> Seq<Id>
    decreases chapters.len(),
{
    if chapters.len() == 0 {
        seq![]
    } else {
        let rest = ids_below(chapters.drop_last(), t);
        let c = chapters.last();
        if number_nonneg(c.number_key) && number_lt(c.number_key, t) {
            rest.push(c.id)
        } else {
            rest
        }
    }
}

/// The chapters numbered from zero up to `h`, in list order.
pub open spec fn ids_up_to(chapters: Seq<Chapter>, h: i64) -> Seq<Id>
    decreases chapters.len(),
{
    if chapters.len() == 0 {
        seq![]
    } else {
        let rest = ids_up_to(chapters.drop_last(), h);
        let c = chapters.last();
        if number_nonneg(c.number_key) && number_le(c.number_key, h) {
            rest.push(c.id)
        } else {
            rest
        }
    }
}

/// "Mark previous read": the chapters numbered below the lowest selected one
/// and not negative (sources number a chapter -1 when they do not know);
/// none when no selected chapter has a number below `f64::MAX`.
pub open spec fn previous_ids(chapters: Seq<Chapter>, selected: Seq<Id>) -> Seq<Id> {
    let t = lowest_selected(chapters, selected);
    if t == MAX_NUMBER_KEY {
        seq![]
    } else {
        ids_below(chapters, t)
    }
}

/// Migration's carried progress: the new entry's chapters numbered from zero
/// up to the highest one read on the old entry; none when nothing numbered
/// above `f64::MIN` was read.
pub open spec fn carried_ids(old: Seq<Chapter>, new: Seq<Chapter>) -> Seq<Id> {
    let h = highest_read(old);
    if number_le(h, MIN_NUMBER_KEY) {
        seq![]
    } else {
        ids_up_to(new, h)
    }
}

fn id_listed(ids: &Vec<Id>, id: Id) -> (b: bool)
    ensures
        b == ids@.contains(id),
{
    let mut i: usize = 0;
    while i < ids.len()
        invariant
            i <= ids@.len(),
            forall|j: int| 0 <= j < i ==> ids@[j] != id,
        decreases ids@.len() - i,
    {
        if ids[i] == id {
            return true;
        }
        i = i + 1;
    }
    false
}

/// The chapters "mark previous read" marks, given the selected ones.
pub fn previous_chapters(chapters: &Vec<Chapter>, selected: &Vec<Id>) -> (ids: Vec<Id>)
    ensures
        ids@ == previous_ids(chapters@, selected@),
{
    let mut t: i64 = MAX_NUMBER_KEY;
    let mut i: usize = 0;
    while i < chapters.len()
        invariant
            i <= chapters@.len(),
            t == lowest_selected(chapters@.take(i as int), selected@),
        decreases chapters@.len() - i,
    {
        proof {
            assert(chapters@.take(i + 1).drop_last() =~= chapters@.take(i as int));
        }
        let c = &chapters[i];
        if id_listed(selected, c.id) && key_lt(c.number_key, t) {
            t = c.number_key;
        }
        i = i + 1;
    }
    proof {
        assert(chapters@.take(i as int) =~= chapters@);
    }
    let mut ids: Vec<Id> = Vec::new();
    if t == MAX_NUMBER_KEY {
        return ids;
    }
    let mut j: usize = 0;
    while j < chapters.len()
        invariant
            j <= chapters@.len(),
            ids@ == ids_below(chapters@.take(j as int), t),
        decreases chapters@.len() - j,
    {
        proof {
            assert(chapters@.take(j + 1).drop_last() =~= chapters@.take(j as int));
        }
        let c = &chapters[j];
        if key_le(0, c.number_key) && key_lt(c.number_key, t) {
            ids.push(c.id);
        }
        j = j + 1;
    }
    proof {
        assert(chapters@.take(j as int) =~= chapters@);
    }
    ids
}

/// The chapters of a migrated entry marked read, by number, from the
/// chapters of the entry it replaces.
pub fn carried_read_chapters(old: &Vec<Chapter>, new: &Vec<Chapter>) -> (ids: Vec<Id>)
    ensures
        ids@ == carried_ids(old@, new@),
{
    let mut h: i64 = MIN_NUMBER_KEY;
    let mut i: usize = 0;
    while i < old.len()
        invariant
            i <= old@.len(),
            h == highest_read(old@.take(i as int)),
        decreases old@.len() - i,
    {
        proof {
            assert(old@.take(i + 1).drop_last() =~= old@.take(i as int));
        }
        let c = &old[i];
        if c.read && key_lt(h, c.number_key) {
            h = c.number_key;
        }
        i = i + 1;
    }
    proof {
        assert(old@.take(i as int) =~= old@);
    }
    let mut ids: Vec<Id> = Vec::new();
    if key_le(h, MIN_NUMBER_KEY) {
        return ids;
    }
    let mut j: usize = 0;
    while j < new.len()
        invariant
            j <= new@.len(),
            ids@ == ids_up_to(new@.take(j as int), h),
        decreases new@.len() - j,
    {
        proof {
            assert(new@.take(j + 1).drop_last() =~= new@.take(j as int));
        }
        let c = &new[j];
        if key_le(0, c.number_key) && key_le(c.number_key, h) {
            ids.push(c.id);
        }
        j = j + 1;
    }
    proof {
        assert(new@.take(j as int) =~= new@);
    }
    ids
}

} // verus!
