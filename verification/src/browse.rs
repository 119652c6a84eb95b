//! The Browse tab: searching every source at once, and picking library
//! entries to migrate from one source to another.

use std::collections::{BTreeMap, HashSet};

use vstd::prelude::*;

use crate::library::{LibraryEntry, DEFAULT_CATEGORY_ID};
use crate::format::{int_text, push_int};
use crate::model::Id;
use crate::nav::BrowseTab;
use crate::order::{is_permutation, sort_ranked, Ranking};
use crate::source_browse::{MangasPage, SManga};
use crate::text::{
    chars_of, compare_chars, lemma_lex_antisymmetric, lex_order, lowercase_chars, lowercased,
    same_text, to_uppercase, trim, trimmed, uppercased,
};

verus! {

/// A source as the lists show it.
pub struct SourceInfo {
    pub id: Id,
    pub name: String,
    pub lang: String,
}

/// One source's part of a global search.
pub struct GlobalSearchResult {
    pub source_name: String,
    pub loading: bool,
    pub items: Vec<SManga>,
    pub error: Option<String>,
}

/// The state of the Browse tab.
pub struct BrowseState {
    pub tab: BrowseTab,
    pub query: String,
    pub submitted_query: String,
    pub results: BTreeMap<Id, GlobalSearchResult>,
    pub migrate_source: Option<Id>,
}

/// What starting a global search came to.
pub enum SearchStart {
    /// The query was blank: the results were cleared.
    Cleared,
    /// No source to search; nothing changed.
    NoSources,
    /// These sources are searched for this query.
    Started { source_ids: Vec<Id>, query: String },
}

/// Whether any source is pinned.
pub open spec fn any_pinned(sources: Seq<SourceInfo>, pinned: Set<Id>) -> bool {
    exists|i: int| 0 <= i < sources.len() && pinned.contains(#[trigger] sources[i].id)
}

/// Whether a source is searched: every source, or only the pinned ones when
/// so configured and some are pinned.
pub open spec fn searched(s: SourceInfo, pinned: Set<Id>, pinned_only: bool) -> bool {
    !pinned_only || pinned.contains(s.id)
}

/// The sources searched among the first `k`, in list order.
pub open spec fn search_targets(
    sources: Seq<SourceInfo>,
    pinned: Set<Id>,
    pinned_only: bool,
    k: int,
) -> Seq<SourceInfo>
    decreases k,
{
    if k <= 0 {
        seq![]
    } else {
        let rest = search_targets(sources, pinned, pinned_only, k - 1);
        if searched(sources[k - 1], pinned, pinned_only) {
            rest.push(sources[k - 1])
        } else {
            rest
        }
    }
}

/// A source's slot before its results arrive.
pub open spec fn fresh_slot(r: GlobalSearchResult, s: SourceInfo) -> bool {
    &&& r.source_name == s.name
    &&& r.loading
    &&& r.items@.len() == 0
    &&& r.error is None
}

/// The slots of a search: one per searched source, keyed by its id (a later
/// source with the same id takes the slot).
pub open spec fn slots_for(m: Map<Id, GlobalSearchResult>, targets: Seq<SourceInfo>) -> bool {
    &&& forall|id: Id|
        #[trigger] m.contains_key(id) <==> exists|i: int|
            0 <= i < targets.len() && targets[i].id == id
    &&& forall|i: int|
        0 <= i < targets.len() && (forall|j: int| i < j < targets.len() ==> targets[j].id
            != targets[i].id) ==> fresh_slot(#[trigger] m[targets[i].id], targets[i])
}

/// How many library entries come from a source, among the first `k`.
pub open spec fn count_from(entries: Seq<LibraryEntry>, source: Id, k: int) -> nat
    decreases k,
{
    if k <= 0 {
        0
    } else {
        count_from(entries, source, k - 1) + (if entries[k - 1].manga.source == source {
            1nat
        } else {
            0nat
        })
    }
}

proof fn lemma_count_bounded(entries: Seq<LibraryEntry>, source: Id, k: int)
    requires
        0 <= k,
    ensures
        count_from(entries, source, k) <= k,
    decreases k,
{
    if k > 0 {
        lemma_count_bounded(entries, source, k - 1);
    }
}

proof fn lemma_count_zero(entries: Seq<LibraryEntry>, source: Id, k: int)
    requires
        0 <= k <= entries.len(),
        forall|i: int| 0 <= i < k ==> entries[i].manga.source != source,
    ensures
        count_from(entries, source, k) == 0,
    decreases k,
{
    if k > 0 {
        lemma_count_zero(entries, source, k - 1);
    }
}

proof fn lemma_count_positive(entries: Seq<LibraryEntry>, source: Id, k: int, i: int)
    requires
        0 <= i < k <= entries.len(),
        entries[i].manga.source == source,
    ensures
        count_from(entries, source, k) > 0,
    decreases k,
{
    if i < k - 1 {
        lemma_count_positive(entries, source, k - 1, i);
    }
}

/// Library entries per source, for picking the source to migrate away from.
/// A source is present when at least one entry comes from it.
pub fn source_counts(entries: &Vec<LibraryEntry>) -> (m: BTreeMap<Id, usize>)
    ensures
        forall|id: Id|
            #[trigger] m@.contains_key(id) <==> count_from(entries@, id, entries@.len() as int)
                > 0,
        forall|id: Id|
            #[trigger] m@.contains_key(id) ==> m@[id] == count_from(
                entries@,
                id,
                entries@.len() as int,
            ),
{
    let mut m: BTreeMap<Id, usize> = BTreeMap::new();
    let mut i: usize = 0;
    while i < entries.len()
        invariant
            0 <= i <= entries@.len(),
            forall|id: Id| #[trigger] m@.contains_key(id) <==> count_from(entries@, id, i as int) > 0,
            forall|id: Id| #[trigger]
                m@.contains_key(id) ==> m@[id] == count_from(entries@, id, i as int),
        decreases entries@.len() - i,
    {
        let source = entries[i].manga.source;
        proof {
            lemma_count_bounded(entries@, source, i as int);
        }
        let before = match m.get(&source) {
            Some(n) => *n,
            None => 0,
        };
        assert(before == count_from(entries@, source, i as int));
        m.insert(source, before + 1);
        i = i + 1;
    }
    m
}

/// The library entries that come from a source, in library order.
pub open spec fn from_source(entries: Seq<LibraryEntry>, source: Id, k: int) -> Seq<LibraryEntry>
    decreases k,
{
    if k <= 0 {
        seq![]
    } else {
        let rest = from_source(entries, source, k - 1);
        if entries[k - 1].manga.source == source {
            rest.push(entries[k - 1])
        } else {
            rest
        }
    }
}

pub open spec fn deref_all(rows: Seq<&LibraryEntry>) -> Seq<LibraryEntry> {
    rows.map_values(|e: &LibraryEntry| *e)
}

/// The entries listed for migration once a source is picked.
pub fn entries_from_source<'a>(entries: &'a Vec<LibraryEntry>, source: Id) -> (rows: Vec<
    &'a LibraryEntry,
>)
    ensures
        deref_all(rows@) == from_source(entries@, source, entries@.len() as int),
{
    let mut rows: Vec<&'a LibraryEntry> = Vec::new();
    let mut i: usize = 0;
    while i < entries.len()
        invariant
            0 <= i <= entries@.len(),
            deref_all(rows@) == from_source(entries@, source, i as int),
        decreases entries@.len() - i,
    {
        let e = &entries[i];
        if e.manga.source == source {
            let ghost before = rows@;
            rows.push(e);
            proof {
                assert(deref_all(rows@) =~= deref_all(before).push(entries@[i as int]));
            }
        }
        i = i + 1;
    }
    rows
}

/// Whether the migration sheet has a target source: one is chosen, and it
/// is not the source the entry comes from.
pub fn target_picked(target: Id, manga_source: Id) -> (b: bool)
    ensures
        b == (target != 0 && target != manga_source),
{
    target != 0 && target != manga_source
}

/// The categories a migrated entry is filed in: those of the entry it
/// replaces, or the default category when it had none.
pub fn migration_categories(current: Vec<Id>) -> (r: Vec<Id>)
    ensures
        current@.len() == 0 ==> r@ == seq![DEFAULT_CATEGORY_ID],
        current@.len() > 0 ==> r@ == current@,
{
    if current.len() == 0 {
        vec![DEFAULT_CATEGORY_ID]
    } else {
        current
    }
}

/// The date a migrated entry was added on: that of the entry it
/// replaces, or the earliest possible date when it had none.
pub fn migration_date_added(replaced: i64) -> (d: i64)
    ensures
        d == (if replaced >= 1 {
            replaced
        } else {
            1
        }),
{
    if replaced >= 1 {
        replaced
    } else {
        1
    }
}

/// The position of a Browse pane's tab, and the pane at a position.
pub fn browse_tab_index(tab: BrowseTab) -> (i: usize)
    ensures
        i == (match tab {
            BrowseTab::Sources => 0usize,
            BrowseTab::Extensions => 1usize,
            BrowseTab::Migrate => 2usize,
        }),
{
    match tab {
        BrowseTab::Sources => 0,
        BrowseTab::Extensions => 1,
        BrowseTab::Migrate => 2,
    }
}

pub fn browse_tab_at(index: usize) -> (t: BrowseTab)
    ensures
        t == (if index == 0 {
            BrowseTab::Sources
        } else if index == 1 {
            BrowseTab::Extensions
        } else {
            BrowseTab::Migrate
        }),
{
    if index == 0 {
        BrowseTab::Sources
    } else if index == 1 {
        BrowseTab::Extensions
    } else {
        BrowseTab::Migrate
    }
}

impl Default for BrowseState {
    fn default() -> (s: BrowseState)
        ensures
            s.tab == BrowseTab::Sources,
            s.query@.len() == 0,
            s.submitted_query@.len() == 0,
            s.results@ == Map::<Id, GlobalSearchResult>::empty(),
            s.migrate_source is None,
    {
        BrowseState::new()
    }
}

impl BrowseState {
    /// The Browse tab as it opens: the source list, nothing searched.
    pub fn new() -> (s: BrowseState)
        ensures
            s.tab == BrowseTab::Sources,
            s.query@.len() == 0,
            s.submitted_query@.len() == 0,
            s.results@ == Map::<Id, GlobalSearchResult>::empty(),
            s.migrate_source is None,
    {
        BrowseState {
            tab: BrowseTab::Sources,
            query: String::new(),
            submitted_query: String::new(),
            results: BTreeMap::new(),
            migrate_source: None,
        }
    }

    /// Drops the results of the last search.
    pub fn clear_results(&mut self)
        ensures
            final(self).results@ == Map::<Id, GlobalSearchResult>::empty(),
            final(self).submitted_query@.len() == 0,
            final(self).tab == old(self).tab,
            final(self).query == old(self).query,
            final(self).migrate_source == old(self).migrate_source,
    {
        self.results.clear();
        self.submitted_query = String::new();
    }

    /// Starts searching every source for the trimmed query: only the pinned
    /// sources when `pinned_only` is set and some source is pinned.
    pub fn start_global_search(
        &mut self,
        sources: &Vec<SourceInfo>,
        pinned: &HashSet<Id>,
        pinned_only: bool,
    ) -> (r: SearchStart)
        ensures
            final(self).tab == old(self).tab,
            final(self).query == old(self).query,
            final(self).migrate_source == old(self).migrate_source,
            ({
                let q = trimmed(old(self).query@);
                let only = pinned_only && any_pinned(sources@, pinned@);
                let targets = search_targets(sources@, pinned@, only, sources@.len() as int);
                if q.len() == 0 {
                    &&& r is Cleared
                    &&& final(self).results@ == Map::<Id, GlobalSearchResult>::empty()
                    &&& final(self).submitted_query == old(self).submitted_query
                } else if targets.len() == 0 {
                    &&& r is NoSources
                    &&& final(self).results == old(self).results
                    &&& final(self).submitted_query == old(self).submitted_query
                } else {
                    &&& r matches SearchStart::Started { source_ids, query }
                    &&& query@ == q
                    &&& source_ids@ == targets.map_values(|s: SourceInfo| s.id)
                    &&& final(self).submitted_query@ == q
                    &&& slots_for(final(self).results@, targets)
                }
            }),
    {
        let t = trim(self.query.as_str());
        if t.unicode_len() == 0 {
            self.results.clear();
            return SearchStart::Cleared;
        }
        let mut only = false;
        if pinned_only {
            let mut k: usize = 0;
            while k < sources.len()
                invariant
                    0 <= k <= sources@.len(),
                    !only ==> forall|j: int| 0 <= j < k ==> !pinned@.contains(#[trigger] sources@[j].id),
                    only ==> any_pinned(sources@, pinned@),
                decreases sources@.len() - k,
            {
                if pinned.contains(&sources[k].id) {
                    only = true;
                }
                k = k + 1;
            }
        }
        assert(only == (pinned_only && any_pinned(sources@, pinned@)));
        let ghost targets = search_targets(sources@, pinned@, only, sources@.len() as int);
        let mut ids: Vec<Id> = Vec::new();
        let mut slots: BTreeMap<Id, GlobalSearchResult> = BTreeMap::new();
        let mut i: usize = 0;
        while i < sources.len()
            invariant
                0 <= i <= sources@.len(),
                ids@ == search_targets(sources@, pinned@, only, i as int).map_values(
                    |s: SourceInfo| s.id,
                ),
                slots_for(slots@, search_targets(sources@, pinned@, only, i as int)),
            decreases sources@.len() - i,
        {
            let s = &sources[i];
            if !only || pinned.contains(&s.id) {
                let ghost before = search_targets(sources@, pinned@, only, i as int);
                let slot = GlobalSearchResult {
                    source_name: s.name.clone(),
                    loading: true,
                    items: Vec::new(),
                    error: None,
                };
                slots.insert(s.id, slot);
                ids.push(s.id);
                proof {
                    let after = search_targets(sources@, pinned@, only, i + 1);
                    assert(after == before.push(sources@[i as int]));
                    assert(ids@ =~= after.map_values(|s: SourceInfo| s.id));
                    assert forall|id: Id| #[trigger]
                        slots@.contains_key(id) <==> exists|j: int|
                            0 <= j < after.len() && after[j].id == id by {
                        if slots@.contains_key(id) && id != s.id {
                            let j = choose|j: int| 0 <= j < before.len() && before[j].id == id;
                            assert(after[j].id == id);
                        }
                        if id == s.id {
                            assert(after[before.len() as int].id == id);
                        }
                        if exists|j: int| 0 <= j < after.len() && after[j].id == id {
                            let j = choose|j: int| 0 <= j < after.len() && after[j].id == id;
                            if j < before.len() {
                                assert(before[j].id == id);
                            }
                        }
                    }
                    assert forall|j: int|
                        0 <= j < after.len() && (forall|k: int|
                            j < k < after.len() ==> after[k].id != after[j].id) implies fresh_slot(
                        #[trigger] slots@[after[j].id],
                        after[j],
                    ) by {
                        if j < before.len() {
                            assert(after[before.len() as int].id != after[j].id);
                            assert forall|k: int| j < k < before.len() implies before[k].id
                                != before[j].id by {
                                assert(after[k] == before[k]);
                            }
                        }
                    }
                }
            }
            i = i + 1;
        }
        if ids.len() == 0 {
            return SearchStart::NoSources;
        }
        self.submitted_query = t.to_owned();
        self.results = slots;
        SearchStart::Started { source_ids: ids, query: t.to_owned() }
    }

    /// How a source's search results are taken in.
    pub open spec fn search_loaded(pre: Self, post: Self, source: Id, result: Result<MangasPage, String>) -> bool {
        &&& post.tab == pre.tab
        &&& post.query == pre.query
        &&& post.submitted_query == pre.submitted_query
        &&& post.migrate_source == pre.migrate_source
        &&& !pre.results@.contains_key(source) ==> post.results@ == pre.results@
        &&& pre.results@.contains_key(source) ==> {
                let before = pre.results@[source];
                &&& post.results@.dom() == pre.results@.dom()
                &&& forall|id: Id|
                    id != source && #[trigger] pre.results@.contains_key(id)
                        ==> post.results@[id] == pre.results@[id]
                &&& {
                    let after = post.results@[source];
                    &&& !after.loading
                    &&& after.source_name == before.source_name
                    &&& match result {
                        Ok(p) => after.items == p.mangas && after.error == before.error,
                        Err(e) => after.items == before.items && after.error == Some(e),
                    }
                }
            }
    }

    /// Takes in one source's search results. A source that is no longer
    /// searched is ignored.
    pub fn global_search_loaded(&mut self, source: Id, result: Result<MangasPage, String>)
        ensures
            Self::search_loaded(*old(self), *final(self), source, result),
    {
        match self.results.remove(&source) {
            Some(mut slot) => {
                slot.loading = false;
                match result {
                    Ok(p) => {
                        slot.items = p.mangas;
                    },
                    Err(e) => {
                        slot.error = Some(e);
                    },
                }
                self.results.insert(source, slot);
                proof {
                    assert(self.results@.dom() =~= old(self).results@.dom());
                }
            },
            None => {
                proof {
                    assert(self.results@ =~= old(self).results@);
                }
            },
        }
    }
}

/// The section of the source list a source is listed under: "Local" for
/// the local source's language, otherwise the language code in capitals.
pub open spec fn section_label(s: SourceInfo, local_lang: Seq<char>) -> Seq<char> {
    if s.lang@ == local_lang {
        "Local"@
    } else {
        uppercased(s.lang@)
    }
}

/// How the source list orders two sources: by section label, then by
/// lowercased name.
pub open spec fn source_rank(labels: Seq<Seq<char>>, names: Seq<Seq<char>>, a: int, b: int) -> int {
    let l = lex_order(labels[a], labels[b]);
    if l != 0 {
        l
    } else {
        lex_order(names[a], names[b])
    }
}

/// Sources ranked for the source list: each source's label and lowercased
/// name.
pub struct SourceRanking {
    pub items: Vec<(Vec<char>, Vec<char>)>,
}

impl Ranking for SourceRanking {
    open spec fn size(&self) -> nat {
        self.items@.len()
    }

    open spec fn rank(&self, a: int, b: int) -> int {
        source_rank(
            self.items@.map_values(|x: (Vec<char>, Vec<char>)| x.0@),
            self.items@.map_values(|x: (Vec<char>, Vec<char>)| x.1@),
            a,
            b,
        )
    }

    proof fn rank_antisymmetric(&self, a: int, b: int) {
        lemma_lex_antisymmetric(self.items@[a].0@, self.items@[b].0@, 0);
        lemma_lex_antisymmetric(self.items@[a].1@, self.items@[b].1@, 0);
    }

    fn count(&self) -> (n: usize) {
        self.items.len()
    }

    fn compare(&self, a: usize, b: usize) -> (c: i8) {
        proof {
            lemma_lex_antisymmetric(self.items@[a as int].0@, self.items@[b as int].0@, 0);
            lemma_lex_antisymmetric(self.items@[a as int].1@, self.items@[b as int].1@, 0);
        }
        let l = compare_chars(&self.items[a].0, &self.items[b].0);
        if l != 0 {
            l
        } else {
            compare_chars(&self.items[a].1, &self.items[b].1)
        }
    }
}

/// A language section of the source list: its label and its sources, as
/// positions in the list of visible sources.
pub struct SourceSection {
    pub label: String,
    pub sources: Vec<usize>,
}

/// The positions the sections list, section after section.
pub open spec fn flat(sections: Seq<SourceSection>) -> Seq<usize>
    decreases sections.len(),
{
    if sections.len() == 0 {
        seq![]
    } else {
        flat(sections.drop_last()) + sections.last().sources@
    }
}

/// The sections are the runs of one label: none is empty, all its sources
/// have its label, and neighbouring sections have different labels.
pub open spec fn label_runs(sections: Seq<SourceSection>, labels: Seq<Seq<char>>) -> bool {
    &&& forall|k: int| 0 <= k < sections.len() ==> (#[trigger] sections[k]).sources@.len() > 0
    &&& forall|k: int, m: int|
        0 <= k < sections.len() && 0 <= m < sections[k].sources@.len() ==> labels[#[trigger] sections[k].sources@[m] as int]
            == sections[k].label@
    &&& forall|k: int| 0 <= k < sections.len() - 1 ==> (#[trigger] sections[k]).label@ != sections[k + 1].label@
}

/// The labels and lowercased names the source list sorts by.
pub open spec fn source_labels(sources: Seq<SourceInfo>, local_lang: Seq<char>) -> Seq<Seq<char>> {
    sources.map_values(|s: SourceInfo| section_label(s, local_lang))
}

pub open spec fn source_names(sources: Seq<SourceInfo>) -> Seq<Seq<char>> {
    sources.map_values(|s: SourceInfo| lowercased(s.name@))
}

/// The source list's sections: sources grouped by language label, the
/// groups in label order and each group by lowercased name, ties in list
/// order.
pub fn source_sections(sources: &Vec<SourceInfo>, local_lang: &str) -> (sections: Vec<SourceSection>)
    ensures
        label_runs(sections@, source_labels(sources@, local_lang@)),
        exists|order: Seq<usize>|
            is_permutation(order, sources@.len() as int) && flat(sections@) == order && forall|i: int|
                0 <= i < order.len() - 1 ==> {
                    let c = source_rank(
                        source_labels(sources@, local_lang@),
                        source_names(sources@),
                        #[trigger] order[i] as int,
                        order[i + 1] as int,
                    );
                    c < 0 || (c == 0 && order[i] < order[i + 1])
                },
{
    let ghost spec_labels = source_labels(sources@, local_lang@);
    let ghost spec_names = source_names(sources@);
    let mut label_texts: Vec<String> = Vec::new();
    let mut items: Vec<(Vec<char>, Vec<char>)> = Vec::new();
    let mut i: usize = 0;
    while i < sources.len()
        invariant
            0 <= i <= sources@.len(),
            label_texts@.len() == i,
            items@.len() == i,
            spec_labels == source_labels(sources@, local_lang@),
            spec_names == source_names(sources@),
            forall|k: int| 0 <= k < i ==> #[trigger] items@[k].0@ == spec_labels[k],
            forall|k: int| 0 <= k < i ==> #[trigger] label_texts@[k]@ == spec_labels[k],
            forall|k: int| 0 <= k < i ==> #[trigger] items@[k].1@ == spec_names[k],
        decreases sources@.len() - i,
    {
        let s = &sources[i];
        let text = if same_text(s.lang.as_str(), local_lang) {
            String::from_str("Local")
        } else {
            to_uppercase(s.lang.as_str())
        };
        let label = chars_of(text.as_str());
        label_texts.push(text);
        items.push((label, lowercase_chars(s.name.as_str())));
        i = i + 1;
    }
    let ranking = SourceRanking { items };
    proof {
        assert(ranking.items@.map_values(|x: (Vec<char>, Vec<char>)| x.0@) =~= spec_labels);
        assert(ranking.items@.map_values(|x: (Vec<char>, Vec<char>)| x.1@) =~= spec_names);
    }
    let order = sort_ranked(&ranking);
    let mut sections: Vec<SourceSection> = Vec::new();
    let mut p: usize = 0;
    while p < order.len()
        invariant
            0 <= p <= order@.len(),
            order@.len() == sources@.len(),
            label_texts@.len() == sources@.len(),
            is_permutation(order@, sources@.len() as int),
            forall|k: int| 0 <= k < sources@.len() ==> #[trigger] label_texts@[k]@ == spec_labels[k],
            spec_labels == source_labels(sources@, local_lang@),
            flat(sections@) == order@.take(p as int),
            label_runs(sections@, spec_labels),
            p > 0 ==> sections@.len() > 0 && sections@.last().label@ == spec_labels[order@[p - 1] as int],
            p == 0 ==> sections@.len() == 0,
        decreases order@.len() - p,
    {
        let idx = order[p];
        let ghost before = sections@;
        let same = if sections.len() > 0 {
            let last_label = sections[sections.len() - 1].label.as_str();
            same_text(last_label, label_texts[idx].as_str())
        } else {
            false
        };
        if same {
            let mut last = sections.pop().unwrap();
            let ghost last_before = last;
            last.sources.push(idx);
            sections.push(last);
            proof {
                assert(sections@.drop_last() == before.drop_last());
                assert(flat(sections@) =~= flat(before).push(idx));
                assert(order@.take(p + 1) =~= order@.take(p as int).push(idx));
                assert forall|k: int, m: int|
                    0 <= k < sections@.len() && 0 <= m < sections@[k].sources@.len() implies spec_labels[#[trigger] sections@[k].sources@[m] as int]
                    == sections@[k].label@ by {
                    if k < sections@.len() - 1 {
                        assert(sections@[k] == before[k]);
                    } else if m < last_before.sources@.len() {
                        assert(sections@[k].sources@[m] == last_before.sources@[m]);
                    }
                }
                assert forall|k: int| 0 <= k < sections@.len() - 1 implies (#[trigger] sections@[k]).label@
                    != sections@[k + 1].label@ by {
                    assert(sections@[k] == before[k]);
                    if k + 1 < sections@.len() - 1 {
                        assert(sections@[k + 1] == before[k + 1]);
                    }
                }
                assert forall|k: int| 0 <= k < sections@.len() implies (#[trigger] sections@[k]).sources@.len()
                    > 0 by {
                    if k < sections@.len() - 1 {
                        assert(sections@[k] == before[k]);
                    }
                }
            }
        } else {
            let label = label_texts[idx].clone();
            let section = SourceSection { label, sources: vec![idx] };
            sections.push(section);
            proof {
                assert(sections@.drop_last() == before);
                assert(flat(sections@) =~= flat(before).push(idx));
                assert(order@.take(p + 1) =~= order@.take(p as int).push(idx));
                assert forall|k: int, m: int|
                    0 <= k < sections@.len() && 0 <= m < sections@[k].sources@.len() implies spec_labels[#[trigger] sections@[k].sources@[m] as int]
                    == sections@[k].label@ by {
                    if k < sections@.len() - 1 {
                        assert(sections@[k] == before[k]);
                    }
                }
                assert forall|k: int| 0 <= k < sections@.len() - 1 implies (#[trigger] sections@[k]).label@
                    != sections@[k + 1].label@ by {
                    assert(sections@[k] == before[k]);
                    if k + 1 < sections@.len() - 1 {
                        assert(sections@[k + 1] == before[k + 1]);
                    }
                }
                assert forall|k: int| 0 <= k < sections@.len() implies (#[trigger] sections@[k]).sources@.len()
                    > 0 by {
                    if k < sections@.len() - 1 {
                        assert(sections@[k] == before[k]);
                    }
                }
            }
        }
        p = p + 1;
    }
    proof {
        assert(order@.take(order@.len() as int) =~= order@);
        assert forall|i: int| 0 <= i < order@.len() - 1 implies {
            let c = source_rank(spec_labels, spec_names, #[trigger] order@[i] as int, order@[i + 1] as int);
            c < 0 || (c == 0 && order@[i] < order@[i + 1])
        } by {
            assert(ranking.rank(order@[i] as int, order@[i + 1] as int) == source_rank(
                spec_labels,
                spec_names,
                order@[i] as int,
                order@[i + 1] as int,
            ));
        }
    }
    sections
}

/// The pinned sources among the first `k`, in list order.
pub open spec fn pinned_prefix(sources: Seq<SourceInfo>, pinned: Set<Id>, k: int) -> Seq<usize>
    decreases k,
{
    if k <= 0 {
        seq![]
    } else {
        let rest = pinned_prefix(sources, pinned, k - 1);
        if pinned.contains(sources[k - 1].id) {
            rest.push((k - 1) as usize)
        } else {
            rest
        }
    }
}

/// The pinned sources, listed first, in list order.
pub fn pinned_sources(sources: &Vec<SourceInfo>, pinned: &HashSet<Id>) -> (r: Vec<usize>)
    ensures
        r@ == pinned_prefix(sources@, pinned@, sources@.len() as int),
{
    let mut r: Vec<usize> = Vec::new();
    let mut i: usize = 0;
    while i < sources.len()
        invariant
            0 <= i <= sources@.len(),
            r@ == pinned_prefix(sources@, pinned@, i as int),
        decreases sources@.len() - i,
    {
        if pinned.contains(&sources[i].id) {
            r.push(i);
        }
        i = i + 1;
    }
    r
}

/// The name a source is listed under in the migration list: its own name
/// when it is installed, otherwise "Source N (not installed)".
pub fn migration_source_name(source_id: Id, installed: Option<String>) -> (s: String)
    ensures
        s@ == (match installed {
            Some(n) => n@,
            None => "Source "@ + int_text(source_id as int) + " (not installed)"@,
        }),
{
    match installed {
        Some(n) => n,
        None => {
            let mut s = String::from_str("Source ");
            push_int(&mut s, source_id);
            s.append(" (not installed)");
            s
        },
    }
}

/// A source's name on the details and migration screens, "Unknown source"
/// when it is not installed.
pub fn source_name_or_unknown(installed: Option<String>) -> (s: String)
    ensures
        s@ == (match installed {
            Some(n) => n@,
            None => "Unknown source"@,
        }),
{
    match installed {
        Some(n) => n,
        None => String::from_str("Unknown source"),
    }
}

} // verus!
