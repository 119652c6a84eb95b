//! Extension management: installed manifests, repositories and what they
//! offer.

use vstd::prelude::*;

use crate::model::Id;
use crate::text::{
    chars_of, compare_chars, contains_chars, lemma_lex_antisymmetric, lemma_lex_equal,
    lemma_lex_reflexive, lemma_lex_transitive, lex_order, lowercase_chars, lowercased,
    search_needle, same_text, trimmed,
};
use crate::updates::title_matches;

verus! {

/// What an extension's manifest says of it.
pub struct ExtensionManifest {
    pub id: String,
    pub name: String,
    pub lang: String,
    pub base_url: String,
    pub version: u32,
    pub nsfw: bool,
    pub author: Option<String>,
    pub description: Option<String>,
}

/// An extension installed in the extensions folder.
pub struct InstalledExtension {
    pub manifest: ExtensionManifest,
    pub path: String,
    pub source_id: Id,
}

/// An extension a repository offers.
pub struct RepoEntry {
    pub id: String,
    pub name: String,
    pub lang: String,
    pub version: u32,
    pub nsfw: bool,
    pub description: Option<String>,
    pub url: String,
}

/// What each repository offers, by repository address, in address order
/// (code-point order, as strings sort); each address at most once.
pub struct RepoListings {
    pub listings: Vec<(String, Vec<RepoEntry>)>,
}

/// The addresses are strictly increasing, hence distinct.
pub open spec fn sorted_keys(s: Seq<(String, Vec<RepoEntry>)>) -> bool {
    forall|i: int, j: int| 0 <= i < j < s.len() ==> lex_order(s[i].0@, s[j].0@) == -1
}

/// Whether a repository address is listed.
pub open spec fn has_key(s: Seq<(String, Vec<RepoEntry>)>, k: Seq<char>) -> bool {
    exists|i: int| 0 <= i < s.len() && (#[trigger] s[i]).0@ == k
}

/// Where a repository address is listed, when it is.
pub open spec fn key_index(s: Seq<(String, Vec<RepoEntry>)>, k: Seq<char>) -> int {
    choose|i: int| 0 <= i < s.len() && (#[trigger] s[i]).0@ == k
}

/// What a repository address is listed with, if it is listed.
pub open spec fn listing_of(s: Seq<(String, Vec<RepoEntry>)>, k: Seq<char>) -> Option<Vec<RepoEntry>> {
    if has_key(s, k) {
        Some(s[key_index(s, k)].1)
    } else {
        None
    }
}

proof fn lemma_listing_at(s: Seq<(String, Vec<RepoEntry>)>, at: int)
    requires
        sorted_keys(s),
        0 <= at < s.len(),
    ensures
        listing_of(s, s[at].0@) == Some(s[at].1),
{
    let k = s[at].0@;
    assert(has_key(s, k));
    let c = key_index(s, k);
    assert(0 <= c < s.len() && s[c].0@ == k);
    if c != at {
        lemma_lex_reflexive(k, 0);
        if c < at {
            assert(lex_order(s[c].0@, s[at].0@) == -1);
        } else {
            assert(lex_order(s[at].0@, s[c].0@) == -1);
        }
    }
    assert(listing_of(s, k) == Some(s[c].1));
}

/// Recording a repository's listing, then reading any address back: the
/// recorded address gives what was recorded, every other address what it
/// gave before.
pub proof fn lemma_insert_reads_back(
    before: Seq<(String, Vec<RepoEntry>)>,
    after: Seq<(String, Vec<RepoEntry>)>,
    url: String,
    entries: Vec<RepoEntry>,
    k: Seq<char>,
)
    requires
        sorted_keys(before),
        sorted_keys(after),
        has_key(before, url@) ==> exists|p: int|
            0 <= p < before.len() && before[p].0@ == url@ && after == before.update(
                p,
                (url, entries),
            ),
        !has_key(before, url@) ==> exists|p: int|
            0 <= p <= before.len() && after == before.insert(p, (url, entries)),
    ensures
        listing_of(after, url@) == Some(entries),
        k != url@ ==> listing_of(after, k) == listing_of(before, k),
{
    if has_key(before, url@) {
        let p = choose|p: int|
            0 <= p < before.len() && before[p].0@ == url@ && after == before.update(
                p,
                (url, entries),
            );
        lemma_listing_at(after, p);
        if k != url@ {
            if has_key(before, k) {
                let q = choose|q: int| 0 <= q < before.len() && (#[trigger] before[q]).0@ == k;
                assert(q != p);
                lemma_listing_at(before, q);
                assert(after[q] == before[q]);
                lemma_listing_at(after, q);
            } else {
                assert forall|q: int| 0 <= q < after.len() implies (#[trigger] after[q]).0@ != k by {
                    if q != p {
                        assert(after[q] == before[q]);
                    }
                }
            }
        }
    } else {
        let p = choose|p: int| 0 <= p <= before.len() && after == before.insert(p, (url, entries));
        lemma_listing_at(after, p);
        if k != url@ {
            if has_key(before, k) {
                let q = choose|q: int| 0 <= q < before.len() && (#[trigger] before[q]).0@ == k;
                lemma_listing_at(before, q);
                let q2 = if q < p { q } else { q + 1 };
                assert(after[q2] == before[q]);
                lemma_listing_at(after, q2);
            } else {
                assert forall|q: int| 0 <= q < after.len() implies (#[trigger] after[q]).0@ != k by {
                    if q < p {
                        assert(after[q] == before[q]);
                    } else if q > p {
                        assert(after[q] == before[q - 1]);
                    }
                }
            }
        }
    }
}

/// The state of the extensions screen.
pub struct ExtensionsState {
    pub installed: Vec<InstalledExtension>,
    pub available: RepoListings,
    pub loading: bool,
    pub query: String,
    pub dirty: bool,
}

impl RepoListings {
    pub open spec fn wf(&self) -> bool {
        sorted_keys(self.listings@)
    }

    pub fn new() -> (r: RepoListings)
        ensures
            r.wf(),
            r.listings@.len() == 0,
    {
        RepoListings { listings: Vec::new() }
    }

    /// The position of the first address that does not come before `key`,
    /// and whether it is `key` itself.
    fn position(&self, key: &Vec<char>) -> (r: (usize, bool))
        requires
            self.wf(),
        ensures
            r.0 <= self.listings@.len(),
            forall|i: int| 0 <= i < r.0 ==> lex_order(self.listings@[i].0@, key@) == -1,
            r.1 ==> r.0 < self.listings@.len() && self.listings@[r.0 as int].0@ == key@,
            !r.1 && r.0 < self.listings@.len() ==> lex_order(
                key@,
                self.listings@[r.0 as int].0@,
            ) == -1,
    {
        let mut p: usize = 0;
        while p < self.listings.len()
            invariant
                p <= self.listings@.len(),
                forall|i: int| 0 <= i < p ==> lex_order(self.listings@[i].0@, key@) == -1,
            decreases self.listings@.len() - p,
        {
            let k = chars_of(self.listings[p].0.as_str());
            let c = compare_chars(&k, key);
            if c == 0 {
                proof {
                    lemma_lex_equal(k@, key@, 0);
                    assert(k@ =~= k@.subrange(0, k@.len() as int));
                    assert(key@ =~= key@.subrange(0, key@.len() as int));
                }
                return (p, true);
            }
            if c > 0 {
                proof {
                    lemma_lex_antisymmetric(k@, key@, 0);
                }
                return (p, false);
            }
            p = p + 1;
        }
        (p, false)
    }

    /// Records what a repository offers, replacing what it offered before.
    pub fn insert(&mut self, url: String, entries: Vec<RepoEntry>)
        requires
            old(self).wf(),
        ensures
            final(self).wf(),
            has_key(old(self).listings@, url@) ==> exists|p: int|
                0 <= p < old(self).listings@.len() && old(self).listings@[p].0@ == url@
                    && final(self).listings@ == old(self).listings@.update(p, (url, entries)),
            !has_key(old(self).listings@, url@) ==> exists|p: int|
                0 <= p <= old(self).listings@.len() && final(self).listings@ == old(
                    self,
                ).listings@.insert(p, (url, entries)),
    {
        let key = chars_of(url.as_str());
        let (p, found) = self.position(&key);
        let ghost before = self.listings@;
        assert(sorted_keys(before));
        if found {
            proof {
                assert forall|i: int, j: int|
                    0 <= i < j < before.len() implies lex_order(
                    before.update(p as int, (url, entries))[i].0@,
                    before.update(p as int, (url, entries))[j].0@,
                ) == -1 by {}
            }
            self.listings.set(p, (url, entries));
        } else {
            proof {
                assert forall|i: int| 0 <= i < before.len() implies before[i].0@ != key@ by {
                    lemma_lex_reflexive(key@, 0);
                    if i >= p {
                        if i > p {
                            assert(lex_order(before[p as int].0@, before[i].0@) == -1);
                            lemma_lex_transitive(key@, before[p as int].0@, before[i].0@, 0);
                        }
                        lemma_lex_antisymmetric(key@, before[i].0@, 0);
                    }
                }
                let after = before.insert(p as int, (url, entries));
                assert forall|i: int, j: int|
                    0 <= i < j < after.len() implies lex_order(after[i].0@, after[j].0@)
                    == -1 by {
                    if j == p {
                    } else if i == p {
                        if j - 1 > p {
                            assert(lex_order(before[p as int].0@, before[j - 1].0@) == -1);
                            lemma_lex_transitive(key@, before[p as int].0@, before[j - 1].0@, 0);
                        }
                    } else if i < p && j > p {
                    } else {
                    }
                }
            }
            self.listings.insert(p, (url, entries));
        }
    }

    /// Forgets a repository.
    pub fn remove(&mut self, url: &str)
        requires
            old(self).wf(),
        ensures
            final(self).wf(),
            !has_key(old(self).listings@, url@) ==> final(self).listings@ == old(self).listings@,
            has_key(old(self).listings@, url@) ==> exists|p: int|
                0 <= p < old(self).listings@.len() && old(self).listings@[p].0@ == url@
                    && final(self).listings@ == old(self).listings@.remove(p),
    {
        let key = chars_of(url);
        let (p, found) = self.position(&key);
        let ghost before = self.listings@;
        assert(sorted_keys(before));
        if found {
            self.listings.remove(p);
            proof {
                assert forall|i: int, j: int|
                    0 <= i < j < self.listings@.len() implies lex_order(
                    self.listings@[i].0@,
                    self.listings@[j].0@,
                ) == -1 by {
                    let i0 = if i < p { i } else { i + 1 };
                    let j0 = if j < p { j } else { j + 1 };
                    assert(self.listings@[i] == before[i0]);
                    assert(self.listings@[j] == before[j0]);
                }
            }
        } else {
            proof {
                assert forall|i: int| 0 <= i < before.len() implies before[i].0@ != key@ by {
                    lemma_lex_reflexive(key@, 0);
                    if i >= p {
                        if i > p {
                            assert(lex_order(before[p as int].0@, before[i].0@) == -1);
                            lemma_lex_transitive(key@, before[p as int].0@, before[i].0@, 0);
                        }
                        lemma_lex_antisymmetric(key@, before[i].0@, 0);
                    }
                }
            }
        }
    }
}

/// The installed extensions among the first `k` whose name matches.
pub open spec fn installed_matching(
    installed: Seq<InstalledExtension>,
    needle: Seq<char>,
    k: int,
) -> Seq<InstalledExtension>
    decreases k,
{
    if k <= 0 {
        seq![]
    } else {
        let rest = installed_matching(installed, needle, k - 1);
        if title_matches(installed[k - 1].manifest.name@, needle) {
            rest.push(installed[k - 1])
        } else {
            rest
        }
    }
}

pub open spec fn unref_installed(rows: Seq<&InstalledExtension>) -> Seq<InstalledExtension> {
    rows.map_values(|e: &InstalledExtension| *e)
}

/// Whether a repository address is among the configured ones.
pub open spec fn listed(repos: Seq<String>, url: Seq<char>) -> bool {
    exists|i: int| 0 <= i < repos.len() && (#[trigger] repos[i])@ == url
}

/// The configured repositories other than `url`, in order.
pub open spec fn without(repos: Seq<String>, url: Seq<char>, k: int) -> Seq<String>
    decreases k,
{
    if k <= 0 {
        seq![]
    } else {
        let rest = without(repos, url, k - 1);
        if repos[k - 1]@ == url {
            rest
        } else {
            rest.push(repos[k - 1])
        }
    }
}

/// Whether a string is among the first `k` of a list.
pub(crate) fn listed_in(repos: &Vec<String>, url: &str) -> (b: bool)
    ensures
        b == listed(repos@, url@),
{
    let mut i: usize = 0;
    while i < repos.len()
        invariant
            0 <= i <= repos@.len(),
            forall|j: int| 0 <= j < i ==> (#[trigger] repos@[j])@ != url@,
        decreases repos@.len() - i,
    {
        if same_text(repos[i].as_str(), url) {
            return true;
        }
        i = i + 1;
    }
    false
}

/// Adds a repository address unless it is configured already.
pub fn add_repository(repos: &mut Vec<String>, url: String)
    ensures
        listed(old(repos)@, url@) ==> final(repos)@ == old(repos)@,
        !listed(old(repos)@, url@) ==> final(repos)@ == old(repos)@.push(url),
{
    if !listed_in(repos, url.as_str()) {
        repos.push(url);
    }
}

/// Drops a repository address, every copy of it.
pub fn remove_repository(repos: &mut Vec<String>, url: &str)
    ensures
        final(repos)@ == without(old(repos)@, url@, old(repos)@.len() as int),
{
    let mut kept: Vec<String> = Vec::new();
    let mut i: usize = 0;
    while i < repos.len()
        invariant
            0 <= i <= repos@.len(),
            repos@ == old(repos)@,
            kept@ == without(repos@, url@, i as int),
        decreases repos@.len() - i,
    {
        if !same_text(repos[i].as_str(), url) {
            kept.push(repos[i].clone());
        }
        i = i + 1;
    }
    *repos = kept;
}

impl ExtensionsState {
    /// The screen before its first load.
    pub fn new() -> (s: ExtensionsState)
        ensures
            s.installed@.len() == 0,
            s.available.wf(),
            s.available.listings@.len() == 0,
            !s.loading,
            s.query@.len() == 0,
            s.dirty,
    {
        ExtensionsState {
            installed: Vec::new(),
            available: RepoListings::new(),
            loading: false,
            query: String::new(),
            dirty: true,
        }
    }

    /// How a repository's index is taken in.
    pub open spec fn repo_reply(pre: Self, post: Self, url: String, result: Result<Vec<RepoEntry>, String>, toast: Option<String>) -> bool {
        &&& post.available.wf()
        &&& !post.loading
        &&& post.installed == pre.installed
        &&& post.query == pre.query
        &&& post.dirty == pre.dirty
        &&& match result {
                Ok(entries) => {
                    &&& toast is None
                    &&& has_key(pre.available.listings@, url@) ==> exists|p: int|
                        0 <= p < pre.available.listings@.len()
                            && pre.available.listings@[p].0@ == url@
                            && post.available.listings@ == pre.available.listings@.update(p, (url, entries))
                    &&& !has_key(pre.available.listings@, url@) ==> exists|p: int|
                        0 <= p <= pre.available.listings@.len()
                            && post.available.listings@ == pre.available.listings@.insert(p, (url, entries))
                },
                Err(e) => {
                    &&& post.available == pre.available
                    &&& toast matches Some(t)
                    &&& t@ == "could not read the repository: "@ + e@
                },
            }
    }

    /// A repository's index arrived: what it offers is recorded, or the
    /// failure is reported with the returned message.
    pub fn repo_loaded(&mut self, url: String, result: Result<Vec<RepoEntry>, String>) -> (toast:
        Option<String>)
        requires
            old(self).available.wf(),
        ensures
            Self::repo_reply(*old(self), *final(self), url, result, toast),
    {
        self.loading = false;
        match result {
            Ok(entries) => {
                self.available.insert(url, entries);
                None
            },
            Err(e) => {
                let mut t = String::new();
                t.append("could not read the repository: ");
                t.append(e.as_str());
                Some(t)
            },
        }
    }

    /// The installed extensions shown: those whose name contains the
    /// trimmed, lowercased filter.
    pub fn installed_shown(&self) -> (rows: Vec<&InstalledExtension>)
        ensures
            unref_installed(rows@) == installed_matching(
                self.installed@,
                lowercased(trimmed(self.query@)),
                self.installed@.len() as int,
            ),
    {
        let needle = search_needle(self.query.as_str());
        let mut rows: Vec<&InstalledExtension> = Vec::new();
        let mut i: usize = 0;
        while i < self.installed.len()
            invariant
                0 <= i <= self.installed@.len(),
                needle@ == lowercased(trimmed(self.query@)),
                unref_installed(rows@) == installed_matching(self.installed@, needle@, i as int),
            decreases self.installed@.len() - i,
        {
            let e = &self.installed[i];
            let matches = if needle.len() == 0 {
                true
            } else {
                let lower = lowercase_chars(e.manifest.name.as_str());
                contains_chars(&lower, &needle)
            };
            if matches {
                let ghost before = rows@;
                rows.push(e);
                proof {
                    assert(unref_installed(rows@) =~= unref_installed(before).push(
                        self.installed@[i as int],
                    ));
                }
            }
            i = i + 1;
        }
        rows
    }

    /// Whether a repository's extension is installed already, by id.
    pub fn is_installed(&self, id: &str) -> (b: bool)
        ensures
            b == exists|i: int|
                0 <= i < self.installed@.len() && (#[trigger] self.installed@[i]).manifest.id@
                    == id@,
    {
        let mut i: usize = 0;
        while i < self.installed.len()
            invariant
                0 <= i <= self.installed@.len(),
                forall|j: int|
                    0 <= j < i ==> (#[trigger] self.installed@[j]).manifest.id@ != id@,
            decreases self.installed@.len() - i,
        {
            if same_text(self.installed[i].manifest.id.as_str(), id) {
                return true;
            }
            i = i + 1;
        }
        false
    }
}

} // verus!
