//! Browsing one source: what a source lists, the source's filters, and the
//! paging state of the browse screen.

use vstd::prelude::*;

use crate::model::{Id, TriState};

verus! {

/// One title as a source lists it.
pub struct SManga {
    pub url: String,
    pub title: String,
    pub thumbnail_url: Option<String>,
}

pub fn clone_text(s: &Option<String>) -> (r: Option<String>)
    ensures
        r == *s,
{
    match s {
        Some(t) => Some(t.clone()),
        None => None,
    }
}

impl Clone for SManga {
    fn clone(&self) -> (r: Self)
        ensures
            r == *self,
    {
        SManga {
            url: self.url.clone(),
            title: self.title.clone(),
            thumbnail_url: clone_text(&self.thumbnail_url),
        }
    }
}

/// One page of a source's listing.
pub struct MangasPage {
    pub mangas: Vec<SManga>,
    pub has_next_page: bool,
}

/// Which listing of a source is shown.
#[derive(Debug, Clone, Copy, PartialEq, Eq, Structural)]
pub enum BrowseMode {
    Popular,
    Latest,
    Search,
}

/// A search filter a source offers, and its current setting.
pub enum FilterKind {
    Header,
    Separator,
    Text { value: String },
    CheckBox { checked: bool },
    Tri { state: TriState },
    Select { options: Vec<String>, index: usize },
    Sort { options: Vec<String>, index: usize, ascending: bool },
    Group { children: Vec<Filter> },
}

pub struct Filter {
    pub name: String,
    pub kind: FilterKind,
}

/// A source's filters, in the order it lists them.
pub type FilterList = Vec<Filter>;

/// A listing to fetch from a source. The filters of the screen it was asked
/// from go with it when `with_filters` is set; otherwise none do.
pub struct BrowseRequest {
    pub source_id: Id,
    pub mode: BrowseMode,
    pub page: u32,
    pub query: String,
    pub with_filters: bool,
}

/// The state of the screen that browses one source.
pub struct SourceBrowseState {
    pub source_id: Id,
    pub mode: BrowseMode,
    pub query: String,
    pub filters: FilterList,
    pub items: Vec<SManga>,
    pub page: u32,
    pub has_next: bool,
    pub loading: bool,
    pub error: Option<String>,
    pub show_filters: bool,
}

/// The listing chosen by the position of a mode tab; the "Latest" tab is
/// there only for sources that offer it.
pub open spec fn mode_at_spec(index: usize, supports_latest: bool) -> BrowseMode {
    if index == 0 {
        BrowseMode::Popular
    } else if index == 1 && supports_latest {
        BrowseMode::Latest
    } else {
        BrowseMode::Search
    }
}

/// The position of a mode's tab among `tabs` tabs.
pub open spec fn mode_index_spec(mode: BrowseMode, tabs: usize) -> int {
    match mode {
        BrowseMode::Popular => 0,
        BrowseMode::Latest => 1,
        BrowseMode::Search => tabs - 1,
    }
}

pub fn mode_at(index: usize, supports_latest: bool) -> (m: BrowseMode)
    ensures
        m == mode_at_spec(index, supports_latest),
{
    if index == 0 {
        BrowseMode::Popular
    } else if index == 1 && supports_latest {
        BrowseMode::Latest
    } else {
        BrowseMode::Search
    }
}

/// The number of mode tabs a source shows.
pub fn mode_tabs(supports_latest: bool) -> (n: usize)
    ensures
        n == (if supports_latest {
            3usize
        } else {
            2usize
        }),
{
    if supports_latest {
        3
    } else {
        2
    }
}

pub fn mode_index(mode: BrowseMode, tabs: usize) -> (i: usize)
    requires
        tabs >= 1,
    ensures
        i == mode_index_spec(mode, tabs),
{
    match mode {
        BrowseMode::Popular => 0,
        BrowseMode::Latest => 1,
        BrowseMode::Search => tabs - 1,
    }
}

impl Default for SourceBrowseState {
    fn default() -> (s: SourceBrowseState)
        ensures
            s.source_id == 0,
            s.mode == BrowseMode::Popular,
            s.query@.len() == 0,
            s.filters@.len() == 0,
            s.items@.len() == 0,
            s.page == 1,
            !s.has_next,
            !s.loading,
            s.error is None,
            !s.show_filters,
    {
        SourceBrowseState::new()
    }
}

impl SourceBrowseState {
    /// The screen before any source is opened: popular titles, first page.
    pub fn new() -> (s: SourceBrowseState)
        ensures
            s.source_id == 0,
            s.mode == BrowseMode::Popular,
            s.query@.len() == 0,
            s.filters@.len() == 0,
            s.items@.len() == 0,
            s.page == 1,
            !s.has_next,
            !s.loading,
            s.error is None,
            !s.show_filters,
    {
        SourceBrowseState {
            source_id: 0,
            mode: BrowseMode::Popular,
            query: String::new(),
            filters: Vec::new(),
            items: Vec::new(),
            page: 1,
            has_next: false,
            loading: false,
            error: None,
            show_filters: false,
        }
    }

    /// Opens a source with its own filters: the screen starts loading the
    /// first page of popular titles, asked for without a query or filters.
    pub fn open(source_id: Id, filters: FilterList) -> (r: (SourceBrowseState, BrowseRequest))
        ensures
            r.0.source_id == source_id,
            r.0.filters == filters,
            r.0.mode == BrowseMode::Popular,
            r.0.query@.len() == 0,
            r.0.items@.len() == 0,
            r.0.page == 1,
            !r.0.has_next,
            r.0.loading,
            r.0.error is None,
            !r.0.show_filters,
            r.1.source_id == source_id,
            r.1.mode == BrowseMode::Popular,
            r.1.page == 1,
            r.1.query@.len() == 0,
            !r.1.with_filters,
    {
        let mut s = SourceBrowseState::new();
        s.source_id = source_id;
        s.filters = filters;
        s.loading = true;
        let request = BrowseRequest {
            source_id,
            mode: BrowseMode::Popular,
            page: 1,
            query: String::new(),
            with_filters: false,
        };
        (s, request)
    }

    /// Asks for a page of the current listing, with the screen's query and
    /// filters.
    pub fn request_page(&mut self, page: u32) -> (r: BrowseRequest)
        ensures
            final(self).loading,
            final(self).error is None,
            final(self).source_id == old(self).source_id,
            final(self).mode == old(self).mode,
            final(self).query == old(self).query,
            final(self).filters == old(self).filters,
            final(self).items == old(self).items,
            final(self).page == old(self).page,
            final(self).has_next == old(self).has_next,
            final(self).show_filters == old(self).show_filters,
            r.source_id == old(self).source_id,
            r.mode == old(self).mode,
            r.page == page,
            r.query == old(self).query,
            r.with_filters,
    {
        self.loading = true;
        self.error = None;
        BrowseRequest {
            source_id: self.source_id,
            mode: self.mode,
            page,
            query: self.query.clone(),
            with_filters: true,
        }
    }

    /// Switches listing: the results are dropped and the first page of the
    /// new listing is asked for.
    pub fn switch_mode(&mut self, mode: BrowseMode) -> (r: BrowseRequest)
        ensures
            final(self).mode == mode,
            final(self).items@.len() == 0,
            final(self).error is None,
            final(self).loading,
            final(self).source_id == old(self).source_id,
            final(self).query == old(self).query,
            final(self).filters == old(self).filters,
            final(self).page == old(self).page,
            final(self).has_next == old(self).has_next,
            r.source_id == old(self).source_id,
            r.mode == mode,
            r.page == 1,
            r.query == old(self).query,
            r.with_filters,
    {
        self.mode = mode;
        self.items.clear();
        self.error = None;
        self.request_page(1)
    }

    /// Asks for the page after the last one loaded, when there is one and
    /// nothing is loading.
    pub fn load_more(&mut self) -> (r: Option<BrowseRequest>)
        requires
            old(self).page < u32::MAX,
        ensures
            (old(self).loading || !old(self).has_next) ==> r is None && *final(self) == *old(self),
            (!old(self).loading && old(self).has_next) ==> {
                &&& r matches Some(q)
                &&& q.page == old(self).page + 1
                &&& q.mode == old(self).mode
                &&& q.source_id == old(self).source_id
                &&& q.query == old(self).query
                &&& q.with_filters
                &&& final(self).loading
                &&& final(self).error is None
                &&& final(self).items == old(self).items
                &&& final(self).page == old(self).page
            },
    {
        if self.loading || !self.has_next {
            return None;
        }
        let next = self.page + 1;
        Some(self.request_page(next))
    }

    /// Asks again for the page that failed, the first one at least.
    pub fn retry(&mut self) -> (r: BrowseRequest)
        ensures
            r.page == (if old(self).page >= 1 {
                old(self).page
            } else {
                1
            }),
            r.mode == old(self).mode,
            r.source_id == old(self).source_id,
            r.query == old(self).query,
            r.with_filters,
            final(self).loading,
            final(self).error is None,
            final(self).items == old(self).items,
    {
        let page = if self.page >= 1 {
            self.page
        } else {
            1
        };
        self.request_page(page)
    }

    /// How an arrived page is taken in.
    pub open spec fn page_loaded(pre: Self, post: Self, source: Id, page: u32, result: Result<MangasPage, String>) -> bool {
        &&& pre.source_id != source ==> post == pre
        &&& pre.source_id == source ==> {
                &&& !post.loading
                &&& post.source_id == pre.source_id
                &&& post.mode == pre.mode
                &&& post.query == pre.query
                &&& post.filters == pre.filters
                &&& post.show_filters == pre.show_filters
                &&& match result {
                    Ok(p) => {
                        &&& post.items@ == (if page <= 1 {
                            p.mangas@
                        } else {
                            pre.items@ + p.mangas@
                        })
                        &&& post.page == page
                        &&& post.has_next == p.has_next_page
                        &&& post.error is None
                    },
                    Err(e) => {
                        &&& post.items == pre.items
                        &&& post.page == pre.page
                        &&& post.has_next == pre.has_next
                        &&& post.error == Some(e)
                    },
                }
            }
    }

    /// Takes in a page that arrived. Pages of another source are ignored;
    /// the first page replaces the results and later ones extend them.
    pub fn browse_loaded(&mut self, source: Id, page: u32, result: Result<MangasPage, String>)
        ensures
            Self::page_loaded(*old(self), *final(self), source, page, result),
    {
        if self.source_id != source {
            return;
        }
        self.loading = false;
        match result {
            Ok(p) => {
                let MangasPage { mut mangas, has_next_page } = p;
                if page <= 1 {
                    self.items = mangas;
                } else {
                    self.items.append(&mut mangas);
                }
                self.page = page;
                self.has_next = has_next_page;
                self.error = None;
            },
            Err(e) => {
                self.error = Some(e);
            },
        }
    }
}

} // verus!
