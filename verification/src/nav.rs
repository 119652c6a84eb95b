use vstd::prelude::*;

use crate::model::Id;

verus! {

/// The top-level tabs, in the order the navigation rail shows them.
#[derive(Debug, Clone, Copy, PartialEq, Eq, Structural)]
pub enum Tab {
    Library,
    Updates,
    History,
    Browse,
    More,
}

/// Number of tabs.
pub const TAB_COUNT: usize = 5;

impl Tab {
    /// Every tab, in rail order.
    pub const ALL: [Tab; 5] = [Tab::Library, Tab::Updates, Tab::History, Tab::Browse, Tab::More];

    /// Position of the tab in the rail.
    pub open spec fn position(self) -> nat {
        match self {
            Tab::Library => 0,
            Tab::Updates => 1,
            Tab::History => 2,
            Tab::Browse => 3,
            Tab::More => 4,
        }
    }

    /// The tab at `index`, Library when there is none.
    pub open spec fn at(index: int) -> Tab {
        if index == 1 {
            Tab::Updates
        } else if index == 2 {
            Tab::History
        } else if index == 3 {
            Tab::Browse
        } else if index == 4 {
            Tab::More
        } else {
            Tab::Library
        }
    }

    pub open spec fn label_text(self) -> Seq<char> {
        match self {
            Tab::Library => "Library"@,
            Tab::Updates => "Updates"@,
            Tab::History => "History"@,
            Tab::Browse => "Browse"@,
            Tab::More => "More"@,
        }
    }

    pub open spec fn glyph_text(self) -> Seq<char> {
        match self {
            Tab::Library => "📚"@,
            Tab::Updates => "🔄"@,
            Tab::History => "🕘"@,
            Tab::Browse => "🌐"@,
            Tab::More => "☰"@,
        }
    }

    pub fn label(self) -> (s: &'static str)
        ensures
            s@ == self.label_text(),
    {
        match self {
            Tab::Library => "Library",
            Tab::Updates => "Updates",
            Tab::History => "History",
            Tab::Browse => "Browse",
            Tab::More => "More",
        }
    }

    /// Only glyphs present in egui's bundled fonts are used here; anything else
    /// renders as an empty box.
    pub fn glyph(self) -> (s: &'static str)
        ensures
            s@ == self.glyph_text(),
    {
        match self {
            Tab::Library => "📚",
            Tab::Updates => "🔄",
            Tab::History => "🕘",
            Tab::Browse => "🌐",
            Tab::More => "☰",
        }
    }

    pub fn index(self) -> (i: usize)
        ensures
            i == self.position(),
            i < TAB_COUNT,
    {
        match self {
            Tab::Library => 0,
            Tab::Updates => 1,
            Tab::History => 2,
            Tab::Browse => 3,
            Tab::More => 4,
        }
    }

    pub fn from_index(index: usize) -> (t: Tab)
        ensures
            t == Tab::at(index as int),
    {
        if index == 1 {
            Tab::Updates
        } else if index == 2 {
            Tab::History
        } else if index == 3 {
            Tab::Browse
        } else if index == 4 {
            Tab::More
        } else {
            Tab::Library
        }
    }
}

/// Screens pushed on top of the tabs.
#[derive(Debug, Clone, Copy, PartialEq, Eq, Structural)]
pub enum Route {
    SourceBrowse(Id),
    MangaDetails(Id),
    Reader { manga_id: Id, chapter_id: Id },
    Downloads,
    Categories,
    Extensions,
    Settings(SettingsPage),
    Statistics,
}

#[derive(Debug, Clone, Copy, PartialEq, Eq, Structural)]
pub enum SettingsPage {
    Root,
    Appearance,
    Library,
    Reader,
    Downloads,
    Browse,
    DataStorage,
    About,
}

impl SettingsPage {
    pub open spec fn title_text(self) -> Seq<char> {
        match self {
            SettingsPage::Root => "Settings"@,
            SettingsPage::Appearance => "Appearance"@,
            SettingsPage::Library => "Library"@,
            SettingsPage::Reader => "Reader"@,
            SettingsPage::Downloads => "Downloads"@,
            SettingsPage::Browse => "Browse"@,
            SettingsPage::DataStorage => "Data and storage"@,
            SettingsPage::About => "About"@,
        }
    }

    pub fn title(self) -> (s: &'static str)
        ensures
            s@ == self.title_text(),
    {
        match self {
            SettingsPage::Root => "Settings",
            SettingsPage::Appearance => "Appearance",
            SettingsPage::Library => "Library",
            SettingsPage::Reader => "Reader",
            SettingsPage::Downloads => "Downloads",
            SettingsPage::Browse => "Browse",
            SettingsPage::DataStorage => "Data and storage",
            SettingsPage::About => "About",
        }
    }
}

/// The three panes of the Browse tab.
#[derive(Debug, Clone, Copy, PartialEq, Eq, Structural)]
pub enum BrowseTab {
    Sources,
    Extensions,
    Migrate,
}

/// How an entry of the navigation rail or bar is laid out.
#[derive(Debug, Clone, Copy, PartialEq, Eq, Structural)]
pub enum NavItemStyle {
    /// Glyph above a label.
    Full,
    /// Glyph alone.
    IconOnly,
    /// Glyph beside a label.
    Horizontal,
}

/// Where the user is: the selected tab and the screens pushed over it.
pub struct Navigation {
    pub tab: Tab,
    pub stack: Vec<Route>,
}

impl Navigation {
    /// The screen on top of the stack, if any.
    pub open spec fn top(self) -> Option<Route> {
        if self.stack@.len() == 0 {
            None
        } else {
            Some(self.stack@.last())
        }
    }

    /// What a push leaves on the stack: opening the screen already on top is
    /// a no-op.
    pub open spec fn pushed(stack: Seq<Route>, route: Route) -> Seq<Route> {
        if stack.len() > 0 && stack.last() == route {
            stack
        } else {
            stack.push(route)
        }
    }

    pub fn new(tab: Tab) -> (nav: Navigation)
        ensures
            nav.tab == tab,
            nav.stack@ == Seq::<Route>::empty(),
    {
        Navigation { tab, stack: Vec::new() }
    }

    pub fn push(&mut self, route: Route)
        ensures
            final(self).tab == old(self).tab,
            final(self).stack@ == Self::pushed(old(self).stack@, route),
    {
        let n = self.stack.len();
        if n > 0 && self.stack[n - 1] == route {
            return;
        }
        self.stack.push(route);
    }

    pub fn pop(&mut self)
        ensures
            final(self).tab == old(self).tab,
            old(self).stack@.len() == 0 ==> final(self).stack@ == old(self).stack@,
            old(self).stack@.len() > 0 ==> final(self).stack@ == old(self).stack@.drop_last(),
    {
        let _ = self.stack.pop();
    }

    pub fn current_route(&self) -> (r: Option<&Route>)
        ensures
            match r {
                Some(route) => self.top() == Some(*route),
                None => self.top().is_none(),
            },
    {
        let n = self.stack.len();
        if n == 0 {
            None
        } else {
            Some(&self.stack[n - 1])
        }
    }

    /// Whether the reader has the whole window.
    pub fn in_reader(&self) -> (b: bool)
        ensures
            b == (self.top() matches Some(Route::Reader { .. })),
    {
        match self.current_route() {
            Some(Route::Reader { .. }) => true,
            _ => false,
        }
    }

    /// Clicking a tab (or its shortcut) shows it with nothing pushed over it.
    pub fn select_tab(&mut self, tab: Tab)
        ensures
            final(self).tab == tab,
            final(self).stack@ == Seq::<Route>::empty(),
    {
        self.tab = tab;
        self.stack.clear();
    }

    /// Escape: closes the open dialog if there is one, otherwise leaves the
    /// screen on top. Returns whether the dialog is to be closed.
    pub fn escape(&mut self, dialog_open: bool) -> (close_dialog: bool)
        ensures
            close_dialog == dialog_open,
            final(self).tab == old(self).tab,
            dialog_open ==> final(self).stack@ == old(self).stack@,
            !dialog_open && old(self).stack@.len() > 0 ==> final(self).stack@
                == old(self).stack@.drop_last(),
            !dialog_open && old(self).stack@.len() == 0 ==> final(self).stack@
                == old(self).stack@,
    {
        if dialog_open {
            true
        } else {
            self.pop();
            false
        }
    }

    /// Whether a details screen is open anywhere in the stack, which must be
    /// read again when the library changes.
    pub fn any_details(&self) -> (b: bool)
        ensures
            b == exists|i: int|
                0 <= i < self.stack@.len() && (#[trigger] self.stack@[i]) is MangaDetails,
    {
        let mut i: usize = 0;
        while i < self.stack.len()
            invariant
                0 <= i <= self.stack@.len(),
                forall|j: int| 0 <= j < i ==> !((#[trigger] self.stack@[j]) is MangaDetails),
            decreases self.stack@.len() - i,
        {
            match self.stack[i] {
                Route::MangaDetails(_) => {
                    return true;
                },
                _ => {},
            }
            i = i + 1;
        }
        false
    }

    /// Whether a tab is drawn as selected: it is current and nothing is
    /// pushed over it.
    pub fn is_selected(&self, tab: Tab) -> (b: bool)
        ensures
            b == (self.tab == tab && self.stack@.len() == 0),
    {
        self.tab == tab && self.stack.len() == 0
    }
}

/// Reading a tab back from its index gives the same tab.
pub proof fn lemma_tab_index_round_trip(tab: Tab)
    ensures
        Tab::at(tab.position() as int) == tab,
{
}

/// Every index below the tab count names a distinct tab and reads back.
pub proof fn lemma_tab_index_covers(index: int)
    requires
        0 <= index < TAB_COUNT,
    ensures
        Tab::at(index).position() == index,
{
}

/// Pushing a screen and popping it again restores the stack, unless that
/// screen was already on top, in which case the push did nothing.
pub proof fn lemma_push_then_pop(stack: Seq<Route>, route: Route)
    ensures
        !(stack.len() > 0 && stack.last() == route) ==> Navigation::pushed(stack, route).drop_last()
            == stack,
        stack.len() > 0 && stack.last() == route ==> Navigation::pushed(stack, route) == stack,
        Navigation::pushed(stack, route).last() == route,
{
}

/// Pushing the same screen twice is the same as pushing it once.
pub proof fn lemma_push_idempotent(stack: Seq<Route>, route: Route)
    ensures
        Navigation::pushed(Navigation::pushed(stack, route), route) == Navigation::pushed(
            stack,
            route,
        ),
{
}

} // verus!
