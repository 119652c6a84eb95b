//! The window's state between frames: what each screen holds, the toasts on
//! show, and how the events that arrive from background work and the answers
//! to dialogs change it. Reading the database, fetching and painting are the
//! caller's: it carries out the follow-ups and commands given back.

use std::collections::HashSet;

use vstd::prelude::*;

use crate::browse::BrowseState;
use crate::details::{ChaptersLoaded, DetailsState};
use crate::dialog::DialogEffect;
use crate::extensions::{add_repository, listed, listed_in, ExtensionsState, RepoEntry};
use crate::history::HistoryState;
use crate::library::LibraryState;
use crate::model::Id;
use crate::nav::Navigation;
use crate::reader::{PagesOutcome, ReaderState};
use crate::session::{library_update_message, update_message_text};
use crate::source_browse::{MangasPage, SourceBrowseState};
use crate::updates::UpdatesState;

verus! {

/// A message shown for a few seconds; errors are drawn in the error colour.
#[derive(Debug, PartialEq, Eq)]
pub struct Toast {
    pub message: String,
    pub error: bool,
}

/// Everything the screens keep between frames.
pub struct Screens<P> {
    pub nav: Navigation,
    pub library: LibraryState,
    pub updates: UpdatesState,
    pub history: HistoryState,
    pub browse: BrowseState,
    pub source_browse: SourceBrowseState,
    pub extensions: ExtensionsState,
    pub details: DetailsState,
    pub reader: ReaderState<P>,
    /// The configured extension repositories.
    pub extension_repos: Vec<String>,
    /// Set when a preference changed and has to be written.
    pub prefs_dirty: bool,
    /// A running library check: done, total, and the title being checked.
    pub update_progress: Option<(usize, usize, String)>,
    pub toasts: Vec<Toast>,
}

/// What background work reports back. Decoded images are the caller's: they
/// become textures of the window, which only it holds.
pub enum AppEvent<P> {
    Toast(Toast),
    LibraryChanged,
    ExtensionsChanged,
    BrowseLoaded { source: Id, page: u32, result: Result<MangasPage, String> },
    GlobalSearchLoaded { source: Id, result: Result<MangasPage, String> },
    DetailsLoaded { manga_id: Id, result: Result<(), String> },
    ChaptersLoaded { manga_id: Id, new_chapters: usize, result: Result<(), String> },
    PagesLoaded { chapter_id: Id, result: Result<Vec<P>, String> },
    DownloadProgress,
    DownloadQueueChanged,
    LibraryUpdateProgress { done: usize, total: usize, current: String },
    LibraryUpdateFinished { new_chapters: usize, failed: usize },
    RepoLoaded { url: String, result: Result<Vec<RepoEntry>, String> },
}

/// What the caller does after an event was taken in.
#[derive(Debug, PartialEq, Eq)]
pub enum FollowUp {
    Nothing,
    /// Read the open entry and its chapters again from the database.
    RefreshDetails,
    /// A page list was taken in by the reader; the caller sizes the new pages.
    Pages(PagesOutcome),
}

/// The work a dialog's answer leaves to the caller, in order.
#[derive(Debug, PartialEq, Eq)]
pub enum Command {
    /// Every listed entry goes into exactly the listed categories.
    SetCategories { manga_ids: Vec<Id>, category_ids: Vec<Id> },
    /// Deletes an entry's downloaded chapters.
    DeleteDownloads { manga_id: Id },
    /// Takes an entry out of the library.
    Unfavorite { manga_id: Id },
    /// Creates a category, then reads the categories again.
    CreateCategory { name: String },
    /// Renames a category, then reads the categories again.
    RenameCategory { id: Id, name: String },
    ClearHistory,
    /// Fetches a repository's index.
    FetchRepo { url: String },
}

/// `post` is `pre` with one toast more, when `added` names one.
pub open spec fn toasts_after(pre: Seq<Toast>, post: Seq<Toast>, added: Option<(Seq<char>, bool)>) -> bool {
    match added {
        None => post == pre,
        Some((text, error)) => {
            &&& post.len() == pre.len() + 1
            &&& post.take(pre.len() as int) == pre
            &&& post.last().message@ == text
            &&& post.last().error == error
        },
    }
}

/// The commands removing entries from the library gives: for each entry in
/// turn, its downloads deleted when asked, then the entry taken out.
pub open spec fn removal_commands(ids: Seq<Id>, purge: bool) -> Seq<Command>
    decreases ids.len(),
{
    if ids.len() == 0 {
        seq![]
    } else {
        let rest = removal_commands(ids.drop_last(), purge);
        let id = ids.last();
        if purge {
            rest + seq![Command::DeleteDownloads { manga_id: id }, Command::Unfavorite { manga_id: id }]
        } else {
            rest + seq![Command::Unfavorite { manga_id: id }]
        }
    }
}

impl<P> Screens<P> {
    pub open spec fn wf(self) -> bool {
        &&& self.reader.wf()
        &&& self.extensions.available.wf()
    }

    /// The library, updates and history lists marked stale.
    pub open spec fn invalidated(self) -> Self {
        Screens {
            library: LibraryState { dirty: true, ..self.library },
            updates: UpdatesState { dirty: true, ..self.updates },
            history: HistoryState { dirty: true, ..self.history },
            ..self
        }
    }

    /// Whether a details screen is open anywhere in the stack.
    pub open spec fn details_open(self) -> bool {
        exists|i: int| 0 <= i < self.nav.stack@.len() && (#[trigger] self.nav.stack@[i]) is MangaDetails
    }

    /// How an event changes the screens, and what is left to the caller.
    pub open spec fn handled(pre: Self, post: Self, event: AppEvent<P>, f: FollowUp) -> bool {
        match event {
            AppEvent::Toast(t) => {
                &&& post == Screens { toasts: post.toasts, ..pre }
                &&& post.toasts@ == pre.toasts@.push(t)
                &&& f is Nothing
            },
            AppEvent::LibraryChanged => {
                &&& post == pre.invalidated()
                &&& if pre.details_open() {
                    f is RefreshDetails
                } else {
                    f is Nothing
                }
            },
            AppEvent::ExtensionsChanged => {
                &&& post == Screens { extensions: ExtensionsState { dirty: true, ..pre.extensions }, ..pre }
                &&& f is Nothing
            },
            AppEvent::BrowseLoaded { source, page, result } => {
                &&& post == Screens { source_browse: post.source_browse, ..pre }
                &&& SourceBrowseState::page_loaded(
                    pre.source_browse,
                    post.source_browse,
                    source,
                    page,
                    result,
                )
                &&& f is Nothing
            },
            AppEvent::GlobalSearchLoaded { source, result } => {
                &&& post == Screens { browse: post.browse, ..pre }
                &&& BrowseState::search_loaded(pre.browse, post.browse, source, result)
                &&& f is Nothing
            },
            AppEvent::DetailsLoaded { manga_id, result } => {
                let refresh = pre.details.manga_id == manga_id;
                &&& post == Screens { details: post.details, ..pre }
                &&& DetailsState::details_reply(pre.details, post.details, manga_id, result, refresh)
                &&& if refresh {
                    f is RefreshDetails
                } else {
                    f is Nothing
                }
            },
            AppEvent::ChaptersLoaded { manga_id, new_chapters, result } => {
                &&& post == Screens {
                    details: post.details,
                    toasts: post.toasts,
                    library: LibraryState { dirty: true, ..pre.library },
                    updates: UpdatesState { dirty: true, ..pre.updates },
                    ..pre
                }
                &&& exists|r: ChaptersLoaded|
                    {
                        &&& #[trigger] DetailsState::chapters_reply(
                            pre.details,
                            post.details,
                            manga_id,
                            new_chapters,
                            result,
                            r,
                        )
                        &&& toasts_after(
                            pre.toasts@,
                            post.toasts@,
                            match r.toast {
                                Some(t) => Some((t@, false)),
                                None => None,
                            },
                        )
                        &&& if r.refresh {
                            f is RefreshDetails
                        } else {
                            f is Nothing
                        }
                    }
            },
            AppEvent::PagesLoaded { chapter_id, result } => {
                &&& post == Screens { reader: post.reader, toasts: post.toasts, ..pre }
                &&& match f {
                    FollowUp::Pages(o) => {
                        &&& ReaderState::pages_reply(pre.reader, post.reader, chapter_id, result, o)
                        &&& toasts_after(
                            pre.toasts@,
                            post.toasts@,
                            match o {
                                PagesOutcome::AppendFailed(e) => Some(
                                    ("could not continue: "@ + e@, true),
                                ),
                                _ => None,
                            },
                        )
                    },
                    _ => false,
                }
            },
            AppEvent::DownloadProgress | AppEvent::DownloadQueueChanged => {
                &&& post == Screens {
                    library: LibraryState { dirty: true, ..pre.library },
                    updates: UpdatesState { dirty: true, ..pre.updates },
                    ..pre
                }
                &&& f is Nothing
            },
            AppEvent::LibraryUpdateProgress { done, total, current } => {
                &&& post == Screens { update_progress: Some((done, total, current)), ..pre }
                &&& f is Nothing
            },
            AppEvent::LibraryUpdateFinished { new_chapters, failed } => {
                &&& post == Screens { update_progress: None, toasts: post.toasts, ..pre.invalidated() }
                &&& toasts_after(
                    pre.toasts@,
                    post.toasts@,
                    Some((update_message_text(new_chapters as nat, failed as nat), false)),
                )
                &&& f is Nothing
            },
            AppEvent::RepoLoaded { url, result } => {
                &&& post == Screens { extensions: post.extensions, toasts: post.toasts, ..pre }
                &&& exists|t: Option<String>|
                    {
                        &&& #[trigger] ExtensionsState::repo_reply(
                            pre.extensions,
                            post.extensions,
                            url,
                            result,
                            t,
                        )
                        &&& toasts_after(
                            pre.toasts@,
                            post.toasts@,
                            match t {
                                Some(m) => Some((m@, true)),
                                None => None,
                            },
                        )
                    }
                &&& f is Nothing
            },
        }
    }

    fn push_toast(&mut self, message: String, error: bool)
        ensures
            *final(self) == (Screens { toasts: final(self).toasts, ..*old(self) }),
            toasts_after(old(self).toasts@, final(self).toasts@, Some((message@, error))),
    {
        self.toasts.push(Toast { message, error });
        proof {
            assert(self.toasts@.take(old(self).toasts@.len() as int) =~= old(self).toasts@);
        }
    }

    fn invalidate_all(&mut self)
        ensures
            *final(self) == old(self).invalidated(),
    {
        self.library.dirty = true;
        self.updates.dirty = true;
        self.history.dirty = true;
    }

    /// Takes in one event from background work.
    pub fn handle_event(&mut self, event: AppEvent<P>) -> (f: FollowUp)
        requires
            old(self).wf(),
        ensures
            final(self).wf(),
            Self::handled(*old(self), *final(self), event, f),
    {
        match event {
            AppEvent::Toast(t) => {
                self.toasts.push(t);
                FollowUp::Nothing
            },
            AppEvent::LibraryChanged => {
                self.invalidate_all();
                if self.nav.any_details() {
                    FollowUp::RefreshDetails
                } else {
                    FollowUp::Nothing
                }
            },
            AppEvent::ExtensionsChanged => {
                self.extensions.dirty = true;
                FollowUp::Nothing
            },
            AppEvent::BrowseLoaded { source, page, result } => {
                self.source_browse.browse_loaded(source, page, result);
                FollowUp::Nothing
            },
            AppEvent::GlobalSearchLoaded { source, result } => {
                self.browse.global_search_loaded(source, result);
                FollowUp::Nothing
            },
            AppEvent::DetailsLoaded { manga_id, result } => {
                if self.details.details_loaded(manga_id, result) {
                    FollowUp::RefreshDetails
                } else {
                    FollowUp::Nothing
                }
            },
            AppEvent::ChaptersLoaded { manga_id, new_chapters, result } => {
                let r = self.details.chapters_loaded(manga_id, new_chapters, result);
                let ghost rg = r;
                let refresh = r.refresh;
                match r.toast {
                    Some(t) => {
                        self.push_toast(t, false);
                    },
                    None => {},
                }
                self.library.dirty = true;
                self.updates.dirty = true;
                assert(DetailsState::chapters_reply(
                    old(self).details,
                    self.details,
                    manga_id,
                    new_chapters,
                    result,
                    rg,
                ));
                if refresh {
                    FollowUp::RefreshDetails
                } else {
                    FollowUp::Nothing
                }
            },
            AppEvent::PagesLoaded { chapter_id, result } => {
                let o = self.reader.pages_loaded(chapter_id, result);
                match &o {
                    PagesOutcome::AppendFailed(e) => {
                        let mut m = String::from_str("could not continue: ");
                        m.append(e.as_str());
                        self.push_toast(m, true);
                    },
                    _ => {},
                }
                FollowUp::Pages(o)
            },
            AppEvent::DownloadProgress | AppEvent::DownloadQueueChanged => {
                self.library.dirty = true;
                self.updates.dirty = true;
                FollowUp::Nothing
            },
            AppEvent::LibraryUpdateProgress { done, total, current } => {
                self.update_progress = Some((done, total, current));
                FollowUp::Nothing
            },
            AppEvent::LibraryUpdateFinished { new_chapters, failed } => {
                self.update_progress = None;
                self.invalidate_all();
                let m = library_update_message(new_chapters, failed);
                self.push_toast(m, false);
                FollowUp::Nothing
            },
            AppEvent::RepoLoaded { url, result } => {
                let t = self.extensions.repo_loaded(url, result);
                let ghost tg = t;
                match t {
                    Some(m) => {
                        self.push_toast(m, true);
                    },
                    None => {},
                }
                assert(ExtensionsState::repo_reply(
                    old(self).extensions,
                    self.extensions,
                    url,
                    result,
                    tg,
                ));
                FollowUp::Nothing
            },
        }
    }

    /// How a dialog's answer changes the screens, and the commands it leaves
    /// to the caller.
    pub open spec fn effect_applied(pre: Self, post: Self, effect: DialogEffect, cmds: Seq<Command>) -> bool {
        match effect {
            DialogEffect::Nothing => post == pre && cmds.len() == 0,
            DialogEffect::SetCategories { manga_ids, category_ids } => {
                &&& post == Screens { library: LibraryState { dirty: true, ..pre.library }, ..pre }
                &&& cmds == seq![Command::SetCategories { manga_ids, category_ids }]
            },
            DialogEffect::RemoveFromLibrary { manga_ids, delete_downloads } => {
                let inv = pre.invalidated();
                &&& post == Screens {
                    library: LibraryState { selection: post.library.selection, ..inv.library },
                    ..inv
                }
                &&& post.library.selection@ == Set::<Id>::empty()
                &&& cmds == removal_commands(manga_ids@, delete_downloads)
            },
            DialogEffect::CreateCategory { name } => {
                &&& post == pre
                &&& cmds == seq![Command::CreateCategory { name }]
            },
            DialogEffect::RenameCategory { id, name } => {
                &&& post == pre
                &&& cmds == seq![Command::RenameCategory { id, name }]
            },
            DialogEffect::ClearHistory => {
                &&& post == Screens { history: HistoryState { dirty: true, ..pre.history }, ..pre }
                &&& cmds == seq![Command::ClearHistory]
            },
            DialogEffect::AddRepository { url } => {
                let added = !listed(pre.extension_repos@, url@);
                &&& post == Screens {
                    extension_repos: post.extension_repos,
                    prefs_dirty: pre.prefs_dirty || added,
                    extensions: ExtensionsState { loading: true, ..pre.extensions },
                    ..pre
                }
                &&& post.extension_repos@ == (if added {
                    pre.extension_repos@.push(url)
                } else {
                    pre.extension_repos@
                })
                &&& cmds == seq![Command::FetchRepo { url }]
            },
        }
    }

    /// Carries out what a dialog's answer asks of the screens: removed
    /// entries leave the selection and every list is read again; a new
    /// repository is configured once and the extension list starts loading.
    pub fn apply_dialog_effect(&mut self, effect: DialogEffect) -> (cmds: Vec<Command>)
        requires
            old(self).wf(),
        ensures
            final(self).wf(),
            Self::effect_applied(*old(self), *final(self), effect, cmds@),
    {
        match effect {
            DialogEffect::Nothing => Vec::new(),
            DialogEffect::SetCategories { manga_ids, category_ids } => {
                self.library.dirty = true;
                let mut cmds = Vec::new();
                cmds.push(Command::SetCategories { manga_ids, category_ids });
                cmds
            },
            DialogEffect::RemoveFromLibrary { manga_ids, delete_downloads } => {
                let mut cmds: Vec<Command> = Vec::new();
                let mut i: usize = 0;
                while i < manga_ids.len()
                    invariant
                        i <= manga_ids@.len(),
                        cmds@ == removal_commands(manga_ids@.take(i as int), delete_downloads),
                    decreases manga_ids@.len() - i,
                {
                    let id = manga_ids[i];
                    if delete_downloads {
                        cmds.push(Command::DeleteDownloads { manga_id: id });
                    }
                    cmds.push(Command::Unfavorite { manga_id: id });
                    proof {
                        assert(manga_ids@.take(i + 1).drop_last() =~= manga_ids@.take(i as int));
                    }
                    i = i + 1;
                }
                proof {
                    assert(manga_ids@.take(i as int) =~= manga_ids@);
                }
                self.invalidate_all();
                self.library.selection = HashSet::new();
                cmds
            },
            DialogEffect::CreateCategory { name } => {
                let mut cmds = Vec::new();
                cmds.push(Command::CreateCategory { name });
                cmds
            },
            DialogEffect::RenameCategory { id, name } => {
                let mut cmds = Vec::new();
                cmds.push(Command::RenameCategory { id, name });
                cmds
            },
            DialogEffect::ClearHistory => {
                self.history.dirty = true;
                let mut cmds = Vec::new();
                cmds.push(Command::ClearHistory);
                cmds
            },
            DialogEffect::AddRepository { url } => {
                let fetch = url.clone();
                let added = !listed_in(&self.extension_repos, url.as_str());
                add_repository(&mut self.extension_repos, url);
                if added {
                    self.prefs_dirty = true;
                }
                self.extensions.loading = true;
                let mut cmds = Vec::new();
                cmds.push(Command::FetchRepo { url: fetch });
                cmds
            },
        }
    }
}

} // verus!
