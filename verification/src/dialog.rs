//! Modal dialogs: what each one holds while it is open, and what answering
//! it asks the application to do.

use std::collections::HashSet;

use vstd::prelude::*;

use crate::format::{entries_label, entries_text};
use crate::library::toggle_selection;
use crate::model::Id;
use crate::text::{trim, trimmed};

verus! {

/// Modal dialogs. Only one can be open at a time.
pub enum Dialog {
    CategoryPicker { manga_ids: Vec<Id>, selected: HashSet<Id> },
    ConfirmRemove { manga_ids: Vec<Id>, delete_downloads: bool },
    NewCategory { name: String },
    RenameCategory { id: Id, name: String },
    LibrarySettings,
    ChapterSettings,
    ReaderSettings,
    AddRepo { url: String },
    ConfirmClearHistory,
    MigrateTarget { manga_id: Id },
}

/// How the user answered a dialog.
#[derive(Debug, Clone, Copy, PartialEq, Eq, Structural)]
pub enum DialogButton {
    /// Cancel, or the dialog was dismissed.
    Cancel,
    /// The dialog's main button; for the settings sheets, the sheet asking
    /// to close.
    Confirm,
}

/// What the application does once a dialog is answered.
pub enum DialogEffect {
    Nothing,
    /// Every listed entry goes into exactly the listed categories.
    SetCategories { manga_ids: Vec<Id>, category_ids: Vec<Id> },
    /// The listed entries leave the library, their downloads too if asked.
    RemoveFromLibrary { manga_ids: Vec<Id>, delete_downloads: bool },
    CreateCategory { name: String },
    RenameCategory { id: Id, name: String },
    ClearHistory,
    AddRepository { url: String },
}

/// The ids of a set, each once, in no particular order.
pub fn ids_of(set: &HashSet<Id>) -> (r: Vec<Id>)
    ensures
        r@.to_set() == set@,
        r@.no_duplicates(),
{
    let mut r: Vec<Id> = Vec::new();
    proof {
        broadcast use vstd::std_specs::hash::axiom_spec_hash_keys_iter;
    }
    for id in it: set.iter()
        invariant
            r@ == it.seq().take(it.index() as int).unref(),
            it.seq().unref().to_set() == set@,
            it.seq().unref().no_duplicates(),
            it.seq().len() == set@.len(),
            it.index() == it.seq().len() ==> r@.to_set() == set@ && r@.no_duplicates(),
    {
        r.push(*id);
        proof {
            assert(r@ =~= it.seq().take(it.index() + 1).unref());
            assert(it.index() + 1 == it.seq().len() ==> r@ =~= it.seq().unref());
        }
    }
    r
}

/// What confirming a dialog does.
pub open spec fn confirmed(d: Dialog, r: (Option<Dialog>, DialogEffect)) -> bool {
    match d {
        Dialog::CategoryPicker { manga_ids, selected } => {
            &&& r.0 is None
            &&& r.1 matches DialogEffect::SetCategories { manga_ids: m, category_ids: c }
            &&& m@ == manga_ids@
            &&& c@.to_set() == selected@
            &&& c@.no_duplicates()
        },
        Dialog::ConfirmRemove { manga_ids, delete_downloads } => {
            &&& r.0 is None
            &&& r.1 matches DialogEffect::RemoveFromLibrary { manga_ids: m, delete_downloads: d }
            &&& m@ == manga_ids@
            &&& d == delete_downloads
        },
        Dialog::NewCategory { name } => if trimmed(name@).len() == 0 {
            r.0 == Some(d) && r.1 is Nothing
        } else {
            &&& r.0 is None
            &&& r.1 matches DialogEffect::CreateCategory { name: n }
            &&& n@ == trimmed(name@)
        },
        Dialog::RenameCategory { id, name } => if trimmed(name@).len() == 0 {
            r.0 == Some(d) && r.1 is Nothing
        } else {
            &&& r.0 is None
            &&& r.1 matches DialogEffect::RenameCategory { id: i, name: n }
            &&& i == id
            &&& n@ == trimmed(name@)
        },
        Dialog::AddRepo { url } => if trimmed(url@).len() == 0 {
            r.0 == Some(d) && r.1 is Nothing
        } else {
            &&& r.0 is None
            &&& r.1 matches DialogEffect::AddRepository { url: u }
            &&& u@ == trimmed(url@)
        },
        Dialog::ConfirmClearHistory => r.0 is None && r.1 is ClearHistory,
        _ => r.0 is None && r.1 is Nothing,
    }
}

impl Dialog {
    /// Ticks or unticks a category in the category picker; other dialogs
    /// are left as they are.
    pub fn toggle_category(&mut self, id: Id)
        ensures
            match *old(self) {
                Dialog::CategoryPicker { manga_ids, selected } => {
                    &&& *final(self) matches Dialog::CategoryPicker { manga_ids: m, selected: s }
                    &&& m@ == manga_ids@
                    &&& s@ == (if selected@.contains(id) {
                        selected@.remove(id)
                    } else {
                        selected@.insert(id)
                    })
                },
                _ => *final(self) == *old(self),
            },
    {
        match self {
            Dialog::CategoryPicker { manga_ids: _, selected } => {
                toggle_selection(selected, id);
            },
            _ => {},
        }
    }

    /// Answers the dialog. Gives back the dialog when it stays open, which
    /// is when a name or address it needs is blank, and what to do.
    pub fn respond(self, button: DialogButton) -> (r: (Option<Dialog>, DialogEffect))
        ensures
            button is Cancel ==> r.0 is None && r.1 is Nothing,
            button is Confirm ==> confirmed(self, r),
    {
        if button == DialogButton::Cancel {
            return (None, DialogEffect::Nothing);
        }
        match self {
            Dialog::CategoryPicker { manga_ids, selected } => {
                let category_ids = ids_of(&selected);
                (None, DialogEffect::SetCategories { manga_ids, category_ids })
            },
            Dialog::ConfirmRemove { manga_ids, delete_downloads } => {
                (None, DialogEffect::RemoveFromLibrary { manga_ids, delete_downloads })
            },
            Dialog::NewCategory { name } => {
                let t = trim(name.as_str());
                if t.unicode_len() == 0 {
                    (Some(Dialog::NewCategory { name }), DialogEffect::Nothing)
                } else {
                    let name = t.to_owned();
                    (None, DialogEffect::CreateCategory { name })
                }
            },
            Dialog::RenameCategory { id, name } => {
                let t = trim(name.as_str());
                if t.unicode_len() == 0 {
                    (Some(Dialog::RenameCategory { id, name }), DialogEffect::Nothing)
                } else {
                    let name = t.to_owned();
                    (None, DialogEffect::RenameCategory { id, name })
                }
            },
            Dialog::AddRepo { url } => {
                let t = trim(url.as_str());
                if t.unicode_len() == 0 {
                    (Some(Dialog::AddRepo { url }), DialogEffect::Nothing)
                } else {
                    let url = t.to_owned();
                    (None, DialogEffect::AddRepository { url })
                }
            },
            Dialog::ConfirmClearHistory => (None, DialogEffect::ClearHistory),
            _ => (None, DialogEffect::Nothing),
        }
    }

    /// The warning the removal dialog shows.
    pub fn removal_warning(n: usize) -> (s: String)
        ensures
            s@ == entries_text(n as nat) + " will be removed from your library."@,
    {
        let mut s = entries_label(n);
        s.append(" will be removed from your library.");
        s
    }
}

} // verus!
