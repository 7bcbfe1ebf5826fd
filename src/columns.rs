use vstd::prelude::*;

use crate::command_handler::FolderCommandHandler;
use crate::event_handler::FolderEventHandler;
use crate::model::{Folder, FolderView, Script};
use crate::state::{FolderReducer, FoldersState};

verus! {

/// Text that the new-script editor starts with.
pub const NEW_SCRIPT_PLACEHOLDER: &'static str = "# add your code here ...";

/// Language that the new-script editor highlights.
pub const NEW_SCRIPT_LANGUAGE: &'static str = "bash";

/// The folder column on the left. It keeps no state of its own: everything it shows comes
/// from the snapshot.
pub struct FolderColumn {}

impl FolderColumn {
    pub fn new() -> (r: FolderColumn) {
        FolderColumn {  }
    }
}

/// One row of the folder column: the folder, the current selection, and the name shown,
/// which is the draft name while the folder is being renamed.
pub struct FolderItem {
    pub folder: Folder,
    pub selected_id: Option<i32>,
    pub display_name: String,
}

impl FolderItem {
    pub fn new(folder: &Folder, selected_id: Option<i32>, display_name: &str) -> (r: FolderItem)
        ensures
            r.folder@ == folder@,
            r.selected_id == selected_id,
            r.display_name@ == display_name@,
    {
        FolderItem { folder: folder.duplicate(), selected_id, display_name: display_name.to_owned() }
    }

    /// The row is highlighted when its folder is the selected one.
    pub fn is_selected(&self) -> (r: bool)
        ensures
            r == (self.selected_id == Some(self.folder.id)),
    {
        match self.selected_id {
            Some(id) => id == self.folder.id,
            None => false,
        }
    }
}

/// The name a folder row shows: the draft text while that folder is being renamed and a
/// draft exists, its stored name otherwise.
pub open spec fn shown_name(
    folder: FolderView,
    renaming: Option<FolderView>,
    draft: Option<Seq<char>>,
) -> Seq<char> {
    match (renaming, draft) {
        (Some(r), Some(text)) => if r.id == folder.id {
            text
        } else {
            folder.name
        },
        _ => folder.name,
    }
}

pub fn folder_display_name(
    folder: &Folder,
    folder_to_rename: &Option<Folder>,
    rename_text: &Option<String>,
) -> (r: String)
    ensures
        r@ == shown_name(
            folder@,
            match folder_to_rename {
                Some(f) => Some(f@),
                None => None,
            },
            match rename_text {
                Some(t) => Some(t@),
                None => None,
            },
        ),
{
    match (folder_to_rename, rename_text) {
        (Some(r), Some(text)) => {
            if r.id == folder.id {
                text.clone()
            } else {
                folder.name.clone()
            }
        },
        _ => folder.name.clone(),
    }
}

/// The script column on the right, with the state of its pop-up editors.
pub struct ScriptsColumn {
    pub adding_new_script: bool,
    pub adding_code: String,
    pub code_lang: String,
    pub editing_script_id: Option<i32>,
    pub editing_command: String,
    pub renaming_script_id: Option<i32>,
    pub renaming_name: String,
    pub script_to_delete: Option<i32>,
}

impl ScriptsColumn {
    /// No editor is open; the new-script editor holds its placeholder, as bash.
    pub open spec fn is_fresh(&self) -> bool {
        &&& !self.adding_new_script
        &&& self.adding_code@ == NEW_SCRIPT_PLACEHOLDER@
        &&& self.code_lang@ == NEW_SCRIPT_LANGUAGE@
        &&& self.editing_script_id is None
        &&& self.editing_command@.len() == 0
        &&& self.renaming_script_id is None
        &&& self.renaming_name@.len() == 0
        &&& self.script_to_delete is None
    }

    pub fn new() -> (r: ScriptsColumn)
        ensures
            r.is_fresh(),
    {
        ScriptsColumn {
            adding_new_script: false,
            adding_code: NEW_SCRIPT_PLACEHOLDER.to_owned(),
            code_lang: NEW_SCRIPT_LANGUAGE.to_owned(),
            editing_script_id: None,
            editing_command: String::new(),
            renaming_script_id: None,
            renaming_name: String::new(),
            script_to_delete: None,
        }
    }
}

/// The first folder of `s` whose id is `id`.
pub open spec fn first_with_id(s: Seq<Folder>, id: i32) -> Option<Folder>
    decreases s.len(),
{
    if s.len() == 0 {
        None
    } else if s[0].id == id {
        Some(s[0])
    } else {
        first_with_id(s.drop_first(), id)
    }
}

/// The selected folder as the cached list holds it: the first folder with the selected
/// id; none when nothing is selected or the selection is not in the list.
pub open spec fn selected_in(state: FoldersState) -> Option<Folder> {
    match state.selected_folder_id {
        Some(id) => first_with_id(state.folder_list@, id),
        None => None,
    }
}

pub open spec fn deref_folder(x: Option<&Folder>) -> Option<Folder> {
    match x {
        Some(f) => Some(*f),
        None => None,
    }
}

proof fn lemma_first_with_id(s: Seq<Folder>, id: i32, i: int)
    requires
        0 <= i <= s.len(),
        forall|k: int| 0 <= k < i ==> s[k].id != id,
    ensures
        i < s.len() && s[i].id == id ==> first_with_id(s, id) == Some(s[i]),
        i == s.len() ==> first_with_id(s, id) is None,
    decreases i,
{
    if i > 0 {
        lemma_first_with_id(s.drop_first(), id, i - 1);
    }
}

/// The selected folder as it stands in the cached list.
pub fn selected_folder(state: &FoldersState) -> (r: Option<&Folder>)
    ensures
        deref_folder(r) == selected_in(*state),
{
    match state.selected_folder_id {
        Some(id) => {
            let mut i: usize = 0;
            while i < state.folder_list.len()
                invariant
                    i <= state.folder_list@.len(),
                    state.selected_folder_id == Some(id),
                    forall|k: int| 0 <= k < i ==> state.folder_list@[k].id != id,
                decreases state.folder_list@.len() - i,
            {
                if state.folder_list[i].id == id {
                    proof {
                        lemma_first_with_id(state.folder_list@, id, i as int);
                    }
                    return Some(&state.folder_list[i]);
                }
                i = i + 1;
            }
            proof {
                lemma_first_with_id(state.folder_list@, id, i as int);
            }
            None
        },
        None => None,
    }
}

/// Calls `f` once with the selected folder and returns what it returns.
pub fn with_selected_folder<F, R>(reducer: &FolderReducer, f: F) -> (r: R) where
    F: FnOnce(Option<&Folder>) -> R,

    requires
        forall|x: Option<&Folder>| f.requires((x,)),
    ensures
        exists|x: Option<&Folder>|
            deref_folder(x) == selected_in(reducer.store()) && f.ensures((x,), r),
{
    let selected = selected_folder(reducer.state());
    let r = f(selected);
    assert(deref_folder(selected) == selected_in(reducer.store()) && f.ensures((selected,), r));
    r
}

/// Calls `f` with the scripts of the selected folder.
pub fn with_scritps_from_selected_folder<F, R>(reducer: &FolderReducer, f: F) -> (r: R) where
    F: FnOnce(&Vec<Script>) -> R,

    requires
        f.requires((&reducer.store().scripts_of_selected_folder,)),
    ensures
        f.ensures((&reducer.store().scripts_of_selected_folder,), r),
{
    f(&reducer.state().scripts_of_selected_folder)
}

/// Calls `f` with read access to the snapshot.
pub fn with_folder_state<F, R>(reducer: &FolderReducer, f: F) -> (r: R) where
    F: FnOnce(&FoldersState) -> R,

    requires
        f.requires((&reducer.store(),)),
    ensures
        f.ensures((&reducer.store(),), r),
{
    f(reducer.state())
}

/// Calls `f` with the reducer, the one way to change the snapshot.
pub fn with_folder_state_reducer<F, R>(reducer: &mut FolderReducer, f: F) -> (r: R) where
    F: FnOnce(&mut FolderReducer) -> R,

    requires
        forall|x: &mut FolderReducer| *x == *old(reducer) ==> f.requires((x,)),
    ensures
        exists|x: &mut FolderReducer|
            *x == *old(reducer) && *final(x) == *final(reducer) && f.ensures((x,), r),
{
    f(reducer)
}

/// The application: the two columns and the handlers that the drain loop routes
/// messages to.
pub struct App {
    pub folder_col: FolderColumn,
    pub scripts_col: ScriptsColumn,
    pub folder_command_handler: FolderCommandHandler,
    pub folder_event_handler: FolderEventHandler,
}

impl Default for App {
    fn default() -> (r: App)
        ensures
            r.scripts_col.is_fresh(),
    {
        App {
            folder_col: FolderColumn::new(),
            scripts_col: ScriptsColumn::new(),
            folder_command_handler: FolderCommandHandler::new(),
            folder_event_handler: FolderEventHandler::new(),
        }
    }
}

} // verus!
