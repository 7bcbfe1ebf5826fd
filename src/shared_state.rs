use vstd::prelude::*;

use crate::model::{folders_view, Folder, FolderView};
use crate::state::copy_folders;

verus! {

/// A minimal shared snapshot: a list of folders and the selected folder's id.
pub struct AppState {
    folders: Vec<Folder>,
    selected_folder: Option<i32>,
}

impl AppState {
    pub closed spec fn folders(&self) -> Seq<FolderView> {
        folders_view(self.folders@)
    }

    pub closed spec fn selected(&self) -> Option<i32> {
        self.selected_folder
    }

    pub fn new() -> (r: AppState)
        ensures
            r.folders().len() == 0,
            r.selected() is None,
    {
        AppState { folders: Vec::new(), selected_folder: None }
    }

    /// A copy of the folders.
    pub fn get_folders(&self) -> (r: Vec<Folder>)
        ensures
            folders_view(r@) == self.folders(),
    {
        copy_folders(&self.folders)
    }

    /// Appends `folder` to the list.
    pub fn add_folder(&mut self, folder: Folder)
        ensures
            final(self).folders() == old(self).folders().push(folder@),
            final(self).selected() == old(self).selected(),
    {
        let ghost prev = self.folders@;
        self.folders.push(folder);
        proof {
            assert(folders_view(self.folders@) =~= folders_view(prev).push(folder@));
        }
    }

    pub fn select_folder(&mut self, id: i32)
        ensures
            final(self).selected() == Some(id),
            final(self).folders() == old(self).folders(),
    {
        self.selected_folder = Some(id);
    }

    pub fn get_selected_folder(&self) -> (r: Option<i32>)
        ensures
            r == self.selected(),
    {
        self.selected_folder
    }
}

} // verus!
