use vstd::prelude::*;

use crate::model::{
    folders_view, renumbered, scripts_view, AppStateData, Folder, FolderView, Script, ScriptView,
};

verus! {

/// The UI-visible snapshot: the cached folders, the scripts of the selected folder, the
/// selection, and the transient state that coordinates confirmation dialogs.
pub struct FoldersState {
    pub selected_folder_id: Option<i32>,
    pub app_state: Option<AppStateData>,
    pub folder_list: Vec<Folder>,
    pub scripts_of_selected_folder: Vec<Script>,
    pub folder_to_delete: Option<Folder>,
    pub folder_to_rename: Option<Folder>,
    pub rename_text: Option<String>,
    pub script_to_edit: Option<Script>,
}

impl FoldersState {
    pub open spec fn folders(&self) -> Seq<FolderView> {
        folders_view(self.folder_list@)
    }

    pub open spec fn scripts(&self) -> Seq<ScriptView> {
        scripts_view(self.scripts_of_selected_folder@)
    }

    /// An empty snapshot: nothing selected, no folders, no scripts.
    pub fn new() -> (r: FoldersState)
        ensures
            r.selected_folder_id is None,
            r.app_state is None,
            r.folder_list@.len() == 0,
            r.scripts_of_selected_folder@.len() == 0,
            r.folder_to_delete is None,
            r.folder_to_rename is None,
            r.rename_text is None,
            r.script_to_edit is None,
    {
        FoldersState {
            selected_folder_id: None,
            app_state: None,
            folder_list: Vec::new(),
            scripts_of_selected_folder: Vec::new(),
            folder_to_delete: None,
            folder_to_rename: None,
            rename_text: None,
            script_to_edit: None,
        }
    }
}

/// `s` without the folders whose id is `id`, renumbered by position.
pub open spec fn without_folder(s: Seq<FolderView>, id: i32) -> Seq<FolderView> {
    renumbered(s.filter(other_folder(id)))
}

pub open spec fn other_folder(id: i32) -> spec_fn(FolderView) -> bool {
    |f: FolderView| f.id != id
}

pub open spec fn other_script(id: i32) -> spec_fn(ScriptView) -> bool {
    |c: ScriptView| c.id != id
}

/// `s` without the scripts whose id is `id`.
pub open spec fn without_script(s: Seq<ScriptView>, id: i32) -> Seq<ScriptView> {
    s.filter(other_script(id))
}

/// `s` with every folder whose id is `id` carrying the name `name`.
pub open spec fn renamed(s: Seq<FolderView>, id: i32, name: Seq<char>) -> Seq<FolderView> {
    Seq::new(
        s.len(),
        |i: int|
            if s[i].id == id {
                FolderView { name: name, ..s[i] }
            } else {
                s[i]
            },
    )
}

/// Where the moved folder lands once its own slot has been vacated: one place higher
/// when it moves down the list, unchanged when it moves up.
pub open spec fn insertion_point(from: int, to: int) -> int {
    if from < to {
        to - 1
    } else {
        to
    }
}

/// A move from `from` to `to` in a list of `n` folders names an existing folder and a
/// place in the list.
pub open spec fn move_in_range(n: int, from: int, to: int) -> bool {
    0 <= from < n && 0 <= to <= n
}

/// `s` with the element at `from` taken out and put back at the insertion point.
pub open spec fn moved<A>(s: Seq<A>, from: int, to: int) -> Seq<A> {
    s.remove(from).insert(insertion_point(from, to), s[from])
}

/// The folder list after a move: the moved list renumbered, or `s` itself when the move
/// is out of range.
pub open spec fn reordered(s: Seq<FolderView>, from: int, to: int) -> Seq<FolderView> {
    if move_in_range(s.len() as int, from, to) {
        renumbered(moved(s, from, to))
    } else {
        s
    }
}

/// A copy of the folders, with each ordering set to the folder's position.
pub fn renumber_folders(v: &Vec<Folder>) -> (r: Vec<Folder>)
    requires
        v@.len() <= i32::MAX,
    ensures
        folders_view(r@) == renumbered(folders_view(v@)),
{
    let mut out: Vec<Folder> = Vec::new();
    let mut i: usize = 0;
    while i < v.len()
        invariant
            i <= v@.len() <= i32::MAX,
            folders_view(out@) == renumbered(folders_view(v@.take(i as int))),
        decreases v@.len() - i,
    {
        let ghost prev = out@;
        let f = &v[i];
        out.push(Folder { id: f.id, name: f.name.clone(), ordering: i as i32 });
        proof {
            assert(v@.take(i as int + 1) =~= v@.take(i as int).push(v@[i as int]));
            assert(folders_view(out@) =~= folders_view(prev).push(out@[i as int]@));
            assert(folders_view(out@) =~= renumbered(folders_view(v@.take(i as int + 1))));
        }
        i = i + 1;
    }
    proof {
        assert(v@.take(i as int) =~= v@);
    }
    out
}

/// A copy of the folders.
pub fn copy_folders(v: &Vec<Folder>) -> (r: Vec<Folder>)
    ensures
        folders_view(r@) == folders_view(v@),
{
    let mut out: Vec<Folder> = Vec::new();
    let mut i: usize = 0;
    while i < v.len()
        invariant
            i <= v@.len(),
            folders_view(out@) == folders_view(v@.take(i as int)),
        decreases v@.len() - i,
    {
        let ghost prev = out@;
        out.push(v[i].duplicate());
        proof {
            assert(v@.take(i as int + 1) =~= v@.take(i as int).push(v@[i as int]));
            assert(folders_view(out@) =~= folders_view(prev).push(out@[i as int]@));
            assert(folders_view(out@) =~= folders_view(v@.take(i as int + 1)));
        }
        i = i + 1;
    }
    proof {
        assert(v@.take(i as int) =~= v@);
    }
    out
}

/// Filtering a sequence with one more element at its end.
pub proof fn lemma_filter_push<A>(s: Seq<A>, e: A, p: spec_fn(A) -> bool)
    ensures
        s.push(e).filter(p) == (if p(e) {
            s.filter(p).push(e)
        } else {
            s.filter(p)
        }),
{
    reveal(Seq::filter);
    assert(s.push(e).drop_last() =~= s);
}

/// The only writer of the snapshot. Each method is named after its effect and changes
/// exactly the fields that its contract names.
pub struct FolderReducer {
    state: FoldersState,
}

impl FolderReducer {
    /// The snapshot that the reducer holds.
    pub closed spec fn store(&self) -> FoldersState {
        self.state
    }

    pub open spec fn folders(&self) -> Seq<FolderView> {
        self.store().folders()
    }

    pub open spec fn scripts(&self) -> Seq<ScriptView> {
        self.store().scripts()
    }

    pub fn new() -> (r: FolderReducer)
        ensures
            r.store().selected_folder_id is None,
            r.store().app_state is None,
            r.folders().len() == 0,
            r.scripts().len() == 0,
            r.store().folder_to_delete is None,
            r.store().folder_to_rename is None,
            r.store().rename_text is None,
            r.store().script_to_edit is None,
    {
        FolderReducer { state: FoldersState::new() }
    }

    /// Read access to the snapshot.
    pub fn state(&self) -> (r: &FoldersState)
        ensures
            *r == self.store(),
    {
        &self.state
    }

    pub fn select_folder(&mut self, id: i32)
        ensures
            final(self).store() == (FoldersState {
                selected_folder_id: Some(id),
                ..old(self).store()
            }),
    {
        self.state.selected_folder_id = Some(id);
    }

    /// Drops the folder `id` from the cached list and renumbers the rest by position.
    pub fn delete_folder(&mut self, id: i32)
        requires
            old(self).folders().len() <= i32::MAX,
        ensures
            final(self).folders() == without_folder(old(self).folders(), id),
            final(self).store() == (FoldersState {
                folder_list: final(self).store().folder_list,
                ..old(self).store()
            }),
    {
        let ghost sv = self.folders();
        let ghost p = other_folder(id);
        let mut out: Vec<Folder> = Vec::new();
        let mut i: usize = 0;
        while i < self.state.folder_list.len()
            invariant
                i <= sv.len() <= i32::MAX,
                sv == folders_view(self.state.folder_list@),
                self.state == old(self).state,
                p == other_folder(id),
                folders_view(out@) == renumbered(sv.take(i as int).filter(p)),
                sv.take(i as int).filter(p).len() <= i,
            decreases sv.len() - i,
        {
            let ghost prev = out@;
            proof {
                assert(sv.take(i as int + 1) =~= sv.take(i as int).push(sv[i as int]));
                lemma_filter_push(sv.take(i as int), sv[i as int], p);
                assert(p(sv[i as int]) == (sv[i as int].id != id));
            }
            let f = &self.state.folder_list[i];
            if f.id != id {
                let k = out.len();
                assert(folders_view(out@).len() == out@.len());
                assert(renumbered(sv.take(i as int).filter(p)).len() == sv.take(
                    i as int,
                ).filter(p).len());
                assert(k == sv.take(i as int).filter(p).len());
                out.push(Folder { id: f.id, name: f.name.clone(), ordering: k as i32 });
                proof {
                    assert(folders_view(out@) =~= folders_view(prev).push(out@[k as int]@));
                    assert(folders_view(out@) =~= renumbered(sv.take(i as int + 1).filter(p)));
                }
            } else {
                assert(sv.take(i as int + 1).filter(p) == sv.take(i as int).filter(p));
            }
            i = i + 1;
        }
        proof {
            assert(sv.take(i as int) =~= sv);
        }
        self.state.folder_list = out;
    }

    /// Drops the script `script_id` from the scripts of the selected folder.
    pub fn delete_script_from_selected_folder(&mut self, script_id: i32)
        ensures
            final(self).scripts() == without_script(old(self).scripts(), script_id),
            final(self).store() == (FoldersState {
                scripts_of_selected_folder: final(self).store().scripts_of_selected_folder,
                ..old(self).store()
            }),
    {
        let ghost sv = self.scripts();
        let ghost p = other_script(script_id);
        let mut out: Vec<Script> = Vec::new();
        let mut i: usize = 0;
        while i < self.state.scripts_of_selected_folder.len()
            invariant
                i <= sv.len(),
                sv == scripts_view(self.state.scripts_of_selected_folder@),
                self.state == old(self).state,
                p == other_script(script_id),
                scripts_view(out@) == sv.take(i as int).filter(p),
            decreases sv.len() - i,
        {
            let ghost prev = out@;
            proof {
                assert(sv.take(i as int + 1) =~= sv.take(i as int).push(sv[i as int]));
                lemma_filter_push(sv.take(i as int), sv[i as int], p);
                assert(p(sv[i as int]) == (sv[i as int].id != script_id));
            }
            let c = &self.state.scripts_of_selected_folder[i];
            if c.id != script_id {
                let k = out.len();
                out.push(c.duplicate());
                proof {
                    assert(scripts_view(out@) =~= scripts_view(prev).push(out@[k as int]@));
                }
            }
            i = i + 1;
        }
        proof {
            assert(sv.take(i as int) =~= sv);
        }
        self.state.scripts_of_selected_folder = out;
    }

    /// Gives the cached folder `id` the name `new_name`.
    pub fn rename_folder(&mut self, id: i32, new_name: &str)
        ensures
            final(self).folders() == renamed(old(self).folders(), id, new_name@),
            final(self).store() == (FoldersState {
                folder_list: final(self).store().folder_list,
                ..old(self).store()
            }),
    {
        let ghost sv = self.folders();
        let mut out: Vec<Folder> = Vec::new();
        let mut i: usize = 0;
        while i < self.state.folder_list.len()
            invariant
                i <= sv.len(),
                sv == folders_view(self.state.folder_list@),
                self.state == old(self).state,
                folders_view(out@) == renamed(sv, id, new_name@).take(i as int),
            decreases sv.len() - i,
        {
            let ghost prev = out@;
            let f = &self.state.folder_list[i];
            if f.id == id {
                out.push(Folder { id: f.id, name: new_name.to_owned(), ordering: f.ordering });
            } else {
                out.push(f.duplicate());
            }
            proof {
                assert(folders_view(out@) =~= folders_view(prev).push(out@[i as int]@));
                assert(folders_view(out@) =~= renamed(sv, id, new_name@).take(i as int + 1));
            }
            i = i + 1;
        }
        proof {
            assert(renamed(sv, id, new_name@).take(i as int) =~= renamed(sv, id, new_name@));
        }
        self.state.folder_list = out;
    }

    /// Moves the cached folder at `from_index` to the insertion point for `to_index` and
    /// renumbers by position; an out-of-range move leaves the list as it is.
    pub fn insert_folder_into_index(&mut self, from_index: usize, to_index: usize)
        requires
            old(self).folders().len() <= i32::MAX,
        ensures
            final(self).folders() == reordered(
                old(self).folders(),
                from_index as int,
                to_index as int,
            ),
            final(self).store() == (FoldersState {
                folder_list: final(self).store().folder_list,
                ..old(self).store()
            }),
    {
        let n = self.state.folder_list.len();
        if from_index < n && to_index <= n {
            let ghost sv = self.folders();
            let mut v = copy_folders(&self.state.folder_list);
            let f = v.remove(from_index);
            let at = if from_index < to_index {
                to_index - 1
            } else {
                to_index
            };
            v.insert(at, f);
            proof {
                assert(folders_view(v@) =~= moved(sv, from_index as int, to_index as int));
            }
            self.state.folder_list = renumber_folders(&v);
        }
    }

    /// Opens the rename dialog for `folder`, with its current name as the draft.
    pub fn begin_folder_rename(&mut self, folder: &Folder)
        ensures
            final(self).store().folder_to_rename matches Some(f) && f@ == folder@,
            final(self).store().rename_text matches Some(t) && t@ == folder.name@,
            final(self).store() == (FoldersState {
                folder_to_rename: final(self).store().folder_to_rename,
                rename_text: final(self).store().rename_text,
                ..old(self).store()
            }),
    {
        self.state.folder_to_rename = Some(folder.duplicate());
        self.state.rename_text = Some(folder.name.clone());
    }

    /// Replaces the draft name of the rename dialog.
    pub fn set_rename_text(&mut self, text: String)
        ensures
            final(self).store() == (FoldersState { rename_text: Some(text), ..old(self).store() }),
    {
        self.state.rename_text = Some(text);
    }

    /// Closes the rename dialog and forgets the draft.
    pub fn end_folder_rename(&mut self)
        ensures
            final(self).store() == (FoldersState {
                folder_to_rename: None,
                rename_text: None,
                ..old(self).store()
            }),
    {
        self.state.folder_to_rename = None;
        self.state.rename_text = None;
    }

    /// Opens the delete confirmation for `folder`.
    pub fn begin_folder_delete(&mut self, folder: &Folder)
        ensures
            final(self).store().folder_to_delete matches Some(f) && f@ == folder@,
            final(self).store() == (FoldersState {
                folder_to_delete: final(self).store().folder_to_delete,
                ..old(self).store()
            }),
    {
        self.state.folder_to_delete = Some(folder.duplicate());
    }

    /// Closes the delete confirmation.
    pub fn end_folder_delete(&mut self)
        ensures
            final(self).store() == (FoldersState { folder_to_delete: None, ..old(self).store() }),
    {
        self.state.folder_to_delete = None;
    }

    /// Sets or clears the script whose editor is open.
    pub fn set_script_to_edit(&mut self, script: Option<Script>)
        ensures
            final(self).store() == (FoldersState { script_to_edit: script, ..old(self).store() }),
    {
        self.state.script_to_edit = script;
    }

    pub fn set_folder_list(&mut self, folders: Vec<Folder>)
        ensures
            final(self).store() == (FoldersState { folder_list: folders, ..old(self).store() }),
    {
        self.state.folder_list = folders;
    }

    pub fn set_scripts_of_selected_folder(&mut self, scripts: Vec<Script>)
        ensures
            final(self).store() == (FoldersState {
                scripts_of_selected_folder: scripts,
                ..old(self).store()
            }),
    {
        self.state.scripts_of_selected_folder = scripts;
    }

    pub fn set_app_state(&mut self, app_state: Option<AppStateData>)
        ensures
            final(self).store() == (FoldersState { app_state: app_state, ..old(self).store() }),
    {
        self.state.app_state = app_state;
    }
}

/// Renaming a folder to the name it already has leaves the list content-equal: same
/// ids, names and orderings, in the same order.
pub proof fn lemma_rename_to_same_name(s: Seq<FolderView>, id: i32, name: Seq<char>)
    requires
        forall|i: int| 0 <= i < s.len() && #[trigger] s[i].id == id ==> s[i].name == name,
    ensures
        renamed(s, id, name) == s,
{
    assert(renamed(s, id, name) =~= s);
}

} // verus!
