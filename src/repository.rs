use vstd::prelude::*;

use crate::arrange::{position_updates, updates_view};
use crate::message::{RepoError, RepoReply, RepoRequest, ReplyView, RequestView};
use crate::model::{
    dense_orderings, orderings_of,
    folders_view, scripts_view, AppStateData, Folder, FolderView, Script, ScriptView,
};
use crate::state::{copy_folders, lemma_filter_push, other_folder, renamed};

verus! {

/// The persisted records: folders, scripts, the folder-script relation and the singleton
/// application state, with the next ids to hand out.
pub struct RepoView {
    pub folders: Seq<FolderView>,
    pub scripts: Seq<ScriptView>,
    pub relations: Seq<(i32, i32)>,
    pub app_state: Option<AppStateData>,
    pub next_folder_id: i32,
    pub next_script_id: i32,
}

pub open spec fn has_folder(r: RepoView, id: i32) -> bool {
    exists|i: int| 0 <= i < r.folders.len() && r.folders[i].id == id
}

pub open spec fn has_script(r: RepoView, id: i32) -> bool {
    exists|i: int| 0 <= i < r.scripts.len() && r.scripts[i].id == id
}

/// Some relation row links the script `script_id` to a folder.
pub open spec fn script_is_linked(rels: Seq<(i32, i32)>, script_id: i32) -> bool {
    exists|i: int| 0 <= i < rels.len() && rels[i].1 == script_id
}

pub open spec fn not_in_folder(folder_id: i32) -> spec_fn((i32, i32)) -> bool {
    |p: (i32, i32)| p.0 != folder_id
}

pub open spec fn not_of_script(script_id: i32) -> spec_fn((i32, i32)) -> bool {
    |p: (i32, i32)| p.1 != script_id
}

pub open spec fn other_script_id(script_id: i32) -> spec_fn(ScriptView) -> bool {
    |c: ScriptView| c.id != script_id
}

/// A script survives the deletion of folder `folder_id` unless that deletion leaves it
/// with no relation row at all.
pub open spec fn survives_folder_deletion(
    rels: Seq<(i32, i32)>,
    folder_id: i32,
) -> spec_fn(ScriptView) -> bool {
    |c: ScriptView|
        !(rels.contains((folder_id, c.id)) && !script_is_linked(
            rels.filter(not_in_folder(folder_id)),
            c.id,
        ))
}

pub open spec fn linked_to(rels: Seq<(i32, i32)>, folder_id: i32) -> spec_fn(ScriptView) -> bool {
    |c: ScriptView| rels.contains((folder_id, c.id))
}

/// The scripts related to folder `folder_id`.
pub open spec fn scripts_of_folder(r: RepoView, folder_id: i32) -> Seq<ScriptView> {
    r.scripts.filter(linked_to(r.relations, folder_id))
}

/// The records after deleting folder `folder_id`: its relation rows go, then the scripts
/// that this leaves without any relation, then the folder itself.
pub open spec fn folder_removed(r: RepoView, folder_id: i32) -> RepoView {
    RepoView {
        folders: r.folders.filter(other_folder(folder_id)),
        scripts: r.scripts.filter(survives_folder_deletion(r.relations, folder_id)),
        relations: r.relations.filter(not_in_folder(folder_id)),
        ..r
    }
}

/// `s` with the folder named by update `u` given the update's ordering.
pub open spec fn order_applied(s: Seq<FolderView>, u: (i32, i32)) -> Seq<FolderView> {
    Seq::new(
        s.len(),
        |i: int|
            if s[i].id == u.0 {
                FolderView { ordering: u.1, ..s[i] }
            } else {
                s[i]
            },
    )
}

/// `s` after a batch of ordering updates, applied in turn.
pub open spec fn orders_applied(s: Seq<FolderView>, us: Seq<(i32, i32)>) -> Seq<FolderView>
    decreases us.len(),
{
    if us.len() == 0 {
        s
    } else {
        order_applied(orders_applied(s, us.drop_last()), us.last())
    }
}

pub open spec fn script_changed(
    s: Seq<ScriptView>,
    id: i32,
    name: Option<Seq<char>>,
    command: Option<Seq<char>>,
) -> Seq<ScriptView> {
    Seq::new(
        s.len(),
        |i: int|
            if s[i].id == id {
                ScriptView {
                    name: match name {
                        Some(n) => n,
                        None => s[i].name,
                    },
                    command: match command {
                        Some(c) => c,
                        None => s[i].command,
                    },
                    ..s[i]
                }
            } else {
                s[i]
            },
    )
}

/// What one request does to the records, and what it answers. Updates by id touch every
/// matching record and succeed when none matches; deletes and links fail on a missing
/// record; creation fails once ids run out.
pub open spec fn apply_request(r: RepoView, q: RequestView) -> (RepoView, ReplyView) {
    match q {
        RequestView::CreateFolder { name, ordering } => if r.next_folder_id == i32::MAX {
            (r, ReplyView::Failed(RepoError::IdsExhausted))
        } else {
            let f = FolderView { id: r.next_folder_id, name, ordering };
            (
                RepoView {
                    folders: r.folders.push(f),
                    next_folder_id: (r.next_folder_id + 1) as i32,
                    ..r
                },
                ReplyView::Folder(f),
            )
        },
        RequestView::GetAllFolders => (r, ReplyView::Folders(r.folders)),
        RequestView::GetFolderCount => (r, ReplyView::Count(r.folders.len() as i64)),
        RequestView::DeleteFolder { folder_id } => if has_folder(r, folder_id) {
            (folder_removed(r, folder_id), ReplyView::Done)
        } else {
            (r, ReplyView::Failed(RepoError::NotFound))
        },
        RequestView::BatchUpdateFolderOrder { updates } => (
            RepoView { folders: orders_applied(r.folders, updates), ..r },
            ReplyView::Done,
        ),
        RequestView::RenameFolder { folder_id, new_name } => (
            RepoView { folders: renamed(r.folders, folder_id, new_name), ..r },
            ReplyView::Done,
        ),
        RequestView::UpsertAppStateLastFolder { folder_id } => (
            RepoView {
                app_state: Some(
                    AppStateData {
                        id: match r.app_state {
                            Some(a) => a.id,
                            None => 1,
                        },
                        last_opened_folder_id: Some(folder_id),
                    },
                ),
                ..r
            },
            ReplyView::Done,
        ),
        RequestView::GetAppState => (r, ReplyView::AppState(r.app_state)),
        RequestView::CreateScript { name, command } => if r.next_script_id == i32::MAX {
            (r, ReplyView::Failed(RepoError::IdsExhausted))
        } else {
            let c = ScriptView { id: r.next_script_id, name, command };
            (
                RepoView {
                    scripts: r.scripts.push(c),
                    next_script_id: (r.next_script_id + 1) as i32,
                    ..r
                },
                ReplyView::Script(c),
            )
        },
        RequestView::LinkScriptToFolder { folder_id, script_id } => if has_folder(r, folder_id)
            && has_script(r, script_id) {
            (RepoView { relations: r.relations.push((folder_id, script_id)), ..r }, ReplyView::Done)
        } else {
            (r, ReplyView::Failed(RepoError::NotFound))
        },
        RequestView::GetScriptsForFolder { folder_id } => (
            r,
            ReplyView::Scripts(scripts_of_folder(r, folder_id)),
        ),
        RequestView::UpdateScriptCommand { script_id, new_command } => (
            RepoView { scripts: script_changed(r.scripts, script_id, None, Some(new_command)), ..r },
            ReplyView::Done,
        ),
        RequestView::UpdateScriptName { script_id, new_name } => (
            RepoView { scripts: script_changed(r.scripts, script_id, Some(new_name), None), ..r },
            ReplyView::Done,
        ),
        RequestView::DeleteScript { script_id } => if has_script(r, script_id) {
            (
                RepoView {
                    scripts: r.scripts.filter(other_script_id(script_id)),
                    relations: r.relations.filter(not_of_script(script_id)),
                    ..r
                },
                ReplyView::Done,
            )
        } else {
            (r, ReplyView::Failed(RepoError::NotFound))
        },
    }
}

} // verus!

verus! {

/// Folder ids are at least 1, below the next id to hand out, and pairwise distinct.
pub open spec fn folder_ids_ok(s: Seq<FolderView>, next: i32) -> bool {
    &&& forall|i: int| 0 <= i < s.len() ==> 1 <= #[trigger] s[i].id < next
    &&& forall|i: int, j: int| 0 <= i < j < s.len() ==> #[trigger] s[i].id != #[trigger] s[j].id
}

/// Script ids are at least 1, below the next id to hand out, and pairwise distinct.
pub open spec fn script_ids_ok(s: Seq<ScriptView>, next: i32) -> bool {
    &&& forall|i: int| 0 <= i < s.len() ==> 1 <= #[trigger] s[i].id < next
    &&& forall|i: int, j: int| 0 <= i < j < s.len() ==> #[trigger] s[i].id != #[trigger] s[j].id
}

/// The records are well formed: every id is unique and was handed out by its counter.
pub open spec fn repo_wf(r: RepoView) -> bool {
    &&& 1 <= r.next_folder_id
    &&& 1 <= r.next_script_id
    &&& folder_ids_ok(r.folders, r.next_folder_id)
    &&& script_ids_ok(r.scripts, r.next_script_id)
}

pub proof fn lemma_filter_folder_ids(s: Seq<FolderView>, p: spec_fn(FolderView) -> bool, next: i32)
    requires
        folder_ids_ok(s, next),
    ensures
        folder_ids_ok(s.filter(p), next),
    decreases s.len(),
{
    reveal(Seq::filter);
    if s.len() > 0 {
        let d = s.drop_last();
        assert(folder_ids_ok(d, next)) by {
            assert forall|i: int, j: int| 0 <= i < j < d.len() implies #[trigger] d[i].id
                != #[trigger] d[j].id by {
                assert(d[i] == s[i] && d[j] == s[j]);
            }
            assert forall|i: int| 0 <= i < d.len() implies 1 <= #[trigger] d[i].id < next by {
                assert(d[i] == s[i]);
            }
        }
        lemma_filter_folder_ids(d, p, next);
        let fd = d.filter(p);
        if p(s.last()) {
            let t = fd.push(s.last());
            assert forall|i: int| 0 <= i < t.len() implies 1 <= #[trigger] t[i].id < next by {
                if i < fd.len() {
                    assert(t[i] == fd[i]);
                }
            }
            assert forall|i: int, j: int| 0 <= i < j < t.len() implies #[trigger] t[i].id
                != #[trigger] t[j].id by {
                if j == t.len() - 1 {
                    assert(t[i] == fd[i]);
                    assert(fd.contains(fd[i]));
                    d.lemma_filter_contains_rev(p, fd[i]);
                    let k = choose|k: int| 0 <= k < d.len() && d[k] == fd[i];
                    assert(s[k] == d[k]);
                    assert(s[k].id != s[s.len() - 1].id);
                } else {
                    assert(t[i] == fd[i] && t[j] == fd[j]);
                }
            }
        }
    }
}

proof fn lemma_filter_script_ids(s: Seq<ScriptView>, p: spec_fn(ScriptView) -> bool, next: i32)
    requires
        script_ids_ok(s, next),
    ensures
        script_ids_ok(s.filter(p), next),
    decreases s.len(),
{
    reveal(Seq::filter);
    if s.len() > 0 {
        let d = s.drop_last();
        assert(script_ids_ok(d, next)) by {
            assert forall|i: int, j: int| 0 <= i < j < d.len() implies #[trigger] d[i].id
                != #[trigger] d[j].id by {
                assert(d[i] == s[i] && d[j] == s[j]);
            }
            assert forall|i: int| 0 <= i < d.len() implies 1 <= #[trigger] d[i].id < next by {
                assert(d[i] == s[i]);
            }
        }
        lemma_filter_script_ids(d, p, next);
        let fd = d.filter(p);
        if p(s.last()) {
            let t = fd.push(s.last());
            assert forall|i: int| 0 <= i < t.len() implies 1 <= #[trigger] t[i].id < next by {
                if i < fd.len() {
                    assert(t[i] == fd[i]);
                }
            }
            assert forall|i: int, j: int| 0 <= i < j < t.len() implies #[trigger] t[i].id
                != #[trigger] t[j].id by {
                if j == t.len() - 1 {
                    assert(t[i] == fd[i]);
                    assert(fd.contains(fd[i]));
                    d.lemma_filter_contains_rev(p, fd[i]);
                    let k = choose|k: int| 0 <= k < d.len() && d[k] == fd[i];
                    assert(s[k] == d[k]);
                    assert(s[k].id != s[s.len() - 1].id);
                } else {
                    assert(t[i] == fd[i] && t[j] == fd[j]);
                }
            }
        }
    }
}

/// Ordering updates change no folder's id and keep the list's length.
pub proof fn lemma_orders_applied_keep_ids(s: Seq<FolderView>, us: Seq<(i32, i32)>)
    ensures
        orders_applied(s, us).len() == s.len(),
        forall|i: int| 0 <= i < s.len() ==> #[trigger] orders_applied(s, us)[i].id == s[i].id,
        forall|i: int| 0 <= i < s.len() ==> #[trigger] orders_applied(s, us)[i].name == s[i].name,
    decreases us.len(),
{
    if us.len() > 0 {
        lemma_orders_applied_keep_ids(s, us.drop_last());
        let t = orders_applied(s, us.drop_last());
        assert forall|i: int| 0 <= i < s.len() implies #[trigger] orders_applied(s, us)[i].id
            == s[i].id && orders_applied(s, us)[i].name == s[i].name by {
            assert(order_applied(t, us.last())[i].id == t[i].id);
        }
    }
}

/// Every request keeps the records well formed.
pub proof fn lemma_request_keeps_wf(r: RepoView, q: RequestView)
    requires
        repo_wf(r),
    ensures
        repo_wf(apply_request(r, q).0),
{
    let post = apply_request(r, q).0;
    match q {
        RequestView::DeleteFolder { folder_id } => {
            if has_folder(r, folder_id) {
                lemma_filter_folder_ids(r.folders, other_folder(folder_id), r.next_folder_id);
                lemma_filter_script_ids(
                    r.scripts,
                    survives_folder_deletion(r.relations, folder_id),
                    r.next_script_id,
                );
            }
        },
        RequestView::DeleteScript { script_id } => {
            if has_script(r, script_id) {
                lemma_filter_script_ids(r.scripts, other_script_id(script_id), r.next_script_id);
            }
        },
        RequestView::BatchUpdateFolderOrder { updates } => {
            lemma_orders_applied_keep_ids(r.folders, updates);
        },
        RequestView::RenameFolder { folder_id, new_name } => {
            assert forall|i: int| 0 <= i < r.folders.len() implies #[trigger] post.folders[i].id
                == r.folders[i].id by {}
        },
        RequestView::UpdateScriptCommand { .. } => {
            assert forall|i: int| 0 <= i < r.scripts.len() implies #[trigger] post.scripts[i].id
                == r.scripts[i].id by {}
        },
        RequestView::UpdateScriptName { .. } => {
            assert forall|i: int| 0 <= i < r.scripts.len() implies #[trigger] post.scripts[i].id
                == r.scripts[i].id by {}
        },
        RequestView::CreateFolder { .. } => {
            if r.next_folder_id != i32::MAX {
                assert forall|i: int| 0 <= i < post.folders.len() implies 1 <= #[trigger] post.folders[i].id
                    < post.next_folder_id by {
                    if i < r.folders.len() {
                        assert(post.folders[i] == r.folders[i]);
                    }
                }
                assert forall|i: int, j: int| 0 <= i < j < post.folders.len() implies #[trigger] post.folders[i].id
                    != #[trigger] post.folders[j].id by {
                    assert(post.folders[i] == r.folders[i]);
                    if j < r.folders.len() {
                        assert(post.folders[j] == r.folders[j]);
                    }
                }
            }
        },
        RequestView::CreateScript { .. } => {
            if r.next_script_id != i32::MAX {
                assert forall|i: int| 0 <= i < post.scripts.len() implies 1 <= #[trigger] post.scripts[i].id
                    < post.next_script_id by {
                    if i < r.scripts.len() {
                        assert(post.scripts[i] == r.scripts[i]);
                    }
                }
                assert forall|i: int, j: int| 0 <= i < j < post.scripts.len() implies #[trigger] post.scripts[i].id
                    != #[trigger] post.scripts[j].id by {
                    assert(post.scripts[i] == r.scripts[i]);
                    if j < r.scripts.len() {
                        assert(post.scripts[j] == r.scripts[j]);
                    }
                }
            }
        },
        _ => {},
    }
}

fn folder_exists(v: &Vec<Folder>, id: i32) -> (r: bool)
    ensures
        r == exists|i: int| 0 <= i < v@.len() && #[trigger] folders_view(v@)[i].id == id,
{
    let ghost sv = folders_view(v@);
    let mut i: usize = 0;
    while i < v.len()
        invariant
            i <= v@.len(),
            sv == folders_view(v@),
            forall|k: int| 0 <= k < i ==> #[trigger] sv[k].id != id,
        decreases v@.len() - i,
    {
        if v[i].id == id {
            assert(sv[i as int].id == id);
            return true;
        }
        i = i + 1;
    }
    false
}

fn script_exists(v: &Vec<Script>, id: i32) -> (r: bool)
    ensures
        r == exists|i: int| 0 <= i < v@.len() && #[trigger] scripts_view(v@)[i].id == id,
{
    let ghost sv = scripts_view(v@);
    let mut i: usize = 0;
    while i < v.len()
        invariant
            i <= v@.len(),
            sv == scripts_view(v@),
            forall|k: int| 0 <= k < i ==> #[trigger] sv[k].id != id,
        decreases v@.len() - i,
    {
        if v[i].id == id {
            assert(sv[i as int].id == id);
            return true;
        }
        i = i + 1;
    }
    false
}

fn relation_exists(rels: &Vec<(i32, i32)>, p: (i32, i32)) -> (r: bool)
    ensures
        r == rels@.contains(p),
{
    let mut i: usize = 0;
    while i < rels.len()
        invariant
            i <= rels@.len(),
            forall|k: int| 0 <= k < i ==> rels@[k] != p,
        decreases rels@.len() - i,
    {
        if rels[i].0 == p.0 && rels[i].1 == p.1 {
            proof {
                assert(rels@[i as int] == p);
            }
            return true;
        }
        i = i + 1;
    }
    false
}

fn script_linked(rels: &Vec<(i32, i32)>, script_id: i32) -> (r: bool)
    ensures
        r == script_is_linked(rels@, script_id),
{
    let mut i: usize = 0;
    while i < rels.len()
        invariant
            i <= rels@.len(),
            forall|k: int| 0 <= k < i ==> rels@[k].1 != script_id,
        decreases rels@.len() - i,
    {
        if rels[i].1 == script_id {
            return true;
        }
        i = i + 1;
    }
    false
}

/// Which relation rows a deletion removes: those of a folder, or those of a script.
#[derive(PartialEq, Eq, Structural, Clone, Copy)]
enum RowOwner {
    Folder,
    Script,
}

spec fn rows_kept(owner: RowOwner, id: i32) -> spec_fn((i32, i32)) -> bool {
    match owner {
        RowOwner::Folder => not_in_folder(id),
        RowOwner::Script => not_of_script(id),
    }
}

/// The relation rows that do not belong to the folder or script `id`.
fn relations_without(rels: &Vec<(i32, i32)>, owner: RowOwner, id: i32) -> (r: Vec<(i32, i32)>)
    ensures
        r@ == rels@.filter(rows_kept(owner, id)),
{
    let ghost p = rows_kept(owner, id);
    let mut out: Vec<(i32, i32)> = Vec::new();
    let mut i: usize = 0;
    while i < rels.len()
        invariant
            i <= rels@.len(),
            p == rows_kept(owner, id),
            out@ == rels@.take(i as int).filter(p),
        decreases rels@.len() - i,
    {
        proof {
            assert(rels@.take(i as int + 1) =~= rels@.take(i as int).push(rels@[i as int]));
            lemma_filter_push(rels@.take(i as int), rels@[i as int], p);
        }
        let row = rels[i];
        let keep = match owner {
            RowOwner::Folder => row.0 != id,
            RowOwner::Script => row.1 != id,
        };
        if keep {
            out.push(row);
        }
        i = i + 1;
    }
    proof {
        assert(rels@.take(i as int) =~= rels@);
    }
    out
}

fn folders_without(v: &Vec<Folder>, id: i32) -> (r: Vec<Folder>)
    ensures
        folders_view(r@) == folders_view(v@).filter(other_folder(id)),
{
    let ghost sv = folders_view(v@);
    let ghost p = other_folder(id);
    let mut out: Vec<Folder> = Vec::new();
    let mut i: usize = 0;
    while i < v.len()
        invariant
            i <= v@.len(),
            sv == folders_view(v@),
            p == other_folder(id),
            folders_view(out@) == sv.take(i as int).filter(p),
        decreases v@.len() - i,
    {
        let ghost prev = out@;
        proof {
            assert(sv.take(i as int + 1) =~= sv.take(i as int).push(sv[i as int]));
            lemma_filter_push(sv.take(i as int), sv[i as int], p);
        }
        if v[i].id != id {
            out.push(v[i].duplicate());
            proof {
                assert(folders_view(out@) =~= folders_view(prev).push(sv[i as int]));
            }
        }
        i = i + 1;
    }
    proof {
        assert(sv.take(i as int) =~= sv);
    }
    out
}

/// A selection of scripts by id: all but one script, those related to a folder, or those
/// that survive the deletion of a folder.
#[derive(PartialEq, Eq, Structural, Clone, Copy)]
enum ScriptSelection {
    OtherThan,
    RelatedTo,
    SurvivingDeletionOf,
}

spec fn selects(rels: Seq<(i32, i32)>, which: ScriptSelection, id: i32) -> spec_fn(
    ScriptView,
) -> bool {
    match which {
        ScriptSelection::OtherThan => other_script_id(id),
        ScriptSelection::RelatedTo => linked_to(rels, id),
        ScriptSelection::SurvivingDeletionOf => survives_folder_deletion(rels, id),
    }
}

/// The scripts of `v` that `which`, with `id` and the relation rows `rels`, selects.
fn scripts_where(
    v: &Vec<Script>,
    rels: &Vec<(i32, i32)>,
    which: ScriptSelection,
    id: i32,
) -> (r: Vec<Script>)
    ensures
        scripts_view(r@) == scripts_view(v@).filter(selects(rels@, which, id)),
{
    let ghost sv = scripts_view(v@);
    let ghost p = selects(rels@, which, id);
    let remaining = relations_without(rels, RowOwner::Folder, id);
    let mut out: Vec<Script> = Vec::new();
    let mut i: usize = 0;
    while i < v.len()
        invariant
            i <= v@.len(),
            sv == scripts_view(v@),
            p == selects(rels@, which, id),
            remaining@ == rels@.filter(not_in_folder(id)),
            scripts_view(out@) == sv.take(i as int).filter(p),
        decreases v@.len() - i,
    {
        let ghost prev = out@;
        proof {
            assert(sv.take(i as int + 1) =~= sv.take(i as int).push(sv[i as int]));
            lemma_filter_push(sv.take(i as int), sv[i as int], p);
        }
        let c = &v[i];
        let keep = match which {
            ScriptSelection::OtherThan => c.id != id,
            ScriptSelection::RelatedTo => relation_exists(rels, (id, c.id)),
            ScriptSelection::SurvivingDeletionOf => !(relation_exists(rels, (id, c.id))
                && !script_linked(&remaining, c.id)),
        };
        if keep {
            out.push(c.duplicate());
            proof {
                assert(scripts_view(out@) =~= scripts_view(prev).push(sv[i as int]));
            }
        }
        i = i + 1;
    }
    proof {
        assert(sv.take(i as int) =~= sv);
    }
    out
}

} // verus!

verus! {

fn folders_renamed(v: &Vec<Folder>, id: i32, name: &String) -> (r: Vec<Folder>)
    ensures
        folders_view(r@) == renamed(folders_view(v@), id, name@),
{
    let ghost sv = folders_view(v@);
    let mut out: Vec<Folder> = Vec::new();
    let mut i: usize = 0;
    while i < v.len()
        invariant
            i <= v@.len(),
            sv == folders_view(v@),
            folders_view(out@) == renamed(sv, id, name@).take(i as int),
        decreases v@.len() - i,
    {
        let ghost prev = out@;
        let f = &v[i];
        if f.id == id {
            out.push(Folder { id: f.id, name: name.clone(), ordering: f.ordering });
        } else {
            out.push(f.duplicate());
        }
        proof {
            assert(folders_view(out@) =~= folders_view(prev).push(out@[i as int]@));
            assert(folders_view(out@) =~= renamed(sv, id, name@).take(i as int + 1));
        }
        i = i + 1;
    }
    proof {
        assert(renamed(sv, id, name@).take(i as int) =~= renamed(sv, id, name@));
    }
    out
}

fn folders_reordered(v: &Vec<Folder>, id: i32, ordering: i32) -> (r: Vec<Folder>)
    ensures
        folders_view(r@) == order_applied(folders_view(v@), (id, ordering)),
{
    let ghost sv = folders_view(v@);
    let mut out: Vec<Folder> = Vec::new();
    let mut i: usize = 0;
    while i < v.len()
        invariant
            i <= v@.len(),
            sv == folders_view(v@),
            folders_view(out@) == order_applied(sv, (id, ordering)).take(i as int),
        decreases v@.len() - i,
    {
        let ghost prev = out@;
        let f = &v[i];
        if f.id == id {
            out.push(Folder { id: f.id, name: f.name.clone(), ordering });
        } else {
            out.push(f.duplicate());
        }
        proof {
            assert(folders_view(out@) =~= folders_view(prev).push(out@[i as int]@));
            assert(folders_view(out@) =~= order_applied(sv, (id, ordering)).take(i as int + 1));
        }
        i = i + 1;
    }
    proof {
        assert(order_applied(sv, (id, ordering)).take(i as int) =~= order_applied(sv, (id, ordering)));
    }
    out
}

fn scripts_changed(
    v: &Vec<Script>,
    id: i32,
    name: Option<&String>,
    command: Option<&String>,
) -> (r: Vec<Script>)
    ensures
        scripts_view(r@) == script_changed(
            scripts_view(v@),
            id,
            match name {
                Some(n) => Some(n@),
                None => None,
            },
            match command {
                Some(c) => Some(c@),
                None => None,
            },
        ),
{
    let ghost sv = scripts_view(v@);
    let ghost nv = match name {
        Some(n) => Some(n@),
        None => None,
    };
    let ghost cv = match command {
        Some(c) => Some(c@),
        None => None,
    };
    let mut out: Vec<Script> = Vec::new();
    let mut i: usize = 0;
    while i < v.len()
        invariant
            i <= v@.len(),
            sv == scripts_view(v@),
            nv == (match name {
                Some(n) => Some(n@),
                None => None,
            }),
            cv == (match command {
                Some(c) => Some(c@),
                None => None,
            }),
            scripts_view(out@) == script_changed(sv, id, nv, cv).take(i as int),
        decreases v@.len() - i,
    {
        let ghost prev = out@;
        let c = &v[i];
        if c.id == id {
            let new_name = match name {
                Some(n) => n.clone(),
                None => c.name.clone(),
            };
            let new_command = match command {
                Some(x) => x.clone(),
                None => c.command.clone(),
            };
            out.push(Script { id: c.id, name: new_name, command: new_command });
        } else {
            out.push(c.duplicate());
        }
        proof {
            assert(scripts_view(out@) =~= scripts_view(prev).push(out@[i as int]@));
            assert(scripts_view(out@) =~= script_changed(sv, id, nv, cv).take(i as int + 1));
        }
        i = i + 1;
    }
    proof {
        assert(script_changed(sv, id, nv, cv).take(i as int) =~= script_changed(sv, id, nv, cv));
    }
    out
}

/// An in-memory repository: the records of `RepoView`, held in vectors.
pub struct MemoryRepository {
    folders: Vec<Folder>,
    scripts: Vec<Script>,
    relations: Vec<(i32, i32)>,
    app_state: Option<AppStateData>,
    next_folder_id: i32,
    next_script_id: i32,
}

impl View for MemoryRepository {
    type V = RepoView;

    closed spec fn view(&self) -> RepoView {
        RepoView {
            folders: folders_view(self.folders@),
            scripts: scripts_view(self.scripts@),
            relations: self.relations@,
            app_state: self.app_state,
            next_folder_id: self.next_folder_id,
            next_script_id: self.next_script_id,
        }
    }
}

impl MemoryRepository {
    /// An empty repository; ids start at 1.
    pub fn new() -> (r: MemoryRepository)
        ensures
            r@.folders.len() == 0,
            r@.scripts.len() == 0,
            r@.relations.len() == 0,
            r@.app_state is None,
            r@.next_folder_id == 1,
            r@.next_script_id == 1,
            repo_wf(r@),
    {
        MemoryRepository {
            folders: Vec::new(),
            scripts: Vec::new(),
            relations: Vec::new(),
            app_state: None,
            next_folder_id: 1,
            next_script_id: 1,
        }
    }

    /// Carries out one request; well-formed records stay well formed.
    pub fn perform(&mut self, request: RepoRequest) -> (reply: RepoReply)
        ensures
            (final(self)@, reply@) == apply_request(old(self)@, request@),
            repo_wf(old(self)@) ==> repo_wf(final(self)@),
    {
        proof {
            if repo_wf(self@) {
                lemma_request_keeps_wf(self@, request@);
            }
        }
        match request {
            RepoRequest::CreateFolder { name, ordering } => {
                if self.next_folder_id == i32::MAX {
                    RepoReply::Failed(RepoError::IdsExhausted)
                } else {
                    let f = Folder { id: self.next_folder_id, name, ordering };
                    let reply = RepoReply::Folder(f.duplicate());
                    let ghost prev = self.folders@;
                    self.folders.push(f);
                    proof {
                        assert(folders_view(self.folders@) =~= folders_view(prev).push(f@));
                    }
                    self.next_folder_id = self.next_folder_id + 1;
                    reply
                }
            },
            RepoRequest::GetAllFolders => RepoReply::Folders(copy_folders(&self.folders)),
            RepoRequest::GetFolderCount => RepoReply::Count(self.folders.len() as i64),
            RepoRequest::DeleteFolder { folder_id } => {
                if folder_exists(&self.folders, folder_id) {
                    let scripts = scripts_where(
                        &self.scripts,
                        &self.relations,
                        ScriptSelection::SurvivingDeletionOf,
                        folder_id,
                    );
                    let relations = relations_without(&self.relations, RowOwner::Folder, folder_id);
                    let folders = folders_without(&self.folders, folder_id);
                    self.scripts = scripts;
                    self.relations = relations;
                    self.folders = folders;
                    RepoReply::Done
                } else {
                    RepoReply::Failed(RepoError::NotFound)
                }
            },
            RepoRequest::BatchUpdateFolderOrder { updates } => {
                let ghost us = updates_view(updates@);
                let ghost start = folders_view(self.folders@);
                let mut i: usize = 0;
                while i < updates.len()
                    invariant
                        i <= updates@.len(),
                        us == updates_view(updates@),
                        folders_view(self.folders@) == orders_applied(start, us.take(i as int)),
                        self.scripts == old(self).scripts,
                        self.relations == old(self).relations,
                        self.app_state == old(self).app_state,
                        self.next_folder_id == old(self).next_folder_id,
                        self.next_script_id == old(self).next_script_id,
                        start == folders_view(old(self).folders@),
                    decreases updates@.len() - i,
                {
                    proof {
                        assert(us.take(i as int + 1).drop_last() =~= us.take(i as int));
                    }
                    let u = &updates[i];
                    self.folders = folders_reordered(&self.folders, u.folder_id, u.new_ordering);
                    i = i + 1;
                }
                proof {
                    assert(us.take(i as int) =~= us);
                }
                RepoReply::Done
            },
            RepoRequest::RenameFolder { folder_id, new_name } => {
                self.folders = folders_renamed(&self.folders, folder_id, &new_name);
                RepoReply::Done
            },
            RepoRequest::UpsertAppStateLastFolder { folder_id } => {
                let id = match self.app_state {
                    Some(a) => a.id,
                    None => 1,
                };
                self.app_state = Some(AppStateData { id, last_opened_folder_id: Some(folder_id) });
                RepoReply::Done
            },
            RepoRequest::GetAppState => RepoReply::AppState(self.app_state),
            RepoRequest::CreateScript { name, command } => {
                if self.next_script_id == i32::MAX {
                    RepoReply::Failed(RepoError::IdsExhausted)
                } else {
                    let c = Script { id: self.next_script_id, name, command };
                    let reply = RepoReply::Script(c.duplicate());
                    let ghost prev = self.scripts@;
                    self.scripts.push(c);
                    proof {
                        assert(scripts_view(self.scripts@) =~= scripts_view(prev).push(c@));
                    }
                    self.next_script_id = self.next_script_id + 1;
                    reply
                }
            },
            RepoRequest::LinkScriptToFolder { folder_id, script_id } => {
                if folder_exists(&self.folders, folder_id) && script_exists(&self.scripts, script_id) {
                    self.relations.push((folder_id, script_id));
                    RepoReply::Done
                } else {
                    RepoReply::Failed(RepoError::NotFound)
                }
            },
            RepoRequest::GetScriptsForFolder { folder_id } => {
                RepoReply::Scripts(scripts_where(
                    &self.scripts,
                    &self.relations,
                    ScriptSelection::RelatedTo,
                    folder_id,
                ))
            },
            RepoRequest::UpdateScriptCommand { script_id, new_command } => {
                self.scripts = scripts_changed(&self.scripts, script_id, None, Some(&new_command));
                RepoReply::Done
            },
            RepoRequest::UpdateScriptName { script_id, new_name } => {
                self.scripts = scripts_changed(&self.scripts, script_id, Some(&new_name), None);
                RepoReply::Done
            },
            RepoRequest::DeleteScript { script_id } => {
                if script_exists(&self.scripts, script_id) {
                    let scripts = scripts_where(
                        &self.scripts,
                        &self.relations,
                        ScriptSelection::OtherThan,
                        script_id,
                    );
                    self.relations = relations_without(&self.relations, RowOwner::Script, script_id);
                    self.scripts = scripts;
                    RepoReply::Done
                } else {
                    RepoReply::Failed(RepoError::NotFound)
                }
            },
        }
    }
}

/// With distinct ids in a batch, a folder ends up with the ordering of the one update
/// that names it, and keeps its ordering when none does.
pub proof fn lemma_orders_applied_value(s: Seq<FolderView>, us: Seq<(i32, i32)>, i: int)
    requires
        0 <= i < s.len(),
        forall|a: int, b: int| 0 <= a < b < us.len() ==> #[trigger] us[a].0 != #[trigger] us[b].0,
    ensures
        (forall|k: int| 0 <= k < us.len() ==> #[trigger] us[k].0 != s[i].id) ==> orders_applied(
            s,
            us,
        )[i].ordering == s[i].ordering,
        forall|k: int|
            0 <= k < us.len() && #[trigger] us[k].0 == s[i].id ==> orders_applied(s, us)[i].ordering
                == us[k].1,
    decreases us.len(),
{
    lemma_orders_applied_keep_ids(s, us);
    if us.len() > 0 {
        let d = us.drop_last();
        assert forall|a: int, b: int| 0 <= a < b < d.len() implies #[trigger] d[a].0
            != #[trigger] d[b].0 by {
            assert(d[a] == us[a] && d[b] == us[b]);
        }
        lemma_orders_applied_value(s, d, i);
        lemma_orders_applied_keep_ids(s, d);
        assert forall|k: int| 0 <= k < us.len() && #[trigger] us[k].0 == s[i].id implies orders_applied(
            s,
            us,
        )[i].ordering == us[k].1 by {
            if k < us.len() - 1 {
                assert(d[k] == us[k]);
                assert(us[k].0 != us[us.len() - 1].0);
            }
        }
        if forall|k: int| 0 <= k < us.len() ==> #[trigger] us[k].0 != s[i].id {
            assert forall|k: int| 0 <= k < d.len() implies #[trigger] d[k].0 != s[i].id by {
                assert(d[k] == us[k]);
            }
        }
    }
}

/// Renumbering folders with unique ids by their positions in a rearrangement `t` of them
/// gives dense orderings: each folder gets the position where `t` holds it.
pub proof fn lemma_renumbering_dense(s: Seq<FolderView>, t: Seq<FolderView>)
    requires
        s.len() <= i32::MAX,
        forall|i: int, j: int| 0 <= i < j < s.len() ==> #[trigger] s[i].id != #[trigger] s[j].id,
        t.to_multiset() == s.to_multiset(),
    ensures
        orders_applied(s, position_updates(t)).len() == s.len(),
        forall|i: int| 0 <= i < s.len() ==> #[trigger] orders_applied(s, position_updates(t))[i].id
            == s[i].id,
        forall|i: int|
            0 <= i < s.len() ==> #[trigger] orders_applied(s, position_updates(t))[i].name
                == s[i].name,
        forall|i: int|
            0 <= i < s.len() ==> 0 <= #[trigger] orders_applied(s, position_updates(t))[i].ordering
                < s.len() && t[orders_applied(s, position_updates(t))[i].ordering as int] == s[i],
        dense_orderings(orders_applied(s, position_updates(t))),
{
    broadcast use vstd::seq_lib::group_to_multiset_ensures;

    let us = position_updates(t);
    let post = orders_applied(s, us);
    lemma_orders_applied_keep_ids(s, us);
    t.to_multiset_ensures();
    s.to_multiset_ensures();
    assert(t.len() == s.len());
    assert(s.no_duplicates()) by {
        assert forall|i: int, j: int| 0 <= i < s.len() && 0 <= j < s.len() && i != j implies s[i]
            != s[j] by {
            if i < j {
                assert(s[i].id != s[j].id);
            } else {
                assert(s[j].id != s[i].id);
            }
        }
    }
    s.lemma_multiset_has_no_duplicates();
    t.lemma_multiset_has_no_duplicates_conv();
    // Every element of `t` is an element of `s`, and the other way round.
    assert forall|k: int| 0 <= k < t.len() implies s.contains(#[trigger] t[k]) by {
        assert(t.contains(t[k]));
        assert(t.to_multiset().count(t[k]) > 0);
        assert(s.to_multiset().count(t[k]) > 0);
    }
    assert forall|i: int| 0 <= i < s.len() implies t.contains(#[trigger] s[i]) by {
        assert(s.contains(s[i]));
        assert(s.to_multiset().count(s[i]) > 0);
        assert(t.to_multiset().count(s[i]) > 0);
    }
    // The ids of `t` are distinct.
    assert forall|a: int, b: int| 0 <= a < b < us.len() implies #[trigger] us[a].0
        != #[trigger] us[b].0 by {
        assert(s.contains(t[a]) && s.contains(t[b]));
        let ia = choose|ia: int| 0 <= ia < s.len() && s[ia] == t[a];
        let ib = choose|ib: int| 0 <= ib < s.len() && s[ib] == t[b];
        if t[a].id == t[b].id {
            if ia < ib {
                assert(s[ia].id != s[ib].id);
            } else if ib < ia {
                assert(s[ib].id != s[ia].id);
            }
            assert(t[a] == t[b]);
        }
    }
    // Each folder gets the position where `t` holds it.
    assert forall|i: int| 0 <= i < s.len() implies 0 <= #[trigger] post[i].ordering < s.len()
        && t[post[i].ordering as int] == s[i] by {
        let k = choose|k: int| 0 <= k < t.len() && t[k] == s[i];
        lemma_orders_applied_value(s, us, i);
        assert(us[k].0 == s[i].id);
    }
    assert forall|o: int| #[trigger] orderings_of(post).contains(o) <==> 0 <= o < post.len() by {
        if 0 <= o < post.len() {
            let i = choose|i: int| 0 <= i < s.len() && s[i] == t[o];
            lemma_orders_applied_value(s, us, i);
            assert(us[o].0 == s[i].id);
            assert(post[i].ordering == o);
        }
        if orderings_of(post).contains(o) {
            let i = choose|i: int| 0 <= i < post.len() && post[i].ordering == o;
            assert(0 <= post[i].ordering < s.len());
        }
    }
    assert(orderings_of(post) =~= Set::new(|o: int| 0 <= o < post.len()));
    assert forall|i: int, j: int|
        0 <= i < post.len() && 0 <= j < post.len() && i != j implies post[i].ordering
        != post[j].ordering by {
        assert(t[post[i].ordering as int] == s[i]);
        assert(t[post[j].ordering as int] == s[j]);
    }
}

} // verus!
