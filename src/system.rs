use vstd::prelude::*;

use crate::arrange::{
    lemma_moved_permutes, lemma_sorted_len, lemma_sorted_permutes, position_updates,
    sorted_by_ordering,
};
use crate::command_handler::{
    calls_left, first_step, next_step, CommandProgress, FolderCommandHandler, ProgressView,
    NEW_FOLDER_NAME,
};
use crate::event_handler::{answer_outcome, event_outcome, EventProgressView, EventStage};
use crate::message::{
    event_opt_view, CommandView, EventView, FolderCommand, FolderEvent, ReplyView, RequestView,
};
use crate::model::{dense_orderings, FolderView, ScriptView};
use crate::repository::{
    apply_request, folder_removed, has_folder, has_script, lemma_filter_folder_ids,
    lemma_orders_applied_keep_ids, lemma_renumbering_dense, lemma_request_keeps_wf, linked_to,
    not_in_folder, orders_applied, repo_wf, script_is_linked, scripts_of_folder,
    survives_folder_deletion, MemoryRepository, RepoView,
};
use crate::state::{move_in_range, moved, other_folder, FoldersState};

verus! {

/// Runs a command from progress `p` on the records `r`, making at most `fuel` calls:
/// the records afterwards and the event raised, if any.
pub open spec fn command_run(r: RepoView, p: ProgressView, fuel: nat) -> (RepoView, Option<
    EventView,
>)
    decreases fuel,
{
    match p {
        ProgressView::Finished { event } => (r, event),
        ProgressView::Request { request, stage } => if fuel == 0 {
            (r, None)
        } else {
            let (next, reply) = apply_request(r, request);
            command_run(next, next_step(stage, reply), (fuel - 1) as nat)
        },
    }
}

/// The records after command `c` has run to completion on `r`, and the event it raised.
pub open spec fn command_outcome(r: RepoView, c: CommandView) -> (RepoView, Option<EventView>) {
    command_run(r, first_step(c), 3)
}

/// Runs `command` to completion against `repo`, one request at a time.
pub fn execute_command(
    repo: &mut MemoryRepository,
    handler: &FolderCommandHandler,
    command: FolderCommand,
) -> (r: Option<FolderEvent>)
    ensures
        (final(repo)@, event_opt_view(r)) == command_outcome(old(repo)@, command@),
        repo_wf(old(repo)@) ==> repo_wf(final(repo)@),
{
    let ghost c = command@;
    let mut progress = handler.handle(command);
    let ghost mut fuel: nat = 3;
    loop
        invariant
            c == command@,
            repo_wf(old(repo)@) ==> repo_wf(repo@),
            command_run(repo@, progress@, fuel) == command_outcome(old(repo)@, c),
            progress@ is Request ==> calls_left(progress@->Request_stage) <= fuel,
        decreases fuel,
    {
        match progress {
            CommandProgress::Finished { event } => {
                proof {
                    assert(event_opt_view(event) == progress@->Finished_event);
                    assert(command_run(repo@, progress@, fuel) == (repo@, event_opt_view(event)));
                    assert((repo@, event_opt_view(event)) == command_outcome(old(repo)@, c));
                }
                return event;
            },
            CommandProgress::Request { request, stage } => {
                let reply = repo.perform(request);
                progress = handler.resume(stage, reply);
                proof {
                    fuel = (fuel - 1) as nat;
                }
            },
        }
    }
}

/// Once the first step of a folder deletion has succeeded, the rest of the command only
/// renumbers orderings: scripts and relation rows stay as that step left them, and no
/// folder with the deleted id comes back.
pub proof fn lemma_delete_command_effect(r: RepoView, x: i32)
    requires
        has_folder(r, x),
    ensures
        command_outcome(r, CommandView::DeleteFolder { folder_id: x }).0.scripts == folder_removed(
            r,
            x,
        ).scripts,
        command_outcome(r, CommandView::DeleteFolder { folder_id: x }).0.relations
            == folder_removed(r, x).relations,
        !has_folder(command_outcome(r, CommandView::DeleteFolder { folder_id: x }).0, x),
{
    reveal_with_fuel(command_run, 4);
    let d = folder_removed(r, x);
    let post = command_outcome(r, CommandView::DeleteFolder { folder_id: x }).0;
    assert forall|i: int| 0 <= i < d.folders.len() implies #[trigger] d.folders[i].id != x by {
        r.folders.lemma_filter_pred(other_folder(x), i);
    }
    if d.folders.len() <= i32::MAX {
        let us = position_updates(sorted_by_ordering(d.folders));
        lemma_orders_applied_keep_ids(d.folders, us);
        assert(post.folders == orders_applied(d.folders, us));
        assert forall|i: int| 0 <= i < post.folders.len() implies #[trigger] post.folders[i].id
            != x by {
            assert(post.folders[i].id == d.folders[i].id);
        }
    }
}

/// Deleting folder `x` also deletes a script whose relation rows all point at `x`.
pub proof fn lemma_orphan_cascade(r: RepoView, x: i32, script_id: i32)
    requires
        has_folder(r, x),
        r.relations.contains((x, script_id)),
        forall|i: int|
            0 <= i < r.relations.len() && #[trigger] r.relations[i].1 == script_id
                ==> r.relations[i].0 == x,
    ensures
        !has_script(command_outcome(r, CommandView::DeleteFolder { folder_id: x }).0, script_id),
{
    lemma_delete_command_effect(r, x);
    let rels = r.relations;
    let kept = rels.filter(not_in_folder(x));
    assert(!script_is_linked(kept, script_id)) by {
        if script_is_linked(kept, script_id) {
            let i = choose|i: int| 0 <= i < kept.len() && kept[i].1 == script_id;
            rels.lemma_filter_pred(not_in_folder(x), i);
            assert(kept.contains(kept[i]));
            rels.lemma_filter_contains_rev(not_in_folder(x), kept[i]);
            let j = choose|j: int| 0 <= j < rels.len() && rels[j] == kept[i];
            assert(rels[j].1 == script_id);
        }
    }
    let p = survives_folder_deletion(rels, x);
    let left = r.scripts.filter(p);
    assert forall|i: int| 0 <= i < left.len() implies #[trigger] left[i].id != script_id by {
        r.scripts.lemma_filter_pred(p, i);
    }
}

/// Deleting folder `x` keeps a script that is also related to another folder `y`, and
/// keeps that relation.
pub proof fn lemma_shared_script_survives(r: RepoView, x: i32, y: i32, script_id: i32)
    requires
        has_folder(r, x),
        x != y,
        has_script(r, script_id),
        r.relations.contains((y, script_id)),
    ensures
        has_script(command_outcome(r, CommandView::DeleteFolder { folder_id: x }).0, script_id),
        command_outcome(r, CommandView::DeleteFolder { folder_id: x }).0.relations.contains(
            (y, script_id),
        ),
{
    lemma_delete_command_effect(r, x);
    let rels = r.relations;
    let kept = rels.filter(not_in_folder(x));
    let j = choose|j: int| 0 <= j < rels.len() && rels[j] == (y, script_id);
    rels.lemma_filter_contains(not_in_folder(x), j);
    let k = choose|k: int| 0 <= k < kept.len() && kept[k] == (y, script_id);
    assert(script_is_linked(kept, script_id));
    let p = survives_folder_deletion(rels, x);
    let i = choose|i: int| 0 <= i < r.scripts.len() && r.scripts[i].id == script_id;
    r.scripts.lemma_filter_contains(p, i);
    let left = r.scripts.filter(p);
    let m = choose|m: int| 0 <= m < left.len() && left[m] == r.scripts[i];
    assert(left[m].id == script_id);
}

/// Selecting a folder persists it: reading the application state back, as a restart
/// does, gives that folder as the last one opened.
pub proof fn lemma_selection_survives_restart(r: RepoView, folder_id: i32)
    ensures
        command_outcome(r, CommandView::SelectFolder { folder_id }).1 == Some(
            EventView::FolderSelected { folder_id },
        ),
        apply_request(
            command_outcome(r, CommandView::SelectFolder { folder_id }).0,
            RequestView::GetAppState,
        ).1 == ReplyView::AppState(command_outcome(r, CommandView::SelectFolder { folder_id }).0.app_state),
        command_outcome(r, CommandView::SelectFolder { folder_id }).0.app_state is Some,
        command_outcome(r, CommandView::SelectFolder { folder_id }).0.app_state->Some_0.last_opened_folder_id
            == Some(folder_id),
{
    reveal_with_fuel(command_run, 2);
}

/// A second deletion of the same folder fails at the repository and changes nothing: no
/// event, and the records, orderings included, stay as the first deletion left them.
pub proof fn lemma_second_delete_is_clean(r: RepoView, x: i32)
    ensures
        command_outcome(
            command_outcome(r, CommandView::DeleteFolder { folder_id: x }).0,
            CommandView::DeleteFolder { folder_id: x },
        ) == (command_outcome(r, CommandView::DeleteFolder { folder_id: x }).0, None::<EventView>),
{
    let r1 = command_outcome(r, CommandView::DeleteFolder { folder_id: x }).0;
    if has_folder(r, x) {
        lemma_delete_command_effect(r, x);
    } else {
        reveal_with_fuel(command_run, 2);
        assert(r1 == r);
    }
    reveal_with_fuel(command_run, 2);
}

/// After a `FolderSelected` event for `folder_id` has been handled and its two queries
/// answered by the repository, the selection is `folder_id` and the cached scripts are
/// exactly those related to it, none related only to another folder.
pub proof fn lemma_selection_scoping(
    repo: RepoView,
    folder_id: i32,
    pre: FoldersState,
    s1: FoldersState,
    r1: EventProgressView,
    s2: FoldersState,
    r2: EventProgressView,
    post: FoldersState,
    r3: EventProgressView,
)
    requires
        event_outcome(pre, EventView::FolderSelected { folder_id }, s1, r1),
        answer_outcome(
            s1,
            EventStage::LoadingAppState { folder_id },
            apply_request(repo, RequestView::GetAppState).1,
            s2,
            r2,
        ),
        answer_outcome(
            s2,
            EventStage::LoadingScripts { folder_id },
            apply_request(repo, RequestView::GetScriptsForFolder { folder_id }).1,
            post,
            r3,
        ),
    ensures
        post.selected_folder_id == Some(folder_id),
        post.app_state == repo.app_state,
        post.scripts() == scripts_of_folder(repo, folder_id),
        forall|i: int|
            0 <= i < post.scripts().len() ==> repo.relations.contains(
                (folder_id, #[trigger] post.scripts()[i].id),
            ),
{
    assert forall|i: int| 0 <= i < post.scripts().len() implies repo.relations.contains(
        (folder_id, #[trigger] post.scripts()[i].id),
    ) by {
        repo.scripts.lemma_filter_pred(linked_to(repo.relations, folder_id), i);
    }
}

/// Running any command keeps the records well formed.
pub proof fn lemma_command_keeps_wf(r: RepoView, p: ProgressView, fuel: nat)
    requires
        repo_wf(r),
    ensures
        repo_wf(command_run(r, p, fuel).0),
    decreases fuel,
{
    match p {
        ProgressView::Request { request, stage } => {
            if fuel > 0 {
                lemma_request_keeps_wf(r, request);
                let (next, reply) = apply_request(r, request);
                lemma_command_keeps_wf(next, next_step(stage, reply), (fuel - 1) as nat);
            }
        },
        _ => {},
    }
}

/// Creating a folder on well-formed records adds exactly one folder, with an id that no
/// folder had, the new-folder name and the folder count as ordering, and raises
/// `FolderAdded` with that name and ordering.
pub proof fn lemma_create_folder_outcome(r: RepoView)
    requires
        repo_wf(r),
        r.next_folder_id < i32::MAX,
        r.folders.len() <= i32::MAX,
    ensures
        command_outcome(r, CommandView::CreateFolder).0 == (RepoView {
            folders: r.folders.push(
                FolderView {
                    id: r.next_folder_id,
                    name: NEW_FOLDER_NAME@,
                    ordering: r.folders.len() as i32,
                },
            ),
            next_folder_id: (r.next_folder_id + 1) as i32,
            ..r
        }),
        !has_folder(r, r.next_folder_id),
        command_outcome(r, CommandView::CreateFolder).1 == Some(
            EventView::FolderAdded { name: NEW_FOLDER_NAME@, ordering: r.folders.len() as i32 },
        ),
{
    reveal_with_fuel(command_run, 3);
}

/// Adding a script to an existing folder on well-formed records adds exactly one script,
/// with an id that no script had and the given name and command, adds the one relation
/// row that links it to the folder, and raises `ScriptAdded` for the folder.
pub proof fn lemma_add_script_outcome(r: RepoView, folder_id: i32, name: Seq<char>, command: Seq<
    char,
>)
    requires
        repo_wf(r),
        has_folder(r, folder_id),
        r.next_script_id < i32::MAX,
    ensures
        command_outcome(
            r,
            CommandView::AddScriptToFolder { folder_id, name, command },
        ).0 == (RepoView {
            scripts: r.scripts.push(ScriptView { id: r.next_script_id, name, command }),
            relations: r.relations.push((folder_id, r.next_script_id)),
            next_script_id: (r.next_script_id + 1) as i32,
            ..r
        }),
        !has_script(r, r.next_script_id),
        command_outcome(r, CommandView::AddScriptToFolder { folder_id, name, command }).1 == Some(
            EventView::ScriptAdded { folder_id },
        ),
{
    reveal_with_fuel(command_run, 3);
    let c = ScriptView { id: r.next_script_id, name, command };
    let mid = RepoView {
        scripts: r.scripts.push(c),
        next_script_id: (r.next_script_id + 1) as i32,
        ..r
    };
    let i = choose|i: int| 0 <= i < r.folders.len() && r.folders[i].id == folder_id;
    assert(has_folder(mid, folder_id));
    assert(mid.scripts[r.scripts.len() as int].id == r.next_script_id);
    assert(has_script(mid, r.next_script_id));
}

/// Deleting a folder on well-formed records leaves the other folders, with their ids and
/// names, in their prior order by ordering, renumbered to the dense orderings
/// `0, 1, ..., n-2`, and raises `FolderDeleted`.
pub proof fn lemma_delete_renumbers_densely(r: RepoView, x: i32)
    requires
        repo_wf(r),
        has_folder(r, x),
        r.folders.len() <= i32::MAX,
    ensures
        ({
            let post = command_outcome(r, CommandView::DeleteFolder { folder_id: x }).0.folders;
            let kept = r.folders.filter(other_folder(x));
            &&& post.len() == kept.len()
            &&& forall|i: int|
                0 <= i < kept.len() ==> #[trigger] post[i].id == kept[i].id && post[i].name
                    == kept[i].name
            &&& forall|i: int|
                0 <= i < kept.len() ==> sorted_by_ordering(kept)[#[trigger] post[i].ordering as int]
                    == kept[i]
            &&& dense_orderings(post)
        }),
        command_outcome(r, CommandView::DeleteFolder { folder_id: x }).1 == Some(
            EventView::FolderDeleted { folder_id: x },
        ),
{
    reveal_with_fuel(command_run, 4);
    let kept = r.folders.filter(other_folder(x));
    r.folders.lemma_filter_len(other_folder(x));
    lemma_filter_folder_ids(r.folders, other_folder(x), r.next_folder_id);
    lemma_sorted_permutes(kept);
    lemma_renumbering_dense(kept, sorted_by_ordering(kept));
}

/// Moving a folder on well-formed records gives each folder, with its id and name, the
/// position it has in the ordering-sorted list after the move, so that the orderings
/// are dense, and raises `FoldersReordered`.
pub proof fn lemma_reorder_renumbers_densely(r: RepoView, from_index: i32, to_index: i32)
    requires
        repo_wf(r),
        r.folders.len() <= i32::MAX,
        move_in_range(r.folders.len() as int, from_index as int, to_index as int),
    ensures
        ({
            let post = command_outcome(
                r,
                CommandView::ReorderFolders { from_index, to_index },
            ).0.folders;
            let target = moved(sorted_by_ordering(r.folders), from_index as int, to_index as int);
            &&& post.len() == r.folders.len()
            &&& forall|i: int|
                0 <= i < r.folders.len() ==> #[trigger] post[i].id == r.folders[i].id
                    && post[i].name == r.folders[i].name
            &&& forall|i: int|
                0 <= i < r.folders.len() ==> target[#[trigger] post[i].ordering as int]
                    == r.folders[i]
            &&& dense_orderings(post)
        }),
        command_outcome(r, CommandView::ReorderFolders { from_index, to_index }).1 == Some(
            EventView::FoldersReordered { from_index, to_index },
        ),
{
    reveal_with_fuel(command_run, 3);
    let sorted = sorted_by_ordering(r.folders);
    lemma_sorted_len(r.folders);
    lemma_sorted_permutes(r.folders);
    lemma_moved_permutes(sorted, from_index as int, to_index as int);
    lemma_renumbering_dense(r.folders, moved(sorted, from_index as int, to_index as int));
}

} // verus!
