use vstd::prelude::*;

use crate::arrange::{
    lemma_sorted_is_ascending, lemma_sorted_len, lemma_sorted_permutes, sort_folders_by_ordering,
    sorted_by_ordering,
};
use crate::message::{EventView, FolderEvent, RepoReply, RepoRequest, ReplyView, RequestView};
use crate::model::{
    dense_orderings, folders_view, lemma_position_orderings_dense, lemma_renumbered_matches_position,
    orderings_of, ordering_matches_position, renumbered, FolderView,
};
use crate::state::{
    lemma_rename_to_same_name, move_in_range, moved, other_folder, renamed, renumber_folders,
    reordered, without_folder, without_script, FolderReducer, FoldersState,
};

verus! {

/// Which answer an event is still waiting for before it can update the snapshot.
#[derive(PartialEq, Eq, Structural, Clone, Copy, Debug)]
pub enum EventStage {
    LoadingFolders,
    LoadingAppState { folder_id: i32 },
    LoadingScripts { folder_id: i32 },
}

/// What an event asks for next: one more repository query, or nothing.
#[derive(Debug)]
pub enum EventProgress {
    Query { request: RepoRequest, stage: EventStage },
    Done,
}

pub enum EventProgressView {
    Query { request: RequestView, stage: EventStage },
    Done,
}

impl View for EventProgress {
    type V = EventProgressView;

    open spec fn view(&self) -> EventProgressView {
        match self {
            EventProgress::Query { request, stage } => EventProgressView::Query {
                request: request@,
                stage: *stage,
            },
            EventProgress::Done => EventProgressView::Done,
        }
    }
}

/// The query that reloads the scripts of the selected folder, if one is selected.
pub open spec fn reload_selected_scripts(pre: FoldersState) -> EventProgressView {
    match pre.selected_folder_id {
        Some(f) => EventProgressView::Query {
            request: RequestView::GetScriptsForFolder { folder_id: f },
            stage: EventStage::LoadingScripts { folder_id: f },
        },
        None => EventProgressView::Done,
    }
}

/// How handling event `e` takes the snapshot from `pre` to `post`, and what it asks next.
/// Facts about data already cached are applied locally; the others re-query.
pub open spec fn event_outcome(
    pre: FoldersState,
    e: EventView,
    post: FoldersState,
    r: EventProgressView,
) -> bool {
    match e {
        EventView::FolderAdded { .. } => post == pre && r == (EventProgressView::Query {
            request: RequestView::GetAllFolders,
            stage: EventStage::LoadingFolders,
        }),
        EventView::FolderSelected { folder_id } => post == (FoldersState {
            selected_folder_id: Some(folder_id),
            ..pre
        }) && r == (EventProgressView::Query {
            request: RequestView::GetAppState,
            stage: EventStage::LoadingAppState { folder_id },
        }),
        EventView::FolderDeleted { folder_id } => post.folders() == without_folder(
            pre.folders(),
            folder_id,
        ) && post == (FoldersState { folder_list: post.folder_list, ..pre }) && r
            == EventProgressView::Done,
        EventView::ScriptAdded { .. } => post == pre && r == reload_selected_scripts(pre),
        EventView::ScriptUpdated { .. } => post == pre && r == reload_selected_scripts(pre),
        EventView::FolderRenamed { folder_id, new_name } => post.folders() == renamed(
            pre.folders(),
            folder_id,
            new_name,
        ) && post == (FoldersState { folder_list: post.folder_list, ..pre }) && r
            == EventProgressView::Done,
        EventView::ScriptDeleted { script_id } => post.scripts() == without_script(
            pre.scripts(),
            script_id,
        ) && post == (FoldersState { scripts_of_selected_folder: post.scripts_of_selected_folder, ..pre })
            && r == EventProgressView::Done,
        EventView::FoldersReordered { from_index, to_index } => post.folders() == reordered(
            pre.folders(),
            from_index as int,
            to_index as int,
        ) && post == (FoldersState { folder_list: post.folder_list, ..pre }) && r
            == EventProgressView::Done,
    }
}

/// How an answer to an event's query takes the snapshot from `pre` to `post`.
/// Scripts loaded for a folder that is no longer selected are dropped.
pub open spec fn answer_outcome(
    pre: FoldersState,
    s: EventStage,
    a: ReplyView,
    post: FoldersState,
    r: EventProgressView,
) -> bool {
    match (s, a) {
        (EventStage::LoadingFolders, ReplyView::Folders(v)) => if v.len() <= i32::MAX {
            post.folders() == renumbered(sorted_by_ordering(v)) && post == (FoldersState {
                folder_list: post.folder_list,
                ..pre
            }) && r == EventProgressView::Done
        } else {
            post == pre && r == EventProgressView::Done
        },
        (EventStage::LoadingAppState { folder_id }, ReplyView::AppState(app)) => post == (
        FoldersState { app_state: app, ..pre }) && r == (EventProgressView::Query {
            request: RequestView::GetScriptsForFolder { folder_id },
            stage: EventStage::LoadingScripts { folder_id },
        }),
        (EventStage::LoadingScripts { folder_id }, ReplyView::Scripts(v)) => if pre.selected_folder_id
            == Some(folder_id) {
            post.scripts() == v && post == (FoldersState {
                scripts_of_selected_folder: post.scripts_of_selected_folder,
                ..pre
            }) && r == EventProgressView::Done
        } else {
            post == pre && r == EventProgressView::Done
        },
        _ => post == pre && r == EventProgressView::Done,
    }
}

/// Folds confirmed facts back into the snapshot through the reducer.
pub struct FolderEventHandler {}

impl FolderEventHandler {
    pub fn new() -> (r: FolderEventHandler) {
        FolderEventHandler {  }
    }

    pub fn handle(&self, reducer: &mut FolderReducer, event: FolderEvent) -> (r: EventProgress)
        requires
            old(reducer).folders().len() <= i32::MAX,
        ensures
            event_outcome(old(reducer).store(), event@, final(reducer).store(), r@),
    {
        match event {
            FolderEvent::FolderAdded { .. } => EventProgress::Query {
                request: RepoRequest::GetAllFolders,
                stage: EventStage::LoadingFolders,
            },
            FolderEvent::FolderSelected { folder_id } => {
                reducer.select_folder(folder_id);
                EventProgress::Query {
                    request: RepoRequest::GetAppState,
                    stage: EventStage::LoadingAppState { folder_id },
                }
            },
            FolderEvent::FolderDeleted { folder_id } => {
                reducer.delete_folder(folder_id);
                EventProgress::Done
            },
            FolderEvent::ScriptAdded { .. } => self.reload_scripts(reducer),
            FolderEvent::ScriptUpdated { .. } => self.reload_scripts(reducer),
            FolderEvent::FolderRenamed { folder_id, new_name } => {
                reducer.rename_folder(folder_id, new_name.as_str());
                EventProgress::Done
            },
            FolderEvent::ScriptDeleted { script_id } => {
                reducer.delete_script_from_selected_folder(script_id);
                EventProgress::Done
            },
            FolderEvent::FoldersReordered { from_index, to_index } => {
                if from_index >= 0 && to_index >= 0 {
                    reducer.insert_folder_into_index(from_index as usize, to_index as usize);
                }
                EventProgress::Done
            },
        }
    }

    fn reload_scripts(&self, reducer: &FolderReducer) -> (r: EventProgress)
        ensures
            r@ == reload_selected_scripts(reducer.store()),
    {
        match reducer.state().selected_folder_id {
            Some(folder_id) => EventProgress::Query {
                request: RepoRequest::GetScriptsForFolder { folder_id },
                stage: EventStage::LoadingScripts { folder_id },
            },
            None => EventProgress::Done,
        }
    }

    pub fn resume(&self, reducer: &mut FolderReducer, stage: EventStage, reply: RepoReply) -> (r:
        EventProgress)
        ensures
            answer_outcome(old(reducer).store(), stage, reply@, final(reducer).store(), r@),
    {
        match (stage, reply) {
            (EventStage::LoadingFolders, RepoReply::Folders(v)) => {
                if v.len() <= i32::MAX as usize {
                    let ghost fv = folders_view(v@);
                    let sorted = sort_folders_by_ordering(v);
                    proof {
                        lemma_sorted_len(fv);
                    }
                    let list = renumber_folders(&sorted);
                    reducer.set_folder_list(list);
                }
                EventProgress::Done
            },
            (EventStage::LoadingAppState { folder_id }, RepoReply::AppState(app)) => {
                reducer.set_app_state(app);
                EventProgress::Query {
                    request: RepoRequest::GetScriptsForFolder { folder_id },
                    stage: EventStage::LoadingScripts { folder_id },
                }
            },
            (EventStage::LoadingScripts { folder_id }, RepoReply::Scripts(v)) => {
                if reducer.state().selected_folder_id == Some(folder_id) {
                    reducer.set_scripts_of_selected_folder(v);
                }
                EventProgress::Done
            },
            _ => EventProgress::Done,
        }
    }
}

/// Handling any event keeps each cached folder's ordering equal to its position, so
/// that the orderings are exactly `0, 1, ..., n-1`.
pub proof fn lemma_event_keeps_orderings_dense(
    pre: FoldersState,
    e: EventView,
    post: FoldersState,
    r: EventProgressView,
)
    requires
        pre.folders().len() <= i32::MAX,
        ordering_matches_position(pre.folders()),
        event_outcome(pre, e, post, r),
    ensures
        ordering_matches_position(post.folders()),
        dense_orderings(post.folders()),
{
    let s = pre.folders();
    match e {
        EventView::FolderDeleted { folder_id } => {
            let kept = s.filter(other_folder(folder_id));
            s.lemma_filter_len(other_folder(folder_id));
            lemma_renumbered_matches_position(kept);
        },
        EventView::FolderRenamed { folder_id, new_name } => {
            assert(post.folders() == renamed(s, folder_id, new_name));
        },
        EventView::FoldersReordered { from_index, to_index } => {
            if move_in_range(s.len() as int, from_index as int, to_index as int) {
                let m = moved(s, from_index as int, to_index as int);
                assert(m.len() == s.len());
                lemma_renumbered_matches_position(m);
            }
        },
        _ => {},
    }
    lemma_position_orderings_dense(post.folders());
}

/// Taking in the answer to an event's query keeps each cached folder's ordering equal to
/// its position, so that the orderings are exactly `0, 1, ..., n-1`.
pub proof fn lemma_answer_keeps_orderings_dense(
    pre: FoldersState,
    s: EventStage,
    a: ReplyView,
    post: FoldersState,
    r: EventProgressView,
)
    requires
        ordering_matches_position(pre.folders()),
        answer_outcome(pre, s, a, post, r),
    ensures
        ordering_matches_position(post.folders()),
        dense_orderings(post.folders()),
{
    match (s, a) {
        (EventStage::LoadingFolders, ReplyView::Folders(v)) => {
            if v.len() <= i32::MAX {
                lemma_sorted_len(v);
                lemma_renumbered_matches_position(sorted_by_ordering(v));
            }
        },
        _ => {},
    }
    lemma_position_orderings_dense(post.folders());
}

/// A `FolderRenamed` event that gives a folder the name it already has leaves the cached
/// folder list content-equal to what it was.
pub proof fn lemma_same_name_rename_event(
    pre: FoldersState,
    folder_id: i32,
    name: Seq<char>,
    post: FoldersState,
    r: EventProgressView,
)
    requires
        forall|i: int|
            0 <= i < pre.folders().len() && #[trigger] pre.folders()[i].id == folder_id
                ==> pre.folders()[i].name == name,
        event_outcome(pre, EventView::FolderRenamed { folder_id, new_name: name }, post, r),
    ensures
        post.folders() == pre.folders(),
        post.selected_folder_id == pre.selected_folder_id,
        post.scripts_of_selected_folder == pre.scripts_of_selected_folder,
{
    lemma_rename_to_same_name(pre.folders(), folder_id, name);
}

proof fn lemma_orderings_at_least_position(t: Seq<FolderView>, i: int)
    requires
        0 <= i < t.len(),
        forall|k: int| 0 <= k < t.len() ==> 0 <= #[trigger] t[k].ordering,
        forall|a: int, b: int| 0 <= a < b < t.len() ==> #[trigger] t[a].ordering < #[trigger] t[b].ordering,
    ensures
        t[i].ordering >= i,
    decreases i,
{
    if i > 0 {
        lemma_orderings_at_least_position(t, i - 1);
    }
}

proof fn lemma_orderings_at_most_position(t: Seq<FolderView>, i: int)
    requires
        0 <= i < t.len(),
        forall|k: int| 0 <= k < t.len() ==> #[trigger] t[k].ordering < t.len(),
        forall|a: int, b: int| 0 <= a < b < t.len() ==> #[trigger] t[a].ordering < #[trigger] t[b].ordering,
    ensures
        t[i].ordering <= i,
    decreases t.len() - i,
{
    if i < t.len() - 1 {
        lemma_orderings_at_most_position(t, i + 1);
    }
}

/// Folders whose orderings are dense, sorted by ordering, already carry their positions
/// as orderings: reloading them stores exactly the sorted list.
pub proof fn lemma_reload_of_dense_folders(v: Seq<FolderView>)
    requires
        v.len() <= i32::MAX,
        dense_orderings(v),
    ensures
        renumbered(sorted_by_ordering(v)) == sorted_by_ordering(v),
        ordering_matches_position(sorted_by_ordering(v)),
{
    broadcast use vstd::seq_lib::group_to_multiset_ensures;

    let t = sorted_by_ordering(v);
    lemma_sorted_len(v);
    lemma_sorted_permutes(v);
    lemma_sorted_is_ascending(v);
    assert(v.no_duplicates()) by {
        assert forall|i: int, j: int| 0 <= i < v.len() && 0 <= j < v.len() && i != j implies v[i]
            != v[j] by {
            assert(v[i].ordering != v[j].ordering);
        }
    }
    v.lemma_multiset_has_no_duplicates();
    t.lemma_multiset_has_no_duplicates_conv();
    assert forall|k: int| 0 <= k < t.len() implies v.contains(#[trigger] t[k]) by {
        assert(t.contains(t[k]));
        assert(t.to_multiset().count(t[k]) > 0);
    }
    assert forall|k: int| 0 <= k < t.len() implies 0 <= #[trigger] t[k].ordering < t.len() by {
        let i = choose|i: int| 0 <= i < v.len() && v[i] == t[k];
        assert(orderings_of(v).contains(v[i].ordering as int));
    }
    assert forall|a: int, b: int| 0 <= a < b < t.len() implies #[trigger] t[a].ordering
        < #[trigger] t[b].ordering by {
        let ia = choose|ia: int| 0 <= ia < v.len() && v[ia] == t[a];
        let ib = choose|ib: int| 0 <= ib < v.len() && v[ib] == t[b];
        assert(t[a] != t[b]);
        assert(ia != ib);
        assert(v[ia].ordering != v[ib].ordering);
        assert(t[a].ordering <= t[b].ordering);
    }
    assert forall|i: int| 0 <= i < t.len() implies #[trigger] t[i].ordering == i by {
        lemma_orderings_at_least_position(t, i);
        lemma_orderings_at_most_position(t, i);
    }
    assert(renumbered(t) =~= t);
}

/// With unique folder ids in the cache, a `FolderRenamed` event that gives a cached folder
/// the name it already has leaves the cached folder list content-equal.
pub proof fn lemma_same_name_rename_unique_ids(
    pre: FoldersState,
    k: int,
    name: Seq<char>,
    post: FoldersState,
    r: EventProgressView,
)
    requires
        forall|i: int, j: int|
            0 <= i < j < pre.folders().len() ==> #[trigger] pre.folders()[i].id
                != #[trigger] pre.folders()[j].id,
        0 <= k < pre.folders().len(),
        pre.folders()[k].name == name,
        event_outcome(
            pre,
            EventView::FolderRenamed { folder_id: pre.folders()[k].id, new_name: name },
            post,
            r,
        ),
    ensures
        post.folders() == pre.folders(),
{
    let s = pre.folders();
    assert forall|i: int| 0 <= i < s.len() && #[trigger] s[i].id == s[k].id implies s[i].name
        == name by {
        if i < k {
            assert(s[i].id != s[k].id);
        } else if k < i {
            assert(s[k].id != s[i].id);
        }
    }
    lemma_rename_to_same_name(s, s[k].id, name);
}

} // verus!
