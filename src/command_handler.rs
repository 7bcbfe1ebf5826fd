use vstd::prelude::*;

use crate::arrange::{
    lemma_sorted_len, position_order_updates, position_updates, sort_folders_by_ordering,
    sorted_by_ordering,
};
use crate::message::{
    CommandView, EventView, FolderCommand, FolderEvent, RepoReply, RepoRequest, ReplyView,
    RequestView,
};
use crate::model::{folders_view, AppStateData, FolderView};
use crate::state::{move_in_range, moved};

verus! {

/// The name given to a folder that the user has just created.
pub const NEW_FOLDER_NAME: &'static str = "New Collection";

/// Where a command stands while it waits for the repository's answer.
#[derive(Debug)]
pub enum CommandStage {
    CountingFolders,
    CreatingFolder { ordering: i32 },
    SelectingFolder { folder_id: i32 },
    DeletingFolder { folder_id: i32 },
    ReadingRemainingFolders { folder_id: i32 },
    RenumberingFolders { folder_id: i32 },
    ReadingFoldersToReorder { from_index: i32, to_index: i32 },
    ReorderingFolders { from_index: i32, to_index: i32 },
    RenamingFolder { folder_id: i32, new_name: String },
    CreatingScript { folder_id: i32 },
    LinkingScript { folder_id: i32 },
    UpdatingScript { script_id: i32 },
    DeletingScript { script_id: i32 },
}

pub enum StageView {
    CountingFolders,
    CreatingFolder { ordering: i32 },
    SelectingFolder { folder_id: i32 },
    DeletingFolder { folder_id: i32 },
    ReadingRemainingFolders { folder_id: i32 },
    RenumberingFolders { folder_id: i32 },
    ReadingFoldersToReorder { from_index: i32, to_index: i32 },
    ReorderingFolders { from_index: i32, to_index: i32 },
    RenamingFolder { folder_id: i32, new_name: Seq<char> },
    CreatingScript { folder_id: i32 },
    LinkingScript { folder_id: i32 },
    UpdatingScript { script_id: i32 },
    DeletingScript { script_id: i32 },
}

impl View for CommandStage {
    type V = StageView;

    open spec fn view(&self) -> StageView {
        match self {
            CommandStage::CountingFolders => StageView::CountingFolders,
            CommandStage::CreatingFolder { ordering } => StageView::CreatingFolder {
                ordering: *ordering,
            },
            CommandStage::SelectingFolder { folder_id } => StageView::SelectingFolder {
                folder_id: *folder_id,
            },
            CommandStage::DeletingFolder { folder_id } => StageView::DeletingFolder {
                folder_id: *folder_id,
            },
            CommandStage::ReadingRemainingFolders { folder_id } =>
                StageView::ReadingRemainingFolders { folder_id: *folder_id },
            CommandStage::RenumberingFolders { folder_id } => StageView::RenumberingFolders {
                folder_id: *folder_id,
            },
            CommandStage::ReadingFoldersToReorder { from_index, to_index } =>
                StageView::ReadingFoldersToReorder { from_index: *from_index, to_index: *to_index },
            CommandStage::ReorderingFolders { from_index, to_index } =>
                StageView::ReorderingFolders { from_index: *from_index, to_index: *to_index },
            CommandStage::RenamingFolder { folder_id, new_name } => StageView::RenamingFolder {
                folder_id: *folder_id,
                new_name: new_name@,
            },
            CommandStage::CreatingScript { folder_id } => StageView::CreatingScript {
                folder_id: *folder_id,
            },
            CommandStage::LinkingScript { folder_id } => StageView::LinkingScript {
                folder_id: *folder_id,
            },
            CommandStage::UpdatingScript { script_id } => StageView::UpdatingScript {
                script_id: *script_id,
            },
            CommandStage::DeletingScript { script_id } => StageView::DeletingScript {
                script_id: *script_id,
            },
        }
    }
}

/// What a command asks for next: one more repository call, or nothing, with the event
/// that its success raises (none after a failure).
#[derive(Debug)]
pub enum CommandProgress {
    Request { request: RepoRequest, stage: CommandStage },
    Finished { event: Option<FolderEvent> },
}

pub enum ProgressView {
    Request { request: RequestView, stage: StageView },
    Finished { event: Option<EventView> },
}

impl View for CommandProgress {
    type V = ProgressView;

    open spec fn view(&self) -> ProgressView {
        match self {
            CommandProgress::Request { request, stage } => ProgressView::Request {
                request: request@,
                stage: stage@,
            },
            CommandProgress::Finished { event } => ProgressView::Finished {
                event: match event {
                    Some(e) => Some(e@),
                    None => None,
                },
            },
        }
    }
}

/// The repository calls that a command still has to make, at most, from a stage on.
pub open spec fn calls_left(s: StageView) -> nat {
    match s {
        StageView::CountingFolders => 2,
        StageView::DeletingFolder { .. } => 3,
        StageView::ReadingRemainingFolders { .. } => 2,
        StageView::ReadingFoldersToReorder { .. } => 2,
        StageView::CreatingScript { .. } => 2,
        _ => 1,
    }
}

/// The first repository call of each command.
pub open spec fn first_step(c: CommandView) -> ProgressView {
    match c {
        CommandView::CreateFolder => ProgressView::Request {
            request: RequestView::GetFolderCount,
            stage: StageView::CountingFolders,
        },
        CommandView::SelectFolder { folder_id } => ProgressView::Request {
            request: RequestView::UpsertAppStateLastFolder { folder_id },
            stage: StageView::SelectingFolder { folder_id },
        },
        CommandView::DeleteFolder { folder_id } => ProgressView::Request {
            request: RequestView::DeleteFolder { folder_id },
            stage: StageView::DeletingFolder { folder_id },
        },
        CommandView::AddScriptToFolder { folder_id, name, command } => ProgressView::Request {
            request: RequestView::CreateScript { name, command },
            stage: StageView::CreatingScript { folder_id },
        },
        CommandView::UpdateScript { script_id, new_command } => ProgressView::Request {
            request: RequestView::UpdateScriptCommand { script_id, new_command },
            stage: StageView::UpdatingScript { script_id },
        },
        CommandView::UpdateScriptName { script_id, new_name } => ProgressView::Request {
            request: RequestView::UpdateScriptName { script_id, new_name },
            stage: StageView::UpdatingScript { script_id },
        },
        CommandView::RenameFolder { folder_id, new_name } => ProgressView::Request {
            request: RequestView::RenameFolder { folder_id, new_name },
            stage: StageView::RenamingFolder { folder_id, new_name },
        },
        CommandView::DeleteScript { script_id } => ProgressView::Request {
            request: RequestView::DeleteScript { script_id },
            stage: StageView::DeletingScript { script_id },
        },
        CommandView::ReorderFolders { from_index, to_index } => ProgressView::Request {
            request: RequestView::GetAllFolders,
            stage: StageView::ReadingFoldersToReorder { from_index, to_index },
        },
    }
}

/// The batch that persists a move: the folders sorted by ordering, the one at `from`
/// moved to the insertion point for `to`, each given its new position.
pub open spec fn reorder_updates(v: Seq<FolderView>, from: int, to: int) -> Seq<(i32, i32)> {
    position_updates(moved(sorted_by_ordering(v), from, to))
}

/// The next step of a command after the repository's answer; any failure, or an answer
/// that the stage cannot use, ends the command without an event.
pub open spec fn next_step(s: StageView, r: ReplyView) -> ProgressView {
    match (s, r) {
        (StageView::CountingFolders, ReplyView::Count(n)) => if 0 <= n <= i32::MAX {
            ProgressView::Request {
                request: RequestView::CreateFolder { name: NEW_FOLDER_NAME@, ordering: n as i32 },
                stage: StageView::CreatingFolder { ordering: n as i32 },
            }
        } else {
            ProgressView::Finished { event: None }
        },
        (StageView::CreatingFolder { ordering }, ReplyView::Folder(_)) => ProgressView::Finished {
            event: Some(EventView::FolderAdded { name: NEW_FOLDER_NAME@, ordering }),
        },
        (StageView::SelectingFolder { folder_id }, ReplyView::Done) => ProgressView::Finished {
            event: Some(EventView::FolderSelected { folder_id }),
        },
        (StageView::DeletingFolder { folder_id }, ReplyView::Done) => ProgressView::Request {
            request: RequestView::GetAllFolders,
            stage: StageView::ReadingRemainingFolders { folder_id },
        },
        (StageView::ReadingRemainingFolders { folder_id }, ReplyView::Folders(v)) => if v.len()
            <= i32::MAX {
            ProgressView::Request {
                request: RequestView::BatchUpdateFolderOrder {
                    updates: position_updates(sorted_by_ordering(v)),
                },
                stage: StageView::RenumberingFolders { folder_id },
            }
        } else {
            ProgressView::Finished { event: None }
        },
        (StageView::RenumberingFolders { folder_id }, ReplyView::Done) => ProgressView::Finished {
            event: Some(EventView::FolderDeleted { folder_id }),
        },
        (
            StageView::ReadingFoldersToReorder { from_index, to_index },
            ReplyView::Folders(v),
        ) => if v.len() <= i32::MAX && move_in_range(v.len() as int, from_index as int, to_index as int) {
            ProgressView::Request {
                request: RequestView::BatchUpdateFolderOrder {
                    updates: reorder_updates(v, from_index as int, to_index as int),
                },
                stage: StageView::ReorderingFolders { from_index, to_index },
            }
        } else {
            ProgressView::Finished { event: None }
        },
        (StageView::ReorderingFolders { from_index, to_index }, ReplyView::Done) =>
            ProgressView::Finished {
            event: Some(EventView::FoldersReordered { from_index, to_index }),
        },
        (StageView::RenamingFolder { folder_id, new_name }, ReplyView::Done) =>
            ProgressView::Finished { event: Some(EventView::FolderRenamed { folder_id, new_name }) },
        (StageView::CreatingScript { folder_id }, ReplyView::Script(c)) => ProgressView::Request {
            request: RequestView::LinkScriptToFolder { folder_id, script_id: c.id },
            stage: StageView::LinkingScript { folder_id },
        },
        (StageView::LinkingScript { folder_id }, ReplyView::Done) => ProgressView::Finished {
            event: Some(EventView::ScriptAdded { folder_id }),
        },
        (StageView::UpdatingScript { script_id }, ReplyView::Done) => ProgressView::Finished {
            event: Some(EventView::ScriptUpdated { script_id }),
        },
        (StageView::DeletingScript { script_id }, ReplyView::Done) => ProgressView::Finished {
            event: Some(EventView::ScriptDeleted { script_id }),
        },
        _ => ProgressView::Finished { event: None },
    }
}

/// Carries out commands one repository call at a time: `handle` gives the first call,
/// `resume` takes each answer and gives the next call or the outcome.
pub struct FolderCommandHandler {}

impl FolderCommandHandler {
    pub fn new() -> (r: FolderCommandHandler) {
        FolderCommandHandler {  }
    }

    pub fn handle(&self, command: FolderCommand) -> (r: CommandProgress)
        ensures
            r@ == first_step(command@),
    {
        match command {
            FolderCommand::CreateFolder {  } => CommandProgress::Request {
                request: RepoRequest::GetFolderCount,
                stage: CommandStage::CountingFolders,
            },
            FolderCommand::SelectFolder { folder_id } => CommandProgress::Request {
                request: RepoRequest::UpsertAppStateLastFolder { folder_id },
                stage: CommandStage::SelectingFolder { folder_id },
            },
            FolderCommand::DeleteFolder { folder_id } => CommandProgress::Request {
                request: RepoRequest::DeleteFolder { folder_id },
                stage: CommandStage::DeletingFolder { folder_id },
            },
            FolderCommand::AddScriptToFolder { folder_id, name, command } =>
                CommandProgress::Request {
                request: RepoRequest::CreateScript { name, command },
                stage: CommandStage::CreatingScript { folder_id },
            },
            FolderCommand::UpdateScript { script_id, new_command } => CommandProgress::Request {
                request: RepoRequest::UpdateScriptCommand { script_id, new_command },
                stage: CommandStage::UpdatingScript { script_id },
            },
            FolderCommand::UpdateScriptName { script_id, new_name } => CommandProgress::Request {
                request: RepoRequest::UpdateScriptName { script_id, new_name },
                stage: CommandStage::UpdatingScript { script_id },
            },
            FolderCommand::RenameFolder { folder_id, new_name } => {
                let name = new_name.clone();
                CommandProgress::Request {
                    request: RepoRequest::RenameFolder { folder_id, new_name },
                    stage: CommandStage::RenamingFolder { folder_id, new_name: name },
                }
            },
            FolderCommand::DeleteScript { script_id } => CommandProgress::Request {
                request: RepoRequest::DeleteScript { script_id },
                stage: CommandStage::DeletingScript { script_id },
            },
            FolderCommand::ReorderFolders { from_index, to_index } => CommandProgress::Request {
                request: RepoRequest::GetAllFolders,
                stage: CommandStage::ReadingFoldersToReorder { from_index, to_index },
            },
        }
    }

    pub fn resume(&self, stage: CommandStage, reply: RepoReply) -> (r: CommandProgress)
        ensures
            r@ == next_step(stage@, reply@),
            r@ is Request ==> calls_left(r@->Request_stage) < calls_left(stage@),
    {
        match (stage, reply) {
            (CommandStage::CountingFolders, RepoReply::Count(n)) => {
                if 0 <= n && n <= i32::MAX as i64 {
                    CommandProgress::Request {
                        request: RepoRequest::CreateFolder {
                            name: NEW_FOLDER_NAME.to_owned(),
                            ordering: n as i32,
                        },
                        stage: CommandStage::CreatingFolder { ordering: n as i32 },
                    }
                } else {
                    CommandProgress::Finished { event: None }
                }
            },
            (CommandStage::CreatingFolder { ordering }, RepoReply::Folder(_)) => {
                CommandProgress::Finished {
                    event: Some(FolderEvent::FolderAdded { name: NEW_FOLDER_NAME.to_owned(), ordering }),
                }
            },
            (CommandStage::SelectingFolder { folder_id }, RepoReply::Done) => {
                CommandProgress::Finished { event: Some(FolderEvent::FolderSelected { folder_id }) }
            },
            (CommandStage::DeletingFolder { folder_id }, RepoReply::Done) => {
                CommandProgress::Request {
                    request: RepoRequest::GetAllFolders,
                    stage: CommandStage::ReadingRemainingFolders { folder_id },
                }
            },
            (CommandStage::ReadingRemainingFolders { folder_id }, RepoReply::Folders(v)) => {
                if v.len() <= i32::MAX as usize {
                    let ghost fv = folders_view(v@);
                    let sorted = sort_folders_by_ordering(v);
                    proof {
                        lemma_sorted_len(fv);
                    }
                    let updates = position_order_updates(&sorted);
                    CommandProgress::Request {
                        request: RepoRequest::BatchUpdateFolderOrder { updates },
                        stage: CommandStage::RenumberingFolders { folder_id },
                    }
                } else {
                    CommandProgress::Finished { event: None }
                }
            },
            (CommandStage::RenumberingFolders { folder_id }, RepoReply::Done) => {
                CommandProgress::Finished { event: Some(FolderEvent::FolderDeleted { folder_id }) }
            },
            (
                CommandStage::ReadingFoldersToReorder { from_index, to_index },
                RepoReply::Folders(v),
            ) => {
                let n = v.len();
                if n <= i32::MAX as usize && 0 <= from_index && (from_index as usize) < n
                    && 0 <= to_index && (to_index as usize) <= n {
                    let ghost fv = folders_view(v@);
                    let mut sorted = sort_folders_by_ordering(v);
                    proof {
                        lemma_sorted_len(fv);
                    }
                    let ghost sv = folders_view(sorted@);
                    let from = from_index as usize;
                    let to = to_index as usize;
                    let f = sorted.remove(from);
                    let at = if from < to {
                        to - 1
                    } else {
                        to
                    };
                    sorted.insert(at, f);
                    proof {
                        assert(folders_view(sorted@) =~= moved(sv, from as int, to as int));
                    }
                    let updates = position_order_updates(&sorted);
                    CommandProgress::Request {
                        request: RepoRequest::BatchUpdateFolderOrder { updates },
                        stage: CommandStage::ReorderingFolders { from_index, to_index },
                    }
                } else {
                    CommandProgress::Finished { event: None }
                }
            },
            (CommandStage::ReorderingFolders { from_index, to_index }, RepoReply::Done) => {
                CommandProgress::Finished {
                    event: Some(FolderEvent::FoldersReordered { from_index, to_index }),
                }
            },
            (CommandStage::RenamingFolder { folder_id, new_name }, RepoReply::Done) => {
                CommandProgress::Finished {
                    event: Some(FolderEvent::FolderRenamed { folder_id, new_name }),
                }
            },
            (CommandStage::CreatingScript { folder_id }, RepoReply::Script(c)) => {
                CommandProgress::Request {
                    request: RepoRequest::LinkScriptToFolder { folder_id, script_id: c.id },
                    stage: CommandStage::LinkingScript { folder_id },
                }
            },
            (CommandStage::LinkingScript { folder_id }, RepoReply::Done) => {
                CommandProgress::Finished { event: Some(FolderEvent::ScriptAdded { folder_id }) }
            },
            (CommandStage::UpdatingScript { script_id }, RepoReply::Done) => {
                CommandProgress::Finished { event: Some(FolderEvent::ScriptUpdated { script_id }) }
            },
            (CommandStage::DeletingScript { script_id }, RepoReply::Done) => {
                CommandProgress::Finished { event: Some(FolderEvent::ScriptDeleted { script_id }) }
            },
            _ => CommandProgress::Finished { event: None },
        }
    }
}

/// The command that restores the last session: select the folder that the stored
/// application state names, if it names one.
pub fn startup_command(app_state: Option<AppStateData>) -> (r: Option<FolderCommand>)
    ensures
        match app_state {
            Some(AppStateData { last_opened_folder_id: Some(id), .. }) => r matches Some(c)
                && c@ == (CommandView::SelectFolder { folder_id: id }),
            _ => r is None,
        },
{
    match app_state {
        Some(app) => match app.last_opened_folder_id {
            Some(folder_id) => Some(FolderCommand::SelectFolder { folder_id }),
            None => None,
        },
        None => None,
    }
}

} // verus!
