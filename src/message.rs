use vstd::prelude::*;

use crate::arrange::{updates_view, FolderOrderUpdate};
use crate::model::{folders_view, scripts_view, AppStateData, Folder, FolderView, Script, ScriptView};

verus! {

/// A user intent, carrying the data needed to carry it out and no UI state.
#[derive(Debug)]
pub enum FolderCommand {
    CreateFolder {},
    SelectFolder { folder_id: i32 },
    DeleteFolder { folder_id: i32 },
    AddScriptToFolder { folder_id: i32, name: String, command: String },
    UpdateScript { script_id: i32, new_command: String },
    UpdateScriptName { script_id: i32, new_name: String },
    RenameFolder { folder_id: i32, new_name: String },
    DeleteScript { script_id: i32 },
    ReorderFolders { from_index: i32, to_index: i32 },
}

pub enum CommandView {
    CreateFolder,
    SelectFolder { folder_id: i32 },
    DeleteFolder { folder_id: i32 },
    AddScriptToFolder { folder_id: i32, name: Seq<char>, command: Seq<char> },
    UpdateScript { script_id: i32, new_command: Seq<char> },
    UpdateScriptName { script_id: i32, new_name: Seq<char> },
    RenameFolder { folder_id: i32, new_name: Seq<char> },
    DeleteScript { script_id: i32 },
    ReorderFolders { from_index: i32, to_index: i32 },
}

impl View for FolderCommand {
    type V = CommandView;

    open spec fn view(&self) -> CommandView {
        match self {
            FolderCommand::CreateFolder {  } => CommandView::CreateFolder,
            FolderCommand::SelectFolder { folder_id } => CommandView::SelectFolder {
                folder_id: *folder_id,
            },
            FolderCommand::DeleteFolder { folder_id } => CommandView::DeleteFolder {
                folder_id: *folder_id,
            },
            FolderCommand::AddScriptToFolder { folder_id, name, command } =>
                CommandView::AddScriptToFolder {
                folder_id: *folder_id,
                name: name@,
                command: command@,
            },
            FolderCommand::UpdateScript { script_id, new_command } => CommandView::UpdateScript {
                script_id: *script_id,
                new_command: new_command@,
            },
            FolderCommand::UpdateScriptName { script_id, new_name } =>
                CommandView::UpdateScriptName { script_id: *script_id, new_name: new_name@ },
            FolderCommand::RenameFolder { folder_id, new_name } => CommandView::RenameFolder {
                folder_id: *folder_id,
                new_name: new_name@,
            },
            FolderCommand::DeleteScript { script_id } => CommandView::DeleteScript {
                script_id: *script_id,
            },
            FolderCommand::ReorderFolders { from_index, to_index } =>
                CommandView::ReorderFolders { from_index: *from_index, to_index: *to_index },
        }
    }
}

/// A confirmed fact, raised once the persistence behind a command has completed.
#[derive(Debug)]
pub enum FolderEvent {
    FolderAdded { name: String, ordering: i32 },
    FolderSelected { folder_id: i32 },
    FolderDeleted { folder_id: i32 },
    ScriptAdded { folder_id: i32 },
    ScriptUpdated { script_id: i32 },
    FolderRenamed { folder_id: i32, new_name: String },
    ScriptDeleted { script_id: i32 },
    FoldersReordered { from_index: i32, to_index: i32 },
}

pub enum EventView {
    FolderAdded { name: Seq<char>, ordering: i32 },
    FolderSelected { folder_id: i32 },
    FolderDeleted { folder_id: i32 },
    ScriptAdded { folder_id: i32 },
    ScriptUpdated { script_id: i32 },
    FolderRenamed { folder_id: i32, new_name: Seq<char> },
    ScriptDeleted { script_id: i32 },
    FoldersReordered { from_index: i32, to_index: i32 },
}

impl View for FolderEvent {
    type V = EventView;

    open spec fn view(&self) -> EventView {
        match self {
            FolderEvent::FolderAdded { name, ordering } => EventView::FolderAdded {
                name: name@,
                ordering: *ordering,
            },
            FolderEvent::FolderSelected { folder_id } => EventView::FolderSelected {
                folder_id: *folder_id,
            },
            FolderEvent::FolderDeleted { folder_id } => EventView::FolderDeleted {
                folder_id: *folder_id,
            },
            FolderEvent::ScriptAdded { folder_id } => EventView::ScriptAdded {
                folder_id: *folder_id,
            },
            FolderEvent::ScriptUpdated { script_id } => EventView::ScriptUpdated {
                script_id: *script_id,
            },
            FolderEvent::FolderRenamed { folder_id, new_name } => EventView::FolderRenamed {
                folder_id: *folder_id,
                new_name: new_name@,
            },
            FolderEvent::ScriptDeleted { script_id } => EventView::ScriptDeleted {
                script_id: *script_id,
            },
            FolderEvent::FoldersReordered { from_index, to_index } =>
                EventView::FoldersReordered { from_index: *from_index, to_index: *to_index },
        }
    }
}

pub open spec fn event_opt_view(e: Option<FolderEvent>) -> Option<EventView> {
    match e {
        Some(ev) => Some(ev@),
        None => None,
    }
}

/// Why a repository call failed.
#[derive(PartialEq, Eq, Structural, Clone, Copy, Debug)]
pub enum RepoError {
    NotFound,
    IdsExhausted,
    Backend,
}

/// One call into the repository.
#[derive(Debug)]
pub enum RepoRequest {
    CreateFolder { name: String, ordering: i32 },
    GetAllFolders,
    GetFolderCount,
    DeleteFolder { folder_id: i32 },
    BatchUpdateFolderOrder { updates: Vec<FolderOrderUpdate> },
    RenameFolder { folder_id: i32, new_name: String },
    UpsertAppStateLastFolder { folder_id: i32 },
    GetAppState,
    CreateScript { name: String, command: String },
    LinkScriptToFolder { folder_id: i32, script_id: i32 },
    GetScriptsForFolder { folder_id: i32 },
    UpdateScriptCommand { script_id: i32, new_command: String },
    UpdateScriptName { script_id: i32, new_name: String },
    DeleteScript { script_id: i32 },
}

pub enum RequestView {
    CreateFolder { name: Seq<char>, ordering: i32 },
    GetAllFolders,
    GetFolderCount,
    DeleteFolder { folder_id: i32 },
    BatchUpdateFolderOrder { updates: Seq<(i32, i32)> },
    RenameFolder { folder_id: i32, new_name: Seq<char> },
    UpsertAppStateLastFolder { folder_id: i32 },
    GetAppState,
    CreateScript { name: Seq<char>, command: Seq<char> },
    LinkScriptToFolder { folder_id: i32, script_id: i32 },
    GetScriptsForFolder { folder_id: i32 },
    UpdateScriptCommand { script_id: i32, new_command: Seq<char> },
    UpdateScriptName { script_id: i32, new_name: Seq<char> },
    DeleteScript { script_id: i32 },
}

impl View for RepoRequest {
    type V = RequestView;

    open spec fn view(&self) -> RequestView {
        match self {
            RepoRequest::CreateFolder { name, ordering } => RequestView::CreateFolder {
                name: name@,
                ordering: *ordering,
            },
            RepoRequest::GetAllFolders => RequestView::GetAllFolders,
            RepoRequest::GetFolderCount => RequestView::GetFolderCount,
            RepoRequest::DeleteFolder { folder_id } => RequestView::DeleteFolder {
                folder_id: *folder_id,
            },
            RepoRequest::BatchUpdateFolderOrder { updates } =>
                RequestView::BatchUpdateFolderOrder { updates: updates_view(updates@) },
            RepoRequest::RenameFolder { folder_id, new_name } => RequestView::RenameFolder {
                folder_id: *folder_id,
                new_name: new_name@,
            },
            RepoRequest::UpsertAppStateLastFolder { folder_id } =>
                RequestView::UpsertAppStateLastFolder { folder_id: *folder_id },
            RepoRequest::GetAppState => RequestView::GetAppState,
            RepoRequest::CreateScript { name, command } => RequestView::CreateScript {
                name: name@,
                command: command@,
            },
            RepoRequest::LinkScriptToFolder { folder_id, script_id } =>
                RequestView::LinkScriptToFolder { folder_id: *folder_id, script_id: *script_id },
            RepoRequest::GetScriptsForFolder { folder_id } => RequestView::GetScriptsForFolder {
                folder_id: *folder_id,
            },
            RepoRequest::UpdateScriptCommand { script_id, new_command } =>
                RequestView::UpdateScriptCommand {
                script_id: *script_id,
                new_command: new_command@,
            },
            RepoRequest::UpdateScriptName { script_id, new_name } =>
                RequestView::UpdateScriptName { script_id: *script_id, new_name: new_name@ },
            RepoRequest::DeleteScript { script_id } => RequestView::DeleteScript {
                script_id: *script_id,
            },
        }
    }
}

/// What the repository answered to one request.
#[derive(Debug)]
pub enum RepoReply {
    Done,
    Count(i64),
    Folder(Folder),
    Folders(Vec<Folder>),
    AppState(Option<AppStateData>),
    Script(Script),
    Scripts(Vec<Script>),
    Failed(RepoError),
}

pub enum ReplyView {
    Done,
    Count(i64),
    Folder(FolderView),
    Folders(Seq<FolderView>),
    AppState(Option<AppStateData>),
    Script(ScriptView),
    Scripts(Seq<ScriptView>),
    Failed(RepoError),
}

impl View for RepoReply {
    type V = ReplyView;

    open spec fn view(&self) -> ReplyView {
        match self {
            RepoReply::Done => ReplyView::Done,
            RepoReply::Count(n) => ReplyView::Count(*n),
            RepoReply::Folder(f) => ReplyView::Folder(f@),
            RepoReply::Folders(v) => ReplyView::Folders(folders_view(v@)),
            RepoReply::AppState(a) => ReplyView::AppState(*a),
            RepoReply::Script(c) => ReplyView::Script(c@),
            RepoReply::Scripts(v) => ReplyView::Scripts(scripts_view(v@)),
            RepoReply::Failed(e) => ReplyView::Failed(*e),
        }
    }
}

} // verus!
