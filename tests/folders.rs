use shell_script_manager::columns::{folder_display_name, FolderItem, ScriptsColumn};
use shell_script_manager::command_handler::{CommandProgress, CommandStage, FolderCommandHandler};
use shell_script_manager::command_handler::startup_command;
use shell_script_manager::dispatch::{
    completion_messages, folder_command_message, folder_event_message, AppCommand, AppEvent,
    AppMessage,
};
use shell_script_manager::model::AppStateData;
use shell_script_manager::event_handler::{EventProgress, FolderEventHandler};
use shell_script_manager::message::{FolderCommand, FolderEvent, RepoError, RepoReply, RepoRequest};
use shell_script_manager::model::Folder;
use shell_script_manager::repository::MemoryRepository;
use shell_script_manager::shared_state::AppState;
use shell_script_manager::state::FolderReducer;
use shell_script_manager::system::execute_command;

fn folder(id: i32, name: &str, ordering: i32) -> Folder {
    Folder { id, name: name.to_string(), ordering }
}

/// Runs the event's handling to the end, answering its queries from `repo`.
fn deliver(repo: &mut MemoryRepository, reducer: &mut FolderReducer, event: FolderEvent) {
    let handler = FolderEventHandler::new();
    let mut progress = handler.handle(reducer, event);
    while let EventProgress::Query { request, stage } = progress {
        let reply = repo.perform(request);
        progress = handler.resume(reducer, stage, reply);
    }
}

/// Runs the command against `repo` and, if it raised an event, delivers it.
fn settle(repo: &mut MemoryRepository, reducer: &mut FolderReducer, command: FolderCommand) -> bool {
    let handler = FolderCommandHandler::new();
    match execute_command(repo, &handler, command) {
        Some(event) => {
            deliver(repo, reducer, event);
            true
        }
        None => false,
    }
}

fn names(reducer: &FolderReducer) -> Vec<String> {
    reducer.state().folder_list.iter().map(|f| f.name.clone()).collect()
}

fn orderings(reducer: &FolderReducer) -> Vec<i32> {
    reducer.state().folder_list.iter().map(|f| f.ordering).collect()
}

fn rename(repo: &mut MemoryRepository, reducer: &mut FolderReducer, id: i32, name: &str) {
    assert!(settle(
        repo,
        reducer,
        FolderCommand::RenameFolder { folder_id: id, new_name: name.to_string() }
    ));
}

/// Four folders named A, B, C, D with ids 1..4 and orderings 0..3.
fn four_folders(repo: &mut MemoryRepository, reducer: &mut FolderReducer) {
    for (i, name) in ["A", "B", "C", "D"].iter().enumerate() {
        assert!(settle(repo, reducer, FolderCommand::CreateFolder {}));
        rename(repo, reducer, i as i32 + 1, name);
    }
}

fn add_script(repo: &mut MemoryRepository, reducer: &mut FolderReducer, folder_id: i32, name: &str) {
    assert!(settle(
        repo,
        reducer,
        FolderCommand::AddScriptToFolder {
            folder_id,
            name: name.to_string(),
            command: format!("echo {}", name),
        }
    ));
}

fn has_script(repo: &mut MemoryRepository, script_id: i32) -> bool {
    match repo.perform(RepoRequest::GetScriptsForFolder { folder_id: 0 }) {
        RepoReply::Scripts(_) => {}
        other => panic!("unexpected reply {:?}", other),
    }
    // Deleting an existing script succeeds; a missing one is not found. Probe on a copy
    // of the answer instead: list every folder's scripts.
    let mut found = false;
    if let RepoReply::Folders(folders) = repo.perform(RepoRequest::GetAllFolders) {
        for f in folders {
            if let RepoReply::Scripts(scripts) =
                repo.perform(RepoRequest::GetScriptsForFolder { folder_id: f.id })
            {
                found |= scripts.iter().any(|c| c.id == script_id);
            }
        }
    }
    found
}

#[test]
fn test_shared_state() {
    let mut state = AppState::new();
    let folder = Folder { id: 1, name: "Test".to_string(), ordering: 0 };
    state.add_folder(folder);
    let folders = state.get_folders();
    assert_eq!(folders.len(), 1);
    assert_eq!(folders[0].name, "Test");
}

#[test]
fn shared_state_selection() {
    let mut state = AppState::new();
    assert_eq!(state.get_selected_folder(), None);
    state.select_folder(42);
    assert_eq!(state.get_selected_folder(), Some(42));
}

#[test]
fn create_folder_gets_name_and_next_ordering() {
    let mut repo = MemoryRepository::new();
    let mut reducer = FolderReducer::new();
    assert!(settle(&mut repo, &mut reducer, FolderCommand::CreateFolder {}));
    assert!(settle(&mut repo, &mut reducer, FolderCommand::CreateFolder {}));
    assert_eq!(names(&reducer), vec!["New Collection", "New Collection"]);
    assert_eq!(orderings(&reducer), vec![0, 1]);
    let ids: Vec<i32> = reducer.state().folder_list.iter().map(|f| f.id).collect();
    assert_eq!(ids, vec![1, 2]);
}

#[test]
fn reorder_down_lands_one_above_target() {
    let mut repo = MemoryRepository::new();
    let mut reducer = FolderReducer::new();
    four_folders(&mut repo, &mut reducer);
    assert_eq!(names(&reducer), vec!["A", "B", "C", "D"]);
    assert!(settle(&mut repo, &mut reducer, FolderCommand::ReorderFolders { from_index: 0, to_index: 3 }));
    assert_eq!(names(&reducer), vec!["B", "C", "A", "D"]);
    assert_eq!(orderings(&reducer), vec![0, 1, 2, 3]);
    // The repository agrees: reloading gives the same order.
    let mut fresh = FolderReducer::new();
    deliver(&mut repo, &mut fresh, FolderEvent::FolderAdded { name: String::new(), ordering: 0 });
    assert_eq!(names(&fresh), vec!["B", "C", "A", "D"]);
}

#[test]
fn reorder_up_lands_on_target() {
    let mut repo = MemoryRepository::new();
    let mut reducer = FolderReducer::new();
    four_folders(&mut repo, &mut reducer);
    assert!(settle(&mut repo, &mut reducer, FolderCommand::ReorderFolders { from_index: 3, to_index: 0 }));
    assert_eq!(names(&reducer), vec!["D", "A", "B", "C"]);
    assert_eq!(orderings(&reducer), vec![0, 1, 2, 3]);
    let mut fresh = FolderReducer::new();
    deliver(&mut repo, &mut fresh, FolderEvent::FolderAdded { name: String::new(), ordering: 0 });
    assert_eq!(names(&fresh), vec!["D", "A", "B", "C"]);
}

#[test]
fn reorder_out_of_range_is_refused() {
    let mut repo = MemoryRepository::new();
    let mut reducer = FolderReducer::new();
    four_folders(&mut repo, &mut reducer);
    assert!(!settle(&mut repo, &mut reducer, FolderCommand::ReorderFolders { from_index: 4, to_index: 0 }));
    assert!(!settle(&mut repo, &mut reducer, FolderCommand::ReorderFolders { from_index: 0, to_index: 5 }));
    assert!(!settle(&mut repo, &mut reducer, FolderCommand::ReorderFolders { from_index: -1, to_index: 0 }));
    assert_eq!(names(&reducer), vec!["A", "B", "C", "D"]);
}

#[test]
fn orderings_stay_dense_through_creates_deletes_and_moves() {
    let mut repo = MemoryRepository::new();
    let mut reducer = FolderReducer::new();
    let dense = |r: &FolderReducer| {
        let n = r.state().folder_list.len() as i32;
        orderings(r) == (0..n).collect::<Vec<i32>>()
    };
    for _ in 0..5 {
        assert!(settle(&mut repo, &mut reducer, FolderCommand::CreateFolder {}));
        assert!(dense(&reducer));
    }
    assert!(settle(&mut repo, &mut reducer, FolderCommand::DeleteFolder { folder_id: 2 }));
    assert!(dense(&reducer));
    assert!(settle(&mut repo, &mut reducer, FolderCommand::ReorderFolders { from_index: 3, to_index: 1 }));
    assert!(dense(&reducer));
    assert!(settle(&mut repo, &mut reducer, FolderCommand::DeleteFolder { folder_id: 1 }));
    assert!(dense(&reducer));
    assert!(settle(&mut repo, &mut reducer, FolderCommand::CreateFolder {}));
    assert!(dense(&reducer));
    assert_eq!(reducer.state().folder_list.len(), 4);
    // The persisted orderings are dense too.
    let mut fresh = FolderReducer::new();
    deliver(&mut repo, &mut fresh, FolderEvent::FolderAdded { name: String::new(), ordering: 0 });
    if let RepoReply::Folders(mut stored) = repo.perform(RepoRequest::GetAllFolders) {
        stored.sort_by_key(|f| f.ordering);
        let o: Vec<i32> = stored.iter().map(|f| f.ordering).collect();
        assert_eq!(o, vec![0, 1, 2, 3]);
    } else {
        panic!("folders could not be read");
    }
}

#[test]
fn deleting_a_folder_cascades_to_orphaned_scripts() {
    let mut repo = MemoryRepository::new();
    let mut reducer = FolderReducer::new();
    four_folders(&mut repo, &mut reducer);
    add_script(&mut repo, &mut reducer, 1, "only-in-x"); // script 1
    add_script(&mut repo, &mut reducer, 1, "shared"); // script 2
    assert!(matches!(
        repo.perform(RepoRequest::LinkScriptToFolder { folder_id: 2, script_id: 2 }),
        RepoReply::Done
    ));
    assert!(has_script(&mut repo, 1));
    assert!(settle(&mut repo, &mut reducer, FolderCommand::DeleteFolder { folder_id: 1 }));
    assert!(!has_script(&mut repo, 1));
    assert!(matches!(repo.perform(RepoRequest::DeleteScript { script_id: 1 }), RepoReply::Failed(RepoError::NotFound)));
    match repo.perform(RepoRequest::GetScriptsForFolder { folder_id: 2 }) {
        RepoReply::Scripts(scripts) => {
            assert_eq!(scripts.len(), 1);
            assert_eq!(scripts[0].id, 2);
            assert_eq!(scripts[0].name, "shared");
        }
        other => panic!("unexpected reply {:?}", other),
    }
    assert_eq!(names(&reducer), vec!["B", "C", "D"]);
    assert_eq!(orderings(&reducer), vec![0, 1, 2]);
}

#[test]
fn selecting_a_folder_shows_only_its_scripts() {
    let mut repo = MemoryRepository::new();
    let mut reducer = FolderReducer::new();
    four_folders(&mut repo, &mut reducer);
    add_script(&mut repo, &mut reducer, 1, "a1");
    add_script(&mut repo, &mut reducer, 1, "a2");
    add_script(&mut repo, &mut reducer, 2, "b1");
    assert!(settle(&mut repo, &mut reducer, FolderCommand::SelectFolder { folder_id: 1 }));
    let shown: Vec<String> =
        reducer.state().scripts_of_selected_folder.iter().map(|c| c.name.clone()).collect();
    assert_eq!(shown, vec!["a1", "a2"]);
    assert!(settle(&mut repo, &mut reducer, FolderCommand::SelectFolder { folder_id: 2 }));
    let shown: Vec<String> =
        reducer.state().scripts_of_selected_folder.iter().map(|c| c.name.clone()).collect();
    assert_eq!(shown, vec!["b1"]);
    assert_eq!(reducer.state().selected_folder_id, Some(2));
}

#[test]
fn stale_script_answer_is_dropped() {
    let mut repo = MemoryRepository::new();
    let mut reducer = FolderReducer::new();
    four_folders(&mut repo, &mut reducer);
    add_script(&mut repo, &mut reducer, 1, "a1");
    let handler = FolderEventHandler::new();
    reducer.select_folder(2);
    let progress = handler.resume(
        &mut reducer,
        shell_script_manager::event_handler::EventStage::LoadingScripts { folder_id: 1 },
        RepoReply::Scripts(vec![]),
    );
    assert!(matches!(progress, EventProgress::Done));
    reducer.set_scripts_of_selected_folder(Vec::new());
    if let RepoReply::Scripts(s) = repo.perform(RepoRequest::GetScriptsForFolder { folder_id: 1 }) {
        handler.resume(
            &mut reducer,
            shell_script_manager::event_handler::EventStage::LoadingScripts { folder_id: 1 },
            RepoReply::Scripts(s),
        );
    }
    assert!(reducer.state().scripts_of_selected_folder.is_empty());
}

#[test]
fn renaming_to_the_same_name_changes_nothing() {
    let mut repo = MemoryRepository::new();
    let mut reducer = FolderReducer::new();
    four_folders(&mut repo, &mut reducer);
    let before: Vec<(i32, String, i32)> =
        reducer.state().folder_list.iter().map(|f| (f.id, f.name.clone(), f.ordering)).collect();
    rename(&mut repo, &mut reducer, 2, "B");
    let after: Vec<(i32, String, i32)> =
        reducer.state().folder_list.iter().map(|f| (f.id, f.name.clone(), f.ordering)).collect();
    assert_eq!(before, after);
}

#[test]
fn rename_changes_only_that_folder() {
    let mut repo = MemoryRepository::new();
    let mut reducer = FolderReducer::new();
    four_folders(&mut repo, &mut reducer);
    rename(&mut repo, &mut reducer, 3, "Tools");
    assert_eq!(names(&reducer), vec!["A", "B", "Tools", "D"]);
}

#[test]
fn selection_survives_a_restart() {
    let mut repo = MemoryRepository::new();
    let mut reducer = FolderReducer::new();
    four_folders(&mut repo, &mut reducer);
    assert!(settle(&mut repo, &mut reducer, FolderCommand::SelectFolder { folder_id: 3 }));
    // A restart starts from an empty snapshot and reads the application state back.
    match repo.perform(RepoRequest::GetAppState) {
        RepoReply::AppState(Some(app)) => assert_eq!(app.last_opened_folder_id, Some(3)),
        other => panic!("unexpected reply {:?}", other),
    }
    assert!(settle(&mut repo, &mut reducer, FolderCommand::SelectFolder { folder_id: 4 }));
    match repo.perform(RepoRequest::GetAppState) {
        RepoReply::AppState(Some(app)) => {
            assert_eq!(app.last_opened_folder_id, Some(4));
            assert_eq!(app.id, 1);
        }
        other => panic!("unexpected reply {:?}", other),
    }
}

#[test]
fn second_delete_of_same_folder_fails_cleanly() {
    let mut repo = MemoryRepository::new();
    let mut reducer = FolderReducer::new();
    four_folders(&mut repo, &mut reducer);
    let handler = FolderCommandHandler::new();
    let first = execute_command(&mut repo, &handler, FolderCommand::DeleteFolder { folder_id: 2 });
    let second = execute_command(&mut repo, &handler, FolderCommand::DeleteFolder { folder_id: 2 });
    assert!(matches!(first, Some(FolderEvent::FolderDeleted { folder_id: 2 })));
    assert!(second.is_none());
    deliver(&mut repo, &mut reducer, first.unwrap());
    assert_eq!(names(&reducer), vec!["A", "C", "D"]);
    assert_eq!(orderings(&reducer), vec![0, 1, 2]);
    // A duplicate event in the snapshot is harmless too.
    deliver(&mut repo, &mut reducer, FolderEvent::FolderDeleted { folder_id: 2 });
    assert_eq!(names(&reducer), vec!["A", "C", "D"]);
    assert_eq!(orderings(&reducer), vec![0, 1, 2]);
}

#[test]
fn failed_step_raises_no_event() {
    let handler = FolderCommandHandler::new();
    let p = handler.resume(CommandStage::SelectingFolder { folder_id: 1 }, RepoReply::Failed(RepoError::Backend));
    assert!(matches!(p, CommandProgress::Finished { event: None }));
    let p = handler.resume(CommandStage::CountingFolders, RepoReply::Count(-1));
    assert!(matches!(p, CommandProgress::Finished { event: None }));
    let p = handler.resume(CommandStage::CountingFolders, RepoReply::Count(7));
    match p {
        CommandProgress::Request { request: RepoRequest::CreateFolder { name, ordering }, .. } => {
            assert_eq!(name, "New Collection");
            assert_eq!(ordering, 7);
        }
        other => panic!("unexpected progress {:?}", other),
    }
}

#[test]
fn delete_renumbers_remaining_by_prior_ordering() {
    let handler = FolderCommandHandler::new();
    let remaining = vec![folder(7, "x", 3), folder(5, "y", 0), folder(9, "z", 2)];
    match handler.resume(CommandStage::ReadingRemainingFolders { folder_id: 1 }, RepoReply::Folders(remaining)) {
        CommandProgress::Request { request: RepoRequest::BatchUpdateFolderOrder { updates }, .. } => {
            let pairs: Vec<(i32, i32)> = updates.iter().map(|u| (u.folder_id, u.new_ordering)).collect();
            assert_eq!(pairs, vec![(5, 0), (9, 1), (7, 2)]);
        }
        other => panic!("unexpected progress {:?}", other),
    }
}

#[test]
fn deleting_a_missing_folder_is_not_found() {
    let mut repo = MemoryRepository::new();
    assert!(matches!(repo.perform(RepoRequest::DeleteFolder { folder_id: 3 }), RepoReply::Failed(RepoError::NotFound)));
    assert!(matches!(
        repo.perform(RepoRequest::LinkScriptToFolder { folder_id: 1, script_id: 1 }),
        RepoReply::Failed(RepoError::NotFound)
    ));
}

#[test]
fn script_edits_reload_the_selected_folder() {
    let mut repo = MemoryRepository::new();
    let mut reducer = FolderReducer::new();
    four_folders(&mut repo, &mut reducer);
    add_script(&mut repo, &mut reducer, 1, "a1");
    assert!(settle(&mut repo, &mut reducer, FolderCommand::SelectFolder { folder_id: 1 }));
    assert!(settle(
        &mut repo,
        &mut reducer,
        FolderCommand::UpdateScript { script_id: 1, new_command: "ls -la".to_string() }
    ));
    assert_eq!(reducer.state().scripts_of_selected_folder[0].command, "ls -la");
    assert!(settle(
        &mut repo,
        &mut reducer,
        FolderCommand::UpdateScriptName { script_id: 1, new_name: "list".to_string() }
    ));
    assert_eq!(reducer.state().scripts_of_selected_folder[0].name, "list");
    assert!(settle(&mut repo, &mut reducer, FolderCommand::DeleteScript { script_id: 1 }));
    assert!(reducer.state().scripts_of_selected_folder.is_empty());
    assert!(!settle(&mut repo, &mut reducer, FolderCommand::DeleteScript { script_id: 1 }));
}

#[test]
fn completion_sends_event_then_callback() {
    let m = completion_messages(Some(FolderEvent::FolderSelected { folder_id: 3 }), Some(11));
    assert_eq!(m.len(), 2);
    assert!(matches!(m[0], AppMessage::Event(AppEvent::Folder(FolderEvent::FolderSelected { folder_id: 3 }))));
    assert!(matches!(m[1], AppMessage::Callback(11)));
    let m = completion_messages(None, Some(12));
    assert_eq!(m.len(), 1);
    assert!(matches!(m[0], AppMessage::Callback(12)));
    assert!(completion_messages(None, None).is_empty());
}

#[test]
fn messages_carry_command_token_and_event() {
    match folder_command_message(FolderCommand::SelectFolder { folder_id: 42 }, Some(1)) {
        AppMessage::Command(AppCommand::Folder(w)) => {
            assert!(matches!(w.command, FolderCommand::SelectFolder { folder_id: 42 }));
            assert_eq!(w.callback, Some(1));
        }
        other => panic!("unexpected message {:?}", other),
    }
    assert!(matches!(
        folder_event_message(FolderEvent::FolderSelected { folder_id: 42 }),
        AppMessage::Event(AppEvent::Folder(FolderEvent::FolderSelected { folder_id: 42 }))
    ));
    let (tx, rx) = crossbeam::channel::unbounded();
    tx.send(folder_command_message(FolderCommand::CreateFolder {}, None)).unwrap();
    assert!(matches!(rx.try_recv(), Ok(AppMessage::Command(_))));
}

#[test]
fn startup_restores_the_last_folder() {
    let c = startup_command(Some(AppStateData { id: 1, last_opened_folder_id: Some(7) }));
    assert!(matches!(c, Some(FolderCommand::SelectFolder { folder_id: 7 })));
    assert!(startup_command(Some(AppStateData { id: 1, last_opened_folder_id: None })).is_none());
    assert!(startup_command(None).is_none());
}

#[test]
fn display_name_uses_draft_while_renaming() {
    let f = folder(1, "Scripts", 0);
    let other = folder(2, "Tools", 1);
    assert_eq!(folder_display_name(&f, &Some(folder(1, "Scripts", 0)), &Some("Draft".to_string())), "Draft");
    assert_eq!(folder_display_name(&other, &Some(folder(1, "Scripts", 0)), &Some("Draft".to_string())), "Tools");
    assert_eq!(folder_display_name(&f, &None, &Some("Draft".to_string())), "Scripts");
    let item = FolderItem::new(&f, Some(1), "Scripts");
    assert!(item.is_selected());
    assert!(!FolderItem::new(&other, Some(1), "Tools").is_selected());
}

#[test]
fn scripts_column_starts_closed() {
    let c = ScriptsColumn::new();
    assert!(!c.adding_new_script);
    assert_eq!(c.adding_code, "# add your code here ...");
    assert_eq!(c.code_lang, "bash");
    assert_eq!(c.editing_script_id, None);
}
