use shell_script_manager::arrange::sort_folders_by_ordering;
use shell_script_manager::columns::{
    with_folder_state, with_scritps_from_selected_folder, App, FolderColumn,
};
use shell_script_manager::model::{Folder, Script};
use shell_script_manager::shell::{
    choose_shell, contains_text, last_field, login_shell_from_passwd, shell_wrapped_command,
    BASH_PRELUDE, ZSH_PRELUDE,
};
use shell_script_manager::state::FolderReducer;

const PASSWD: &str = "root:x:0:0:root:/root:/bin/bash\nme:x:1000:1000::/home/me:/usr/bin/fish\n";

#[test]
fn finds_text_inside_text() {
    assert!(contains_text("/usr/bin/zsh", "zsh"));
    assert!(contains_text("abc", ""));
    assert!(!contains_text("/bin/sh", "bash"));
    assert!(!contains_text("zs", "zsh"));
}

#[test]
fn zsh_and_bash_load_their_configuration() {
    assert_eq!(shell_wrapped_command("/bin/zsh", "ls"), format!("{}ls", ZSH_PRELUDE));
    assert_eq!(
        shell_wrapped_command("/usr/local/bin/bash", "echo hi"),
        "source ~/.bash_profile 2>/dev/null; source ~/.bashrc 2>/dev/null; echo hi"
    );
    assert_eq!(shell_wrapped_command("/bin/bash", "x"), format!("{}x", BASH_PRELUDE));
    assert_eq!(shell_wrapped_command("/bin/sh", "ls"), "ls");
}

#[test]
fn login_shell_comes_from_the_line_with_the_home() {
    assert_eq!(login_shell_from_passwd(PASSWD, "/home/me"), Some("/usr/bin/fish".to_string()));
    assert_eq!(login_shell_from_passwd(PASSWD, "/root"), Some("/bin/bash".to_string()));
    assert_eq!(login_shell_from_passwd(PASSWD, "/home/you"), None);
    assert_eq!(login_shell_from_passwd("", "/home/me"), None);
    assert_eq!(
        login_shell_from_passwd("me:x:1:1::/home/me:/bin/dash\r\nother", "/home/me"),
        Some("/bin/dash".to_string())
    );
}

#[test]
fn last_field_follows_the_last_colon() {
    assert_eq!(last_field("a:b:c"), "c");
    assert_eq!(last_field("plain"), "plain");
    assert_eq!(last_field("ends:"), "");
}

#[test]
fn shell_choice_prefers_environment_then_passwd() {
    assert_eq!(choose_shell(Some("/bin/ksh".to_string()), Some(PASSWD), "/home/me"), "/bin/ksh");
    assert_eq!(choose_shell(None, Some(PASSWD), "/home/me"), "/usr/bin/fish");
    assert_eq!(choose_shell(None, Some(PASSWD), "/nowhere"), "/bin/zsh");
    assert_eq!(choose_shell(None, None, "/home/me"), "/bin/zsh");
}

#[test]
fn sorting_is_stable_by_ordering() {
    let v = vec![
        Folder { id: 1, name: "a".to_string(), ordering: 2 },
        Folder { id: 2, name: "b".to_string(), ordering: 0 },
        Folder { id: 3, name: "c".to_string(), ordering: 2 },
        Folder { id: 4, name: "d".to_string(), ordering: 1 },
    ];
    let ids: Vec<i32> = sort_folders_by_ordering(v).iter().map(|f| f.id).collect();
    assert_eq!(ids, vec![2, 4, 1, 3]);
}

#[test]
fn dialog_state_goes_through_the_reducer() {
    let mut r = FolderReducer::new();
    let f = Folder { id: 5, name: "Tools".to_string(), ordering: 0 };
    r.begin_folder_rename(&f);
    assert_eq!(r.state().folder_to_rename.as_ref().map(|x| x.id), Some(5));
    assert_eq!(r.state().rename_text.as_deref(), Some("Tools"));
    r.set_rename_text("Tooling".to_string());
    assert_eq!(r.state().rename_text.as_deref(), Some("Tooling"));
    r.end_folder_rename();
    assert!(r.state().folder_to_rename.is_none());
    assert!(r.state().rename_text.is_none());
    r.begin_folder_delete(&f);
    assert_eq!(r.state().folder_to_delete.as_ref().map(|x| x.name.clone()), Some("Tools".to_string()));
    r.end_folder_delete();
    assert!(r.state().folder_to_delete.is_none());
    r.set_script_to_edit(Some(Script { id: 1, name: "n".to_string(), command: "c".to_string() }));
    assert_eq!(r.state().script_to_edit.as_ref().map(|s| s.id), Some(1));
}

#[test]
fn reducer_edits_the_cached_lists() {
    let mut r = FolderReducer::new();
    r.set_folder_list(vec![
        Folder { id: 1, name: "A".to_string(), ordering: 0 },
        Folder { id: 2, name: "B".to_string(), ordering: 1 },
        Folder { id: 3, name: "C".to_string(), ordering: 2 },
    ]);
    r.rename_folder(2, "Bee");
    r.delete_folder(1);
    let got: Vec<(i32, String, i32)> =
        r.state().folder_list.iter().map(|f| (f.id, f.name.clone(), f.ordering)).collect();
    assert_eq!(got, vec![(2, "Bee".to_string(), 0), (3, "C".to_string(), 1)]);
    r.insert_folder_into_index(0, 2);
    let ids: Vec<i32> = r.state().folder_list.iter().map(|f| f.id).collect();
    assert_eq!(ids, vec![3, 2]);
    r.set_scripts_of_selected_folder(vec![
        Script { id: 7, name: "x".to_string(), command: "ls".to_string() },
        Script { id: 8, name: "y".to_string(), command: "pwd".to_string() },
    ]);
    r.delete_script_from_selected_folder(7);
    let count = with_scritps_from_selected_folder(&r, |s: &Vec<Script>| s.len());
    assert_eq!(count, 1);
    let selected = with_folder_state(&r, |s| s.selected_folder_id);
    assert_eq!(selected, None);
    let _column = FolderColumn::new();
}

#[test]
fn app_starts_with_closed_editors() {
    let app = App::default();
    assert!(!app.scripts_col.adding_new_script);
    assert_eq!(app.scripts_col.code_lang, "bash");
    assert_eq!(app.scripts_col.script_to_delete, None);
}
