use scrivener::commands::{add_note, check_new_note, new_note_target, remove_note, Action, Command, Env};
use scrivener::errors::CmdError;
use scrivener::notes::Index;
use tempfile::NamedTempFile;

fn bare_env() -> Env {
    Env { cwd: None, canon: None, target_is_dir: false, target_exists: false }
}

#[test]
fn add_a_note() {
    let mut index = Index::new();
    let file = NamedTempFile::new().unwrap();

    let name = "Test Add";
    let path = file.path().to_path_buf();
    let path_str = path.to_str().unwrap();
    let tags = Some(vec![String::from("one"), String::from("two")]);

    add_note(&mut index, name, path_str, &tags).unwrap();

    let mut expected = Index::new();
    expected.add(name, path_str, &tags).unwrap();

    assert_eq!(index, expected);
}

#[test]
fn remove_a_note() {
    let mut index = Index::new();
    let file = NamedTempFile::new().unwrap();

    let name = "Test Remove";
    let path = file.path().to_path_buf();
    let path_str = path.to_str().unwrap();

    add_note(&mut index, name, path_str, &None).unwrap();

    remove_note(&mut index, name).unwrap();

    assert_eq!(index, Index::new());
}

#[test]
fn add_then_remove_scenario() {
    let file = NamedTempFile::new().unwrap();
    let path = file.path().to_path_buf();
    let path_str = path.to_str().unwrap();
    let tags = Some(vec!["one".to_string(), "two".to_string()]);

    let mut index = Index::new();
    add_note(&mut index, "Test Add", path_str, &tags).unwrap();

    assert_eq!(index.notes().len(), 1);
    let note = index.get("Test Add").unwrap();
    assert_eq!(note.name(), "Test Add");
    assert_eq!(note.tags(), &tags);

    remove_note(&mut index, "Test Add").unwrap();
    assert_eq!(index.notes().len(), 0);
}

#[test]
fn add_note_message() {
    let mut index = Index::new();
    let msg = add_note(&mut index, "n", "/tmp/n.txt", &None).unwrap();
    assert_eq!(msg, "Note `n` at /tmp/n.txt added successfully.");
}

#[test]
fn remove_note_reports_missing_name() {
    let mut index = Index::new();
    let result = remove_note(&mut index, "ghost");
    assert!(matches!(result, Err(CmdError::NotFound(ref n)) if n == "ghost"));
}

#[test]
fn new_note_target_defaults_to_working_directory() {
    assert_eq!(new_note_target("memo", &None, "/home/user"), "/home/user/memo.txt");
    assert_eq!(
        new_note_target("memo", &Some("/elsewhere/m.txt".to_string()), "/home/user"),
        "/elsewhere/m.txt"
    );
}

#[test]
fn check_new_note_orders_its_failures() {
    let mut index = Index::new();
    index.add("taken", "/tmp/taken.txt", &None).unwrap();

    let r = check_new_note(&index, "taken", "/tmp/t.txt", true, true);
    assert!(matches!(r, Err(CmdError::AlreadyExists(ref n)) if n == "taken"));

    let r = check_new_note(&index, "free", "/tmp/dir", true, true);
    assert!(matches!(r, Err(CmdError::PathIsDirectory(ref p)) if p == "/tmp/dir"));

    let r = check_new_note(&index, "free", "/tmp/t.txt", false, true);
    assert!(matches!(r, Err(CmdError::PathAlreadyExists(ref p)) if p == "/tmp/t.txt"));

    assert!(check_new_note(&index, "free", "/tmp/t.txt", false, false).is_ok());
}

#[test]
fn execute_new_fails_when_target_exists_and_leaves_index_unchanged() {
    let mut index = Index::new();
    index.add("other", "/tmp/other.txt", &None).unwrap();

    let mut expected = Index::new();
    expected.add("other", "/tmp/other.txt", &None).unwrap();

    let cmd = Command::New {
        name: "fresh".to_string(),
        path: Some("/tmp/fresh.txt".to_string()),
        tags: None,
    };
    let env = Env { target_exists: true, ..bare_env() };
    let r = cmd.execute(&mut index, &env);
    assert!(matches!(r, Err(CmdError::PathAlreadyExists(ref p)) if p == "/tmp/fresh.txt"));
    assert_eq!(index, expected);
}

#[test]
fn execute_new_passes_checks_and_hands_back_the_target() {
    let mut index = Index::new();
    let cmd = Command::New { name: "memo".to_string(), path: None, tags: None };
    let env = Env { cwd: Some("/home/user".to_string()), ..bare_env() };
    let r = cmd.execute(&mut index, &env).unwrap();
    assert!(matches!(r, Action::CreateAndEdit { ref target } if target == "/home/user/memo.txt"));
    assert_eq!(index, Index::new());
}

#[test]
fn execute_new_without_working_directory() {
    let mut index = Index::new();
    let cmd = Command::New { name: "memo".to_string(), path: None, tags: None };
    let r = cmd.execute(&mut index, &bare_env());
    assert!(matches!(r, Err(CmdError::WorkingDirectoryUnavailable)));
}

#[test]
fn execute_add_registers_the_canonical_path() {
    let mut index = Index::new();
    let cmd = Command::Add {
        name: "n".to_string(),
        path: "./n.txt".to_string(),
        tags: None,
    };
    let env = Env { canon: Some("/home/user/n.txt".to_string()), ..bare_env() };
    let r = cmd.execute(&mut index, &env).unwrap();
    assert!(matches!(r, Action::Done { ref message }
        if message == "Note `n` at ./n.txt added successfully."));
    assert_eq!(index.get("n").unwrap().path(), "/home/user/n.txt");
}

#[test]
fn execute_add_reports_unresolvable_path() {
    let mut index = Index::new();
    let cmd = Command::Add {
        name: "n".to_string(),
        path: "./missing.txt".to_string(),
        tags: None,
    };
    let r = cmd.execute(&mut index, &bare_env());
    assert!(matches!(r, Err(CmdError::NotAccessible(ref p)) if p == "./missing.txt"));
    assert_eq!(index, Index::new());
}

#[test]
fn execute_edit_and_delete_look_the_path_up() {
    let mut index = Index::new();
    index.add("n", "/tmp/n.txt", &None).unwrap();

    let edit = Command::Edit { name: "n".to_string() };
    let r = edit.execute(&mut index, &bare_env()).unwrap();
    assert!(matches!(r, Action::EditFile { ref path } if path == "/tmp/n.txt"));

    let delete = Command::Delete { name: "n".to_string() };
    let r = delete.execute(&mut index, &bare_env()).unwrap();
    assert!(matches!(r, Action::DeleteFile { ref path } if path == "/tmp/n.txt"));
    assert!(index.contains("n"));

    let edit_missing = Command::Edit { name: "ghost".to_string() };
    let r = edit_missing.execute(&mut index, &bare_env());
    assert!(matches!(r, Err(CmdError::NotFound(ref n)) if n == "ghost"));
}

#[test]
fn execute_remove_reports_success() {
    let mut index = Index::new();
    index.add("n", "/tmp/n.txt", &None).unwrap();

    let cmd = Command::Remove { name: "n".to_string() };
    let r = cmd.execute(&mut index, &bare_env()).unwrap();
    assert!(matches!(r, Action::Done { ref message }
        if message == "Note `n` has been removed successfully"));
    assert!(!index.contains("n"));
}
