use scrivener::commands::{join_tags, list_notes, Listing};
use scrivener::errors::{already_exists, could_not, could_not_note, does_not_exist, successful, CmdError};
use scrivener::notes::Index;
use scrivener::relpath::abs_to_rel;

#[test]
fn list_empty_index_shows_guidance() {
    let index = Index::new();
    let listing = list_notes(&index, true, true, &None);
    match listing {
        Listing::Empty { lines } => {
            assert_eq!(
                lines,
                vec![
                    "There are no notes to list!".to_string(),
                    "Create one with 'srcv new <name>'".to_string(),
                    "Try 'srcv --help' for more options.".to_string(),
                ]
            );
        }
        Listing::Table { .. } => panic!("an empty index must not render a table"),
    }
}

#[test]
fn list_renders_requested_columns_in_name_order() {
    let mut index = Index::new();
    index
        .add("beta", "/home/user/beta.txt", &Some(vec!["x".to_string(), "y".to_string()]))
        .unwrap();
    index.add("alpha", "/srv/alpha.txt", &None).unwrap();

    let listing = list_notes(&index, true, true, &Some("/home/user".to_string()));
    match listing {
        Listing::Table { titles, rows } => {
            assert_eq!(titles, vec!["Notes", "Paths", "Tags"]);
            assert_eq!(rows.len(), 2);
            assert_eq!(rows[0], vec!["alpha", "../../srv/alpha.txt", ""]);
            assert_eq!(rows[1], vec!["beta", "./beta.txt", "x,\ny"]);
        }
        Listing::Empty { .. } => panic!("a non-empty index must render a table"),
    }
}

#[test]
fn list_name_only_table() {
    let mut index = Index::new();
    index.add("only", "/tmp/only.txt", &None).unwrap();
    let listing = list_notes(&index, false, false, &None);
    match listing {
        Listing::Table { titles, rows } => {
            assert_eq!(titles, vec!["Notes"]);
            assert_eq!(rows, vec![vec!["only".to_string()]]);
        }
        Listing::Empty { .. } => panic!("a non-empty index must render a table"),
    }
}

#[test]
fn join_tags_preserves_order_with_comma_newline() {
    assert_eq!(join_tags(&None), "");
    assert_eq!(join_tags(&Some(vec![])), "");
    assert_eq!(join_tags(&Some(vec!["a".to_string()])), "a");
    assert_eq!(
        join_tags(&Some(vec!["one".to_string(), "two".to_string(), "three".to_string()])),
        "one,\ntwo,\nthree"
    );
}

#[test]
fn abs_to_rel_under_working_directory() {
    assert_eq!(abs_to_rel("/home/user/notes/n.txt", "/home/user/notes"), "./n.txt");
}

#[test]
fn abs_to_rel_through_common_ancestor() {
    assert_eq!(abs_to_rel("/home/other/n.txt", "/home/user/deep"), "../../other/n.txt");
    assert_eq!(abs_to_rel("/srv/n.txt", "/home/user"), "../../srv/n.txt");
}

#[test]
fn abs_to_rel_leaves_root_files_alone() {
    assert_eq!(abs_to_rel("/n.txt", "/home/user"), "/n.txt");
}

#[test]
fn abs_to_rel_leaves_non_absolute_paths_alone() {
    assert_eq!(abs_to_rel("n.txt", "/home/user"), "n.txt");
}

#[test]
fn message_formatting() {
    assert_eq!(successful("n", "edited"), "Note `n` has been edited successfully");
    assert_eq!(already_exists("n"), "A note named `n` already exists.");
    assert_eq!(does_not_exist("n"), "Note `n` does not exist.");
    assert_eq!(could_not("open editor"), "Could not open editor.");
    assert_eq!(
        could_not_note("delete", "n", "/tmp/n.txt"),
        "Could not delete note `n` at /tmp/n.txt."
    );
}

#[test]
fn error_descriptions() {
    assert_eq!(
        CmdError::AlreadyExists("n".to_string()).describe(),
        "A note named `n` already exists."
    );
    assert_eq!(CmdError::NotFound("n".to_string()).describe(), "Note `n` does not exist.");
    assert_eq!(
        CmdError::NotAccessible("/p".to_string()).describe(),
        "Could not read file `/p`."
    );
    assert_eq!(
        CmdError::PathIsDirectory("/p".to_string()).describe(),
        "/p is a directory, not a file."
    );
    assert_eq!(
        CmdError::PathAlreadyExists("/p".to_string()).describe(),
        "A file at /p already exists."
    );
    assert_eq!(
        CmdError::WorkingDirectoryUnavailable.describe(),
        "Could not access current directory."
    );
}
