use scrivener::errors::CmdError;
use scrivener::notes::{Index, Note};
use tempfile::NamedTempFile;

#[test]
fn create_note() {
    let file = NamedTempFile::new().unwrap();

    let name = "test";
    let path = file.path().to_path_buf();
    let path_str = path.to_str().unwrap();

    let note = Note::new(name, path_str, &None);

    let expected = Note::new(name, path_str, &None);

    assert_eq!(note, expected);
    assert_eq!(note.path, expected.path);
    assert_eq!(note.tags, expected.tags);
}

#[test]
fn create_note_with_tags() {
    let file = NamedTempFile::new().unwrap();

    let name = "test";
    let path = file.path().to_path_buf();
    let path_str = path.to_str().unwrap();
    let tags = Some(vec![
        "one".to_string(),
        "two".to_string(),
        "three".to_string(),
    ]);

    let note = Note::new(name, path_str, &tags);

    let expected = Note::new(name, path_str, &tags);

    assert_eq!(note, expected);
    assert_eq!(note.path, expected.path);
    assert_eq!(note.tags, expected.tags);
}

#[test]
fn add_note_to_index() {
    let file = NamedTempFile::new().unwrap();

    let name = "Test Add";
    let path = file.path().to_path_buf();
    let path_str = path.to_str().unwrap();
    let tags = Some(vec![String::from("one"), String::from("two")]);

    let mut index = Index::new();

    index.add(name, path_str, &tags).unwrap();

    let mut expected = Index::new();
    expected.add(name, path_str, &tags).unwrap();

    assert_eq!(index, expected);
}

#[test]
fn remove_note_from_index() {
    let file = NamedTempFile::new().unwrap();

    let name = "Test Remove";
    let path = file.path().to_path_buf();
    let path_str = path.to_str().unwrap();

    let mut index = Index::new();
    index.add(name, path_str, &None).unwrap();

    assert!(index.remove(name));

    assert_eq!(index, Index::new());
}

#[test]
fn index_contains_note() {
    let file = NamedTempFile::new().unwrap();

    let name = "Test Contains";
    let path = file.path().to_path_buf();
    let path_str = path.to_str().unwrap();

    let mut index = Index::new();
    index.add(name, path_str, &None).unwrap();

    assert!(index.contains(name));
}

#[test]
fn add_then_get_returns_same_fields() {
    let tags = Some(vec!["one".to_string(), "two".to_string()]);
    let mut index = Index::new();
    index.add("alpha", "/tmp/alpha.txt", &tags).unwrap();

    let note = index.get("alpha").unwrap();
    assert_eq!(note.name(), "alpha");
    assert_eq!(note.path(), "/tmp/alpha.txt");
    assert_eq!(note.tags(), &tags);
}

#[test]
fn contains_tracks_add_and_remove() {
    let mut index = Index::new();
    assert!(!index.contains("x"));
    index.add("x", "/tmp/x.txt", &None).unwrap();
    assert!(index.contains("x"));
    assert!(index.remove("x"));
    assert!(!index.contains("x"));
}

#[test]
fn index_equality_ignores_insertion_order() {
    let mut a = Index::new();
    a.add("b", "/tmp/b.txt", &None).unwrap();
    a.add("a", "/tmp/a.txt", &None).unwrap();
    a.add("c", "/tmp/c.txt", &None).unwrap();

    let mut b = Index::new();
    b.add("c", "/tmp/c.txt", &None).unwrap();
    b.add("a", "/tmp/a.txt", &None).unwrap();
    b.add("b", "/tmp/b.txt", &None).unwrap();

    assert_eq!(a, b);

    let names: Vec<&str> = a.notes().iter().map(|n| n.name()).collect();
    assert_eq!(names, vec!["a", "b", "c"]);
}

#[test]
fn index_equality_is_structural() {
    let mut a = Index::new();
    a.add("a", "/tmp/a.txt", &None).unwrap();
    let mut b = Index::new();
    b.add("a", "/tmp/elsewhere.txt", &None).unwrap();
    assert!(a != b);
}

#[test]
fn note_equality_is_by_name_alone() {
    let n1 = Note::new("same", "/tmp/one.txt", &None);
    let n2 = Note::new("same", "/tmp/two.txt", &Some(vec!["t".to_string()]));
    assert_eq!(n1, n2);
}

#[test]
fn remove_absent_name_returns_false_and_changes_nothing() {
    let mut index = Index::new();
    index.add("keep", "/tmp/keep.txt", &None).unwrap();

    let mut expected = Index::new();
    expected.add("keep", "/tmp/keep.txt", &None).unwrap();

    assert!(!index.remove("missing"));
    assert_eq!(index, expected);
}

#[test]
fn add_duplicate_name_fails_and_keeps_the_first() {
    let mut index = Index::new();
    index.add("dup", "/tmp/first.txt", &None).unwrap();

    let result = index.add("dup", "/tmp/second.txt", &None);
    assert!(matches!(result, Err(CmdError::AlreadyExists(ref n)) if n == "dup"));

    let note = index.get("dup").unwrap();
    assert_eq!(note.path(), "/tmp/first.txt");
    assert_eq!(index.notes().len(), 1);
}

#[test]
fn notes_round_trip_through_records() {
    let tags = Some(vec!["one".to_string()]);
    let mut index = Index::new();
    index.add("beta", "/tmp/beta.txt", &tags).unwrap();
    index.add("alpha", "/tmp/alpha.txt", &None).unwrap();
    index.add("gamma", "/tmp/gamma.txt", &None).unwrap();

    let records = index.notes().clone();
    let rebuilt = Index::from_notes(records);

    assert_eq!(rebuilt, index);
}

#[test]
fn from_notes_keeps_first_of_repeated_names() {
    let records = vec![
        Note::new("n", "/tmp/first.txt", &None),
        Note::new("n", "/tmp/second.txt", &None),
    ];
    let index = Index::from_notes(records);
    assert_eq!(index.notes().len(), 1);
    assert_eq!(index.get("n").unwrap().path(), "/tmp/first.txt");
}
