//! Subcommands and their decision logic.
//!
//! Each command's index-level work happens here, verified; all file-system,
//! editor and terminal interaction is handed back to the caller as an
//! `Action`, together with the facts it must gather beforehand (`Env`).

use vstd::prelude::*;
use vstd::string::StringExecFns;

use crate::errors::{successful, CmdError};
use crate::notes::{spec_insert, spec_lookup, Index, Note};
use crate::relpath::{abs_to_rel, spec_rel_display};

verus! {

/// One invocation's subcommand, with its user-supplied arguments.
pub enum Command {
    /// Create a new note file, collect its text from the editor, and
    /// register it.
    New { name: String, path: Option<String>, tags: Option<Vec<String>> },
    /// Add an existing plaintext file to the notes index.
    Add { name: String, path: String, tags: Option<Vec<String>> },
    /// Edit an existing note.
    Edit { name: String },
    /// Remove a note from the index without deleting the file.
    Remove { name: String },
    /// Remove a note from the index and delete its file.
    Delete { name: String },
    /// List all notes.
    List { show_paths: bool, show_tags: bool },
}

/// Facts about the world outside the index, gathered by the caller before
/// a command runs.
pub struct Env {
    /// The current working directory, if accessible.
    pub cwd: Option<String>,
    /// The canonical form of the path an `Add` names, if it resolves.
    pub canon: Option<String>,
    /// Whether a directory sits at the target path of a `New`.
    pub target_is_dir: bool,
    /// Whether anything exists at the target path of a `New`.
    pub target_exists: bool,
}

/// The part of a command that remains for the caller to carry out once the
/// index-level decisions are made.
pub enum Action {
    /// Nothing: print the message.
    Done { message: String },
    /// Create an empty file at `target`, collect edited text into it, then
    /// register it with `add_note`.
    CreateAndEdit { target: String },
    /// Open the file at `path` in the editor.
    EditFile { path: String },
    /// Delete the file at `path`, then unregister the note with
    /// `remove_note`.
    DeleteFile { path: String },
    /// Render the listing.
    ShowList { listing: Listing },
}

/// What `list` displays: either guidance for an empty index, or the cells
/// of a table, one row per note in name order.
#[derive(Debug)]
pub enum Listing {
    Empty { lines: Vec<String> },
    Table { titles: Vec<String>, rows: Vec<Vec<String>> },
}

/// The guidance shown in place of a table when there are no notes.
pub open spec fn spec_empty_lines() -> Seq<Seq<char>> {
    seq![
        "There are no notes to list!"@,
        "Create one with 'srcv new <name>'"@,
        "Try 'srcv --help' for more options."@,
    ]
}

/// The table's title cells: names always, paths and tags on request.
pub open spec fn spec_titles(show_paths: bool, show_tags: bool) -> Seq<Seq<char>> {
    let base = seq!["Notes"@];
    let with_paths = if show_paths {
        base + seq!["Paths"@]
    } else {
        base
    };
    if show_tags {
        with_paths + seq!["Tags"@]
    } else {
        with_paths
    }
}

/// The path column's cell: the note path relativized to the working
/// directory, or unchanged when that directory is inaccessible.
pub open spec fn spec_path_cell(p: Seq<char>, cwd: Option<Seq<char>>) -> Seq<char> {
    match cwd {
        Some(d) => spec_rel_display(p, d),
        None => p,
    }
}

/// The tail of the tag cell: `,\n` followed by each tag from `i` on.
pub open spec fn spec_join_from(ts: Seq<Seq<char>>, i: int) -> Seq<char>
    decreases ts.len() - i,
{
    if i < 0 || i >= ts.len() {
        Seq::empty()
    } else {
        ",\n"@ + ts[i] + spec_join_from(ts, i + 1)
    }
}

/// The tag cell: the tags in their original order, separated by a comma
/// and a line break; empty when there are none.
pub open spec fn spec_join_tags(t: Option<Seq<Seq<char>>>) -> Seq<char> {
    match t {
        None => Seq::empty(),
        Some(ts) => if ts.len() == 0 {
            Seq::empty()
        } else {
            ts[0] + spec_join_from(ts, 1)
        },
    }
}

/// One table row: the note's name, then its path cell and tag cell as
/// requested.
pub open spec fn spec_row(
    nt: Note,
    show_paths: bool,
    show_tags: bool,
    cwd: Option<Seq<char>>,
) -> Seq<Seq<char>> {
    let base = seq![nt.name@];
    let with_path = if show_paths {
        base + seq![spec_path_cell(nt.path@, cwd)]
    } else {
        base
    };
    if show_tags {
        with_path + seq![spec_join_tags(nt.tags.deep_view())]
    } else {
        with_path
    }
}

/// Whether a listing shows exactly the notes of `s`.
pub open spec fn listing_matches(
    r: Listing,
    s: Seq<Note>,
    show_paths: bool,
    show_tags: bool,
    cwd: Option<Seq<char>>,
) -> bool {
    match r {
        Listing::Empty { lines } => s.len() == 0 && lines.deep_view() == spec_empty_lines(),
        Listing::Table { titles, rows } => s.len() > 0 && titles.deep_view() == spec_titles(
            show_paths,
            show_tags,
        ) && rows@.len() == s.len() && (forall|k: int|
            0 <= k < s.len() ==> rows@[k].deep_view() == spec_row(s[k], show_paths, show_tags, cwd)),
    }
}

/// Joins a note's tags for display, preserving their order.
pub fn join_tags(tags: &Option<Vec<String>>) -> (r: String)
    ensures
        r@ == spec_join_tags(tags.deep_view()),
{
    match tags {
        Option::None => String::new(),
        Option::Some(ts) => {
            let mut out = String::new();
            if ts.len() == 0 {
                return out;
            }
            out.append(ts[0].as_str());
            let ghost dv = ts.deep_view();
            proof {
                assert(dv[0] == ts@[0]@);
                assert(out@ =~= dv[0] + Seq::<char>::empty());
            }
            let mut i: usize = 1;
            while i < ts.len()
                invariant
                    1 <= i <= ts.len(),
                    dv == ts.deep_view(),
                    dv.len() == ts@.len(),
                    out@ + spec_join_from(dv, i as int) == spec_join_tags(tags.deep_view()),
                decreases ts.len() - i,
            {
                out.append(",\n");
                out.append(ts[i].as_str());
                proof {
                    assert(dv[i as int] == ts@[i as int]@);
                    assert(spec_join_from(dv, i as int) == ",\n"@ + dv[i as int] + spec_join_from(
                        dv,
                        i + 1,
                    ));
                    assert(out@ + spec_join_from(dv, i + 1 as int) =~= spec_join_tags(
                        tags.deep_view(),
                    ));
                }
                i = i + 1;
            }
            proof {
                assert(spec_join_from(dv, i as int) =~= Seq::<char>::empty());
                assert(out@ =~= out@ + Seq::<char>::empty());
            }
            out
        },
    }
}

/// The resolved target path of a `New`: the explicit path if one was
/// given, else `<name>.txt` in the working directory.
pub open spec fn spec_target(
    name: Seq<char>,
    path: Option<Seq<char>>,
    cwd: Option<Seq<char>>,
) -> Seq<char> {
    match path {
        Some(p) => p,
        None => match cwd {
            Some(d) => d + "/"@ + name + ".txt"@,
            None => Seq::empty(),
        },
    }
}

/// Resolves where a `New` will put its file.
pub fn new_note_target(name: &str, path: &Option<String>, cwd: &str) -> (r: String)
    ensures
        r@ == spec_target(name@, path.deep_view(), Some(cwd@)),
{
    match path {
        Option::Some(p) => p.clone(),
        Option::None => {
            let mut t = String::from_str(cwd);
            t.append("/");
            t.append(name);
            t.append(".txt");
            t
        },
    }
}

/// The message printed when a note is added.
fn added_message(name: &str, path: &str) -> (r: String)
    ensures
        r@ == "Note `"@ + name@ + "` at "@ + path@ + " added successfully."@,
{
    let mut s = String::from_str("Note `");
    s.append(name);
    s.append("` at ");
    s.append(path);
    s.append(" added successfully.");
    s
}

/// Registers an existing file, already resolved to its canonical `path`,
/// under `name` with optional `tags`.
///
/// Fails exactly when a note with that name is already indexed.
pub fn add_note(index: &mut Index, name: &str, path: &str, tags: &Option<Vec<String>>) -> (r:
    Result<String, CmdError>)
    requires
        old(index).wf(),
    ensures
        final(index).wf(),
        match r {
            Ok(msg) => !old(index).spec_contains(name@) && final(index).spec_contains(name@) && (
            exists|nt: Note|
                final(index)@ == #[trigger] spec_insert(old(index)@, nt) && nt.name@ == name@
                    && nt.path@ == path@ && nt.tags.deep_view() == tags.deep_view()) && msg@
                == "Note `"@ + name@ + "` at "@ + path@ + " added successfully."@,
            Err(e) => final(index)@ == old(index)@ && old(index).spec_contains(name@) && (
            e matches CmdError::AlreadyExists(n) && n@ == name@),
        },
{
    let msg = added_message(name, path);
    match index.add(name, path, tags) {
        Ok(()) => Ok(msg),
        Err(e) => Err(e),
    }
}

/// Removes a note from the index WITHOUT deleting the corresponding file.
///
/// Fails exactly when no note with that name is indexed.
pub fn remove_note(index: &mut Index, name: &str) -> (r: Result<String, CmdError>)
    requires
        old(index).wf(),
    ensures
        final(index).wf(),
        match r {
            Ok(msg) => old(index).spec_contains(name@) && !final(index).spec_contains(name@) && (
            exists|k: int|
                0 <= k < old(index)@.len() && old(index)@[k].name@ == name@
                && final(index)@ == old(index)@.remove(k)) && msg@ == "Note `"@ + name@ + "` has been "@ + "removed"@
                + " successfully"@,
            Err(e) => final(index)@ == old(index)@ && !old(index).spec_contains(name@) && (
            e matches CmdError::NotFound(n) && n@ == name@),
        },
{
    let status = index.remove(name);
    if !status {
        return Err(CmdError::NotFound(String::from_str(name)));
    }
    Ok(successful(name, "removed"))
}

/// The checks a `New` must pass before any file is created, in order:
/// the name must be free, and the target must be neither a directory nor
/// an existing file.
pub fn check_new_note(
    index: &Index,
    name: &str,
    target: &str,
    target_is_dir: bool,
    target_exists: bool,
) -> (r: Result<(), CmdError>)
    ensures
        match r {
            Ok(()) => !index.spec_contains(name@) && !target_is_dir && !target_exists,
            Err(e) => {
                ||| (index.spec_contains(name@) && (e matches CmdError::AlreadyExists(n) && n@
                    == name@))
                ||| (!index.spec_contains(name@) && target_is_dir && (
                e matches CmdError::PathIsDirectory(p) && p@ == target@))
                ||| (!index.spec_contains(name@) && !target_is_dir && target_exists && (
                e matches CmdError::PathAlreadyExists(p) && p@ == target@))
            },
        },
{
    if index.contains(name) {
        return Err(CmdError::AlreadyExists(String::from_str(name)));
    }
    if target_is_dir {
        return Err(CmdError::PathIsDirectory(String::from_str(target)));
    }
    if target_exists {
        return Err(CmdError::PathAlreadyExists(String::from_str(target)));
    }
    Ok(())
}

/// Lists all notes as table cells, or as guidance when the index is empty.
pub fn list_notes(index: &Index, show_paths: bool, show_tags: bool, cwd: &Option<String>) -> (r:
    Listing)
    ensures
        listing_matches(r, index@, show_paths, show_tags, cwd.deep_view()),
{
    let notes = index.notes();
    if notes.len() == 0 {
        let mut lines: Vec<String> = Vec::new();
        lines.push(String::from_str("There are no notes to list!"));
        lines.push(String::from_str("Create one with 'srcv new <name>'"));
        lines.push(String::from_str("Try 'srcv --help' for more options."));
        proof {
            assert(lines.deep_view() =~= spec_empty_lines());
        }
        return Listing::Empty { lines };
    }
    let mut titles: Vec<String> = Vec::new();
    titles.push(String::from_str("Notes"));
    if show_paths {
        titles.push(String::from_str("Paths"));
    }
    if show_tags {
        titles.push(String::from_str("Tags"));
    }
    proof {
        assert(titles.deep_view() =~= spec_titles(show_paths, show_tags));
    }
    let mut rows: Vec<Vec<String>> = Vec::new();
    let mut i: usize = 0;
    while i < notes.len()
        invariant
            i <= notes.len(),
            rows@.len() == i,
            forall|k: int|
                0 <= k < i ==> rows@[k].deep_view() == spec_row(
                    index@[k],
                    show_paths,
                    show_tags,
                    cwd.deep_view(),
                ),
        decreases notes.len() - i,
    {
        let nt = &notes[i];
        let mut row: Vec<String> = Vec::new();
        row.push(String::from_str(nt.name.as_str()));
        if show_paths {
            let cell = match cwd {
                Option::Some(d) => abs_to_rel(nt.path.as_str(), d.as_str()),
                Option::None => String::from_str(nt.path.as_str()),
            };
            row.push(cell);
        }
        if show_tags {
            row.push(join_tags(&nt.tags));
        }
        proof {
            assert(row.deep_view() =~= spec_row(index@[i as int], show_paths, show_tags,
            cwd.deep_view()));
        }
        rows.push(row);
        i = i + 1;
    }
    Listing::Table { titles, rows }
}

impl Command {
    /// Executes the index-level part of a subcommand against the live
    /// index, given the outside facts in `env`, and returns what the
    /// caller must still carry out.
    pub fn execute(&self, index: &mut Index, env: &Env) -> (r: Result<Action, CmdError>)
        requires
            old(index).wf(),
        ensures
            final(index).wf(),
            match *self {
                Command::New { ref name, ref path, .. } => final(index)@ == old(index)@ && match r {
                    Ok(a) => (path is Some || env.cwd is Some) && (
                    a matches Action::CreateAndEdit { target } && target@ == spec_target(
                        name@,
                        path.deep_view(),
                        env.cwd.deep_view(),
                    )) && !old(index).spec_contains(name@) && !env.target_is_dir
                        && !env.target_exists,
                    Err(e) => {
                        let t = spec_target(name@, path.deep_view(), env.cwd.deep_view());
                        ||| (path is None && env.cwd is None
                            && e is WorkingDirectoryUnavailable)
                        ||| ((path is Some || env.cwd is Some) && {
                            ||| (old(index).spec_contains(name@) && (
                            e matches CmdError::AlreadyExists(n) && n@ == name@))
                            ||| (!old(index).spec_contains(name@) && env.target_is_dir && (
                            e matches CmdError::PathIsDirectory(p) && p@ == t))
                            ||| (!old(index).spec_contains(name@) && !env.target_is_dir
                                && env.target_exists && (e matches CmdError::PathAlreadyExists(p)
                                && p@ == t))
                        })
                    },
                },
                Command::Add { ref name, ref path, ref tags } => match r {
                    Ok(a) => !old(index).spec_contains(name@) && match env.canon {
                        Some(ref c) => (exists|nt: Note|
                            final(index)@ == #[trigger] spec_insert(old(index)@, nt) && nt.name@
                                == name@ && nt.path@ == c@ && nt.tags.deep_view()
                                == tags.deep_view()) && (a matches Action::Done { message }
                            && message@ == "Note `"@ + name@ + "` at "@ + path@
                            + " added successfully."@),
                        None => false,
                    },
                    Err(e) => final(index)@ == old(index)@ && {
                        ||| (old(index).spec_contains(name@) && (
                        e matches CmdError::AlreadyExists(n) && n@ == name@))
                        ||| (!old(index).spec_contains(name@) && env.canon is None && (
                        e matches CmdError::NotAccessible(p) && p@ == path@))
                    },
                },
                Command::Edit { ref name } => final(index)@ == old(index)@ && match r {
                    Ok(a) => a matches Action::EditFile { path } && match spec_lookup(
                        old(index)@,
                        name@,
                    ) {
                        Some(nt) => path@ == nt.path@,
                        None => false,
                    },
                    Err(e) => !old(index).spec_contains(name@) && (
                    e matches CmdError::NotFound(n) && n@ == name@),
                },
                Command::Remove { ref name } => match r {
                    Ok(a) => old(index).spec_contains(name@) && !final(index).spec_contains(name@)
                        && (exists|k: int|
                        0 <= k < old(index)@.len() && old(index)@[k].name@ == name@
                            && final(index)@ == old(index)@.remove(k)) && (a matches Action::Done { message }
                        && message@ == "Note `"@ + name@ + "` has been "@ + "removed"@
                        + " successfully"@),
                    Err(e) => final(index)@ == old(index)@ && !old(index).spec_contains(name@) && (
                    e matches CmdError::NotFound(n) && n@ == name@),
                },
                Command::Delete { ref name } => final(index)@ == old(index)@ && match r {
                    Ok(a) => a matches Action::DeleteFile { path } && match spec_lookup(
                        old(index)@,
                        name@,
                    ) {
                        Some(nt) => path@ == nt.path@,
                        None => false,
                    },
                    Err(e) => !old(index).spec_contains(name@) && (
                    e matches CmdError::NotFound(n) && n@ == name@),
                },
                Command::List { show_paths, show_tags } => final(index)@ == old(index)@ && match r {
                    Ok(a) => a matches Action::ShowList { listing } && listing_matches(
                        listing,
                        old(index)@,
                        show_paths,
                        show_tags,
                        env.cwd.deep_view(),
                    ),
                    Err(_) => false,
                },
            },
    {
        match self {
            Command::New { name, path, .. } => {
                let target: String;
                match path {
                    Option::Some(p) => {
                        target = p.clone();
                    },
                    Option::None => {
                        match &env.cwd {
                            Option::Some(d) => {
                                target = new_note_target(name.as_str(), path, d.as_str());
                            },
                            Option::None => {
                                return Err(CmdError::WorkingDirectoryUnavailable);
                            },
                        }
                    },
                }
                match check_new_note(
                    index,
                    name.as_str(),
                    target.as_str(),
                    env.target_is_dir,
                    env.target_exists,
                ) {
                    Ok(()) => Ok(Action::CreateAndEdit { target }),
                    Err(e) => Err(e),
                }
            },
            Command::Add { name, path, tags } => {
                if index.contains(name.as_str()) {
                    return Err(CmdError::AlreadyExists(name.clone()));
                }
                match &env.canon {
                    Option::None => Err(CmdError::NotAccessible(path.clone())),
                    Option::Some(c) => {
                        match add_note(index, name.as_str(), c.as_str(), tags) {
                            Ok(_) => {
                                // The message names the path as the user gave
                                // it, not its canonical form.
                                let message = added_message(name.as_str(), path.as_str());
                                Ok(Action::Done { message })
                            },
                            Err(e) => Err(e),
                        }
                    },
                }
            },
            Command::Edit { name } => {
                match index.get(name.as_str()) {
                    Option::Some(note) => {
                        let p = String::from_str(note.path.as_str());
                        Ok(Action::EditFile { path: p })
                    },
                    Option::None => Err(CmdError::NotFound(name.clone())),
                }
            },
            Command::Remove { name } => {
                match remove_note(index, name.as_str()) {
                    Ok(message) => Ok(Action::Done { message }),
                    Err(e) => Err(e),
                }
            },
            Command::Delete { name } => {
                match index.get(name.as_str()) {
                    Option::Some(note) => {
                        let p = String::from_str(note.path.as_str());
                        Ok(Action::DeleteFile { path: p })
                    },
                    Option::None => Err(CmdError::NotFound(name.clone())),
                }
            },
            Command::List { show_paths, show_tags } => {
                let listing = list_notes(index, *show_paths, *show_tags, &env.cwd);
                Ok(Action::ShowList { listing })
            },
        }
    }
}

} // verus!
