//! Error kinds of the note-tracking commands, and consistent user-facing
//! messages for them.

use vstd::prelude::*;
use vstd::string::StringExecFns;

verus! {

/// Everything that can go wrong while executing a command.
///
/// The first five variants are decided by the library itself; the remaining
/// ones report input/output failures and are raised by the surrounding
/// program, which owns all file-system and editor interaction.
#[derive(Debug)]
pub enum CmdError {
    /// A note with the given name is already in the index.
    AlreadyExists(String),
    /// No note with the given name is in the index.
    NotFound(String),
    /// The given path does not point to a readable file.
    NotAccessible(String),
    /// The given path points to a directory, not a file.
    PathIsDirectory(String),
    /// A file already exists at the given path.
    PathAlreadyExists(String),
    /// The persisted store exists but could not be read back.
    StoreReadError,
    /// The persisted store could not be written.
    StoreWriteError,
    /// The external editor could not be launched.
    EditorLaunchError,
    /// The freshly created note file could not be written.
    FileWriteError,
    /// The note's file could not be deleted.
    FileDeleteError,
    /// The current working directory is inaccessible.
    WorkingDirectoryUnavailable,
}

/// Used in the event of a successful operation.
pub fn successful(name: &str, action: &str) -> (r: String)
    ensures
        r@ == "Note `"@ + name@ + "` has been "@ + action@ + " successfully"@,
{
    let mut s = String::from_str("Note `");
    s.append(name);
    s.append("` has been ");
    s.append(action);
    s.append(" successfully");
    s
}

/// Used when a note with a given name already exists.
pub fn already_exists(name: &str) -> (r: String)
    ensures
        r@ == "A note named `"@ + name@ + "` already exists."@,
{
    let mut s = String::from_str("A note named `");
    s.append(name);
    s.append("` already exists.");
    s
}

/// Used when a note does not exist when it should.
pub fn does_not_exist(name: &str) -> (r: String)
    ensures
        r@ == "Note `"@ + name@ + "` does not exist."@,
{
    let mut s = String::from_str("Note `");
    s.append(name);
    s.append("` does not exist.");
    s
}

/// Used for general cases when an action cannot be completed.
pub fn could_not(action: &str) -> (r: String)
    ensures
        r@ == "Could not "@ + action@ + "."@,
{
    let mut s = String::from_str("Could not ");
    s.append(action);
    s.append(".");
    s
}

/// Used when a note's file cannot be operated on.
pub fn could_not_note(action: &str, name: &str, path: &str) -> (r: String)
    ensures
        r@ == "Could not "@ + action@ + " note `"@ + name@ + "` at "@ + path@ + "."@,
{
    let mut s = String::from_str("Could not ");
    s.append(action);
    s.append(" note `");
    s.append(name);
    s.append("` at ");
    s.append(path);
    s.append(".");
    s
}

impl CmdError {
    /// The user-facing message for this error.
    pub fn describe(&self) -> (r: String)
        ensures
            match *self {
                CmdError::AlreadyExists(ref n) => r@ == "A note named `"@ + n@
                    + "` already exists."@,
                CmdError::NotFound(ref n) => r@ == "Note `"@ + n@ + "` does not exist."@,
                CmdError::NotAccessible(ref p) => r@ == "Could not read file `"@ + p@ + "`."@,
                CmdError::PathIsDirectory(ref p) => r@ == p@ + " is a directory, not a file."@,
                CmdError::PathAlreadyExists(ref p) => r@ == "A file at "@ + p@
                    + " already exists."@,
                CmdError::StoreReadError => r@ == "Could not "@ + "read the notes store"@ + "."@,
                CmdError::StoreWriteError => r@ == "Could not "@ + "write to the notes store"@
                    + "."@,
                CmdError::EditorLaunchError => r@ == "Could not "@ + "open editor"@ + "."@,
                CmdError::FileWriteError => r@ == "Could not "@ + "write to file"@ + "."@,
                CmdError::FileDeleteError => r@ == "Could not "@ + "delete file"@ + "."@,
                CmdError::WorkingDirectoryUnavailable => r@ == "Could not "@
                    + "access current directory"@ + "."@,
            },
    {
        match self {
            CmdError::AlreadyExists(n) => already_exists(n.as_str()),
            CmdError::NotFound(n) => does_not_exist(n.as_str()),
            CmdError::NotAccessible(p) => {
                let mut s = String::from_str("Could not read file `");
                s.append(p.as_str());
                s.append("`.");
                s
            },
            CmdError::PathIsDirectory(p) => {
                let mut s = String::from_str(p.as_str());
                s.append(" is a directory, not a file.");
                s
            },
            CmdError::PathAlreadyExists(p) => {
                let mut s = String::from_str("A file at ");
                s.append(p.as_str());
                s.append(" already exists.");
                s
            },
            CmdError::StoreReadError => could_not("read the notes store"),
            CmdError::StoreWriteError => could_not("write to the notes store"),
            CmdError::EditorLaunchError => could_not("open editor"),
            CmdError::FileWriteError => could_not("write to file"),
            CmdError::FileDeleteError => could_not("delete file"),
            CmdError::WorkingDirectoryUnavailable => could_not("access current directory"),
        }
    }
}

} // verus!
