//! Directory listings for the workspace browser.

use vstd::prelude::*;
use vstd::string::*;
use crate::file_status::SingleFileStatus;

verus! {

/// One row of a directory listing.
#[derive(Debug, PartialEq, Eq)]
pub struct File {
    pub name: String,
    pub is_directory: bool,
    pub size: u64,
    pub ctime: u64,
    pub mtime: u64,
    pub state: String,
}

/// The mathematical content of a [`File`].
pub struct FileView {
    pub name: Seq<char>,
    pub is_directory: bool,
    pub size: u64,
    pub ctime: u64,
    pub mtime: u64,
    pub state: Seq<char>,
}

impl View for File {
    type V = FileView;

    open spec fn view(&self) -> FileView {
        FileView {
            name: self.name@,
            is_directory: self.is_directory,
            size: self.size,
            ctime: self.ctime,
            mtime: self.mtime,
            state: self.state@,
        }
    }
}

/// What was read from disk about one directory entry, with the state that the
/// tracker holds for it. Times are seconds since the Unix epoch.
#[derive(Debug, PartialEq, Eq)]
pub struct Entry {
    pub name: String,
    pub is_directory: bool,
    pub len: u64,
    pub created: u64,
    pub modified: u64,
    pub status: SingleFileStatus,
}

impl Entry {
    /// The listing row for this entry: a directory is shown with size zero,
    /// and the state by its label.
    pub open spec fn row(self) -> FileView {
        FileView {
            name: self.name@,
            is_directory: self.is_directory,
            size: if self.is_directory { 0 } else { self.len },
            ctime: self.created,
            mtime: self.modified,
            state: self.status.label(),
        }
    }

    pub fn to_file(&self) -> (file: File)
        ensures
            file@ == self.row(),
    {
        File {
            name: self.name.clone(),
            is_directory: self.is_directory,
            size: if self.is_directory { 0 } else { self.len },
            ctime: self.created,
            mtime: self.modified,
            state: self.status.name().to_owned(),
        }
    }
}

/// Why a listing request is refused. Both are answered with status 500 and
/// the message as a plain-text body.
#[derive(Clone, Copy, Debug, PartialEq, Eq, Structural)]
pub enum ListError {
    /// The request has no `path` parameter.
    MissingPath,
    /// The path names nothing, or something that is not a directory.
    NotADirectory,
}

impl ListError {
    pub fn status(&self) -> (code: u16)
        ensures
            code == 500,
    {
        500
    }

    pub open spec fn text(self) -> Seq<char> {
        match self {
            ListError::MissingPath => "parameter 'path' is missing."@,
            ListError::NotADirectory => "file not exists."@,
        }
    }

    pub fn message(&self) -> (m: &'static str)
        ensures
            m@ == self.text(),
    {
        match self {
            ListError::MissingPath => "parameter 'path' is missing.",
            ListError::NotADirectory => "file not exists.",
        }
    }
}

/// The code points with the Unicode property `White_Space`.
pub open spec fn is_whitespace(c: char) -> bool {
    let u = c as u32;
    ||| 0x09 <= u <= 0x0D
    ||| u == 0x20
    ||| u == 0x85
    ||| u == 0xA0
    ||| u == 0x1680
    ||| 0x2000 <= u <= 0x200A
    ||| u == 0x2028
    ||| u == 0x2029
    ||| u == 0x202F
    ||| u == 0x205F
    ||| u == 0x3000
}

/// `s` without its leading and trailing whitespace.
pub open spec fn trimmed(s: Seq<char>) -> Seq<char>
    decreases s.len(),
{
    if s.len() > 0 && is_whitespace(s.first()) {
        trimmed(s.drop_first())
    } else if s.len() > 0 && is_whitespace(s.last()) {
        trimmed(s.drop_last())
    } else {
        s
    }
}

/// `s` with every backslash turned into a forward slash.
pub open spec fn forward_slashes(s: Seq<char>) -> Seq<char> {
    Seq::new(s.len(), |i: int| if s[i] == '\\' { '/' } else { s[i] })
}

/// `str::trim` of the standard library: the slice that is left when leading
/// and trailing `White_Space` characters are removed. Trusted.
#[verifier::external_body]
fn trim(s: &str) -> (out: &str)
    ensures
        out@ == trimmed(s@),
{
    s.trim()
}

/// `str::replace` of the standard library, with a backslash as the pattern
/// and a forward slash as its replacement. Both are single characters, so
/// every other character stays in its place. Trusted.
#[verifier::external_body]
fn replace_backslashes(s: &str) -> (out: String)
    ensures
        out@ == forward_slashes(s@),
{
    s.replace("\\", "/")
}

/// The directory that a listing request asks for: the `path` parameter
/// without surrounding whitespace.
pub fn requested_path(path: Option<&str>) -> (target: Result<String, ListError>)
    ensures
        path is None ==> target == Err::<String, ListError>(ListError::MissingPath),
        path is Some ==> target is Ok && target->Ok_0@ == trimmed(path->0@),
{
    match path {
        Some(p) => Ok(trim(p).to_owned()),
        None => Err(ListError::MissingPath),
    }
}

/// The key under which the tracker knows a file: its path relative to the
/// workspace, written with forward slashes whatever the platform.
pub fn status_key(relative_path: &str) -> (key: String)
    ensures
        key@ == forward_slashes(relative_path@),
{
    replace_backslashes(relative_path)
}

/// The rows for the entries of a directory, in the order read.
pub open spec fn entry_rows(entries: Seq<Entry>) -> Seq<FileView> {
    entries.map_values(|e: Entry| e.row())
}

/// The view of a listing response.
pub open spec fn rows(files: Seq<File>) -> Seq<FileView> {
    files.map_values(|f: File| f@)
}

/// Answers a listing request. `path` is the request's parameter, and
/// `directory` holds the entries of the directory it names, or `None` where
/// it names no directory.
pub fn api_list(path: Option<&str>, directory: Option<&Vec<Entry>>) -> (response: Result<
    Vec<File>,
    ListError,
>)
    ensures
        path is None ==> response == Err::<Vec<File>, ListError>(ListError::MissingPath),
        path is Some && directory is None ==> response == Err::<Vec<File>, ListError>(
            ListError::NotADirectory,
        ),
        path is Some && directory is Some ==> response is Ok && rows(response->Ok_0@)
            == entry_rows(directory->0@),
{
    if path.is_none() {
        return Err(ListError::MissingPath);
    }
    let entries = match directory {
        Some(entries) => entries,
        None => { return Err(ListError::NotADirectory); },
    };
    let mut files: Vec<File> = Vec::new();
    let mut i: usize = 0;
    while i < entries.len()
        invariant
            i <= entries.len(),
            files.len() == i,
            forall|k: int| 0 <= k < i ==> files[k]@ == (#[trigger] entries[k]).row(),
        decreases entries.len() - i,
    {
        files.push(entries[i].to_file());
        i += 1;
    }
    assert(rows(files@) =~= entry_rows(entries@));
    Ok(files)
}

} // verus!
