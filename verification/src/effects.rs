//! What a transaction asks of its environment and what it is told in return.
//!
//! A transaction never touches the file system. It hands out one `Action` at
//! a time; whoever runs it performs the action and hands back an `Event`. A
//! bundle directory is addressed as a whole by its path; what lies inside one
//! is addressed by the directory and a name, so that an action shows which
//! bundle it can change.
//!
//! An action that changes something is answered by `Done` or by `Failed`; one
//! that asks what stands at a path by `Kind`; a listing by `Entries`, or by
//! `Absent` where there is no directory to list; a reading and a question to
//! the user by `Text`; the permission bits by `Mode`; the run of the helper
//! by `Exit`. Any action may be answered by `Failed`. A transaction takes an
//! answer that does not fit for a failure; it is never at a loss.

use crate::bundle::DirEntry;
use crate::desktop::DescriptorError;
use crate::paths::{join_path, joined};
use vstd::prelude::*;

verus! {

/// What a path leads to.
#[derive(Clone, Copy, PartialEq, Eq, Structural, Debug)]
pub enum PathKind {
    Missing,
    File,
    Directory,
}

/// What the environment reports of the action it was given.
#[derive(Clone, Debug, PartialEq, Eq)]
pub enum Event {
    /// The action was carried out.
    Done,
    /// The action failed, with the message of the failure.
    Failed(String),
    /// What the probed path leads to.
    Kind(PathKind),
    /// The entries of the listed directory.
    Entries(Vec<DirEntry>),
    /// There is no directory to list.
    Absent,
    /// The text that was read: a file's content, or an answer.
    Text(String),
    /// The permission bits of the file.
    Mode(u32),
    /// The exit status of the program that was run.
    Exit(i32),
}

/// What is missing.
#[derive(Clone, Copy, PartialEq, Eq, Structural, Debug)]
pub enum Missing {
    Descriptor,
    Executable,
    Icon,
    Installation,
    Entry,
}

/// What stands in the way.
#[derive(Clone, Copy, PartialEq, Eq, Structural, Debug)]
pub enum Taken {
    Bundle,
    Entry,
}

/// A failure of the environment.
#[derive(Clone, Debug, PartialEq, Eq)]
pub enum IoFailure {
    /// An action failed, with the message the environment gave.
    Reported(String),
    /// The path of the launcher entry has no parent directory.
    NoParent,
    /// The environment answered with an event that does not fit the action.
    UnexpectedReply,
}

/// Why a transaction failed: always the first cause, never a failure of the
/// cleaning up that followed.
#[derive(Clone, Debug, PartialEq, Eq)]
pub enum Failure {
    Io(IoFailure),
    ExtractionFailed,
    NotFound(Missing),
    InvalidData(DescriptorError),
    AlreadyExists(Taken),
    Declined,
}

/// How a transaction, or a part of one, ended. `clean` says that every step
/// taken to undo a failed attempt succeeded.
#[derive(Clone, Debug, PartialEq, Eq)]
pub enum Outcome {
    Completed,
    Failed { cause: Failure, clean: bool },
}

/// What a transaction asks of its environment.
#[derive(Clone, Debug, PartialEq, Eq)]
pub enum Action {
    /// Create the directory `path`; fail where something is there.
    CreateDir { path: String },
    /// Move `from` to `to`.
    Rename { from: String, to: String },
    /// Remove the directory `path` with all it holds.
    RemoveDirAll { path: String },
    /// Remove the file `path`.
    RemoveFile { path: String },
    /// Make `content` the whole content of the file `path`.
    WriteFile { path: String, content: String },
    /// Tell what `path` leads to.
    Probe { path: String },
    /// Copy the archive into `dir` under the helper's name.
    PlaceHelper { archive: String, dir: String },
    /// Tell the permission bits of the helper in `dir`.
    ReadHelperMode { dir: String },
    /// Set the permission bits of the helper in `dir`.
    SetHelperMode { dir: String, mode: u32 },
    /// Run the helper in `dir` in its self-extraction mode, with `dir` as the
    /// working directory, and tell its exit status.
    RunExtractor { dir: String },
    /// List the extracted tree in `dir`.
    ListNested { dir: String },
    /// List `dir`.
    ListDir { dir: String },
    /// Read the file `name` of the extracted tree in `dir`.
    ReadNested { dir: String, name: String },
    /// Tell what the entry `name` of `dir` is.
    ProbeEntry { dir: String, name: String },
    /// Remove the entry `name` of `dir`, with all it holds if `recursive`.
    RemoveEntry { dir: String, name: String, recursive: bool },
    /// Move the entry `name` of the extracted tree in `dir` up into `dir`.
    Promote { dir: String, name: String },
    /// Remove the extracted tree in `dir`.
    RemoveNested { dir: String },
    /// Make all of `dir` accessible to everybody.
    RelaxPermissions { dir: String },
    /// Have the launcher registry read the directory `dir` again.
    RefreshRegistry { dir: String },
    /// Ask whether the bundle `name` is to be removed, and tell the answer.
    Confirm { name: String },
    /// Nothing more: the transaction has ended.
    Finish(Outcome),
}

/// An action, with texts in place of strings.
pub enum Command {
    CreateDir { path: Seq<char> },
    Rename { from: Seq<char>, to: Seq<char> },
    RemoveDirAll { path: Seq<char> },
    RemoveFile { path: Seq<char> },
    WriteFile { path: Seq<char>, content: Seq<char> },
    Probe { path: Seq<char> },
    PlaceHelper { archive: Seq<char>, dir: Seq<char> },
    ReadHelperMode { dir: Seq<char> },
    SetHelperMode { dir: Seq<char>, mode: u32 },
    RunExtractor { dir: Seq<char> },
    ListNested { dir: Seq<char> },
    ListDir { dir: Seq<char> },
    ReadNested { dir: Seq<char>, name: Seq<char> },
    ProbeEntry { dir: Seq<char>, name: Seq<char> },
    RemoveEntry { dir: Seq<char>, name: Seq<char>, recursive: bool },
    Promote { dir: Seq<char>, name: Seq<char> },
    RemoveNested { dir: Seq<char> },
    RelaxPermissions { dir: Seq<char> },
    RefreshRegistry { dir: Seq<char> },
    Confirm { name: Seq<char> },
    Finish(Outcome),
}

impl View for Action {
    type V = Command;

    open spec fn view(&self) -> Command {
        match *self {
            Action::CreateDir { path } => Command::CreateDir { path: path@ },
            Action::Rename { from, to } => Command::Rename { from: from@, to: to@ },
            Action::RemoveDirAll { path } => Command::RemoveDirAll { path: path@ },
            Action::RemoveFile { path } => Command::RemoveFile { path: path@ },
            Action::WriteFile { path, content } => Command::WriteFile {
                path: path@,
                content: content@,
            },
            Action::Probe { path } => Command::Probe { path: path@ },
            Action::PlaceHelper { archive, dir } => Command::PlaceHelper {
                archive: archive@,
                dir: dir@,
            },
            Action::ReadHelperMode { dir } => Command::ReadHelperMode { dir: dir@ },
            Action::SetHelperMode { dir, mode } => Command::SetHelperMode { dir: dir@, mode },
            Action::RunExtractor { dir } => Command::RunExtractor { dir: dir@ },
            Action::ListNested { dir } => Command::ListNested { dir: dir@ },
            Action::ListDir { dir } => Command::ListDir { dir: dir@ },
            Action::ReadNested { dir, name } => Command::ReadNested { dir: dir@, name: name@ },
            Action::ProbeEntry { dir, name } => Command::ProbeEntry { dir: dir@, name: name@ },
            Action::RemoveEntry { dir, name, recursive } => Command::RemoveEntry {
                dir: dir@,
                name: name@,
                recursive,
            },
            Action::Promote { dir, name } => Command::Promote { dir: dir@, name: name@ },
            Action::RemoveNested { dir } => Command::RemoveNested { dir: dir@ },
            Action::RelaxPermissions { dir } => Command::RelaxPermissions { dir: dir@ },
            Action::RefreshRegistry { dir } => Command::RefreshRegistry { dir: dir@ },
            Action::Confirm { name } => Command::Confirm { name: name@ },
            Action::Finish(outcome) => Command::Finish(outcome),
        }
    }
}

/// The failure that an unfitting or failing reply stands for.
pub open spec fn failure_of(event: Event) -> Failure {
    match event {
        Event::Failed(message) => Failure::Io(IoFailure::Reported(message)),
        _ => Failure::Io(IoFailure::UnexpectedReply),
    }
}

/// The command that ends a transaction in failure.
pub open spec fn failed(cause: Failure, clean: bool) -> Command {
    Command::Finish(Outcome::Failed { cause, clean })
}

/// The command that ends a transaction in success.
pub open spec fn completed() -> Command {
    Command::Finish(Outcome::Completed)
}

/// The name under which the archive is copied into the directory it is
/// extracted in.
pub open spec fn helper_name() -> Seq<char> {
    "App.AppImage"@
}

/// The name of the directory that an archive extracts itself into.
pub open spec fn nested_name() -> Seq<char> {
    "squashfs-root"@
}

/// The path of the entry `name` of the directory `dir`.
pub open spec fn entry_path_of(dir: Seq<char>, name: Seq<char>) -> Seq<char> {
    joined(dir, name)
}

/// The failure that an unfitting or failing reply stands for.
pub fn into_failure(event: Event) -> (r: Failure)
    ensures
        r == failure_of(event),
{
    match event {
        Event::Failed(message) => Failure::Io(IoFailure::Reported(message)),
        _ => Failure::Io(IoFailure::UnexpectedReply),
    }
}

/// The path of the entry `name` of the directory `dir`.
pub fn entry_path(dir: &str, name: &str) -> (r: String)
    ensures
        r@ == entry_path_of(dir@, name@),
{
    join_path(dir, name)
}

/// The path of the helper in the directory `dir`.
pub fn helper_path(dir: &str) -> (r: String)
    ensures
        r@ == entry_path_of(dir@, helper_name()),
{
    join_path(dir, "App.AppImage")
}

/// The path of the extracted tree in the directory `dir`.
pub fn nested_path(dir: &str) -> (r: String)
    ensures
        r@ == entry_path_of(dir@, nested_name()),
{
    join_path(dir, "squashfs-root")
}

/// The path of the entry `name` of the extracted tree in the directory `dir`.
pub fn nested_entry_path(dir: &str, name: &str) -> (r: String)
    ensures
        r@ == entry_path_of(entry_path_of(dir@, nested_name()), name@),
{
    join_path(nested_path(dir).as_str(), name)
}

impl Failure {
    /// The message of the failure.
    pub fn message(&self) -> (r: String)
        ensures
            r@ == match *self {
                Failure::Io(IoFailure::Reported(m)) => m@,
                Failure::Io(IoFailure::NoParent) => "path has no parent"@,
                Failure::Io(IoFailure::UnexpectedReply) => "unexpected reply"@,
                Failure::ExtractionFailed => "extraction failed"@,
                Failure::NotFound(Missing::Descriptor) => "Desktop ini file not found"@,
                Failure::NotFound(Missing::Executable) => "exec not found"@,
                Failure::NotFound(Missing::Icon) => "icon not found"@,
                Failure::NotFound(Missing::Installation) => "App not found"@,
                Failure::NotFound(Missing::Entry) => "Desktop ini file not found"@,
                Failure::InvalidData(DescriptorError::Malformed) => "Descriptor cannot be read"@,
                Failure::InvalidData(DescriptorError::MissingName) => "Required field missing: Name"@,
                Failure::AlreadyExists(Taken::Bundle) => "App already exists"@,
                Failure::AlreadyExists(Taken::Entry) => "Desktop ini file already exists"@,
                Failure::Declined => "declined"@,
            },
    {
        match self {
            Failure::Io(IoFailure::Reported(m)) => m.clone(),
            Failure::Io(IoFailure::NoParent) => "path has no parent".to_owned(),
            Failure::Io(IoFailure::UnexpectedReply) => "unexpected reply".to_owned(),
            Failure::ExtractionFailed => "extraction failed".to_owned(),
            Failure::NotFound(Missing::Descriptor) => "Desktop ini file not found".to_owned(),
            Failure::NotFound(Missing::Executable) => "exec not found".to_owned(),
            Failure::NotFound(Missing::Icon) => "icon not found".to_owned(),
            Failure::NotFound(Missing::Installation) => "App not found".to_owned(),
            Failure::NotFound(Missing::Entry) => "Desktop ini file not found".to_owned(),
            Failure::InvalidData(e) => e.message(),
            Failure::AlreadyExists(Taken::Bundle) => "App already exists".to_owned(),
            Failure::AlreadyExists(Taken::Entry) => "Desktop ini file already exists".to_owned(),
            Failure::Declined => "declined".to_owned(),
        }
    }
}

} // verus!
