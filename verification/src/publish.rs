//! Publishing the launcher entry of a bundle.
//!
//! A new entry is written only where nothing stands at its path, and where
//! the writing fails, what was written is removed again. An existing entry is
//! replaced behind a backup: it is moved aside under a name with a
//! random suffix, the new text is written in its place, and where that fails
//! what was written is removed and the backup moved back.

use crate::desktop::{
    entry_text_of, published_keys, recognized_keys, Descriptor, Desktop,
};
use crate::effects::{
    completed, failed, failure_of, into_failure, Action, Command, Event, Failure, IoFailure,
    Outcome, PathKind, Taken,
};
use crate::paths::{
    entry_file_of, file_stem, file_stem_of, join_path, joined, parent, parent_of, slug_of,
};
use crate::text::followed_by;
use vstd::prelude::*;

verus! {

/// How far a publication has come: what it waits for.
#[derive(Clone, Copy, PartialEq, Eq, Structural, Debug)]
pub enum PublishPhase {
    /// For what stands at the path of the new entry.
    Probing,
    /// For the new entry to be written.
    Writing,
    /// For what was written of the new entry to be removed.
    Withdrawing,
    /// For what stands at the path of the new entry after all.
    Verifying,
    /// For the existing entry to be moved aside.
    SettingAside,
    /// For the new text to be written in its place.
    Replacing,
    /// For what was written to be removed.
    Discarding,
    /// For the backup to be moved back.
    Restoring,
    /// For nothing: the publication has ended.
    Closed,
}

/// A publication under way: the text to write and where, the backup of the
/// entry it replaces, and why it failed once it has.
#[derive(Clone, Debug, PartialEq, Eq)]
pub struct Publication {
    pub path: String,
    pub content: String,
    pub backup: String,
    pub cause: Option<Failure>,
    pub phase: PublishPhase,
}

/// A publication under way, with texts in place of strings.
pub struct PublicationView {
    pub path: Seq<char>,
    pub content: Seq<char>,
    pub backup: Seq<char>,
    pub cause: Option<Failure>,
    pub phase: PublishPhase,
}

impl View for Publication {
    type V = PublicationView;

    open spec fn view(&self) -> PublicationView {
        PublicationView {
            path: self.path@,
            content: self.content@,
            backup: self.backup@,
            cause: self.cause,
            phase: self.phase,
        }
    }
}

/// The text that is published for a descriptor.
pub open spec fn published_text(d: Descriptor, exec_path: Seq<char>, icon_path: Seq<char>) -> Seq<
    char,
> {
    entry_text_of(published_keys(recognized_keys(d.sections), exec_path, icon_path))
}

/// The path that an entry is moved aside to: in its directory, its stem (or
/// `desktop` where it has none) followed by `.bak-` and the identifier. An
/// entry without a parent directory has none.
pub open spec fn backup_path_of(current: Seq<char>, id: Seq<char>) -> Option<Seq<char>> {
    match parent_of(current) {
        None => None,
        Some(dir) => Some(
            joined(
                dir,
                match file_stem_of(current) {
                    Some(stem) => stem,
                    None => "desktop"@,
                } + ".bak-"@ + id,
            ),
        ),
    }
}

/// How the publication of a new entry begins: by probing its path.
pub open spec fn creation_begins(
    d: Descriptor,
    applications_dir: Seq<char>,
    exec_path: Seq<char>,
    icon_path: Seq<char>,
) -> (PublicationView, Command) {
    let path = entry_file_of(applications_dir, slug_of(d.name));
    (
        PublicationView {
            path,
            content: published_text(d, exec_path, icon_path),
            backup: Seq::empty(),
            cause: None,
            phase: PublishPhase::Probing,
        },
        Command::Probe { path },
    )
}

/// How the replacement of an existing entry begins: by moving it aside.
pub open spec fn update_begins(
    d: Descriptor,
    current: Seq<char>,
    exec_path: Seq<char>,
    icon_path: Seq<char>,
    id: Seq<char>,
) -> (PublicationView, Command) {
    let s = PublicationView {
        path: current,
        content: published_text(d, exec_path, icon_path),
        backup: Seq::empty(),
        cause: None,
        phase: PublishPhase::Closed,
    };
    match backup_path_of(current, id) {
        None => (s, failed(Failure::Io(IoFailure::NoParent), true)),
        Some(backup) => (
            PublicationView { backup, phase: PublishPhase::SettingAside, ..s },
            Command::Rename { from: current, to: backup },
        ),
    }
}

/// How a publication goes on after an event. A new entry never overwrites;
/// where it cannot be written, what was written is removed, and the
/// publication fails with the failure of the writing: clean if the removal
/// succeeded or nothing stands at the path after all. A replacement that
/// cannot be written is undone, and fails with the failure of the writing;
/// it is clean if the backup could be moved back.
pub open spec fn publication_step(s: PublicationView, event: Event) -> (PublicationView, Command) {
    let closed = PublicationView { phase: PublishPhase::Closed, ..s };
    let write = Command::WriteFile { path: s.path, content: s.content };
    match (s.phase, event) {
        (PublishPhase::Probing, Event::Kind(PathKind::Missing)) => (
            PublicationView { phase: PublishPhase::Writing, ..s },
            write,
        ),
        (PublishPhase::Probing, Event::Kind(_)) => (
            closed,
            failed(Failure::AlreadyExists(Taken::Entry), true),
        ),
        (PublishPhase::Writing, Event::Done) => (closed, completed()),
        (PublishPhase::Writing, event) => (
            PublicationView { cause: Some(failure_of(event)), phase: PublishPhase::Withdrawing, ..s },
            Command::RemoveFile { path: s.path },
        ),
        (PublishPhase::Withdrawing, Event::Done) if s.cause is Some => (
            PublicationView { cause: None, ..closed },
            failed(s.cause->0, true),
        ),
        (PublishPhase::Withdrawing, _) if s.cause is Some => (
            PublicationView { phase: PublishPhase::Verifying, ..s },
            Command::Probe { path: s.path },
        ),
        (PublishPhase::Verifying, event) if s.cause is Some => (
            PublicationView { cause: None, ..closed },
            failed(s.cause->0, event == Event::Kind(PathKind::Missing)),
        ),
        (PublishPhase::SettingAside, Event::Done) => (
            PublicationView { phase: PublishPhase::Replacing, ..s },
            write,
        ),
        (PublishPhase::Replacing, Event::Done) => (closed, completed()),
        (PublishPhase::Replacing, event) => (
            PublicationView { cause: Some(failure_of(event)), phase: PublishPhase::Discarding, ..s },
            Command::RemoveFile { path: s.path },
        ),
        (PublishPhase::Discarding, _) => (
            PublicationView { phase: PublishPhase::Restoring, ..s },
            Command::Rename { from: s.backup, to: s.path },
        ),
        (PublishPhase::Restoring, event) if s.cause is Some => (
            PublicationView { cause: None, ..closed },
            failed(s.cause->0, event is Done),
        ),
        (_, event) => (closed, failed(failure_of(event), true)),
    }
}

/// The path that an entry is moved aside to.
pub fn backup_path(current: &str, id: &str) -> (r: Option<String>)
    ensures
        crate::paths::text_of(r) == backup_path_of(current@, id@),
{
    match parent(current) {
        None => None,
        Some(dir) => {
            let stem = match file_stem(current) {
                Some(stem) => stem,
                None => "desktop".to_owned(),
            };
            let name = followed_by(followed_by(stem.as_str(), ".bak-").as_str(), id);
            Some(join_path(dir.as_str(), name.as_str()))
        },
    }
}

impl Desktop {
    /// Begins the publication of a new launcher entry for the bundle in the
    /// applications directory, with the resolved executable and icon.
    pub fn create_desktop(&self, applications_dir: &str, exec_path: &str, icon_path: &str) -> (r: (
        Publication,
        Action,
    ))
        ensures
            (r.0@, r.1@) == creation_begins(self@, applications_dir@, exec_path@, icon_path@),
    {
        let path = self.destination(applications_dir);
        let action = Action::Probe { path: path.clone() };
        (
            Publication {
                path,
                content: self.entry_text(exec_path, icon_path),
                backup: String::new(),
                cause: None,
                phase: PublishPhase::Probing,
            },
            action,
        )
    }

    /// Begins the replacement of the launcher entry at `current_path` by one
    /// for this descriptor, with the resolved executable and icon; `id`
    /// becomes the suffix of the backup.
    pub fn update_desktop(&self, current_path: &str, exec_path: &str, icon_path: &str, id: &str) -> (r:
        (Publication, Action))
        ensures
            (r.0@, r.1@) == update_begins(self@, current_path@, exec_path@, icon_path@, id@),
    {
        let content = self.entry_text(exec_path, icon_path);
        match backup_path(current_path, id) {
            None => (
                Publication {
                    path: current_path.to_owned(),
                    content,
                    backup: String::new(),
                    cause: None,
                    phase: PublishPhase::Closed,
                },
                Action::Finish(
                    Outcome::Failed { cause: Failure::Io(IoFailure::NoParent), clean: true },
                ),
            ),
            Some(backup) => {
                let action = Action::Rename { from: current_path.to_owned(), to: backup.clone() };
                (
                    Publication {
                        path: current_path.to_owned(),
                        content,
                        backup,
                        cause: None,
                        phase: PublishPhase::SettingAside,
                    },
                    action,
                )
            },
        }
    }
}

impl Publication {
    /// Takes the publication one step on.
    pub fn step(self, event: Event) -> (r: (Publication, Action))
        ensures
            (r.0@, r.1@) == publication_step(self@, event),
    {
        let Publication { path, content, backup, cause, phase } = self;
        match (phase, event) {
            (PublishPhase::Probing, Event::Kind(PathKind::Missing)) => {
                let action = Action::WriteFile { path: path.clone(), content: content.clone() };
                (Publication { path, content, backup, cause, phase: PublishPhase::Writing }, action)
            },
            (PublishPhase::Probing, Event::Kind(_)) => (
                Publication { path, content, backup, cause, phase: PublishPhase::Closed },
                Action::Finish(
                    Outcome::Failed { cause: Failure::AlreadyExists(Taken::Entry), clean: true },
                ),
            ),
            (PublishPhase::Writing, Event::Done) => (
                Publication { path, content, backup, cause, phase: PublishPhase::Closed },
                Action::Finish(Outcome::Completed),
            ),
            (PublishPhase::Writing, event) => {
                let action = Action::RemoveFile { path: path.clone() };
                (
                    Publication {
                        path,
                        content,
                        backup,
                        cause: Some(into_failure(event)),
                        phase: PublishPhase::Withdrawing,
                    },
                    action,
                )
            },
            (PublishPhase::Withdrawing, Event::Done) if cause.is_some() => (
                Publication { path, content, backup, cause: None, phase: PublishPhase::Closed },
                Action::Finish(Outcome::Failed { cause: cause.unwrap(), clean: true }),
            ),
            (PublishPhase::Withdrawing, _) if cause.is_some() => {
                let action = Action::Probe { path: path.clone() };
                (Publication { path, content, backup, cause, phase: PublishPhase::Verifying }, action)
            },
            (PublishPhase::Verifying, event) if cause.is_some() => {
                let clean = match event {
                    Event::Kind(PathKind::Missing) => true,
                    _ => false,
                };
                (
                    Publication { path, content, backup, cause: None, phase: PublishPhase::Closed },
                    Action::Finish(Outcome::Failed { cause: cause.unwrap(), clean }),
                )
            },
            (PublishPhase::SettingAside, Event::Done) => {
                let action = Action::WriteFile { path: path.clone(), content: content.clone() };
                (Publication { path, content, backup, cause, phase: PublishPhase::Replacing }, action)
            },
            (PublishPhase::Replacing, Event::Done) => (
                Publication { path, content, backup, cause, phase: PublishPhase::Closed },
                Action::Finish(Outcome::Completed),
            ),
            (PublishPhase::Replacing, event) => {
                let action = Action::RemoveFile { path: path.clone() };
                (
                    Publication {
                        path,
                        content,
                        backup,
                        cause: Some(into_failure(event)),
                        phase: PublishPhase::Discarding,
                    },
                    action,
                )
            },
            (PublishPhase::Discarding, _) => {
                let action = Action::Rename { from: backup.clone(), to: path.clone() };
                (Publication { path, content, backup, cause, phase: PublishPhase::Restoring }, action)
            },
            (PublishPhase::Restoring, event) if cause.is_some() => {
                let clean = match event {
                    Event::Done => true,
                    _ => false,
                };
                (
                    Publication { path, content, backup, cause: None, phase: PublishPhase::Closed },
                    Action::Finish(Outcome::Failed { cause: cause.unwrap(), clean }),
                )
            },
            (_, event) => (
                Publication { path, content, backup, cause, phase: PublishPhase::Closed },
                Action::Finish(Outcome::Failed { cause: into_failure(event), clean: true }),
            ),
        }
    }
}

} // verus!
