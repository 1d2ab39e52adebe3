//! Upgrading an installed bundle in place, behind a backup.
//!
//! The bundle's directory is moved aside under a random name and created
//! anew; the archive is extracted into it, proven to hold a descriptor with a
//! name, flattened, and searched for the executable and the icon; then the
//! launcher entry is replaced. Every failure removes the new directory and
//! moves the old one back. After a success the old directory stays where it
//! was moved to.

use crate::bundle::{find_desktop_file, find_executable, find_icon, first_of, DirEntry, Wanted};
use crate::desktop::{descriptor_of, Descriptor, Desktop};
use crate::effects::{
    completed, entry_path, entry_path_of, failed, failure_of, into_failure, Action, Command,
    Event, Failure, Missing, Outcome, PathKind,
};
use crate::extract::{
    extract_appimage, extraction_begins, extraction_step, Extraction, ExtractionView,
};
use crate::ids::{fresh_id, is_short_id};
use crate::layout::{
    flatten_squashfs_root, flattening_begins, flattening_step, Flattening, FlatteningView,
};
use crate::paths::{
    applications_dir_of, bundle_dir, bundle_dir_of, entry_file, entry_file_of, slug, slug_of,
    Environment, EnvironmentView,
};
use crate::publish::{publication_step, update_begins, Publication, PublicationView};
use vstd::prelude::*;

verus! {

/// How far an upgrade has come: what it waits for, and what it holds
/// meanwhile.
#[derive(Clone, Debug, PartialEq, Eq)]
pub enum UpgradePhase {
    /// For what stands at the bundle's directory.
    CheckingBundle,
    /// For what stands at the launcher entry.
    CheckingEntry,
    /// For the bundle's directory to be moved aside.
    BackingUp,
    /// For the bundle's directory to be created anew.
    Recreating,
    /// For the extraction into the bundle's directory.
    Extracting(Extraction),
    /// For the listing of the extracted tree.
    Locating,
    /// For the text of the descriptor.
    Reading,
    /// For the flattening of the bundle's directory.
    Normalizing(Desktop, Flattening),
    /// For the listing of the bundle's directory.
    Resolving(Desktop),
    /// For the replacement of the launcher entry.
    Updating(Publication),
    /// For the new directory to be removed, after the failure held here.
    Clearing { cause: Failure, clean: bool },
    /// For the old directory to be moved back, after the failure held here.
    Restoring { cause: Failure, clean: bool },
    /// For nothing: the bundle is upgraded and its launcher entry replaced.
    Committed(Publication),
    /// For nothing: the upgrade has failed, and has restored the bundle as
    /// far as it could.
    Closed,
}

/// An upgrade phase, with texts in place of strings.
pub enum UpgradePhaseView {
    CheckingBundle,
    CheckingEntry,
    BackingUp,
    Recreating,
    Extracting(ExtractionView),
    Locating,
    Reading,
    Normalizing(Descriptor, FlatteningView),
    Resolving(Descriptor),
    Updating(PublicationView),
    Clearing { cause: Failure, clean: bool },
    Restoring { cause: Failure, clean: bool },
    Committed(PublicationView),
    Closed,
}

impl View for UpgradePhase {
    type V = UpgradePhaseView;

    open spec fn view(&self) -> UpgradePhaseView {
        match *self {
            UpgradePhase::CheckingBundle => UpgradePhaseView::CheckingBundle,
            UpgradePhase::CheckingEntry => UpgradePhaseView::CheckingEntry,
            UpgradePhase::BackingUp => UpgradePhaseView::BackingUp,
            UpgradePhase::Recreating => UpgradePhaseView::Recreating,
            UpgradePhase::Extracting(x) => UpgradePhaseView::Extracting(x@),
            UpgradePhase::Locating => UpgradePhaseView::Locating,
            UpgradePhase::Reading => UpgradePhaseView::Reading,
            UpgradePhase::Normalizing(d, f) => UpgradePhaseView::Normalizing(d@, f@),
            UpgradePhase::Resolving(d) => UpgradePhaseView::Resolving(d@),
            UpgradePhase::Updating(p) => UpgradePhaseView::Updating(p@),
            UpgradePhase::Clearing { cause, clean } => UpgradePhaseView::Clearing { cause, clean },
            UpgradePhase::Restoring { cause, clean } => UpgradePhaseView::Restoring { cause, clean },
            UpgradePhase::Committed(p) => UpgradePhaseView::Committed(p@),
            UpgradePhase::Closed => UpgradePhaseView::Closed,
        }
    }
}

/// An upgrade under way: the archive, the bundle's directory, its launcher
/// entry, the directory the old bundle is moved to, the identifier for the
/// backup of the entry, whether the helper was removed from the new
/// directory, and the phase.
#[derive(Clone, Debug, PartialEq, Eq)]
pub struct Upgrade {
    pub archive: String,
    pub target: String,
    pub entry: String,
    pub backup: String,
    pub entry_id: String,
    pub helper_removed: bool,
    pub phase: UpgradePhase,
}

/// An upgrade under way, with texts in place of strings.
pub struct UpgradeView {
    pub archive: Seq<char>,
    pub target: Seq<char>,
    pub entry: Seq<char>,
    pub backup: Seq<char>,
    pub entry_id: Seq<char>,
    pub helper_removed: bool,
    pub phase: UpgradePhaseView,
}

impl View for Upgrade {
    type V = UpgradeView;

    open spec fn view(&self) -> UpgradeView {
        UpgradeView {
            archive: self.archive@,
            target: self.target@,
            entry: self.entry@,
            backup: self.backup@,
            entry_id: self.entry_id@,
            helper_removed: self.helper_removed,
            phase: self.phase@,
        }
    }
}

/// How an upgrade begins: the bundle's directory and its launcher entry are
/// named by the slug of the name, the backup by the first identifier, and the
/// bundle's directory is probed.
pub open spec fn upgrade_begins(
    name: Seq<char>,
    path: Seq<char>,
    env: EnvironmentView,
    backup_id: Seq<char>,
    entry_id: Seq<char>,
) -> (UpgradeView, Command) {
    let target = bundle_dir_of(slug_of(name));
    (
        UpgradeView {
            archive: path,
            target,
            entry: entry_file_of(
                applications_dir_of(env.data_home, env.home, env.sudo_user),
                slug_of(name),
            ),
            backup: bundle_dir_of(backup_id),
            entry_id,
            helper_removed: false,
            phase: UpgradePhaseView::CheckingBundle,
        },
        Command::Probe { path: target },
    )
}

/// The removal of the new directory, after which the old one is moved back
/// and the upgrade fails with `cause`.
pub open spec fn upgrade_reverts(s: UpgradeView, cause: Failure, clean: bool) -> (
    UpgradeView,
    Command,
) {
    (
        UpgradeView { phase: UpgradePhaseView::Clearing { cause, clean }, ..s },
        Command::RemoveDirAll { path: s.target },
    )
}

/// The moving back of the old directory, after which the upgrade fails with
/// `cause`.
pub open spec fn upgrade_restores(s: UpgradeView, cause: Failure, clean: bool) -> (
    UpgradeView,
    Command,
) {
    (
        UpgradeView { phase: UpgradePhaseView::Restoring { cause, clean }, ..s },
        Command::Rename { from: s.backup, to: s.target },
    )
}

/// What an upgrade does with the listing of the bundle's directory: without
/// an executable or an icon it reverts; with both it begins to replace the
/// launcher entry.
pub open spec fn upgrade_resolves(s: UpgradeView, d: Descriptor, es: Seq<DirEntry>) -> (
    UpgradeView,
    Command,
) {
    match first_of(es, Wanted::Executable) {
        None => upgrade_reverts(s, Failure::NotFound(Missing::Executable), true),
        Some(x) => match first_of(es, Wanted::Icon) {
            None => upgrade_reverts(s, Failure::NotFound(Missing::Icon), true),
            Some(i) => {
                let (p, c) = update_begins(
                    d,
                    s.entry,
                    entry_path_of(s.target, es[x as int].name@),
                    entry_path_of(s.target, es[i as int].name@),
                    s.entry_id,
                );
                match c {
                    Command::Finish(Outcome::Failed { cause, clean }) => upgrade_reverts(
                        s,
                        cause,
                        clean,
                    ),
                    _ => (UpgradeView { phase: UpgradePhaseView::Updating(p), ..s }, c),
                }
            },
        },
    }
}

/// How an upgrade goes on after an event.
pub open spec fn upgrade_step(s: UpgradeView, event: Event) -> (UpgradeView, Command) {
    let closed = UpgradeView { phase: UpgradePhaseView::Closed, ..s };
    match s.phase {
        UpgradePhaseView::CheckingBundle => match event {
            Event::Kind(PathKind::Missing) => (
                closed,
                failed(Failure::NotFound(Missing::Installation), true),
            ),
            Event::Kind(_) => (
                UpgradeView { phase: UpgradePhaseView::CheckingEntry, ..s },
                Command::Probe { path: s.entry },
            ),
            _ => (closed, failed(failure_of(event), true)),
        },
        UpgradePhaseView::CheckingEntry => match event {
            Event::Kind(PathKind::Missing) => (
                closed,
                failed(Failure::NotFound(Missing::Entry), true),
            ),
            Event::Kind(_) => (
                UpgradeView { phase: UpgradePhaseView::BackingUp, ..s },
                Command::Rename { from: s.target, to: s.backup },
            ),
            _ => (closed, failed(failure_of(event), true)),
        },
        UpgradePhaseView::BackingUp => match event {
            Event::Done => (
                UpgradeView { phase: UpgradePhaseView::Recreating, ..s },
                Command::CreateDir { path: s.target },
            ),
            _ => (closed, failed(failure_of(event), true)),
        },
        UpgradePhaseView::Recreating => match event {
            Event::Done => {
                let (x, c) = extraction_begins(s.archive, s.target);
                (UpgradeView { phase: UpgradePhaseView::Extracting(x), ..s }, c)
            },
            _ => upgrade_restores(s, failure_of(event), true),
        },
        UpgradePhaseView::Extracting(x) => {
            let (x_next, c) = extraction_step(x, event);
            match c {
                Command::Finish(Outcome::Completed) => (
                    UpgradeView { phase: UpgradePhaseView::Locating, ..s },
                    Command::ListNested { dir: s.target },
                ),
                Command::Finish(Outcome::Failed { cause, clean }) => upgrade_reverts(
                    s,
                    cause,
                    true,
                ),
                _ => (UpgradeView { phase: UpgradePhaseView::Extracting(x_next), ..s }, c),
            }
        },
        UpgradePhaseView::Locating => match event {
            Event::Entries(es) => match first_of(es@, Wanted::Descriptor) {
                Some(i) => (
                    UpgradeView { phase: UpgradePhaseView::Reading, ..s },
                    Command::ReadNested { dir: s.target, name: es[i as int].name@ },
                ),
                None => upgrade_reverts(s, Failure::NotFound(Missing::Descriptor), true),
            },
            Event::Absent => upgrade_reverts(s, Failure::NotFound(Missing::Descriptor), true),
            _ => upgrade_reverts(s, failure_of(event), true),
        },
        UpgradePhaseView::Reading => match event {
            Event::Text(text) => match descriptor_of(text@) {
                Ok(d) => {
                    let (f, c) = flattening_begins(s.target);
                    (UpgradeView { phase: UpgradePhaseView::Normalizing(d, f), ..s }, c)
                },
                Err(e) => upgrade_reverts(s, Failure::InvalidData(e), true),
            },
            _ => upgrade_reverts(s, failure_of(event), true),
        },
        UpgradePhaseView::Normalizing(d, f) => {
            let (f_next, c) = flattening_step(f, event);
            match c {
                Command::Finish(Outcome::Completed) => (
                    UpgradeView {
                        helper_removed: f_next.helper_removed,
                        phase: UpgradePhaseView::Resolving(d),
                        ..s
                    },
                    Command::ListDir { dir: s.target },
                ),
                Command::Finish(Outcome::Failed { cause, clean }) => upgrade_reverts(
                    s,
                    cause,
                    true,
                ),
                _ => (UpgradeView { phase: UpgradePhaseView::Normalizing(d, f_next), ..s }, c),
            }
        },
        UpgradePhaseView::Resolving(d) => match event {
            Event::Entries(es) => upgrade_resolves(s, d, es@),
            Event::Absent => upgrade_reverts(s, Failure::NotFound(Missing::Executable), true),
            _ => upgrade_reverts(s, failure_of(event), true),
        },
        UpgradePhaseView::Updating(p) => {
            let (p_next, c) = publication_step(p, event);
            match c {
                Command::Finish(Outcome::Completed) => (
                    UpgradeView { phase: UpgradePhaseView::Committed(p_next), ..s },
                    completed(),
                ),
                Command::Finish(Outcome::Failed { cause, clean }) => upgrade_reverts(
                    s,
                    cause,
                    clean,
                ),
                _ => (UpgradeView { phase: UpgradePhaseView::Updating(p_next), ..s }, c),
            }
        },
        UpgradePhaseView::Clearing { cause, clean } => match event {
            Event::Done => upgrade_restores(s, cause, clean),
            _ => (closed, failed(cause, false)),
        },
        UpgradePhaseView::Restoring { cause, clean } => (
            closed,
            failed(cause, clean && event is Done),
        ),
        UpgradePhaseView::Committed(_) | UpgradePhaseView::Closed => (
            s,
            failed(failure_of(event), true),
        ),
    }
}

/// Begins the upgrade of the bundle named `name` from the archive at `path`,
/// with fresh identifiers for the two backups.
pub fn upgrade_app(name: &str, path: &str, env: &Environment) -> (r: (Upgrade, Action))
    ensures
        exists|backup_id: Seq<char>, entry_id: Seq<char>|
            is_short_id(backup_id) && is_short_id(entry_id) && (r.0@, r.1@) == #[trigger] upgrade_begins(
                name@,
                path@,
                env@,
                backup_id,
                entry_id,
            ),
{
    let backup_id = fresh_id();
    let entry_id = fresh_id();
    Upgrade::begin(name, path, env, backup_id.as_str(), entry_id.as_str())
}

impl Upgrade {
    /// Begins the upgrade of the bundle named `name` from the archive at
    /// `path`, with the backups named by the identifiers.
    pub fn begin(name: &str, path: &str, env: &Environment, backup_id: &str, entry_id: &str) -> (r:
        (Upgrade, Action))
        ensures
            (r.0@, r.1@) == upgrade_begins(name@, path@, env@, backup_id@, entry_id@),
    {
        let slug = slug(name);
        let target = bundle_dir(slug.as_str());
        let action = Action::Probe { path: target.clone() };
        (
            Upgrade {
                archive: path.to_owned(),
                target,
                entry: entry_file(env.applications_dir().as_str(), slug.as_str()),
                backup: bundle_dir(backup_id),
                entry_id: entry_id.to_owned(),
                helper_removed: false,
                phase: UpgradePhase::CheckingBundle,
            },
            action,
        )
    }

    /// Ends the upgrade.
    fn close(self, outcome: Outcome) -> (r: (Upgrade, Action))
        ensures
            r.0@ == (UpgradeView { phase: UpgradePhaseView::Closed, ..self@ }),
            r.1@ == Command::Finish(outcome),
    {
        (self.enter(UpgradePhase::Closed), Action::Finish(outcome))
    }

    /// Puts the upgrade into a phase.
    fn enter(self, phase: UpgradePhase) -> (r: Upgrade)
        ensures
            r@ == (UpgradeView { phase: phase@, ..self@ }),
    {
        let Upgrade { archive, target, entry, backup, entry_id, helper_removed, phase: _ } = self;
        Upgrade { archive, target, entry, backup, entry_id, helper_removed, phase }
    }

    /// Asks for the new directory to be removed, after a failure.
    fn revert(self, cause: Failure, clean: bool) -> (r: (Upgrade, Action))
        ensures
            (r.0@, r.1@) == upgrade_reverts(self@, cause, clean),
    {
        let action = Action::RemoveDirAll { path: self.target.clone() };
        (self.enter(UpgradePhase::Clearing { cause, clean }), action)
    }

    /// Asks for the old directory to be moved back, after a failure.
    fn restore(self, cause: Failure, clean: bool) -> (r: (Upgrade, Action))
        ensures
            (r.0@, r.1@) == upgrade_restores(self@, cause, clean),
    {
        let action = Action::Rename { from: self.backup.clone(), to: self.target.clone() };
        (self.enter(UpgradePhase::Restoring { cause, clean }), action)
    }

    /// Goes on from the listing of the bundle's directory.
    fn resolve(self, d: Desktop, es: Vec<DirEntry>) -> (r: (Upgrade, Action))
        ensures
            (r.0@, r.1@) == upgrade_resolves(self@, d@, es@),
    {
        match find_executable(&es) {
            None => self.revert(Failure::NotFound(Missing::Executable), true),
            Some(x) => match find_icon(&es) {
                None => self.revert(Failure::NotFound(Missing::Icon), true),
                Some(i) => {
                    let exec_path = entry_path(self.target.as_str(), es[x].name.as_str());
                    let icon_path = entry_path(self.target.as_str(), es[i].name.as_str());
                    let (p, action) = d.update_desktop(
                        self.entry.as_str(),
                        exec_path.as_str(),
                        icon_path.as_str(),
                        self.entry_id.as_str(),
                    );
                    match action {
                        Action::Finish(Outcome::Failed { cause, clean }) => self.revert(
                            cause,
                            clean,
                        ),
                        _ => (self.enter(UpgradePhase::Updating(p)), action),
                    }
                },
            },
        }
    }

    /// Takes the upgrade one step on.
    pub fn step(self, event: Event) -> (r: (Upgrade, Action))
        ensures
            (r.0@, r.1@) == upgrade_step(self@, event),
    {
        let Upgrade { archive, target, entry, backup, entry_id, helper_removed, phase } = self;
        let s = Upgrade {
            archive,
            target,
            entry,
            backup,
            entry_id,
            helper_removed,
            phase: UpgradePhase::Closed,
        };
        match phase {
            UpgradePhase::CheckingBundle => match event {
                Event::Kind(PathKind::Missing) => s.close(
                    Outcome::Failed { cause: Failure::NotFound(Missing::Installation), clean: true },
                ),
                Event::Kind(_) => {
                    let action = Action::Probe { path: s.entry.clone() };
                    (s.enter(UpgradePhase::CheckingEntry), action)
                },
                _ => {
                    let cause = into_failure(event);
                    s.close(Outcome::Failed { cause, clean: true })
                },
            },
            UpgradePhase::CheckingEntry => match event {
                Event::Kind(PathKind::Missing) => s.close(
                    Outcome::Failed { cause: Failure::NotFound(Missing::Entry), clean: true },
                ),
                Event::Kind(_) => {
                    let action = Action::Rename { from: s.target.clone(), to: s.backup.clone() };
                    (s.enter(UpgradePhase::BackingUp), action)
                },
                _ => {
                    let cause = into_failure(event);
                    s.close(Outcome::Failed { cause, clean: true })
                },
            },
            UpgradePhase::BackingUp => match event {
                Event::Done => {
                    let action = Action::CreateDir { path: s.target.clone() };
                    (s.enter(UpgradePhase::Recreating), action)
                },
                _ => {
                    let cause = into_failure(event);
                    s.close(Outcome::Failed { cause, clean: true })
                },
            },
            UpgradePhase::Recreating => match event {
                Event::Done => {
                    let (x, action) = extract_appimage(s.archive.as_str(), s.target.as_str());
                    (s.enter(UpgradePhase::Extracting(x)), action)
                },
                _ => {
                    let cause = into_failure(event);
                    s.restore(cause, true)
                },
            },
            UpgradePhase::Extracting(x) => {
                let (x_next, action) = x.step(event);
                match action {
                    Action::Finish(Outcome::Completed) => {
                        let action = Action::ListNested { dir: s.target.clone() };
                        (s.enter(UpgradePhase::Locating), action)
                    },
                    Action::Finish(Outcome::Failed { cause, clean: _ }) => s.revert(cause, true),
                    _ => (s.enter(UpgradePhase::Extracting(x_next)), action),
                }
            },
            UpgradePhase::Locating => match event {
                Event::Entries(es) => match find_desktop_file(&es) {
                    Some(i) => {
                        let action = Action::ReadNested {
                            dir: s.target.clone(),
                            name: es[i].name.clone(),
                        };
                        (s.enter(UpgradePhase::Reading), action)
                    },
                    None => s.revert(Failure::NotFound(Missing::Descriptor), true),
                },
                Event::Absent => s.revert(Failure::NotFound(Missing::Descriptor), true),
                _ => {
                    let cause = into_failure(event);
                    s.revert(cause, true)
                },
            },
            UpgradePhase::Reading => match event {
                Event::Text(text) => match Desktop::new(text.as_str()) {
                    Ok(d) => {
                        let (f, action) = flatten_squashfs_root(s.target.as_str());
                        (s.enter(UpgradePhase::Normalizing(d, f)), action)
                    },
                    Err(e) => s.revert(Failure::InvalidData(e), true),
                },
                _ => {
                    let cause = into_failure(event);
                    s.revert(cause, true)
                },
            },
            UpgradePhase::Normalizing(d, f) => {
                let (f_next, action) = f.step(event);
                match action {
                    Action::Finish(Outcome::Completed) => {
                        let action = Action::ListDir { dir: s.target.clone() };
                        let mut s = s.enter(UpgradePhase::Resolving(d));
                        s.helper_removed = f_next.helper_removed;
                        (s, action)
                    },
                    Action::Finish(Outcome::Failed { cause, clean: _ }) => s.revert(cause, true),
                    _ => (s.enter(UpgradePhase::Normalizing(d, f_next)), action),
                }
            },
            UpgradePhase::Resolving(d) => match event {
                Event::Entries(es) => s.resolve(d, es),
                Event::Absent => s.revert(Failure::NotFound(Missing::Executable), true),
                _ => {
                    let cause = into_failure(event);
                    s.revert(cause, true)
                },
            },
            UpgradePhase::Updating(p) => {
                let (p_next, action) = p.step(event);
                match action {
                    Action::Finish(Outcome::Completed) => (
                        s.enter(UpgradePhase::Committed(p_next)),
                        Action::Finish(Outcome::Completed),
                    ),
                    Action::Finish(Outcome::Failed { cause, clean }) => s.revert(cause, clean),
                    _ => (s.enter(UpgradePhase::Updating(p_next)), action),
                }
            },
            UpgradePhase::Clearing { cause, clean } => match event {
                Event::Done => s.restore(cause, clean),
                _ => s.close(Outcome::Failed { cause, clean: false }),
            },
            UpgradePhase::Restoring { cause, clean } => {
                let done = match event {
                    Event::Done => true,
                    _ => false,
                };
                s.close(Outcome::Failed { cause, clean: clean && done })
            },
            UpgradePhase::Committed(p) => (
                s.enter(UpgradePhase::Committed(p)),
                Action::Finish(Outcome::Failed { cause: into_failure(event), clean: true }),
            ),
            UpgradePhase::Closed => {
                let cause = into_failure(event);
                s.close(Outcome::Failed { cause, clean: true })
            },
        }
    }
}

} // verus!
