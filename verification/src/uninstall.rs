//! Removing an installed bundle and its launcher entry, once the user has
//! confirmed it.

use crate::effects::{
    completed, failed, failure_of, into_failure, Action, Command, Event, Failure, Missing,
    Outcome, PathKind,
};
use crate::paths::{
    applications_dir_of, bundle_dir, bundle_dir_of, entry_file, entry_file_of, same_text, slug,
    slug_of, Environment, EnvironmentView,
};
use crate::text::{trim, trimmed};
use vstd::prelude::*;

verus! {

/// How far a removal has come: what it waits for.
#[derive(Clone, Copy, PartialEq, Eq, Structural, Debug)]
pub enum UninstallPhase {
    /// For the user's answer.
    Confirming,
    /// For what stands at the bundle's directory.
    CheckingBundle,
    /// For what stands at the launcher entry.
    CheckingEntry,
    /// For the launcher entry to be removed.
    RemovingEntry,
    /// For the bundle's directory to be removed.
    RemovingBundle,
    /// For the launcher registry to be refreshed.
    Refreshing,
    /// For nothing: the removal has ended.
    Closed,
}

/// A removal under way.
#[derive(Clone, Debug, PartialEq, Eq)]
pub struct Uninstall {
    pub target: String,
    pub entry: String,
    pub applications_dir: String,
    pub phase: UninstallPhase,
}

/// A removal under way, with texts in place of strings.
pub struct UninstallView {
    pub target: Seq<char>,
    pub entry: Seq<char>,
    pub applications_dir: Seq<char>,
    pub phase: UninstallPhase,
}

impl View for Uninstall {
    type V = UninstallView;

    open spec fn view(&self) -> UninstallView {
        UninstallView {
            target: self.target@,
            entry: self.entry@,
            applications_dir: self.applications_dir@,
            phase: self.phase,
        }
    }
}

/// Whether an answer confirms: trimmed, it is `y` or `Y`.
pub open spec fn confirms(answer: Seq<char>) -> bool {
    trimmed(answer) == "y"@ || trimmed(answer) == "Y"@
}

/// How a removal begins: by asking the user.
pub open spec fn uninstall_begins(name: Seq<char>, env: EnvironmentView) -> (
    UninstallView,
    Command,
) {
    let applications_dir = applications_dir_of(env.data_home, env.home, env.sudo_user);
    (
        UninstallView {
            target: bundle_dir_of(slug_of(name)),
            entry: entry_file_of(applications_dir, slug_of(name)),
            applications_dir,
            phase: UninstallPhase::Confirming,
        },
        Command::Confirm { name },
    )
}

/// How a removal goes on after an event. Anything but a confirming answer
/// ends it as declined; it wants both the bundle's directory and its launcher
/// entry in place, removes the entry, then the directory, and has the
/// registry refreshed, whether or not that succeeds.
pub open spec fn uninstall_step(s: UninstallView, event: Event) -> (UninstallView, Command) {
    let closed = UninstallView { phase: UninstallPhase::Closed, ..s };
    match (s.phase, event) {
        (UninstallPhase::Confirming, Event::Text(answer)) => if confirms(answer@) {
            (
                UninstallView { phase: UninstallPhase::CheckingBundle, ..s },
                Command::Probe { path: s.target },
            )
        } else {
            (closed, failed(Failure::Declined, true))
        },
        (UninstallPhase::CheckingBundle, Event::Kind(kind)) => if kind == PathKind::Missing {
            (closed, failed(Failure::NotFound(Missing::Installation), true))
        } else {
            (
                UninstallView { phase: UninstallPhase::CheckingEntry, ..s },
                Command::Probe { path: s.entry },
            )
        },
        (UninstallPhase::CheckingEntry, Event::Kind(kind)) => if kind == PathKind::Missing {
            (closed, failed(Failure::NotFound(Missing::Entry), true))
        } else {
            (
                UninstallView { phase: UninstallPhase::RemovingEntry, ..s },
                Command::RemoveFile { path: s.entry },
            )
        },
        (UninstallPhase::RemovingEntry, Event::Done) => (
            UninstallView { phase: UninstallPhase::RemovingBundle, ..s },
            Command::RemoveDirAll { path: s.target },
        ),
        (UninstallPhase::RemovingBundle, Event::Done) => (
            UninstallView { phase: UninstallPhase::Refreshing, ..s },
            Command::RefreshRegistry { dir: s.applications_dir },
        ),
        (UninstallPhase::Refreshing, _) => (closed, completed()),
        (_, event) => (closed, failed(failure_of(event), true)),
    }
}

/// Whether an answer confirms.
pub fn is_confirmation(answer: &str) -> (r: bool)
    ensures
        r == confirms(answer@),
{
    let t = trim(answer);
    same_text(t.as_str(), "y") || same_text(t.as_str(), "Y")
}

/// Begins the removal of the bundle named `name`.
pub fn uninstall_app(name: &str, env: &Environment) -> (r: (Uninstall, Action))
    ensures
        (r.0@, r.1@) == uninstall_begins(name@, env@),
{
    let slug = slug(name);
    let applications_dir = env.applications_dir();
    (
        Uninstall {
            target: bundle_dir(slug.as_str()),
            entry: entry_file(applications_dir.as_str(), slug.as_str()),
            applications_dir,
            phase: UninstallPhase::Confirming,
        },
        Action::Confirm { name: name.to_owned() },
    )
}

impl Uninstall {
    /// Takes the removal one step on.
    pub fn step(self, event: Event) -> (r: (Uninstall, Action))
        ensures
            (r.0@, r.1@) == uninstall_step(self@, event),
    {
        let Uninstall { target, entry, applications_dir, phase } = self;
        let (phase, action) = match (phase, event) {
            (UninstallPhase::Confirming, Event::Text(answer)) => if is_confirmation(
                answer.as_str(),
            ) {
                (UninstallPhase::CheckingBundle, Action::Probe { path: target.clone() })
            } else {
                (
                    UninstallPhase::Closed,
                    Action::Finish(Outcome::Failed { cause: Failure::Declined, clean: true }),
                )
            },
            (UninstallPhase::CheckingBundle, Event::Kind(kind)) => if kind == PathKind::Missing {
                (
                    UninstallPhase::Closed,
                    Action::Finish(
                        Outcome::Failed {
                            cause: Failure::NotFound(Missing::Installation),
                            clean: true,
                        },
                    ),
                )
            } else {
                (UninstallPhase::CheckingEntry, Action::Probe { path: entry.clone() })
            },
            (UninstallPhase::CheckingEntry, Event::Kind(kind)) => if kind == PathKind::Missing {
                (
                    UninstallPhase::Closed,
                    Action::Finish(
                        Outcome::Failed { cause: Failure::NotFound(Missing::Entry), clean: true },
                    ),
                )
            } else {
                (UninstallPhase::RemovingEntry, Action::RemoveFile { path: entry.clone() })
            },
            (UninstallPhase::RemovingEntry, Event::Done) => (
                UninstallPhase::RemovingBundle,
                Action::RemoveDirAll { path: target.clone() },
            ),
            (UninstallPhase::RemovingBundle, Event::Done) => (
                UninstallPhase::Refreshing,
                Action::RefreshRegistry { dir: applications_dir.clone() },
            ),
            (UninstallPhase::Refreshing, _) => (
                UninstallPhase::Closed,
                Action::Finish(Outcome::Completed),
            ),
            (_, event) => (
                UninstallPhase::Closed,
                Action::Finish(Outcome::Failed { cause: into_failure(event), clean: true }),
            ),
        };
        (Uninstall { target, entry, applications_dir, phase }, action)
    }
}

} // verus!
