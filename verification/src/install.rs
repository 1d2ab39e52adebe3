//! Installing a bundle from an archive: all or nothing.
//!
//! The archive is extracted into a staging area under the bundles' root and
//! proven there to hold a descriptor with a name. Only then the staging area
//! is moved to the bundle's directory, flattened, searched for the executable
//! and the icon, and the launcher entry is published. Up to the publication
//! every failure removes what the installation created; a failure of the
//! publication leaves the bundle installed, and nothing of the launcher
//! entry.

use crate::bundle::{find_desktop_file, find_executable, find_icon, first_of, DirEntry, Wanted};
use crate::desktop::{descriptor_of, Descriptor, Desktop};
use crate::effects::{
    completed, entry_path, entry_path_of, failed, failure_of, into_failure, Action, Command,
    Event, Failure, Missing, Outcome, PathKind, Taken,
};
use crate::extract::{
    extract_appimage, extraction_begins, extraction_step, Extraction, ExtractionView,
};
use crate::ids::{fresh_id, is_short_id};
use crate::layout::{
    flatten_squashfs_root, flattening_begins, flattening_step, Flattening, FlatteningView,
};
use crate::paths::{
    applications_dir_of, bundle_dir, bundle_dir_of, effective_home_of, expand_tilde, slug_of,
    tilde_expanded, Environment, EnvironmentView,
};
use crate::publish::{creation_begins, publication_step, Publication, PublicationView};
use vstd::prelude::*;

verus! {

/// How far an installation has come: what it waits for, and what it holds
/// meanwhile.
#[derive(Clone, Debug, PartialEq, Eq)]
pub enum InstallPhase {
    /// For the staging area to be created.
    Staging,
    /// For the extraction into the staging area.
    Extracting(Extraction),
    /// For the listing of the extracted tree.
    Locating,
    /// For the text of the descriptor.
    Reading,
    /// For what stands at the bundle's directory.
    Checking(Desktop),
    /// For the staging area to be moved there.
    Relocating(Desktop),
    /// For the flattening of the bundle's directory.
    Normalizing(Desktop, Flattening),
    /// For the listing of the bundle's directory.
    Resolving(Desktop),
    /// For the publication of the launcher entry.
    Publishing(Publication),
    /// For the launcher registry to be refreshed.
    Refreshing(Publication),
    /// For the permissions of the bundle to be relaxed.
    Relaxing(Publication),
    /// For what the installation created to be removed, after the failure
    /// held here.
    Discarding(Failure),
    /// For nothing: the bundle is installed and its launcher entry published.
    Committed(Publication),
    /// For nothing: the bundle is installed, but its launcher entry could not
    /// be published.
    Unpublished,
    /// For nothing: the installation has failed, and has removed what it
    /// created as far as it could.
    Closed,
}

/// An installation phase, with texts in place of strings.
pub enum InstallPhaseView {
    Staging,
    Extracting(ExtractionView),
    Locating,
    Reading,
    Checking(Descriptor),
    Relocating(Descriptor),
    Normalizing(Descriptor, FlatteningView),
    Resolving(Descriptor),
    Publishing(PublicationView),
    Refreshing(PublicationView),
    Relaxing(PublicationView),
    Discarding(Failure),
    Committed(PublicationView),
    Unpublished,
    Closed,
}

impl View for InstallPhase {
    type V = InstallPhaseView;

    open spec fn view(&self) -> InstallPhaseView {
        match *self {
            InstallPhase::Staging => InstallPhaseView::Staging,
            InstallPhase::Extracting(x) => InstallPhaseView::Extracting(x@),
            InstallPhase::Locating => InstallPhaseView::Locating,
            InstallPhase::Reading => InstallPhaseView::Reading,
            InstallPhase::Checking(d) => InstallPhaseView::Checking(d@),
            InstallPhase::Relocating(d) => InstallPhaseView::Relocating(d@),
            InstallPhase::Normalizing(d, f) => InstallPhaseView::Normalizing(d@, f@),
            InstallPhase::Resolving(d) => InstallPhaseView::Resolving(d@),
            InstallPhase::Publishing(p) => InstallPhaseView::Publishing(p@),
            InstallPhase::Refreshing(p) => InstallPhaseView::Refreshing(p@),
            InstallPhase::Relaxing(p) => InstallPhaseView::Relaxing(p@),
            InstallPhase::Discarding(cause) => InstallPhaseView::Discarding(cause),
            InstallPhase::Committed(p) => InstallPhaseView::Committed(p@),
            InstallPhase::Unpublished => InstallPhaseView::Unpublished,
            InstallPhase::Closed => InstallPhaseView::Closed,
        }
    }
}

/// An installation under way: the archive, the staging area, the bundle's
/// directory once the descriptor has named it, the applications directory,
/// whether the helper was removed from the bundle's directory, and the phase.
#[derive(Clone, Debug, PartialEq, Eq)]
pub struct Installation {
    pub archive: String,
    pub staging: String,
    pub target: String,
    pub applications_dir: String,
    pub helper_removed: bool,
    pub phase: InstallPhase,
}

/// An installation under way, with texts in place of strings.
pub struct InstallationView {
    pub archive: Seq<char>,
    pub staging: Seq<char>,
    pub target: Seq<char>,
    pub applications_dir: Seq<char>,
    pub helper_removed: bool,
    pub phase: InstallPhaseView,
}

impl View for Installation {
    type V = InstallationView;

    open spec fn view(&self) -> InstallationView {
        InstallationView {
            archive: self.archive@,
            staging: self.staging@,
            target: self.target@,
            applications_dir: self.applications_dir@,
            helper_removed: self.helper_removed,
            phase: self.phase@,
        }
    }
}

/// How an installation begins: the archive path has its tilde expanded, the
/// staging area is named by the identifier, and its creation is asked for.
pub open spec fn installation_begins(path: Seq<char>, env: EnvironmentView, id: Seq<char>) -> (
    InstallationView,
    Command,
) {
    let staging = bundle_dir_of(id);
    (
        InstallationView {
            archive: tilde_expanded(path, effective_home_of(env.home, env.sudo_user)),
            staging,
            target: Seq::empty(),
            applications_dir: applications_dir_of(env.data_home, env.home, env.sudo_user),
            helper_removed: false,
            phase: InstallPhaseView::Staging,
        },
        Command::CreateDir { path: staging },
    )
}

/// The removal of `path`, after which the installation fails with `cause`.
pub open spec fn installation_discards(s: InstallationView, path: Seq<char>, cause: Failure) -> (
    InstallationView,
    Command,
) {
    (
        InstallationView { phase: InstallPhaseView::Discarding(cause), ..s },
        Command::RemoveDirAll { path },
    )
}

/// What an installation does with the listing of the bundle's directory:
/// without an executable or an icon it removes the bundle; with both it
/// begins to publish the launcher entry.
pub open spec fn installation_resolves(s: InstallationView, d: Descriptor, es: Seq<DirEntry>) -> (
    InstallationView,
    Command,
) {
    match first_of(es, Wanted::Executable) {
        None => installation_discards(s, s.target, Failure::NotFound(Missing::Executable)),
        Some(x) => match first_of(es, Wanted::Icon) {
            None => installation_discards(s, s.target, Failure::NotFound(Missing::Icon)),
            Some(i) => {
                let (p, c) = creation_begins(
                    d,
                    s.applications_dir,
                    entry_path_of(s.target, es[x as int].name@),
                    entry_path_of(s.target, es[i as int].name@),
                );
                (InstallationView { phase: InstallPhaseView::Publishing(p), ..s }, c)
            },
        },
    }
}

/// How an installation goes on after an event.
pub open spec fn installation_step(s: InstallationView, event: Event) -> (
    InstallationView,
    Command,
) {
    let closed = InstallationView { phase: InstallPhaseView::Closed, ..s };
    match s.phase {
        InstallPhaseView::Staging => match event {
            Event::Done => {
                let (x, c) = extraction_begins(s.archive, s.staging);
                (InstallationView { phase: InstallPhaseView::Extracting(x), ..s }, c)
            },
            _ => (closed, failed(failure_of(event), true)),
        },
        InstallPhaseView::Extracting(x) => {
            let (x_next, c) = extraction_step(x, event);
            match c {
                Command::Finish(Outcome::Completed) => (
                    InstallationView { phase: InstallPhaseView::Locating, ..s },
                    Command::ListNested { dir: s.staging },
                ),
                Command::Finish(Outcome::Failed { cause, clean }) => installation_discards(
                    s,
                    s.staging,
                    cause,
                ),
                _ => (InstallationView { phase: InstallPhaseView::Extracting(x_next), ..s }, c),
            }
        },
        InstallPhaseView::Locating => match event {
            Event::Entries(es) => match first_of(es@, Wanted::Descriptor) {
                Some(i) => (
                    InstallationView { phase: InstallPhaseView::Reading, ..s },
                    Command::ReadNested { dir: s.staging, name: es[i as int].name@ },
                ),
                None => installation_discards(
                    s,
                    s.staging,
                    Failure::NotFound(Missing::Descriptor),
                ),
            },
            Event::Absent => installation_discards(
                s,
                s.staging,
                Failure::NotFound(Missing::Descriptor),
            ),
            _ => installation_discards(s, s.staging, failure_of(event)),
        },
        InstallPhaseView::Reading => match event {
            Event::Text(text) => match descriptor_of(text@) {
                Ok(d) => {
                    let target = bundle_dir_of(slug_of(d.name));
                    (
                        InstallationView { target, phase: InstallPhaseView::Checking(d), ..s },
                        Command::Probe { path: target },
                    )
                },
                Err(e) => installation_discards(s, s.staging, Failure::InvalidData(e)),
            },
            _ => installation_discards(s, s.staging, failure_of(event)),
        },
        InstallPhaseView::Checking(d) => match event {
            Event::Kind(PathKind::Missing) => (
                InstallationView { phase: InstallPhaseView::Relocating(d), ..s },
                Command::Rename { from: s.staging, to: s.target },
            ),
            Event::Kind(_) => installation_discards(
                s,
                s.staging,
                Failure::AlreadyExists(Taken::Bundle),
            ),
            _ => installation_discards(s, s.staging, failure_of(event)),
        },
        InstallPhaseView::Relocating(d) => match event {
            Event::Done => {
                let (f, c) = flattening_begins(s.target);
                (InstallationView { phase: InstallPhaseView::Normalizing(d, f), ..s }, c)
            },
            _ => installation_discards(s, s.staging, failure_of(event)),
        },
        InstallPhaseView::Normalizing(d, f) => {
            let (f_next, c) = flattening_step(f, event);
            match c {
                Command::Finish(Outcome::Completed) => (
                    InstallationView {
                        helper_removed: f_next.helper_removed,
                        phase: InstallPhaseView::Resolving(d),
                        ..s
                    },
                    Command::ListDir { dir: s.target },
                ),
                Command::Finish(Outcome::Failed { cause, clean }) => installation_discards(
                    s,
                    s.target,
                    cause,
                ),
                _ => (InstallationView { phase: InstallPhaseView::Normalizing(d, f_next), ..s }, c),
            }
        },
        InstallPhaseView::Resolving(d) => match event {
            Event::Entries(es) => installation_resolves(s, d, es@),
            Event::Absent => installation_discards(
                s,
                s.target,
                Failure::NotFound(Missing::Executable),
            ),
            _ => installation_discards(s, s.target, failure_of(event)),
        },
        InstallPhaseView::Publishing(p) => {
            let (p_next, c) = publication_step(p, event);
            match c {
                Command::Finish(Outcome::Completed) => (
                    InstallationView { phase: InstallPhaseView::Refreshing(p_next), ..s },
                    Command::RefreshRegistry { dir: s.applications_dir },
                ),
                Command::Finish(Outcome::Failed { cause, clean }) => (
                    InstallationView { phase: InstallPhaseView::Unpublished, ..s },
                    failed(cause, clean),
                ),
                _ => (InstallationView { phase: InstallPhaseView::Publishing(p_next), ..s }, c),
            }
        },
        InstallPhaseView::Refreshing(p) => (
            InstallationView { phase: InstallPhaseView::Relaxing(p), ..s },
            Command::RelaxPermissions { dir: s.target },
        ),
        InstallPhaseView::Relaxing(p) => (
            InstallationView { phase: InstallPhaseView::Committed(p), ..s },
            completed(),
        ),
        InstallPhaseView::Discarding(cause) => (closed, failed(cause, event is Done)),
        InstallPhaseView::Committed(_) | InstallPhaseView::Unpublished | InstallPhaseView::Closed => (
            s,
            failed(failure_of(event), true),
        ),
    }
}

/// Begins the installation of the archive at `path`, with a fresh identifier
/// for the staging area.
pub fn install_app(path: &str, env: &Environment) -> (r: (Installation, Action))
    ensures
        exists|id: Seq<char>| is_short_id(id) && (r.0@, r.1@) == installation_begins(path@, env@, id),
{
    let id = fresh_id();
    Installation::begin(path, env, id.as_str())
}

impl Installation {
    /// Begins the installation of the archive at `path`, with the staging
    /// area named by `id`.
    pub fn begin(path: &str, env: &Environment, id: &str) -> (r: (Installation, Action))
        ensures
            (r.0@, r.1@) == installation_begins(path@, env@, id@),
    {
        let staging = bundle_dir(id);
        let action = Action::CreateDir { path: staging.clone() };
        (
            Installation {
                archive: expand_tilde(path, env.effective_home().as_str()),
                staging,
                target: String::new(),
                applications_dir: env.applications_dir(),
                helper_removed: false,
                phase: InstallPhase::Staging,
            },
            action,
        )
    }

    /// Ends the installation.
    fn close(self, outcome: Outcome) -> (r: (Installation, Action))
        ensures
            r.0@ == (InstallationView { phase: InstallPhaseView::Closed, ..self@ }),
            r.1@ == Command::Finish(outcome),
    {
        let Installation { archive, staging, target, applications_dir, helper_removed, phase: _ } =
            self;
        (
            Installation {
                archive,
                staging,
                target,
                applications_dir,
                helper_removed,
                phase: InstallPhase::Closed,
            },
            Action::Finish(outcome),
        )
    }

    /// Puts the installation into a phase.
    fn enter(self, phase: InstallPhase) -> (r: Installation)
        ensures
            r@ == (InstallationView { phase: phase@, ..self@ }),
    {
        let Installation { archive, staging, target, applications_dir, helper_removed, phase: _ } =
            self;
        Installation { archive, staging, target, applications_dir, helper_removed, phase }
    }

    /// Asks for the staging area to be removed, after a failure.
    fn discard_staging(self, cause: Failure) -> (r: (Installation, Action))
        ensures
            (r.0@, r.1@) == installation_discards(self@, self@.staging, cause),
    {
        let action = Action::RemoveDirAll { path: self.staging.clone() };
        (self.enter(InstallPhase::Discarding(cause)), action)
    }

    /// Asks for the bundle's directory to be removed, after a failure.
    fn discard_target(self, cause: Failure) -> (r: (Installation, Action))
        ensures
            (r.0@, r.1@) == installation_discards(self@, self@.target, cause),
    {
        let action = Action::RemoveDirAll { path: self.target.clone() };
        (self.enter(InstallPhase::Discarding(cause)), action)
    }

    /// Goes on from the listing of the bundle's directory.
    fn resolve(self, d: Desktop, es: Vec<DirEntry>) -> (r: (Installation, Action))
        ensures
            (r.0@, r.1@) == installation_resolves(self@, d@, es@),
    {
        match find_executable(&es) {
            None => self.discard_target(Failure::NotFound(Missing::Executable)),
            Some(x) => match find_icon(&es) {
                None => self.discard_target(Failure::NotFound(Missing::Icon)),
                Some(i) => {
                    let exec_path = entry_path(self.target.as_str(), es[x].name.as_str());
                    let icon_path = entry_path(self.target.as_str(), es[i].name.as_str());
                    let (p, action) = d.create_desktop(
                        self.applications_dir.as_str(),
                        exec_path.as_str(),
                        icon_path.as_str(),
                    );
                    (self.enter(InstallPhase::Publishing(p)), action)
                },
            },
        }
    }

    /// Takes the installation one step on.
    pub fn step(self, event: Event) -> (r: (Installation, Action))
        ensures
            (r.0@, r.1@) == installation_step(self@, event),
    {
        let Installation { archive, staging, target, applications_dir, helper_removed, phase } =
            self;
        let s = Installation {
            archive,
            staging,
            target,
            applications_dir,
            helper_removed,
            phase: InstallPhase::Closed,
        };
        match phase {
            InstallPhase::Staging => match event {
                Event::Done => {
                    let (x, action) = extract_appimage(s.archive.as_str(), s.staging.as_str());
                    (s.enter(InstallPhase::Extracting(x)), action)
                },
                _ => {
                    let cause = into_failure(event);
                    s.close(Outcome::Failed { cause, clean: true })
                },
            },
            InstallPhase::Extracting(x) => {
                let (x_next, action) = x.step(event);
                match action {
                    Action::Finish(Outcome::Completed) => {
                        let action = Action::ListNested { dir: s.staging.clone() };
                        (s.enter(InstallPhase::Locating), action)
                    },
                    Action::Finish(Outcome::Failed { cause, clean: _ }) => s.discard_staging(cause),
                    _ => (s.enter(InstallPhase::Extracting(x_next)), action),
                }
            },
            InstallPhase::Locating => match event {
                Event::Entries(es) => match find_desktop_file(&es) {
                    Some(i) => {
                        let action = Action::ReadNested {
                            dir: s.staging.clone(),
                            name: es[i].name.clone(),
                        };
                        (s.enter(InstallPhase::Reading), action)
                    },
                    None => s.discard_staging(Failure::NotFound(Missing::Descriptor)),
                },
                Event::Absent => s.discard_staging(Failure::NotFound(Missing::Descriptor)),
                _ => {
                    let cause = into_failure(event);
                    s.discard_staging(cause)
                },
            },
            InstallPhase::Reading => match event {
                Event::Text(text) => match Desktop::new(text.as_str()) {
                    Ok(d) => {
                        let target = bundle_dir(d.slug().as_str());
                        let action = Action::Probe { path: target.clone() };
                        let mut s = s.enter(InstallPhase::Checking(d));
                        s.target = target;
                        (s, action)
                    },
                    Err(e) => s.discard_staging(Failure::InvalidData(e)),
                },
                _ => {
                    let cause = into_failure(event);
                    s.discard_staging(cause)
                },
            },
            InstallPhase::Checking(d) => match event {
                Event::Kind(PathKind::Missing) => {
                    let action = Action::Rename { from: s.staging.clone(), to: s.target.clone() };
                    (s.enter(InstallPhase::Relocating(d)), action)
                },
                Event::Kind(_) => s.discard_staging(Failure::AlreadyExists(Taken::Bundle)),
                _ => {
                    let cause = into_failure(event);
                    s.discard_staging(cause)
                },
            },
            InstallPhase::Relocating(d) => match event {
                Event::Done => {
                    let (f, action) = flatten_squashfs_root(s.target.as_str());
                    (s.enter(InstallPhase::Normalizing(d, f)), action)
                },
                _ => {
                    let cause = into_failure(event);
                    s.discard_staging(cause)
                },
            },
            InstallPhase::Normalizing(d, f) => {
                let (f_next, action) = f.step(event);
                match action {
                    Action::Finish(Outcome::Completed) => {
                        let action = Action::ListDir { dir: s.target.clone() };
                        let mut s = s.enter(InstallPhase::Resolving(d));
                        s.helper_removed = f_next.helper_removed;
                        (s, action)
                    },
                    Action::Finish(Outcome::Failed { cause, clean: _ }) => s.discard_target(cause),
                    _ => (s.enter(InstallPhase::Normalizing(d, f_next)), action),
                }
            },
            InstallPhase::Resolving(d) => match event {
                Event::Entries(es) => s.resolve(d, es),
                Event::Absent => s.discard_target(Failure::NotFound(Missing::Executable)),
                _ => {
                    let cause = into_failure(event);
                    s.discard_target(cause)
                },
            },
            InstallPhase::Publishing(p) => {
                let (p_next, action) = p.step(event);
                match action {
                    Action::Finish(Outcome::Completed) => {
                        let action = Action::RefreshRegistry { dir: s.applications_dir.clone() };
                        (s.enter(InstallPhase::Refreshing(p_next)), action)
                    },
                    Action::Finish(Outcome::Failed { cause, clean }) => (
                        s.enter(InstallPhase::Unpublished),
                        Action::Finish(Outcome::Failed { cause, clean }),
                    ),
                    _ => (s.enter(InstallPhase::Publishing(p_next)), action),
                }
            },
            InstallPhase::Refreshing(p) => {
                let action = Action::RelaxPermissions { dir: s.target.clone() };
                (s.enter(InstallPhase::Relaxing(p)), action)
            },
            InstallPhase::Relaxing(p) => (
                s.enter(InstallPhase::Committed(p)),
                Action::Finish(Outcome::Completed),
            ),
            InstallPhase::Discarding(cause) => {
                let clean = match event {
                    Event::Done => true,
                    _ => false,
                };
                s.close(Outcome::Failed { cause, clean })
            },
            InstallPhase::Committed(p) => (
                s.enter(InstallPhase::Committed(p)),
                Action::Finish(Outcome::Failed { cause: into_failure(event), clean: true }),
            ),
            InstallPhase::Unpublished => (
                s.enter(InstallPhase::Unpublished),
                Action::Finish(Outcome::Failed { cause: into_failure(event), clean: true }),
            ),
            InstallPhase::Closed => {
                let cause = into_failure(event);
                s.close(Outcome::Failed { cause, clean: true })
            },
        }
    }
}

} // verus!
