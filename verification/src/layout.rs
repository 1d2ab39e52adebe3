//! Normalizing the layout of a bundle directory.
//!
//! An archive extracts itself one level deep. Flattening moves every entry of
//! the extracted tree up into the bundle directory, over whatever stands
//! there under the same name, drops the helper, and removes the emptied tree.
//! A directory without an extracted tree is left as it is.

use crate::bundle::DirEntry;
use crate::effects::{
    completed, failed, failure_of, helper_name, into_failure, Action, Command, Event, Outcome,
    PathKind,
};
use vstd::prelude::*;

verus! {

/// How far a flattening has come: what it waits for.
#[derive(Clone, Copy, PartialEq, Eq, Structural, Debug)]
pub enum FlattenPhase {
    /// For the listing of the extracted tree.
    Listing,
    /// For the helper to be removed.
    ClearingHelper,
    /// For what stands in the bundle directory under the name of the next
    /// entry.
    Probing,
    /// For that to be removed.
    Clearing,
    /// For the entry to be moved up.
    Promoting,
    /// For the extracted tree to be removed.
    Removing,
    /// For nothing: the flattening has ended.
    Closed,
}

/// A flattening under way: the entries of the extracted tree, how many of
/// them have been moved up, and whether the removal of the helper succeeded.
#[derive(Clone, Debug, PartialEq, Eq)]
pub struct Flattening {
    pub dir: String,
    pub entries: Vec<DirEntry>,
    pub next: usize,
    pub helper_removed: bool,
    pub phase: FlattenPhase,
}

/// A flattening under way, with texts in place of strings.
pub struct FlatteningView {
    pub dir: Seq<char>,
    pub entries: Seq<DirEntry>,
    pub next: usize,
    pub helper_removed: bool,
    pub phase: FlattenPhase,
}

impl View for Flattening {
    type V = FlatteningView;

    open spec fn view(&self) -> FlatteningView {
        FlatteningView {
            dir: self.dir@,
            entries: self.entries@,
            next: self.next,
            helper_removed: self.helper_removed,
            phase: self.phase,
        }
    }
}

/// How a flattening begins: by listing the extracted tree.
pub open spec fn flattening_begins(dir: Seq<char>) -> (FlatteningView, Command) {
    (
        FlatteningView {
            dir,
            entries: Seq::empty(),
            next: 0,
            helper_removed: false,
            phase: FlattenPhase::Listing,
        },
        Command::ListNested { dir },
    )
}

/// What a flattening turns to once the entries before `next` are done: the
/// next entry, or the removal of the emptied tree.
pub open spec fn flattening_turns(s: FlatteningView) -> (FlatteningView, Command) {
    if s.next < s.entries.len() {
        (
            FlatteningView { phase: FlattenPhase::Probing, ..s },
            Command::ProbeEntry { dir: s.dir, name: s.entries[s.next as int].name@ },
        )
    } else {
        (FlatteningView { phase: FlattenPhase::Removing, ..s }, Command::RemoveNested { dir: s.dir })
    }
}

/// How a flattening goes on after an event. Whether the helper could be
/// removed is noted and does not matter otherwise; any other step that fails
/// ends the flattening with that failure.
pub open spec fn flattening_step(s: FlatteningView, event: Event) -> (FlatteningView, Command) {
    let closed = FlatteningView { phase: FlattenPhase::Closed, ..s };
    let current = s.next < s.entries.len();
    let promote = (
        FlatteningView { phase: FlattenPhase::Promoting, ..s },
        Command::Promote { dir: s.dir, name: s.entries[s.next as int].name@ },
    );
    match (s.phase, event) {
        (FlattenPhase::Listing, Event::Absent) => (closed, completed()),
        (FlattenPhase::Listing, Event::Entries(entries)) => (
            FlatteningView {
                entries: entries@,
                next: 0,
                phase: FlattenPhase::ClearingHelper,
                ..s
            },
            Command::RemoveEntry { dir: s.dir, name: helper_name(), recursive: false },
        ),
        (FlattenPhase::ClearingHelper, event) => flattening_turns(
            FlatteningView { helper_removed: event is Done, ..s },
        ),
        (FlattenPhase::Probing, Event::Kind(kind)) if current => match kind {
            PathKind::Missing => promote,
            PathKind::File => (
                FlatteningView { phase: FlattenPhase::Clearing, ..s },
                Command::RemoveEntry {
                    dir: s.dir,
                    name: s.entries[s.next as int].name@,
                    recursive: false,
                },
            ),
            PathKind::Directory => (
                FlatteningView { phase: FlattenPhase::Clearing, ..s },
                Command::RemoveEntry {
                    dir: s.dir,
                    name: s.entries[s.next as int].name@,
                    recursive: true,
                },
            ),
        },
        (FlattenPhase::Clearing, Event::Done) if current => promote,
        (FlattenPhase::Promoting, Event::Done) if current => flattening_turns(
            FlatteningView { next: (s.next + 1) as usize, ..s },
        ),
        (FlattenPhase::Removing, Event::Done) => (closed, completed()),
        (_, event) => (closed, failed(failure_of(event), true)),
    }
}

/// Begins the flattening of the bundle directory `app_dir`.
pub fn flatten_squashfs_root(app_dir: &str) -> (r: (Flattening, Action))
    ensures
        (r.0@, r.1@) == flattening_begins(app_dir@),
{
    (
        Flattening {
            dir: app_dir.to_owned(),
            entries: Vec::new(),
            next: 0,
            helper_removed: false,
            phase: FlattenPhase::Listing,
        },
        Action::ListNested { dir: app_dir.to_owned() },
    )
}

impl Flattening {
    /// Turns to the next entry, or to the removal of the emptied tree.
    fn turn(self) -> (r: (Flattening, Action))
        ensures
            (r.0@, r.1@) == flattening_turns(self@),
    {
        let Flattening { dir, entries, next, helper_removed, phase: _ } = self;
        if next < entries.len() {
            let action = Action::ProbeEntry { dir: dir.clone(), name: entries[next].name.clone() };
            (Flattening { dir, entries, next, helper_removed, phase: FlattenPhase::Probing }, action)
        } else {
            let action = Action::RemoveNested { dir: dir.clone() };
            (Flattening { dir, entries, next, helper_removed, phase: FlattenPhase::Removing }, action)
        }
    }

    /// Asks for the current entry to be moved up.
    fn promote(self) -> (r: (Flattening, Action))
        requires
            self.next < self.entries.len(),
        ensures
            r.0@ == (FlatteningView { phase: FlattenPhase::Promoting, ..self@ }),
            r.1@ == (Command::Promote {
                dir: self.dir@,
                name: self.entries[self.next as int].name@,
            }),
    {
        let Flattening { dir, entries, next, helper_removed, phase: _ } = self;
        let action = Action::Promote { dir: dir.clone(), name: entries[next].name.clone() };
        (Flattening { dir, entries, next, helper_removed, phase: FlattenPhase::Promoting }, action)
    }

    /// Asks for what stands in the way of the current entry to be removed.
    fn clear(self, recursive: bool) -> (r: (Flattening, Action))
        requires
            self.next < self.entries.len(),
        ensures
            r.0@ == (FlatteningView { phase: FlattenPhase::Clearing, ..self@ }),
            r.1@ == (Command::RemoveEntry {
                dir: self.dir@,
                name: self.entries[self.next as int].name@,
                recursive,
            }),
    {
        let Flattening { dir, entries, next, helper_removed, phase: _ } = self;
        let action = Action::RemoveEntry {
            dir: dir.clone(),
            name: entries[next].name.clone(),
            recursive,
        };
        (Flattening { dir, entries, next, helper_removed, phase: FlattenPhase::Clearing }, action)
    }

    /// Ends the flattening.
    fn close(self, outcome: Outcome) -> (r: (Flattening, Action))
        ensures
            r.0@ == (FlatteningView { phase: FlattenPhase::Closed, ..self@ }),
            r.1@ == Command::Finish(outcome),
    {
        let Flattening { dir, entries, next, helper_removed, phase: _ } = self;
        (Flattening { dir, entries, next, helper_removed, phase: FlattenPhase::Closed }, Action::Finish(outcome))
    }

    /// Takes the flattening one step on.
    pub fn step(self, event: Event) -> (r: (Flattening, Action))
        ensures
            (r.0@, r.1@) == flattening_step(self@, event),
    {
        let current = self.next < self.entries.len();
        match (self.phase, event) {
            (FlattenPhase::Listing, Event::Absent) => self.close(Outcome::Completed),
            (FlattenPhase::Listing, Event::Entries(entries)) => {
                proof {
                    reveal_strlit("App.AppImage");
                }
                let action = Action::RemoveEntry {
                    dir: self.dir.clone(),
                    name: "App.AppImage".to_owned(),
                    recursive: false,
                };
                (
                    Flattening {
                        dir: self.dir,
                        entries,
                        next: 0,
                        helper_removed: self.helper_removed,
                        phase: FlattenPhase::ClearingHelper,
                    },
                    action,
                )
            },
            (FlattenPhase::ClearingHelper, event) => {
                let Flattening { dir, entries, next, helper_removed: _, phase } = self;
                let helper_removed = match event {
                    Event::Done => true,
                    _ => false,
                };
                (Flattening { dir, entries, next, helper_removed, phase }).turn()
            },
            (FlattenPhase::Probing, Event::Kind(kind)) if current => match kind {
                PathKind::Missing => self.promote(),
                PathKind::File => self.clear(false),
                PathKind::Directory => self.clear(true),
            },
            (FlattenPhase::Clearing, Event::Done) if current => self.promote(),
            (FlattenPhase::Promoting, Event::Done) if current => {
                let Flattening { dir, entries, next, helper_removed, phase } = self;
                (Flattening { dir, entries, next: next + 1, helper_removed, phase }).turn()
            },
            (FlattenPhase::Removing, Event::Done) => self.close(Outcome::Completed),
            (_, event) => {
                let cause = into_failure(event);
                self.close(Outcome::Failed { cause, clean: true })
            },
        }
    }
}

} // verus!
