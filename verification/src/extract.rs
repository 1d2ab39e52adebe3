//! Extracting a self-extracting archive into a directory.
//!
//! The archive is copied into the directory as the helper, the helper is made
//! executable, and it is run there in its self-extraction mode. A failure
//! leaves what the archive wrote so far: whoever asked for the extraction
//! discards the directory.

use crate::effects::{
    completed, failed, failure_of, into_failure, Action, Command, Event, Failure, Outcome,
};
use vstd::prelude::*;

verus! {

/// How far an extraction has come: what it waits for.
#[derive(Clone, Copy, PartialEq, Eq, Structural, Debug)]
pub enum ExtractPhase {
    /// For the archive to be copied in.
    Copying,
    /// For the permission bits of the helper.
    ReadingMode,
    /// For the helper to be made executable.
    SettingMode,
    /// For the helper to have run.
    Running,
    /// For nothing: the extraction has ended.
    Closed,
}

/// An extraction under way.
#[derive(Clone, Debug, PartialEq, Eq)]
pub struct Extraction {
    pub dir: String,
    pub phase: ExtractPhase,
}

/// An extraction under way, with texts in place of strings.
pub struct ExtractionView {
    pub dir: Seq<char>,
    pub phase: ExtractPhase,
}

impl View for Extraction {
    type V = ExtractionView;

    open spec fn view(&self) -> ExtractionView {
        ExtractionView { dir: self.dir@, phase: self.phase }
    }
}

/// The permission bits `mode` with the execute bits of owner, group and
/// others added.
pub open spec fn executable_mode_of(mode: u32) -> u32 {
    mode | 0o111
}

/// How an extraction begins: by copying the archive in.
pub open spec fn extraction_begins(archive: Seq<char>, dir: Seq<char>) -> (ExtractionView, Command) {
    (ExtractionView { dir, phase: ExtractPhase::Copying }, Command::PlaceHelper { archive, dir })
}

/// How an extraction goes on after an event. A step that fails ends it with
/// that failure; an exit status other than zero ends it as a failed
/// extraction.
pub open spec fn extraction_step(s: ExtractionView, event: Event) -> (ExtractionView, Command) {
    let closed = ExtractionView { phase: ExtractPhase::Closed, ..s };
    match (s.phase, event) {
        (ExtractPhase::Copying, Event::Done) => (
            ExtractionView { phase: ExtractPhase::ReadingMode, ..s },
            Command::ReadHelperMode { dir: s.dir },
        ),
        (ExtractPhase::ReadingMode, Event::Mode(mode)) => (
            ExtractionView { phase: ExtractPhase::SettingMode, ..s },
            Command::SetHelperMode { dir: s.dir, mode: executable_mode_of(mode) },
        ),
        (ExtractPhase::SettingMode, Event::Done) => (
            ExtractionView { phase: ExtractPhase::Running, ..s },
            Command::RunExtractor { dir: s.dir },
        ),
        (ExtractPhase::Running, Event::Exit(status)) => if status == 0 {
            (closed, completed())
        } else {
            (closed, failed(Failure::ExtractionFailed, true))
        },
        (_, event) => (closed, failed(failure_of(event), true)),
    }
}

/// The permission bits with the execute bits added.
pub fn executable_mode(mode: u32) -> (r: u32)
    ensures
        r == executable_mode_of(mode),
{
    mode | 0o111
}

/// Begins the extraction of the archive `appimage_path` into the directory
/// `extract_dir`.
pub fn extract_appimage(appimage_path: &str, extract_dir: &str) -> (r: (Extraction, Action))
    ensures
        (r.0@, r.1@) == extraction_begins(appimage_path@, extract_dir@),
{
    (
        Extraction { dir: extract_dir.to_owned(), phase: ExtractPhase::Copying },
        Action::PlaceHelper { archive: appimage_path.to_owned(), dir: extract_dir.to_owned() },
    )
}

impl Extraction {
    /// Takes the extraction one step on.
    pub fn step(self, event: Event) -> (r: (Extraction, Action))
        ensures
            (r.0@, r.1@) == extraction_step(self@, event),
    {
        let Extraction { dir, phase } = self;
        match (phase, event) {
            (ExtractPhase::Copying, Event::Done) => {
                let action = Action::ReadHelperMode { dir: dir.clone() };
                (Extraction { dir, phase: ExtractPhase::ReadingMode }, action)
            },
            (ExtractPhase::ReadingMode, Event::Mode(mode)) => {
                let action = Action::SetHelperMode { dir: dir.clone(), mode: executable_mode(mode) };
                (Extraction { dir, phase: ExtractPhase::SettingMode }, action)
            },
            (ExtractPhase::SettingMode, Event::Done) => {
                let action = Action::RunExtractor { dir: dir.clone() };
                (Extraction { dir, phase: ExtractPhase::Running }, action)
            },
            (ExtractPhase::Running, Event::Exit(status)) => {
                let outcome = if status == 0 {
                    Outcome::Completed
                } else {
                    Outcome::Failed { cause: Failure::ExtractionFailed, clean: true }
                };
                (Extraction { dir, phase: ExtractPhase::Closed }, Action::Finish(outcome))
            },
            (_, event) => {
                let cause = into_failure(event);
                (
                    Extraction { dir, phase: ExtractPhase::Closed },
                    Action::Finish(Outcome::Failed { cause, clean: true }),
                )
            },
        }
    }
}

} // verus!
