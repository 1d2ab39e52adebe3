//! What holds of every publication of a new launcher entry, whatever the
//! environment answers.

use crate::desktop::Descriptor;
use crate::effects::{Command, Outcome, PathKind};
use crate::publish::{creation_begins, publication_step, PublicationView, PublishPhase};
use crate::world::{kind_of, performs, Point, Turn, World};
use vstd::prelude::*;

verus! {

/// The point that a publication comes to by one turn.
pub open spec fn publication_after(p: Point<PublicationView>, turn: Turn) -> Point<PublicationView> {
    let next = publication_step(p.state, turn.event);
    Point { state: next.0, command: next.1, world: turn.world }
}

/// Whether the publication goes from the point `from` to the point `to` by
/// the turns `turns`: each turn answers the pending command as the
/// environment may, and no turn follows the end.
pub open spec fn publishes(
    from: Point<PublicationView>,
    turns: Seq<Turn>,
    to: Point<PublicationView>,
) -> bool
    decreases turns.len(),
{
    if turns.len() == 0 {
        to == from
    } else {
        let turn = turns.first();
        &&& !(from.command is Finish)
        &&& performs(from.world, from.command, turn.event, turn.world)
        &&& publishes(publication_after(from, turn), turns.drop_first(), to)
    }
}

/// The point at which the publication of a new entry begins in the world
/// `w`.
pub open spec fn creation_start(
    d: Descriptor,
    applications_dir: Seq<char>,
    exec_path: Seq<char>,
    icon_path: Seq<char>,
    w: World,
) -> Point<PublicationView> {
    let begin = creation_begins(d, applications_dir, exec_path, icon_path);
    Point { state: begin.0, command: begin.1, world: w }
}

/// What holds at every point of the publication of a new entry that began in
/// the world `w0`.
spec fn creation_inv(p: Point<PublicationView>, w0: World) -> bool {
    let s = p.state;
    let c = p.command;
    let w = p.world;
    let withdrawing = {
        &&& s.cause is Some
        &&& kind_of(w0, s.path) == PathKind::Missing
        &&& w.dirs == w0.dirs
        &&& w.files.remove(s.path) == w0.files
    };
    match s.phase {
        PublishPhase::Probing => c == (Command::Probe { path: s.path }) && w == w0,
        PublishPhase::Writing => {
            &&& c == (Command::WriteFile { path: s.path, content: s.content })
            &&& w == w0
            &&& kind_of(w0, s.path) == PathKind::Missing
        },
        PublishPhase::Withdrawing => c == (Command::RemoveFile { path: s.path }) && withdrawing,
        PublishPhase::Verifying => c == (Command::Probe { path: s.path }) && withdrawing,
        PublishPhase::Closed => match c {
            Command::Finish(Outcome::Completed) => {
                &&& kind_of(w0, s.path) == PathKind::Missing
                &&& w.dirs == w0.dirs
                &&& w.files == w0.files.insert(s.path, s.content)
            },
            Command::Finish(Outcome::Failed { cause, clean }) => {
                &&& w.dirs == w0.dirs
                &&& clean ==> w == w0
                &&& kind_of(w0, s.path) != PathKind::Missing ==> w == w0
            },
            _ => false,
        },
        _ => false,
    }
}

proof fn lemma_creation_turn(p: Point<PublicationView>, turn: Turn, w0: World)
    requires
        creation_inv(p, w0),
        !(p.command is Finish),
        performs(p.world, p.command, turn.event, turn.world),
    ensures
        creation_inv(publication_after(p, turn), w0),
{
    let s = p.state;
    let w2 = turn.world;
    if s.phase == PublishPhase::Writing {
        assert(w0.files.remove(s.path) =~= w0.files);
    }
    if s.phase == PublishPhase::Withdrawing || s.phase == PublishPhase::Verifying {
        assert(w2.files.remove(s.path) =~= w0.files);
        if !w2.files.contains_key(s.path) {
            assert(w2.files =~= w2.files.remove(s.path));
        }
    }
}

proof fn lemma_creation_run(
    from: Point<PublicationView>,
    turns: Seq<Turn>,
    to: Point<PublicationView>,
    w0: World,
)
    requires
        publishes(from, turns, to),
        creation_inv(from, w0),
    ensures
        creation_inv(to, w0),
        to.state.path == from.state.path,
        to.state.content == from.state.content,
    decreases turns.len(),
{
    if turns.len() > 0 {
        lemma_creation_turn(from, turns.first(), w0);
        lemma_creation_run(publication_after(from, turns.first()), turns.drop_first(), to, w0);
    }
}

/// A new launcher entry is published whole or not at all. When the
/// publication has completed, nothing stood at the path of the entry before,
/// the entry with the published text is the one file more, and no directory
/// has changed. When it has failed, no directory has changed; where
/// something stood at the path of the entry, and where the publication ended
/// clean, the world is as it was.
pub proof fn lemma_creation_is_whole(
    d: Descriptor,
    applications_dir: Seq<char>,
    exec_path: Seq<char>,
    icon_path: Seq<char>,
    w0: World,
    turns: Seq<Turn>,
    end: Point<PublicationView>,
)
    requires
        publishes(creation_start(d, applications_dir, exec_path, icon_path, w0), turns, end),
        end.command is Finish,
    ensures
        end.world.dirs == w0.dirs,
        match end.command {
            Command::Finish(Outcome::Completed) => kind_of(w0, end.state.path) == PathKind::Missing
                && end.world.files == w0.files.insert(end.state.path, end.state.content),
            Command::Finish(Outcome::Failed { cause, clean }) => (clean ==> end.world == w0) && (
            kind_of(w0, end.state.path) != PathKind::Missing ==> end.world == w0),
            _ => false,
        },
        end.state.path == creation_start(d, applications_dir, exec_path, icon_path, w0).state.path,
        end.state.content == creation_start(
            d,
            applications_dir,
            exec_path,
            icon_path,
            w0,
        ).state.content,
{
    let start = creation_start(d, applications_dir, exec_path, icon_path, w0);
    lemma_creation_run(start, turns, end, w0);
}

} // verus!
