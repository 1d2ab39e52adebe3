//! What holds of every removal, whatever the environment answers.

use crate::effects::{Command, Outcome, PathKind};
use crate::paths::EnvironmentView;
use crate::uninstall::{uninstall_begins, uninstall_step, UninstallPhase, UninstallView};
use crate::world::{kind_of, performs, Point, Turn, World};
use vstd::prelude::*;

verus! {

/// The point that a removal comes to by one turn.
pub open spec fn uninstall_after(p: Point<UninstallView>, turn: Turn) -> Point<UninstallView> {
    let next = uninstall_step(p.state, turn.event);
    Point { state: next.0, command: next.1, world: turn.world }
}

/// Whether the removal goes from the point `from` to the point `to` by the
/// turns `turns`: each turn answers the pending command as the environment
/// may, and no turn follows the end.
pub open spec fn uninstalls(
    from: Point<UninstallView>,
    turns: Seq<Turn>,
    to: Point<UninstallView>,
) -> bool
    decreases turns.len(),
{
    if turns.len() == 0 {
        to == from
    } else {
        let turn = turns.first();
        &&& !(from.command is Finish)
        &&& performs(from.world, from.command, turn.event, turn.world)
        &&& uninstalls(uninstall_after(from, turn), turns.drop_first(), to)
    }
}

/// The point at which a removal begins in the world `w`.
pub open spec fn uninstall_start(name: Seq<char>, env: EnvironmentView, w: World) -> Point<
    UninstallView,
> {
    let begin = uninstall_begins(name, env);
    Point { state: begin.0, command: begin.1, world: w }
}

/// Whether the bundle's directory and its launcher entry both stand.
pub open spec fn both_stand(s: UninstallView, w: World) -> bool {
    kind_of(w, s.target) != PathKind::Missing && kind_of(w, s.entry) != PathKind::Missing
}

/// Whether the world is the first world without the launcher entry, and
/// without the bundle's directory too if `bundle_gone`.
pub open spec fn is_removed(s: UninstallView, w: World, w0: World, bundle_gone: bool) -> bool {
    &&& w.files == w0.files.remove(s.entry)
    &&& w.dirs == if bundle_gone {
        w0.dirs.remove(s.target)
    } else {
        w0.dirs
    }
}

/// What holds at every point of a removal that began in the world `w0`.
spec fn uninstall_inv(p: Point<UninstallView>, w0: World) -> bool {
    let s = p.state;
    let c = p.command;
    let w = p.world;
    match s.phase {
        UninstallPhase::Confirming => c is Confirm && w == w0,
        UninstallPhase::CheckingBundle => c == (Command::Probe { path: s.target }) && w == w0,
        UninstallPhase::CheckingEntry => {
            &&& c == (Command::Probe { path: s.entry })
            &&& w == w0
            &&& kind_of(w0, s.target) != PathKind::Missing
        },
        UninstallPhase::RemovingEntry => {
            &&& c == (Command::RemoveFile { path: s.entry })
            &&& w == w0
            &&& both_stand(s, w0)
        },
        UninstallPhase::RemovingBundle => {
            &&& c == (Command::RemoveDirAll { path: s.target })
            &&& both_stand(s, w0)
            &&& is_removed(s, w, w0, false)
        },
        UninstallPhase::Refreshing => {
            &&& c == (Command::RefreshRegistry { dir: s.applications_dir })
            &&& both_stand(s, w0)
            &&& is_removed(s, w, w0, true)
        },
        UninstallPhase::Closed => match c {
            Command::Finish(Outcome::Completed) => both_stand(s, w0) && is_removed(s, w, w0, true),
            Command::Finish(Outcome::Failed { cause, clean }) => {
                &&& !both_stand(s, w0) ==> w == w0 && (cause is NotFound || cause is Declined
                    || cause is Io)
                &&& cause is NotFound || cause is Declined ==> w == w0
            },
            _ => false,
        },
    }
}

proof fn lemma_uninstall_turn(p: Point<UninstallView>, turn: Turn, w0: World)
    requires
        uninstall_inv(p, w0),
        !(p.command is Finish),
        performs(p.world, p.command, turn.event, turn.world),
    ensures
        uninstall_inv(uninstall_after(p, turn), w0),
{
}

proof fn lemma_uninstall_run(
    from: Point<UninstallView>,
    turns: Seq<Turn>,
    to: Point<UninstallView>,
    w0: World,
)
    requires
        uninstalls(from, turns, to),
        uninstall_inv(from, w0),
    ensures
        uninstall_inv(to, w0),
    decreases turns.len(),
{
    if turns.len() > 0 {
        lemma_uninstall_turn(from, turns.first(), w0);
        lemma_uninstall_run(uninstall_after(from, turns.first()), turns.drop_first(), to, w0);
    }
}

/// A removal wants both, and removes both or nothing. Where the bundle's
/// directory or its launcher entry does not stand, the removal fails and the
/// world is as it was; so it is whenever the removal ends as declined or with
/// something not found. When the removal has completed, both stood, and the
/// world is the first world without the two.
pub proof fn lemma_uninstall_removes_both_or_nothing(
    name: Seq<char>,
    env: EnvironmentView,
    w0: World,
    turns: Seq<Turn>,
    end: Point<UninstallView>,
)
    requires
        uninstalls(uninstall_start(name, env, w0), turns, end),
        end.command is Finish,
    ensures
        match end.command {
            Command::Finish(Outcome::Completed) => both_stand(end.state, w0) && is_removed(
                end.state,
                end.world,
                w0,
                true,
            ),
            Command::Finish(Outcome::Failed { cause, clean }) => {
                &&& !both_stand(end.state, w0) ==> end.world == w0 && (cause is NotFound
                    || cause is Declined || cause is Io)
                &&& cause is NotFound || cause is Declined ==> end.world == w0
            },
            _ => false,
        },
{
    lemma_uninstall_run(uninstall_start(name, env, w0), turns, end, w0);
}

} // verus!
