//! What holds of every installation, whatever the environment answers.

use crate::bundle::{first_of, lemma_first_of, DirEntry, Wanted};
use crate::desktop::{descriptor_of, Descriptor};
use crate::effects::{
    entry_path_of, helper_name, nested_name, Command, Event, Failure, IoFailure, Outcome,
    PathKind, Taken,
};
use crate::install::{
    installation_begins, installation_step, InstallPhaseView, InstallationView,
};
use crate::paths::{
    bundle_dir_of, entry_file_of, lemma_entry_is_not_bundle, slug_of, EnvironmentView,
};
use crate::publish::{published_text, PublicationView, PublishPhase};
use crate::world::{
    adds_dir, empty_tree, extraction_pending, flattening_pending, has_entry, kind_of, lemma_inside,
    lemma_same_names, lemma_with_dir, lemma_works_inside, performs, points_into, shows, with_dir,
    Entries, Item, Point, Tree, Turn, World,
};
use vstd::prelude::*;

verus! {

/// The point that an installation comes to by one turn.
pub open spec fn installation_after(p: Point<InstallationView>, turn: Turn) -> Point<InstallationView> {
    let next = installation_step(p.state, turn.event);
    Point { state: next.0, command: next.1, world: turn.world }
}

/// Whether the installation goes from the point `from` to the point `to` by
/// the turns `turns`: each turn answers the pending command as the
/// environment may, and no turn follows the end.
pub open spec fn installs(
    from: Point<InstallationView>,
    turns: Seq<Turn>,
    to: Point<InstallationView>,
) -> bool
    decreases turns.len(),
{
    if turns.len() == 0 {
        to == from
    } else {
        let turn = turns.first();
        &&& !(from.command is Finish)
        &&& performs(from.world, from.command, turn.event, turn.world)
        &&& installs(installation_after(from, turn), turns.drop_first(), to)
    }
}

/// The point at which an installation begins in the world `w`.
pub open spec fn installation_start(
    path: Seq<char>,
    env: EnvironmentView,
    id: Seq<char>,
    w: World,
) -> Point<InstallationView> {
    let begin = installation_begins(path, env, id);
    Point { state: begin.0, command: begin.1, world: w }
}

/// Whether the failure is what an installation fails with where the bundle's
/// directory is taken: that it exists, or that the environment could not
/// tell.
pub open spec fn is_refusal(cause: Failure) -> bool {
    cause == Failure::AlreadyExists(Taken::Bundle) || cause is Io
}

/// Whether the failure is what the publication of a new launcher entry fails
/// with: that something stands at its path, or that the environment failed.
pub open spec fn is_entry_failure(cause: Failure) -> bool {
    cause == Failure::AlreadyExists(Taken::Entry) || cause is Io
}

/// What holds at every point of an installation that began in the world
/// `w0`.
spec fn install_inv(p: Point<InstallationView>, w0: World) -> bool {
    let s = p.state;
    let c = p.command;
    let w = p.world;
    match s.phase {
        InstallPhaseView::Staging => {
            &&& c == (Command::CreateDir { path: s.staging })
            &&& w == w0
            &&& s.target.len() == 0
        },
        InstallPhaseView::Extracting(x) => {
            &&& x.dir == s.staging
            &&& extraction_pending(x, c)
            &&& adds_dir(w, w0, s.staging)
            &&& s.target.len() == 0
        },
        InstallPhaseView::Locating => {
            &&& c == (Command::ListNested { dir: s.staging })
            &&& adds_dir(w, w0, s.staging)
            &&& s.target.len() == 0
        },
        InstallPhaseView::Reading => {
            &&& c matches Command::ReadNested { dir, name } && dir == s.staging
            &&& adds_dir(w, w0, s.staging)
            &&& s.target.len() == 0
        },
        InstallPhaseView::Checking(d) => {
            &&& c == (Command::Probe { path: s.target })
            &&& adds_dir(w, w0, s.staging)
            &&& s.target.len() > 0
        },
        InstallPhaseView::Relocating(d) => {
            &&& c == (Command::Rename { from: s.staging, to: s.target })
            &&& adds_dir(w, w0, s.staging)
            &&& kind_of(w, s.target) == PathKind::Missing
            &&& s.target.len() > 0
        },
        InstallPhaseView::Normalizing(d, f) => {
            &&& f.dir == s.target
            &&& flattening_pending(f, c)
            &&& adds_dir(w, w0, s.target)
            &&& s.target.len() > 0
            &&& kind_of(w0, s.staging) == PathKind::Missing
            &&& s.staging != s.target
        },
        InstallPhaseView::Resolving(d) => {
            &&& c == (Command::ListDir { dir: s.target })
            &&& adds_dir(w, w0, s.target)
            &&& s.target.len() > 0
            &&& kind_of(w0, s.staging) == PathKind::Missing
            &&& s.staging != s.target
        },
        InstallPhaseView::Publishing(p) => {
            &&& s.target.len() > 0
            &&& kind_of(w0, s.staging) == PathKind::Missing
            &&& s.staging != s.target
            &&& match p.phase {
                PublishPhase::Probing => c == (Command::Probe { path: p.path }) && adds_dir(
                    w,
                    w0,
                    s.target,
                ),
                PublishPhase::Writing => c == (Command::WriteFile {
                    path: p.path,
                    content: p.content,
                }) && kind_of(w, p.path) == PathKind::Missing && adds_dir(w, w0, s.target),
                PublishPhase::Withdrawing => c == (Command::RemoveFile { path: p.path })
                    && half_published(s, p, w, w0),
                PublishPhase::Verifying => c == (Command::Probe { path: p.path })
                    && half_published(s, p, w, w0),
                _ => false,
            }
            &&& points_into(p.content, s.target, w.dirs[s.target])
        },
        InstallPhaseView::Refreshing(p) => {
            &&& c == (Command::RefreshRegistry { dir: s.applications_dir })
            &&& install_done(s, p, w, w0)
        },
        InstallPhaseView::Relaxing(p) => {
            &&& c == (Command::RelaxPermissions { dir: s.target })
            &&& install_done(s, p, w, w0)
        },
        InstallPhaseView::Committed(p) => {
            &&& c == Command::Finish(Outcome::Completed)
            &&& install_done(s, p, w, w0)
        },
        InstallPhaseView::Unpublished => {
            &&& c matches Command::Finish(Outcome::Failed { cause, clean }) && is_entry_failure(
                cause,
            ) && (clean ==> w.files == w0.files)
            &&& kind_of(w0, s.staging) == PathKind::Missing
            &&& !w.dirs.contains_key(s.staging)
            &&& kind_of(w0, s.target) == PathKind::Missing
            &&& w.dirs.contains_key(s.target)
            &&& w.dirs.remove(s.target) == w0.dirs
            &&& w0.files.submap_of(w.files)
        },
        InstallPhaseView::Discarding(cause) => {
            &&& c matches Command::RemoveDirAll { path } && kind_of(w0, path) == PathKind::Missing
                && w.dirs.remove(path) == w0.dirs
            &&& w.files == w0.files
            &&& s.target.len() > 0 && kind_of(w0, s.target) != PathKind::Missing ==> is_refusal(
                cause,
            )
        },
        InstallPhaseView::Closed => {
            &&& c matches Command::Finish(Outcome::Failed { cause, clean }) && (clean ==> w == w0)
                && (s.target.len() > 0 && kind_of(w0, s.target) != PathKind::Missing
                ==> is_refusal(cause))
            &&& w.files == w0.files
            &&& w0.dirs.submap_of(w.dirs)
        },
    }
}

/// What holds of the world while a launcher entry that could not be written
/// is withdrawn: the bundle stands, and the files are those of the first
/// world, but perhaps for what stands at the path of the entry, where nothing
/// stood.
pub open spec fn half_published(s: InstallationView, p: PublicationView, w: World, w0: World) -> bool {
    &&& p.cause matches Some(cause) && cause is Io
    &&& kind_of(w0, s.target) == PathKind::Missing
    &&& kind_of(w0, p.path) == PathKind::Missing
    &&& w.dirs.contains_key(s.target)
    &&& w.dirs.remove(s.target) == w0.dirs
    &&& w.files.remove(p.path) == w0.files
}

/// What holds of the world once the bundle is installed and its launcher
/// entry published.
pub open spec fn install_done(s: InstallationView, p: PublicationView, w: World, w0: World) -> bool {
    &&& s.target.len() > 0
    &&& kind_of(w0, s.staging) == PathKind::Missing
    &&& !w.dirs.contains_key(s.staging)
    &&& kind_of(w0, s.target) == PathKind::Missing
    &&& w.dirs.contains_key(s.target)
    &&& w.dirs.remove(s.target) == w0.dirs
    &&& kind_of(w0, p.path) == PathKind::Missing
    &&& w.files == w0.files.insert(p.path, p.content)
    &&& points_into(p.content, s.target, w.dirs[s.target])
}

proof fn lemma_install_begins(path: Seq<char>, env: EnvironmentView, id: Seq<char>, w0: World)
    ensures
        install_inv(installation_start(path, env, id, w0), w0),
{
}

proof fn lemma_install_turn(p: Point<InstallationView>, turn: Turn, w0: World)
    requires
        install_inv(p, w0),
        !(p.command is Finish),
        performs(p.world, p.command, turn.event, turn.world),
    ensures
        install_inv(installation_after(p, turn), w0),
{
    reveal_strlit("/opt/");
    let s = p.state;
    let c = p.command;
    let w = p.world;
    let w2 = turn.world;
    match s.phase {
        InstallPhaseView::Staging => {
            if turn.event is Done {
                assert(w2.dirs.remove(s.staging) =~= w0.dirs);
            }
        },
        InstallPhaseView::Extracting(x) => {
            lemma_works_inside(w, c, turn, s.staging);
            lemma_inside(w, w2, w0, s.staging);
        },
        InstallPhaseView::Locating => {},
        InstallPhaseView::Reading => {},
        InstallPhaseView::Checking(_) => {},
        InstallPhaseView::Relocating(_) => {
            if turn.event is Done {
                assert(w2.dirs.remove(s.target) =~= w.dirs.remove(s.staging));
                assert(!w0.dirs.contains_key(s.target)) by {
                    assert(w.dirs.remove(s.staging).contains_key(s.target) == w0.dirs.contains_key(
                        s.target,
                    ));
                }
            }
        },
        InstallPhaseView::Normalizing(_, f) => {
            lemma_works_inside(w, c, turn, s.target);
            lemma_inside(w, w2, w0, s.target);
        },
        InstallPhaseView::Resolving(d) => {
            if let Event::Entries(es) = turn.event {
                assert(es@.len() == es.len());
                lemma_first_of(es@, Wanted::Executable);
                lemma_first_of(es@, Wanted::Icon);
                if let Some(x) = first_of(es@, Wanted::Executable) {
                    if let Some(i) = first_of(es@, Wanted::Icon) {
                        let exec = es@[x as int].name@;
                        let icon = es@[i as int].name@;
                        assert(has_entry(w.dirs[s.target], exec));
                        assert(has_entry(w.dirs[s.target], icon));
                        let text = published_text(
                            d,
                            entry_path_of(s.target, exec),
                            entry_path_of(s.target, icon),
                        );
                        assert(points_into(text, s.target, w.dirs[s.target]));
                    }
                }
            }
        },
        InstallPhaseView::Publishing(q) => {
            assert(w0.dirs.submap_of(w.dirs)) by {
                assert(w.dirs.remove(s.target) == w0.dirs);
            }
            if q.phase == PublishPhase::Writing {
                assert(!w0.files.contains_key(q.path) && !w0.dirs.contains_key(q.path)) by {
                    assert(w.dirs.remove(s.target).contains_key(q.path) ==> w.dirs.contains_key(
                        q.path,
                    ));
                }
                assert(w0.files.remove(q.path) =~= w0.files);
            }
            if q.phase == PublishPhase::Withdrawing || q.phase == PublishPhase::Verifying {
                assert(w2.files.remove(q.path) =~= w0.files);
                if !w2.files.contains_key(q.path) {
                    assert(w2.files =~= w2.files.remove(q.path));
                }
                assert(w0.files.submap_of(w2.files)) by {
                    assert forall|k: Seq<char>| #[trigger]
                        w0.files.dom().contains(k) implies w2.files.dom().contains(k)
                        && w0.files[k] == w2.files[k] by {
                        assert(w2.files.remove(q.path).contains_key(k));
                        assert(k != q.path);
                        assert(w2.files.remove(q.path)[k] == w2.files[k]);
                    }
                }
            }
        },
        InstallPhaseView::Refreshing(_) => {},
        InstallPhaseView::Relaxing(q) => {
            lemma_works_inside(w, c, turn, s.target);
            assert(w2.dirs.remove(s.target) =~= w.dirs.remove(s.target));
            let (d, x, i) = choose|d: Descriptor, x: Seq<char>, i: Seq<char>|
                has_entry(w.dirs[s.target], x) && has_entry(w.dirs[s.target], i) && q.content
                    == #[trigger] published_text(
                    d,
                    entry_path_of(s.target, x),
                    entry_path_of(s.target, i),
                );
            lemma_same_names(w.dirs[s.target], w2.dirs[s.target], x);
            lemma_same_names(w.dirs[s.target], w2.dirs[s.target], i);
        },
        InstallPhaseView::Discarding(_) => {},
        InstallPhaseView::Committed(_) => {},
        InstallPhaseView::Unpublished => {},
        InstallPhaseView::Closed => {},
    }
}

proof fn lemma_install_run(
    from: Point<InstallationView>,
    turns: Seq<Turn>,
    to: Point<InstallationView>,
    w0: World,
)
    requires
        installs(from, turns, to),
        install_inv(from, w0),
    ensures
        install_inv(to, w0),
    decreases turns.len(),
{
    if turns.len() > 0 {
        let turn = turns.first();
        lemma_install_turn(from, turn, w0);
        lemma_install_run(
            installation_after(from, turn),
            turns.drop_first(),
            to,
            w0,
        );
    }
}

/// What an installation leaves behind when it has failed: nothing. An
/// installation that ends in failure, with all it created removed, either
/// leaves the world exactly as it found it, or, where only the publication of
/// the launcher entry failed, has ended as `Unpublished`.
pub proof fn lemma_install_all_or_nothing(
    path: Seq<char>,
    env: EnvironmentView,
    id: Seq<char>,
    w0: World,
    turns: Seq<Turn>,
    end: Point<InstallationView>,
)
    requires
        installs(installation_start(path, env, id, w0), turns, end),
        end.command matches Command::Finish(Outcome::Failed { cause, clean }) && clean,
        !(end.state.phase is Unpublished),
    ensures
        end.world == w0,
{
    lemma_install_begins(path, env, id, w0);
    lemma_install_run(installation_start(path, env, id, w0), turns, end, w0);
}

/// Why an installation can end as `Unpublished`, and what it leaves then:
/// only because something stands at the path of the launcher entry, or
/// because the environment failed. A failed extraction, a missing descriptor,
/// executable or icon, a descriptor without a name and a taken bundle
/// directory never end so. The bundle's directory is then the one directory
/// more than in the first world, and where the publication ended clean no
/// file has changed: nothing is left of a launcher entry that could not be
/// written.
pub proof fn lemma_install_unpublished(
    path: Seq<char>,
    env: EnvironmentView,
    id: Seq<char>,
    w0: World,
    turns: Seq<Turn>,
    end: Point<InstallationView>,
)
    requires
        installs(installation_start(path, env, id, w0), turns, end),
        end.state.phase is Unpublished,
    ensures
        end.command matches Command::Finish(Outcome::Failed { cause, clean }) && is_entry_failure(
            cause,
        ) && (clean ==> end.world.files == w0.files),
        end.world.dirs.contains_key(end.state.target),
        end.world.dirs.remove(end.state.target) == w0.dirs,
{
    lemma_install_begins(path, env, id, w0);
    lemma_install_run(installation_start(path, env, id, w0), turns, end, w0);
}

/// An installation never touches what it found: at every point every
/// directory and every file of the first world is still there, unchanged.
pub proof fn lemma_install_spares_what_exists(
    path: Seq<char>,
    env: EnvironmentView,
    id: Seq<char>,
    w0: World,
    turns: Seq<Turn>,
    end: Point<InstallationView>,
)
    requires
        installs(installation_start(path, env, id, w0), turns, end),
    ensures
        w0.dirs.submap_of(end.world.dirs),
        w0.files.submap_of(end.world.files),
{
    lemma_install_begins(path, env, id, w0);
    lemma_install_run(installation_start(path, env, id, w0), turns, end, w0);
    lemma_inv_spares(end, w0);
}

proof fn lemma_inv_spares(p: Point<InstallationView>, w0: World)
    requires
        install_inv(p, w0),
    ensures
        w0.dirs.submap_of(p.world.dirs),
        w0.files.submap_of(p.world.files),
{
    let w = p.world;
    match p.state.phase {
        InstallPhaseView::Staging => {},
        InstallPhaseView::Extracting(_) | InstallPhaseView::Locating | InstallPhaseView::Reading
        | InstallPhaseView::Checking(_) | InstallPhaseView::Relocating(_) => {
            assert(w.dirs.remove(p.state.staging) == w0.dirs);
        },
        InstallPhaseView::Normalizing(_, _) | InstallPhaseView::Resolving(_)
        | InstallPhaseView::Publishing(_) | InstallPhaseView::Refreshing(_)
        | InstallPhaseView::Relaxing(_) | InstallPhaseView::Committed(_)
        | InstallPhaseView::Unpublished => {
            assert(w.dirs.remove(p.state.target) == w0.dirs);
        },
        InstallPhaseView::Discarding(_) => {
            let path = p.command->RemoveDirAll_path;
            assert(w.dirs.remove(path) == w0.dirs);
        },
        InstallPhaseView::Closed => {},
    }
}

/// An installation never installs over what exists. Once the descriptor has
/// named the bundle's directory: if something stood there in the first world,
/// the installation ends in failure, because the directory is taken or
/// because the environment could not tell, and as `Closed`.
pub proof fn lemma_install_refuses_taken(
    path: Seq<char>,
    env: EnvironmentView,
    id: Seq<char>,
    w0: World,
    turns: Seq<Turn>,
    end: Point<InstallationView>,
)
    requires
        installs(installation_start(path, env, id, w0), turns, end),
        end.command is Finish,
        end.state.target.len() > 0,
        kind_of(w0, end.state.target) != PathKind::Missing,
    ensures
        end.state.phase is Closed,
        end.command matches Command::Finish(Outcome::Failed { cause, clean }) && is_refusal(cause),
{
    lemma_install_begins(path, env, id, w0);
    lemma_install_run(installation_start(path, env, id, w0), turns, end, w0);
}

/// What a completed installation has done: the staging area is gone, the
/// bundle's directory is the one directory more than in the first world, the
/// launcher entry is the one file more, it holds the published text, and that
/// text names as executable and as icon entries of the bundle's directory.
pub proof fn lemma_install_commits(
    path: Seq<char>,
    env: EnvironmentView,
    id: Seq<char>,
    w0: World,
    turns: Seq<Turn>,
    end: Point<InstallationView>,
)
    requires
        installs(installation_start(path, env, id, w0), turns, end),
        end.command == Command::Finish(Outcome::Completed),
    ensures
        end.state.phase matches InstallPhaseView::Committed(p) && install_done(
            end.state,
            p,
            end.world,
            w0,
        ),
{
    lemma_install_begins(path, env, id, w0);
    lemma_install_run(installation_start(path, env, id, w0), turns, end, w0);
}

/// An installation publishes last. Until the bundle stands flattened in its
/// directory with its executable and its icon found, no file of the world has
/// changed: at every point before the publication, the files are those of the
/// first world.
pub proof fn lemma_install_publishes_last(
    path: Seq<char>,
    env: EnvironmentView,
    id: Seq<char>,
    w0: World,
    turns: Seq<Turn>,
    end: Point<InstallationView>,
)
    requires
        installs(installation_start(path, env, id, w0), turns, end),
        !(end.state.phase is Publishing || end.state.phase is Refreshing
            || end.state.phase is Relaxing || end.state.phase is Committed
            || end.state.phase is Unpublished),
    ensures
        end.world.files == w0.files,
{
    lemma_install_begins(path, env, id, w0);
    lemma_install_run(installation_start(path, env, id, w0), turns, end, w0);
}

/// An installation leaves no staging area behind. Where nothing stood at the
/// staging area in the first world, nothing stands there when the
/// installation has ended, unless it could not remove what it created.
pub proof fn lemma_install_consumes_staging(
    path: Seq<char>,
    env: EnvironmentView,
    id: Seq<char>,
    w0: World,
    turns: Seq<Turn>,
    end: Point<InstallationView>,
)
    requires
        installs(installation_start(path, env, id, w0), turns, end),
        kind_of(w0, end.state.staging) == PathKind::Missing,
        end.command is Finish,
        end.command matches Command::Finish(Outcome::Failed { cause, clean }) ==> clean
            || end.state.phase is Unpublished,
    ensures
        !end.world.dirs.contains_key(end.state.staging),
{
    lemma_install_begins(path, env, id, w0);
    lemma_install_run(installation_start(path, env, id, w0), turns, end, w0);
}

/// Installing twice. After an installation has completed, a second one whose
/// descriptor names the same bundle's directory ends in failure, because the
/// directory is taken or because the environment could not tell, and leaves
/// the bundle of the first as it is, with all it holds.
pub proof fn lemma_second_install_is_refused(
    path: Seq<char>,
    env: EnvironmentView,
    id: Seq<char>,
    w0: World,
    turns: Seq<Turn>,
    first: Point<InstallationView>,
    second_path: Seq<char>,
    second_env: EnvironmentView,
    second_id: Seq<char>,
    second_turns: Seq<Turn>,
    second: Point<InstallationView>,
)
    requires
        installs(installation_start(path, env, id, w0), turns, first),
        first.command == Command::Finish(Outcome::Completed),
        installs(
            installation_start(second_path, second_env, second_id, first.world),
            second_turns,
            second,
        ),
        second.command is Finish,
        second.state.target == first.state.target,
    ensures
        second.command matches Command::Finish(Outcome::Failed { cause, clean }) && is_refusal(
            cause,
        ),
        second.world.dirs.contains_key(first.state.target),
        second.world.dirs[first.state.target] == first.world.dirs[first.state.target],
{
    reveal_strlit("/opt/");
    lemma_install_begins(path, env, id, w0);
    lemma_install_run(installation_start(path, env, id, w0), turns, first, w0);
    let again = installation_start(second_path, second_env, second_id, first.world);
    lemma_install_begins(second_path, second_env, second_id, first.world);
    lemma_install_run(again, second_turns, second, first.world);
    lemma_inv_spares(second, first.world);
    assert(first.world.dirs.dom().contains(first.state.target));
}

/// The laws above speak of something: an installation can fail and leave
/// nothing behind. Where nothing stands at the staging area, the environment
/// may create it, fail to copy the archive, and remove it again, and the
/// installation then ends in that failure, clean, and as `Closed`.
pub proof fn lemma_install_can_fail(
    path: Seq<char>,
    env: EnvironmentView,
    id: Seq<char>,
    w0: World,
    message: String,
)
    requires
        kind_of(w0, installation_start(path, env, id, w0).state.staging) == PathKind::Missing,
    ensures
        exists|turns: Seq<Turn>, end: Point<InstallationView>|
            #[trigger] installs(installation_start(path, env, id, w0), turns, end)
                && end.state.phase is Closed && end.world == w0 && end.command
                == Command::Finish(
                Outcome::Failed { cause: Failure::Io(IoFailure::Reported(message)), clean: true },
            ),
{
    let start = installation_start(path, env, id, w0);
    let staging = start.state.staging;
    let staged = with_dir(w0, staging, empty_tree());
    assert(staged.dirs.remove(staging) =~= w0.dirs);
    lemma_with_dir(w0, staging, empty_tree(), empty_tree());
    let turns = Seq::<Turn>::empty();
    let cur = start;
    let turn = Turn { event: Event::Done, world: staged };
    lemma_install_extends(start, turns, cur, turn);
    let (turns, cur) = (turns.push(turn), installation_after(cur, turn));
    let turn = Turn { event: Event::Failed(message), world: staged };
    lemma_install_extends(start, turns, cur, turn);
    let (turns, cur) = (turns.push(turn), installation_after(cur, turn));
    let turn = Turn { event: Event::Done, world: w0 };
    lemma_install_extends(start, turns, cur, turn);
    let (turns, cur) = (turns.push(turn), installation_after(cur, turn));
    assert(installs(start, turns, cur));
}

proof fn lemma_install_extends(
    from: Point<InstallationView>,
    turns: Seq<Turn>,
    mid: Point<InstallationView>,
    turn: Turn,
)
    requires
        installs(from, turns, mid),
        !(mid.command is Finish),
        performs(mid.world, mid.command, turn.event, turn.world),
    ensures
        installs(from, turns.push(turn), installation_after(mid, turn)),
    decreases turns.len(),
{
    if turns.len() == 0 {
        assert(turns.push(turn).drop_first() =~= Seq::<Turn>::empty());
        assert(installs(
            installation_after(mid, turn),
            Seq::<Turn>::empty(),
            installation_after(mid, turn),
        ));
    } else {
        lemma_install_extends(
            installation_after(from, turns.first()),
            turns.drop_first(),
            mid,
            turn,
        );
        assert(turns.push(turn).drop_first() =~= turns.drop_first().push(turn));
    }
}

/// The laws above speak of something: an installation can complete. Where
/// nothing stands at the staging area, at the bundle's directory and at the
/// launcher entry, the archive holds three entries of different names, among
/// them a descriptor, an executable and an icon, and the descriptor has a
/// name, the environment may carry out every command, and the installation
/// then ends completed.
#[verifier::rlimit(40)]
#[verifier::spinoff_prover]
pub proof fn lemma_install_can_complete(
    path: Seq<char>,
    env: EnvironmentView,
    id: Seq<char>,
    w0: World,
    es: Vec<DirEntry>,
    text: String,
    mode: u32,
)
    requires
        ({
            let s = installation_start(path, env, id, w0).state;
            &&& kind_of(w0, s.staging) == PathKind::Missing
            &&& descriptor_of(text@) matches Ok(d) && {
                let target = bundle_dir_of(slug_of(d.name));
                &&& target != s.staging
                &&& kind_of(w0, target) == PathKind::Missing
                &&& kind_of(w0, entry_file_of(s.applications_dir, slug_of(d.name)))
                    == PathKind::Missing
            }
        }),
        es@.len() == 3,
        es@[0].name@ != es@[1].name@ && es@[0].name@ != es@[2].name@ && es@[1].name@
            != es@[2].name@,
        forall|i: int| 0 <= i < 3 ==> (#[trigger] es@[i]).name@ != nested_name(),
        first_of(es@, Wanted::Descriptor) is Some,
        first_of(es@, Wanted::Executable) is Some,
        first_of(es@, Wanted::Icon) is Some,
    ensures
        exists|turns: Seq<Turn>, end: Point<InstallationView>|
            #[trigger] installs(installation_start(path, env, id, w0), turns, end) && end.command
                == Command::Finish(Outcome::Completed),
{
    reveal_strlit("App.AppImage");
    reveal_strlit("squashfs-root");
    assert(helper_name() != nested_name()) by {
        assert(helper_name().len() != nested_name().len());
    }
    let start = installation_start(path, env, id, w0);
    let s = start.state;
    let staging = s.staging;
    let d = descriptor_of(text@)->Ok_0;
    let target = bundle_dir_of(slug_of(d.name));
    let entry = entry_file_of(s.applications_dir, slug_of(d.name));
    lemma_entry_is_not_bundle(s.applications_dir, slug_of(d.name));
    let item = Item { directory: false, content: Seq::empty() };
    let n0 = es@[0].name@;
    let n1 = es@[1].name@;
    let n2 = es@[2].name@;
    assert(n0 != nested_name() && n1 != nested_name() && n2 != nested_name());
    let m: Entries = Map::empty().insert(n0, item).insert(n1, item).insert(n2, item);
    assert(shows(es@, m)) by {
        assert forall|n: Seq<char>| m.contains_key(n) implies exists|i: int|
            0 <= i < es@.len() && #[trigger] es@[i].name@ == n by {
            if n == n0 {
                assert(es@[0].name@ == n);
            } else if n == n1 {
                assert(es@[1].name@ == n);
            } else {
                assert(es@[2].name@ == n);
            }
        }
    }
    lemma_first_of(es@, Wanted::Descriptor);
    lemma_first_of(es@, Wanted::Executable);
    lemma_first_of(es@, Wanted::Icon);
    let helper: Entries = Map::empty().insert(helper_name(), item);
    let t_new = empty_tree();
    let t_helper = Tree { top: helper, nested: None };
    let t_extracted = Tree { top: helper, nested: Some(m) };
    let t_cleared = Tree { top: helper.remove(helper_name()), nested: Some(m) };
    let t_one = Tree { top: t_cleared.top.insert(n0, item), nested: Some(m.remove(n0)) };
    let t_two = Tree { top: t_one.top.insert(n1, item), nested: Some(m.remove(n0).remove(n1)) };
    let t_three = Tree {
        top: t_two.top.insert(n2, item),
        nested: Some(m.remove(n0).remove(n1).remove(n2)),
    };
    let t_flat = Tree { top: t_three.top, nested: None };
    assert(t_helper.top.remove(helper_name()) =~= t_new.top.remove(helper_name()));
    lemma_with_dir(w0, staging, t_new, t_helper);
    lemma_with_dir(w0, staging, t_helper, t_helper);
    lemma_with_dir(w0, staging, t_helper, t_extracted);
    lemma_with_dir(w0, target, t_extracted, t_cleared);
    lemma_with_dir(w0, target, t_cleared, t_one);
    lemma_with_dir(w0, target, t_one, t_two);
    lemma_with_dir(w0, target, t_two, t_three);
    lemma_with_dir(w0, target, t_three, t_flat);
    lemma_with_dir(w0, target, t_flat, t_flat);
    let turns = Seq::<Turn>::empty();
    let cur = start;
    // The staging area is created; the archive is copied in, made
    // executable, and run.
    let turn = Turn { event: Event::Done, world: with_dir(w0, staging, t_new) };
    lemma_install_extends(start, turns, cur, turn);
    let (turns, cur) = (turns.push(turn), installation_after(cur, turn));
    let turn = Turn { event: Event::Done, world: with_dir(w0, staging, t_helper) };
    lemma_install_extends(start, turns, cur, turn);
    let (turns, cur) = (turns.push(turn), installation_after(cur, turn));
    let turn = Turn { event: Event::Mode(mode), world: with_dir(w0, staging, t_helper) };
    lemma_install_extends(start, turns, cur, turn);
    let (turns, cur) = (turns.push(turn), installation_after(cur, turn));
    let turn = Turn { event: Event::Done, world: with_dir(w0, staging, t_helper) };
    lemma_install_extends(start, turns, cur, turn);
    let (turns, cur) = (turns.push(turn), installation_after(cur, turn));
    let staged = with_dir(w0, staging, t_extracted);
    let turn = Turn { event: Event::Exit(0), world: staged };
    lemma_install_extends(start, turns, cur, turn);
    let (turns, cur) = (turns.push(turn), installation_after(cur, turn));
    // The descriptor is found and read; the bundle's directory is free, and
    // the staging area is moved there.
    let turn = Turn { event: Event::Entries(es), world: staged };
    lemma_install_extends(start, turns, cur, turn);
    let (turns, cur) = (turns.push(turn), installation_after(cur, turn));
    let turn = Turn { event: Event::Text(text), world: staged };
    lemma_install_extends(start, turns, cur, turn);
    let (turns, cur) = (turns.push(turn), installation_after(cur, turn));
    let turn = Turn { event: Event::Kind(PathKind::Missing), world: staged };
    lemma_install_extends(start, turns, cur, turn);
    let (turns, cur) = (turns.push(turn), installation_after(cur, turn));
    let placed = with_dir(w0, target, t_extracted);
    assert(placed.dirs =~= staged.dirs.remove(staging).insert(target, t_extracted));
    let turn = Turn { event: Event::Done, world: placed };
    lemma_install_extends(start, turns, cur, turn);
    let (turns, cur) = (turns.push(turn), installation_after(cur, turn));
    // The directory is flattened.
    let turn = Turn { event: Event::Entries(es), world: placed };
    lemma_install_extends(start, turns, cur, turn);
    let (turns, cur) = (turns.push(turn), installation_after(cur, turn));
    let turn = Turn { event: Event::Done, world: with_dir(w0, target, t_cleared) };
    lemma_install_extends(start, turns, cur, turn);
    let (turns, cur) = (turns.push(turn), installation_after(cur, turn));
    let turn = Turn { event: Event::Kind(PathKind::Missing), world: with_dir(w0, target, t_cleared) };
    lemma_install_extends(start, turns, cur, turn);
    let (turns, cur) = (turns.push(turn), installation_after(cur, turn));
    let turn = Turn { event: Event::Done, world: with_dir(w0, target, t_one) };
    lemma_install_extends(start, turns, cur, turn);
    let (turns, cur) = (turns.push(turn), installation_after(cur, turn));
    let turn = Turn { event: Event::Kind(PathKind::Missing), world: with_dir(w0, target, t_one) };
    lemma_install_extends(start, turns, cur, turn);
    let (turns, cur) = (turns.push(turn), installation_after(cur, turn));
    let turn = Turn { event: Event::Done, world: with_dir(w0, target, t_two) };
    lemma_install_extends(start, turns, cur, turn);
    let (turns, cur) = (turns.push(turn), installation_after(cur, turn));
    let turn = Turn { event: Event::Kind(PathKind::Missing), world: with_dir(w0, target, t_two) };
    lemma_install_extends(start, turns, cur, turn);
    let (turns, cur) = (turns.push(turn), installation_after(cur, turn));
    let turn = Turn { event: Event::Done, world: with_dir(w0, target, t_three) };
    lemma_install_extends(start, turns, cur, turn);
    let (turns, cur) = (turns.push(turn), installation_after(cur, turn));
    let flat = with_dir(w0, target, t_flat);
    let turn = Turn { event: Event::Done, world: flat };
    lemma_install_extends(start, turns, cur, turn);
    let (turns, cur) = (turns.push(turn), installation_after(cur, turn));
    // The executable and the icon are found, and the launcher entry
    // published.
    let turn = Turn { event: Event::Entries(es), world: flat };
    lemma_install_extends(start, turns, cur, turn);
    let (turns, cur) = (turns.push(turn), installation_after(cur, turn));
    let turn = Turn { event: Event::Kind(PathKind::Missing), world: flat };
    lemma_install_extends(start, turns, cur, turn);
    let (turns, cur) = (turns.push(turn), installation_after(cur, turn));
    let content = cur.state.phase->Publishing_0.content;
    let written = World { files: flat.files.insert(entry, content), ..flat };
    let turn = Turn { event: Event::Done, world: written };
    lemma_install_extends(start, turns, cur, turn);
    let (turns, cur) = (turns.push(turn), installation_after(cur, turn));
    let turn = Turn { event: Event::Done, world: written };
    lemma_install_extends(start, turns, cur, turn);
    let (turns, cur) = (turns.push(turn), installation_after(cur, turn));
    assert(written.dirs =~= written.dirs.insert(target, written.dirs[target]));
    let turn = Turn { event: Event::Done, world: written };
    lemma_install_extends(start, turns, cur, turn);
    let (turns, cur) = (turns.push(turn), installation_after(cur, turn));
    assert(installs(start, turns, cur));
}

} // verus!
