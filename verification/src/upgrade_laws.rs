//! What holds of every upgrade, whatever the environment answers.

use crate::bundle::{first_of, lemma_first_of, DirEntry, Wanted};
use crate::desktop::{descriptor_of, Descriptor};
use crate::effects::{
    entry_path_of, helper_name, nested_name, Command, Event, Failure, IoFailure, Outcome,
    PathKind,
};
use crate::layout::flattening_step;
use crate::layout_laws::{
    flatten_inv, is_flattened, lemma_flatten_begins, lemma_flatten_ends, lemma_flatten_turn,
};
use crate::paths::{lemma_entry_is_not_bundle, EnvironmentView};
use crate::publish::{backup_path_of, published_text, PublicationView, PublishPhase};
use crate::upgrade::{upgrade_begins, upgrade_step, UpgradePhaseView, UpgradeView};
use crate::world::{
    adds_dir, empty_tree, extraction_pending, flattening_pending, has_entry, kind_of, lemma_inside,
    lemma_with_dir, lemma_works_inside, performs, points_into, shows, with_dir, Entries, Item,
    Point, Tree, Turn, World,
};
use vstd::prelude::*;

verus! {

/// The point that an upgrade comes to by one turn.
pub open spec fn upgrade_after(p: Point<UpgradeView>, turn: Turn) -> Point<UpgradeView> {
    let next = upgrade_step(p.state, turn.event);
    Point { state: next.0, command: next.1, world: turn.world }
}

/// Whether the upgrade goes from the point `from` to the point `to` by the
/// turns `turns`: each turn answers the pending command as the environment
/// may, and no turn follows the end.
pub open spec fn upgrades(from: Point<UpgradeView>, turns: Seq<Turn>, to: Point<UpgradeView>) -> bool
    decreases turns.len(),
{
    if turns.len() == 0 {
        to == from
    } else {
        let turn = turns.first();
        &&& !(from.command is Finish)
        &&& performs(from.world, from.command, turn.event, turn.world)
        &&& upgrades(upgrade_after(from, turn), turns.drop_first(), to)
    }
}

/// The point at which an upgrade begins in the world `w`.
pub open spec fn upgrade_start(
    name: Seq<char>,
    path: Seq<char>,
    env: EnvironmentView,
    backup_id: Seq<char>,
    entry_id: Seq<char>,
    w: World,
) -> Point<UpgradeView> {
    let begin = upgrade_begins(name, path, env, backup_id, entry_id);
    Point { state: begin.0, command: begin.1, world: w }
}

/// Whether the names that the upgrade moves things aside to are fresh in the
/// world `w0`: nothing stands at the backup of the bundle nor at the backup
/// of the launcher entry, and the two differ. Nothing in that world is both a
/// directory and a file.
pub open spec fn backups_are_fresh(s: UpgradeView, w0: World) -> bool {
    &&& kind_of(w0, s.backup) == PathKind::Missing
    &&& backup_path_of(s.entry, s.entry_id) matches Some(spare) ==> kind_of(w0, spare)
        == PathKind::Missing && spare != s.backup
    &&& forall|path: Seq<char>| !(w0.dirs.contains_key(path) && w0.files.contains_key(path))
}

/// The world with what stands at `from` moved to `to`.
pub open spec fn moved(w: World, from: Seq<char>, to: Seq<char>) -> World {
    if w.dirs.contains_key(from) {
        World { dirs: w.dirs.remove(from).insert(to, w.dirs[from]), ..w }
    } else {
        World { files: w.files.remove(from).insert(to, w.files[from]), ..w }
    }
}

/// What holds of the world once the bundle is upgraded: the launcher entry
/// holds the published text, that text names as executable and as icon
/// entries of the bundle's new directory, and the old directory stands
/// unchanged where it was moved to.
pub open spec fn upgrade_done(s: UpgradeView, p: PublicationView, w: World, w0: World) -> bool {
    &&& p.path == s.entry
    &&& w.files.contains_key(s.entry)
    &&& w.files[s.entry] == p.content
    &&& w.dirs.contains_key(s.target)
    &&& points_into(p.content, s.target, w.dirs[s.target])
    &&& w0.dirs.contains_key(s.target) ==> w.dirs.contains_key(s.backup) && w.dirs[s.backup]
        == w0.dirs[s.target]
}

/// Whether the top of the directory holds nothing but, perhaps, the helper.
pub open spec fn holds_helper_alone(t: Tree) -> bool {
    forall|n: Seq<char>| #[trigger] t.top.contains_key(n) ==> n == helper_name()
}

/// Whether the bundle of the first world, with all it holds, still stands: in
/// its directory or where it was moved to.
pub open spec fn keeps_a_copy(s: UpgradeView, w: World, w0: World) -> bool {
    w0.dirs.contains_key(s.target) ==> (w.dirs.contains_key(s.target) && w.dirs[s.target]
        == w0.dirs[s.target]) || (w.dirs.contains_key(s.backup) && w.dirs[s.backup]
        == w0.dirs[s.target])
}

/// Whether the bundle of the first world stands where it was moved to.
spec fn is_set_aside(s: UpgradeView, w: World, w0: World) -> bool {
    w0.dirs.contains_key(s.target) ==> w.dirs.contains_key(s.backup) && w.dirs[s.backup]
        == w0.dirs[s.target]
}

/// Whether the bundle and its launcher entry stood in the first world.
pub open spec fn both_stood(s: UpgradeView, w0: World) -> bool {
    kind_of(w0, s.target) != PathKind::Missing && kind_of(w0, s.entry) != PathKind::Missing
}

/// Whether the world differs from `base` in the new directory of the bundle,
/// and perhaps in what stands at the launcher entry.
spec fn half_written(s: UpgradeView, w: World, base: World) -> bool {
    &&& w.dirs.contains_key(s.target)
    &&& w.dirs.remove(s.target) == base.dirs
    &&& w.files.remove(s.entry) == base.files.remove(s.entry)
}

/// What holds at every point of an upgrade that began in the world `w0`.
spec fn upgrade_inv(p: Point<UpgradeView>, w0: World) -> bool {
    let s = p.state;
    let c = p.command;
    let w = p.world;
    let w1 = moved(w0, s.target, s.backup);
    &&& s.entry != s.target
    &&& backups_are_fresh(s, w0)
    &&& keeps_a_copy(s, w, w0)
    &&& match s.phase {
        UpgradePhaseView::CheckingBundle => c == (Command::Probe { path: s.target }) && w == w0,
        UpgradePhaseView::CheckingEntry => {
            &&& c == (Command::Probe { path: s.entry })
            &&& w == w0
            &&& kind_of(w0, s.target) != PathKind::Missing
        },
        UpgradePhaseView::BackingUp => {
            &&& c == (Command::Rename { from: s.target, to: s.backup })
            &&& w == w0
            &&& both_stood(s, w0)
        },
        UpgradePhaseView::Recreating => {
            &&& c == (Command::CreateDir { path: s.target })
            &&& w == w1
            &&& both_stood(s, w0)
        },
        UpgradePhaseView::Extracting(x) => {
            &&& x.dir == s.target
            &&& extraction_pending(x, c)
            &&& adds_dir(w, w1, s.target)
            &&& both_stood(s, w0)
            &&& holds_helper_alone(w.dirs[s.target])
        },
        UpgradePhaseView::Locating => {
            &&& c == (Command::ListNested { dir: s.target })
            &&& adds_dir(w, w1, s.target)
            &&& both_stood(s, w0)
            &&& holds_helper_alone(w.dirs[s.target])
        },
        UpgradePhaseView::Reading => {
            &&& c matches Command::ReadNested { dir, name } && dir == s.target
            &&& adds_dir(w, w1, s.target)
            &&& both_stood(s, w0)
        },
        UpgradePhaseView::Normalizing(d, f) => {
            &&& f.dir == s.target
            &&& flattening_pending(f, c)
            &&& adds_dir(w, w1, s.target)
            &&& both_stood(s, w0)
        },
        UpgradePhaseView::Resolving(d) => {
            &&& c == (Command::ListDir { dir: s.target })
            &&& adds_dir(w, w1, s.target)
            &&& both_stood(s, w0)
        },
        UpgradePhaseView::Updating(q) => {
            let base = moved(w1, s.entry, q.backup);
            &&& both_stood(s, w0)
            &&& q.path == s.entry
            &&& backup_path_of(s.entry, s.entry_id) == Some(q.backup)
            &&& w.dirs.contains_key(s.target)
            &&& points_into(q.content, s.target, w.dirs[s.target])
            &&& match q.phase {
                PublishPhase::SettingAside => c == (Command::Rename {
                    from: s.entry,
                    to: q.backup,
                }) && adds_dir(w, w1, s.target),
                PublishPhase::Replacing => c == (Command::WriteFile {
                    path: s.entry,
                    content: q.content,
                }) && adds_dir(w, base, s.target),
                PublishPhase::Discarding => c == (Command::RemoveFile { path: s.entry })
                    && q.cause is Some && half_written(s, w, base),
                PublishPhase::Restoring => c == (Command::Rename { from: q.backup, to: s.entry })
                    && q.cause is Some && half_written(s, w, base),
                _ => false,
            }
        },
        UpgradePhaseView::Clearing { cause, clean } => {
            &&& c == (Command::RemoveDirAll { path: s.target })
            &&& both_stood(s, w0)
            &&& is_set_aside(s, w, w0)
            &&& clean ==> w.files == w1.files && w.dirs.remove(s.target) == w1.dirs
        },
        UpgradePhaseView::Restoring { cause, clean } => {
            &&& c == (Command::Rename { from: s.backup, to: s.target })
            &&& both_stood(s, w0)
            &&& is_set_aside(s, w, w0)
            &&& clean ==> w == w1
        },
        UpgradePhaseView::Committed(q) => {
            &&& c == Command::Finish(Outcome::Completed)
            &&& both_stood(s, w0)
            &&& upgrade_done(s, q, w, w0)
        },
        UpgradePhaseView::Closed => c matches Command::Finish(Outcome::Failed { cause, clean })
            && (clean ==> w == w0) && (!both_stood(s, w0) ==> clean && (cause is NotFound
            || cause is Io)),
    }
}

proof fn lemma_upgrade_begins(
    name: Seq<char>,
    path: Seq<char>,
    env: EnvironmentView,
    backup_id: Seq<char>,
    entry_id: Seq<char>,
    w0: World,
)
    requires
        backups_are_fresh(upgrade_start(name, path, env, backup_id, entry_id, w0).state, w0),
    ensures
        upgrade_inv(upgrade_start(name, path, env, backup_id, entry_id, w0), w0),
{
    lemma_entry_is_not_bundle(
        crate::paths::applications_dir_of(env.data_home, env.home, env.sudo_user),
        crate::paths::slug_of(name),
    );
}

/// Moving the bundle aside and back leaves the world as it was.
proof fn lemma_moved_back(w0: World, from: Seq<char>, to: Seq<char>)
    requires
        kind_of(w0, from) != PathKind::Missing,
        kind_of(w0, to) == PathKind::Missing,
    ensures
        moved(moved(w0, from, to), to, from) == w0,
{
    let w1 = moved(w0, from, to);
    let w2 = moved(w1, to, from);
    assert(w2.dirs =~= w0.dirs);
    assert(w2.files =~= w0.files);
}

/// What holds of an upgrade while the launcher entry is being replaced.
proof fn lemma_upgrade_updating(p: Point<UpgradeView>, turn: Turn, w0: World)
    requires
        upgrade_inv(p, w0),
        p.state.phase is Updating,
        !(p.command is Finish),
        performs(p.world, p.command, turn.event, turn.world),
    ensures
        upgrade_inv(upgrade_after(p, turn), w0),
{
    let s = p.state;
    let w = p.world;
    let w2 = turn.world;
    let w1 = moved(w0, s.target, s.backup);
    let q = s.phase->Updating_0;
    let base = moved(w1, s.entry, q.backup);
    let t = s.target;
    let e = s.entry;
    let b = s.backup;
    let lb = q.backup;
    assert(lb != t && lb != e && lb != b && b != t && b != e && e != t);
    lemma_upgrade_sets_aside(p, w0);
    if w0.dirs.contains_key(t) {
        assert(w2.dirs.contains_key(b) && w2.dirs[b] == w.dirs[b]);
    }
    assert(!w1.dirs.contains_key(lb) && !w1.files.contains_key(lb));
    assert(forall|path: Seq<char>| !(w1.dirs.contains_key(path) && w1.files.contains_key(path)));
    match q.phase {
        PublishPhase::SettingAside => {
            if turn.event is Done {
                assert(w.dirs.contains_key(e) == w1.dirs.contains_key(e)) by {
                    assert(w.dirs.remove(t).contains_key(e) == w.dirs.contains_key(e));
                }
                if w.dirs.contains_key(e) {
                    assert(w.dirs[e] == w1.dirs[e]) by {
                        assert(w.dirs.remove(t)[e] == w.dirs[e]);
                    }
                    assert(w2.dirs.remove(t) =~= base.dirs) by {
                        assert(w.dirs.remove(t) == w1.dirs);
                        assert(w2.dirs == w.dirs.remove(e).insert(lb, w.dirs[e]));
                        assert(w.dirs.remove(e).insert(lb, w.dirs[e]).remove(t) =~= w.dirs.remove(
                            t,
                        ).remove(e).insert(lb, w.dirs[e]));
                    }
                } else {
                    assert(w2.dirs.remove(t) == base.dirs);
                }
            }
        },
        PublishPhase::Replacing => {
            if turn.event is Done {
                if w0.dirs.contains_key(t) {
                    assert(w1.dirs.contains_key(b) && w1.dirs[b] == w0.dirs[t]);
                    assert(base.dirs.contains_key(b) && base.dirs[b] == w0.dirs[t]);
                    assert(w.dirs.remove(t).contains_key(b));
                    assert(w.dirs.remove(t)[b] == w.dirs[b]);
                }
            }
        },
        PublishPhase::Discarding => {
            if turn.event is Done {
                assert(w2.files.remove(e) =~= w.files.remove(e));
            }
        },
        PublishPhase::Restoring => {
            if turn.event is Done {
                assert(w.dirs.contains_key(lb) == base.dirs.contains_key(lb)) by {
                    assert(w.dirs.remove(t).contains_key(lb) == w.dirs.contains_key(lb));
                }
                if w.dirs.contains_key(lb) {
                    assert(w1.dirs.contains_key(e));
                    assert(w.dirs[lb] == w1.dirs[e]) by {
                        assert(w.dirs.remove(t)[lb] == w.dirs[lb]);
                    }
                    assert(w2.dirs.remove(t) =~= w1.dirs) by {
                        assert(w2.dirs == w.dirs.remove(lb).insert(e, w.dirs[lb]));
                        assert(w.dirs.remove(lb).insert(e, w.dirs[lb]).remove(t) =~= w.dirs.remove(
                            t,
                        ).remove(lb).insert(e, w.dirs[lb]));
                    }
                    assert(!w1.files.contains_key(e));
                    assert(w2.files =~= w1.files) by {
                        assert(w.files =~= w.files.remove(e));
                        assert(w1.files =~= w1.files.remove(e));
                    }
                } else {
                    assert(!w1.dirs.contains_key(e));
                    assert(w1.files.contains_key(e));
                    assert(w.files[lb] == w1.files[e]) by {
                        assert(w.files.remove(e)[lb] == w.files[lb]);
                        assert(base.files.remove(e)[lb] == base.files[lb]);
                    }
                    assert(w2.files == w.files.remove(lb).insert(e, w.files[lb]));
                    assert forall|k: Seq<char>|
                        (#[trigger] w2.files.contains_key(k)) == w1.files.contains_key(k) && (
                        w2.files.contains_key(k) ==> w2.files[k] == w1.files[k]) by {
                        if k != e && k != lb {
                            assert(w.files.remove(e).contains_key(k) == w.files.contains_key(k));
                            assert(base.files.remove(e).contains_key(k) == w1.files.contains_key(
                                k,
                            ));
                            assert(w.files.remove(e)[k] == w.files[k]);
                            assert(base.files.remove(e)[k] == base.files[k]);
                        }
                    }
                    assert(w2.files =~= w1.files);
                }
            }
        },
        _ => {},
    }
}

/// From the moment the bundle has been moved aside until the upgrade ends,
/// it stands where it was moved to.
proof fn lemma_upgrade_sets_aside(p: Point<UpgradeView>, w0: World)
    requires
        upgrade_inv(p, w0),
    ensures
        !(p.state.phase is CheckingBundle || p.state.phase is CheckingEntry
            || p.state.phase is BackingUp || p.state.phase is Closed) ==> is_set_aside(
            p.state,
            p.world,
            w0,
        ),
{
    let s = p.state;
    let w = p.world;
    let w1 = moved(w0, s.target, s.backup);
    if w0.dirs.contains_key(s.target) {
        assert(w1.dirs.contains_key(s.backup) && w1.dirs[s.backup] == w0.dirs[s.target]);
        assert(s.backup != s.target);
        match s.phase {
            UpgradePhaseView::Updating(q) => {
                let base = moved(w1, s.entry, q.backup);
                assert(q.backup != s.backup && s.entry != s.backup);
                assert(base.dirs.contains_key(s.backup) && base.dirs[s.backup]
                    == w0.dirs[s.target]);
                assert(w.dirs.remove(s.target).contains_key(s.backup) == w.dirs.contains_key(
                    s.backup,
                ));
                assert(w.dirs.remove(s.target)[s.backup] == w.dirs[s.backup]);
            },
            UpgradePhaseView::Extracting(_) | UpgradePhaseView::Locating
            | UpgradePhaseView::Reading | UpgradePhaseView::Normalizing(_, _)
            | UpgradePhaseView::Resolving(_) => {
                assert(w.dirs.remove(s.target).contains_key(s.backup) == w.dirs.contains_key(
                    s.backup,
                ));
                assert(w.dirs.remove(s.target)[s.backup] == w.dirs[s.backup]);
            },
            _ => {},
        }
    }
}

proof fn lemma_upgrade_turn(p: Point<UpgradeView>, turn: Turn, w0: World)
    requires
        upgrade_inv(p, w0),
        !(p.command is Finish),
        performs(p.world, p.command, turn.event, turn.world),
    ensures
        upgrade_inv(upgrade_after(p, turn), w0),
{
    let s = p.state;
    let c = p.command;
    let w = p.world;
    let w2 = turn.world;
    let w1 = moved(w0, s.target, s.backup);
    lemma_upgrade_sets_aside(p, w0);
    if w0.dirs.contains_key(s.target) && !(s.phase is Updating) {
        assert(s.backup != s.target);
        assert(w.dirs.remove(s.target).contains_key(s.backup) == w.dirs.contains_key(s.backup));
        assert(w2.dirs.remove(s.target).contains_key(s.backup) == w2.dirs.contains_key(s.backup));
        assert(w.dirs.remove(s.target)[s.backup] == w.dirs[s.backup]);
        assert(w2.dirs.remove(s.target)[s.backup] == w2.dirs[s.backup]);
    }
    match s.phase {
        UpgradePhaseView::Recreating => {
            if turn.event is Done {
                assert(w2.dirs.remove(s.target) =~= w1.dirs);
            }
        },
        UpgradePhaseView::Extracting(_) => {
            lemma_works_inside(w, c, turn, s.target);
            lemma_inside(w, w2, w1, s.target);
            let t = w.dirs[s.target];
            let t2 = w2.dirs[s.target];
            assert forall|n: Seq<char>| #[trigger] t2.top.contains_key(n) implies n
                == helper_name() by {
                if n != helper_name() {
                    assert(t2.top.remove(helper_name()).contains_key(n));
                    assert(t.top.remove(helper_name()).contains_key(n) == t.top.contains_key(n));
                }
            }
        },
        UpgradePhaseView::Normalizing(_, _) => {
            lemma_works_inside(w, c, turn, s.target);
            lemma_inside(w, w2, w1, s.target);
        },
        UpgradePhaseView::Resolving(d) => {
            if let Event::Entries(es) = turn.event {
                assert(es@.len() == es.len());
                lemma_first_of(es@, Wanted::Executable);
                lemma_first_of(es@, Wanted::Icon);
                if let Some(x) = first_of(es@, Wanted::Executable) {
                    if let Some(i) = first_of(es@, Wanted::Icon) {
                        let exec = es@[x as int].name@;
                        let icon = es@[i as int].name@;
                        assert(has_entry(w.dirs[s.target], exec));
                        assert(has_entry(w.dirs[s.target], icon));
                        let text = published_text(
                            d,
                            entry_path_of(s.target, exec),
                            entry_path_of(s.target, icon),
                        );
                        assert(points_into(text, s.target, w.dirs[s.target]));
                    }
                }
            }
        },
        UpgradePhaseView::Updating(_) => {
            lemma_upgrade_updating(p, turn, w0);
        },
        UpgradePhaseView::Restoring { cause, clean } => {
            if turn.event is Done && clean {
                lemma_moved_back(w0, s.target, s.backup);
            }
        },
        _ => {},
    }
}

proof fn lemma_upgrade_run(
    from: Point<UpgradeView>,
    turns: Seq<Turn>,
    to: Point<UpgradeView>,
    w0: World,
)
    requires
        upgrades(from, turns, to),
        upgrade_inv(from, w0),
    ensures
        upgrade_inv(to, w0),
    decreases turns.len(),
{
    if turns.len() > 0 {
        let turn = turns.first();
        lemma_upgrade_turn(from, turn, w0);
        lemma_upgrade_run(
            upgrade_after(from, turn),
            turns.drop_first(),
            to,
            w0,
        );
    }
}

/// What a failed upgrade leaves behind: the bundle as it was. An upgrade
/// that ends in failure, with all it did undone, leaves the world exactly as
/// it found it: the bundle's directory with all it holds, the launcher entry,
/// and everything else.
pub proof fn lemma_upgrade_rolls_back(
    name: Seq<char>,
    path: Seq<char>,
    env: EnvironmentView,
    backup_id: Seq<char>,
    entry_id: Seq<char>,
    w0: World,
    turns: Seq<Turn>,
    end: Point<UpgradeView>,
)
    requires
        backups_are_fresh(upgrade_start(name, path, env, backup_id, entry_id, w0).state, w0),
        upgrades(upgrade_start(name, path, env, backup_id, entry_id, w0), turns, end),
        end.command matches Command::Finish(Outcome::Failed { cause, clean }) && clean,
    ensures
        end.world == w0,
{
    lemma_upgrade_begins(name, path, env, backup_id, entry_id, w0);
    lemma_upgrade_run(upgrade_start(name, path, env, backup_id, entry_id, w0), turns, end, w0);
}

/// What a completed upgrade has done: the launcher entry holds the newly
/// published text, that text names as executable and as icon entries of the
/// bundle's new directory, and the old directory stands unchanged where it
/// was moved to.
pub proof fn lemma_upgrade_commits(
    name: Seq<char>,
    path: Seq<char>,
    env: EnvironmentView,
    backup_id: Seq<char>,
    entry_id: Seq<char>,
    w0: World,
    turns: Seq<Turn>,
    end: Point<UpgradeView>,
)
    requires
        backups_are_fresh(upgrade_start(name, path, env, backup_id, entry_id, w0).state, w0),
        upgrades(upgrade_start(name, path, env, backup_id, entry_id, w0), turns, end),
        end.command == Command::Finish(Outcome::Completed),
    ensures
        end.state.phase matches UpgradePhaseView::Committed(p) && upgrade_done(
            end.state,
            p,
            end.world,
            w0,
        ),
{
    lemma_upgrade_begins(name, path, env, backup_id, entry_id, w0);
    lemma_upgrade_run(upgrade_start(name, path, env, backup_id, entry_id, w0), turns, end, w0);
}

/// An upgrade never loses the bundle. At every point, whatever has failed
/// and whatever could not be undone, the bundle of the first world stands
/// with all it holds: in its directory, or where it was moved to.
pub proof fn lemma_upgrade_keeps_a_copy(
    name: Seq<char>,
    path: Seq<char>,
    env: EnvironmentView,
    backup_id: Seq<char>,
    entry_id: Seq<char>,
    w0: World,
    turns: Seq<Turn>,
    end: Point<UpgradeView>,
)
    requires
        backups_are_fresh(upgrade_start(name, path, env, backup_id, entry_id, w0).state, w0),
        upgrades(upgrade_start(name, path, env, backup_id, entry_id, w0), turns, end),
    ensures
        keeps_a_copy(end.state, end.world, w0),
{
    lemma_upgrade_begins(name, path, env, backup_id, entry_id, w0);
    lemma_upgrade_run(upgrade_start(name, path, env, backup_id, entry_id, w0), turns, end, w0);
}

/// An upgrade wants an installation: where the bundle's directory or its
/// launcher entry did not stand in the first world, the upgrade ends in
/// failure, because one of them was not found or because the environment
/// could not tell, and the world is as it was.
pub proof fn lemma_upgrade_wants_installation(
    name: Seq<char>,
    path: Seq<char>,
    env: EnvironmentView,
    backup_id: Seq<char>,
    entry_id: Seq<char>,
    w0: World,
    turns: Seq<Turn>,
    end: Point<UpgradeView>,
)
    requires
        backups_are_fresh(upgrade_start(name, path, env, backup_id, entry_id, w0).state, w0),
        upgrades(upgrade_start(name, path, env, backup_id, entry_id, w0), turns, end),
        end.command is Finish,
        !both_stood(end.state, w0),
    ensures
        end.command matches Command::Finish(Outcome::Failed { cause, clean }) && (cause is NotFound
            || cause is Io) && clean,
        end.world == w0,
{
    lemma_upgrade_begins(name, path, env, backup_id, entry_id, w0);
    lemma_upgrade_run(upgrade_start(name, path, env, backup_id, entry_id, w0), turns, end, w0);
}

/// What holds of the bundle's new directory at every point of an upgrade
/// from the moment the extraction has completed, in the world `wm`.
spec fn content_inv(p: Point<UpgradeView>, wm: World, target: Seq<char>) -> bool {
    let s = p.state;
    let c = p.command;
    let w = p.world;
    let flattened = {
        &&& wm.dirs.contains_key(target)
        &&& w.dirs.contains_key(target)
        &&& is_flattened(wm.dirs[target], w.dirs[target], s.helper_removed)
    };
    &&& s.target == target
    &&& match s.phase {
        UpgradePhaseView::Locating => w == wm,
        UpgradePhaseView::Reading => w == wm && wm.dirs.contains_key(target)
            && wm.dirs[target].nested is Some,
        UpgradePhaseView::Normalizing(d, f) => {
            &&& wm.dirs.contains_key(target)
            &&& wm.dirs[target].nested is Some
            &&& f.dir == target
            &&& flatten_inv(Point { state: f, command: c, world: w }, wm)
        },
        UpgradePhaseView::Resolving(d) => flattened,
        UpgradePhaseView::Updating(q) => flattened,
        UpgradePhaseView::Committed(q) => flattened,
        UpgradePhaseView::Clearing { cause, clean } => true,
        UpgradePhaseView::Restoring { cause, clean } => true,
        UpgradePhaseView::Closed => true,
        _ => false,
    }
}

proof fn lemma_content_turn(p: Point<UpgradeView>, turn: Turn, w0: World, wm: World)
    requires
        upgrade_inv(p, w0),
        content_inv(p, wm, p.state.target),
        !(p.command is Finish),
        performs(p.world, p.command, turn.event, turn.world),
    ensures
        content_inv(upgrade_after(p, turn), wm, p.state.target),
{
    let s = p.state;
    let c = p.command;
    let w = p.world;
    let w2 = turn.world;
    let t = s.target;
    match s.phase {
        UpgradePhaseView::Reading => {
            lemma_flatten_begins(t, wm);
        },
        UpgradePhaseView::Normalizing(d, f) => {
            let inner = Point { state: f, command: c, world: w };
            lemma_flatten_turn(inner, turn, wm);
            let next = flattening_step(f, turn.event);
            if next.1 == Command::Finish(Outcome::Completed) {
                lemma_flatten_ends(Point { state: next.0, command: next.1, world: w2 }, wm);
            }
        },
        UpgradePhaseView::Updating(q) => {
            let e = s.entry;
            let lb = q.backup;
            assert(lb != t && e != t);
            assert(w2.dirs.contains_key(t) && w2.dirs[t] == w.dirs[t]);
        },
        _ => {},
    }
}

proof fn lemma_content_run(
    from: Point<UpgradeView>,
    turns: Seq<Turn>,
    to: Point<UpgradeView>,
    w0: World,
    wm: World,
)
    requires
        upgrades(from, turns, to),
        upgrade_inv(from, w0),
        content_inv(from, wm, from.state.target),
    ensures
        content_inv(to, wm, from.state.target),
    decreases turns.len(),
{
    if turns.len() > 0 {
        let turn = turns.first();
        lemma_upgrade_turn(from, turn, w0);
        lemma_content_turn(from, turn, w0, wm);
        lemma_content_run(
            upgrade_after(from, turn),
            turns.drop_first(),
            to,
            w0,
            wm,
        );
    }
}

/// What a completed upgrade has put in the bundle's directory: what the new
/// archive extracted, and nothing of the old bundle. Take the moment at which
/// the extraction has completed: the top of the bundle's new directory then
/// holds nothing but the helper, and the archive's entries lie in the
/// extracted tree. When the upgrade has completed, the directory is that
/// directory flattened: each entry of the extracted tree stands at its top,
/// and nothing else does but, perhaps, the helper; and the helper does not
/// either where its removal succeeded, unless the archive has an entry of its
/// name. So a name of the old
/// bundle, be it that of its executable or of its icon, is there only if the
/// new archive has an entry of that name.
pub proof fn lemma_upgrade_replaces_content(
    name: Seq<char>,
    path: Seq<char>,
    env: EnvironmentView,
    backup_id: Seq<char>,
    entry_id: Seq<char>,
    w0: World,
    before: Seq<Turn>,
    mid: Point<UpgradeView>,
    after: Seq<Turn>,
    end: Point<UpgradeView>,
)
    requires
        backups_are_fresh(upgrade_start(name, path, env, backup_id, entry_id, w0).state, w0),
        upgrades(upgrade_start(name, path, env, backup_id, entry_id, w0), before, mid),
        mid.state.phase is Locating,
        upgrades(mid, after, end),
        end.command == Command::Finish(Outcome::Completed),
    ensures
        end.state.target == mid.state.target,
        mid.world.dirs.contains_key(mid.state.target),
        end.world.dirs.contains_key(mid.state.target),
        holds_helper_alone(mid.world.dirs[mid.state.target]),
        is_flattened(
            mid.world.dirs[mid.state.target],
            end.world.dirs[mid.state.target],
            end.state.helper_removed,
        ),
        end.state.helper_removed && !mid.world.dirs[mid.state.target].nested->0.contains_key(
            helper_name(),
        ) ==> !end.world.dirs[mid.state.target].top.contains_key(helper_name()),
        forall|n: Seq<char>|
            n != helper_name() ==> (#[trigger] end.world.dirs[mid.state.target].top.contains_key(n)
                <==> mid.world.dirs[mid.state.target].nested->0.contains_key(n)),
{
    let start = upgrade_start(name, path, env, backup_id, entry_id, w0);
    lemma_upgrade_begins(name, path, env, backup_id, entry_id, w0);
    lemma_upgrade_run(start, before, mid, w0);
    lemma_upgrade_run(mid, after, end, w0);
    lemma_content_run(mid, after, end, w0, mid.world);
    let tm = mid.world.dirs[mid.state.target];
    let te = end.world.dirs[mid.state.target];
    let m = tm.nested->0;
    assert forall|n: Seq<char>| n != helper_name() implies (#[trigger] te.top.contains_key(n)
        <==> m.contains_key(n)) by {
        if !m.contains_key(n) {
            assert(te.top.contains_key(n) == tm.top.contains_key(n));
        }
    }
}

proof fn lemma_upgrade_extends(
    from: Point<UpgradeView>,
    turns: Seq<Turn>,
    mid: Point<UpgradeView>,
    turn: Turn,
)
    requires
        upgrades(from, turns, mid),
        !(mid.command is Finish),
        performs(mid.world, mid.command, turn.event, turn.world),
    ensures
        upgrades(from, turns.push(turn), upgrade_after(mid, turn)),
    decreases turns.len(),
{
    if turns.len() == 0 {
        assert(turns.push(turn).drop_first() =~= Seq::<Turn>::empty());
        assert(upgrades(upgrade_after(mid, turn), Seq::<Turn>::empty(), upgrade_after(mid, turn)));
    } else {
        lemma_upgrade_extends(upgrade_after(from, turns.first()), turns.drop_first(), mid, turn);
        assert(turns.push(turn).drop_first() =~= turns.drop_first().push(turn));
    }
}

/// The laws above speak of something: an upgrade can fail and be undone.
/// Where the bundle's directory and its launcher entry stand and nothing
/// stands at the backup, the environment may move the directory aside, create
/// it anew, fail to copy the archive, remove the new directory and move the
/// old one back, and the upgrade then ends in that failure, clean.
pub proof fn lemma_upgrade_can_fail(
    name: Seq<char>,
    path: Seq<char>,
    env: EnvironmentView,
    backup_id: Seq<char>,
    entry_id: Seq<char>,
    w0: World,
    message: String,
)
    requires
        ({
            let s = upgrade_start(name, path, env, backup_id, entry_id, w0).state;
            &&& w0.dirs.contains_key(s.target)
            &&& !w0.files.contains_key(s.target)
            &&& kind_of(w0, s.entry) != PathKind::Missing
            &&& kind_of(w0, s.backup) == PathKind::Missing
        }),
    ensures
        exists|turns: Seq<Turn>, end: Point<UpgradeView>|
            #[trigger] upgrades(
                upgrade_start(name, path, env, backup_id, entry_id, w0),
                turns,
                end,
            ) && end.world == w0 && end.command == Command::Finish(
                Outcome::Failed { cause: Failure::Io(IoFailure::Reported(message)), clean: true },
            ),
{
    let start = upgrade_start(name, path, env, backup_id, entry_id, w0);
    let s = start.state;
    let old_tree = w0.dirs[s.target];
    let aside = World { dirs: w0.dirs.remove(s.target).insert(s.backup, old_tree), ..w0 };
    let anew = World { dirs: aside.dirs.insert(s.target, empty_tree()), ..aside };
    assert(anew.dirs.remove(s.target) =~= aside.dirs);
    assert(w0.dirs =~= aside.dirs.remove(s.backup).insert(s.target, old_tree));
    assert(anew.dirs =~= anew.dirs.insert(s.target, anew.dirs[s.target]));
    let turns = Seq::<Turn>::empty();
    let cur = start;
    let turn = Turn { event: Event::Kind(kind_of(w0, s.target)), world: w0 };
    lemma_upgrade_extends(start, turns, cur, turn);
    let (turns, cur) = (turns.push(turn), upgrade_after(cur, turn));
    let turn = Turn { event: Event::Kind(kind_of(w0, s.entry)), world: w0 };
    lemma_upgrade_extends(start, turns, cur, turn);
    let (turns, cur) = (turns.push(turn), upgrade_after(cur, turn));
    let turn = Turn { event: Event::Done, world: aside };
    lemma_upgrade_extends(start, turns, cur, turn);
    let (turns, cur) = (turns.push(turn), upgrade_after(cur, turn));
    let turn = Turn { event: Event::Done, world: anew };
    lemma_upgrade_extends(start, turns, cur, turn);
    let (turns, cur) = (turns.push(turn), upgrade_after(cur, turn));
    let turn = Turn { event: Event::Failed(message), world: anew };
    lemma_upgrade_extends(start, turns, cur, turn);
    let (turns, cur) = (turns.push(turn), upgrade_after(cur, turn));
    let turn = Turn { event: Event::Done, world: aside };
    lemma_upgrade_extends(start, turns, cur, turn);
    let (turns, cur) = (turns.push(turn), upgrade_after(cur, turn));
    let turn = Turn { event: Event::Done, world: w0 };
    lemma_upgrade_extends(start, turns, cur, turn);
    let (turns, cur) = (turns.push(turn), upgrade_after(cur, turn));
    assert(upgrades(start, turns, cur));
}

/// The laws above speak of something: an upgrade can complete. Where the
/// bundle's directory and its launcher entry stand, the names of the backups
/// are fresh, the archive holds three entries of different names, among them
/// a descriptor, an executable and an icon, and the descriptor has a name,
/// the environment may carry out every command, and the upgrade then ends
/// completed.
#[verifier::rlimit(40)]
#[verifier::spinoff_prover]
pub proof fn lemma_upgrade_can_complete(
    name: Seq<char>,
    path: Seq<char>,
    env: EnvironmentView,
    backup_id: Seq<char>,
    entry_id: Seq<char>,
    w0: World,
    es: Vec<DirEntry>,
    text: String,
    mode: u32,
)
    requires
        ({
            let s = upgrade_start(name, path, env, backup_id, entry_id, w0).state;
            &&& w0.dirs.contains_key(s.target)
            &&& !w0.files.contains_key(s.target)
            &&& w0.files.contains_key(s.entry)
            &&& !w0.dirs.contains_key(s.entry)
            &&& kind_of(w0, s.backup) == PathKind::Missing
            &&& backup_path_of(s.entry, s.entry_id) matches Some(spare) && kind_of(w0, spare)
                == PathKind::Missing && spare != s.backup
        }),
        descriptor_of(text@) is Ok,
        es@.len() == 3,
        es@[0].name@ != es@[1].name@ && es@[0].name@ != es@[2].name@ && es@[1].name@
            != es@[2].name@,
        forall|i: int| 0 <= i < 3 ==> (#[trigger] es@[i]).name@ != nested_name(),
        first_of(es@, Wanted::Descriptor) is Some,
        first_of(es@, Wanted::Executable) is Some,
        first_of(es@, Wanted::Icon) is Some,
    ensures
        exists|turns: Seq<Turn>, end: Point<UpgradeView>|
            #[trigger] upgrades(
                upgrade_start(name, path, env, backup_id, entry_id, w0),
                turns,
                end,
            ) && end.command == Command::Finish(Outcome::Completed),
{
    reveal_strlit("App.AppImage");
    reveal_strlit("squashfs-root");
    assert(helper_name() != nested_name()) by {
        assert(helper_name().len() != nested_name().len());
    }
    let start = upgrade_start(name, path, env, backup_id, entry_id, w0);
    let s = start.state;
    let target = s.target;
    let spare = backup_path_of(s.entry, s.entry_id)->0;
    let item = Item { directory: false, content: Seq::empty() };
    let n0 = es@[0].name@;
    let n1 = es@[1].name@;
    let n2 = es@[2].name@;
    assert(n0 != nested_name() && n1 != nested_name() && n2 != nested_name());
    let m: Entries = Map::empty().insert(n0, item).insert(n1, item).insert(n2, item);
    assert(shows(es@, m)) by {
        assert forall|n: Seq<char>| m.contains_key(n) implies exists|i: int|
            0 <= i < es@.len() && #[trigger] es@[i].name@ == n by {
            if n == n0 {
                assert(es@[0].name@ == n);
            } else if n == n1 {
                assert(es@[1].name@ == n);
            } else {
                assert(es@[2].name@ == n);
            }
        }
    }
    lemma_first_of(es@, Wanted::Descriptor);
    lemma_first_of(es@, Wanted::Executable);
    lemma_first_of(es@, Wanted::Icon);
    let aside = World { dirs: w0.dirs.remove(target).insert(s.backup, w0.dirs[target]), ..w0 };
    let helper: Entries = Map::empty().insert(helper_name(), item);
    let t_new = empty_tree();
    let t_helper = Tree { top: helper, nested: None };
    let t_extracted = Tree { top: helper, nested: Some(m) };
    let t_cleared = Tree { top: helper.remove(helper_name()), nested: Some(m) };
    let t_one = Tree { top: t_cleared.top.insert(n0, item), nested: Some(m.remove(n0)) };
    let t_two = Tree { top: t_one.top.insert(n1, item), nested: Some(m.remove(n0).remove(n1)) };
    let t_three = Tree {
        top: t_two.top.insert(n2, item),
        nested: Some(m.remove(n0).remove(n1).remove(n2)),
    };
    let t_flat = Tree { top: t_three.top, nested: None };
    assert(t_helper.top.remove(helper_name()) =~= t_new.top.remove(helper_name()));
    lemma_with_dir(aside, target, t_new, t_helper);
    lemma_with_dir(aside, target, t_helper, t_helper);
    lemma_with_dir(aside, target, t_helper, t_extracted);
    lemma_with_dir(aside, target, t_extracted, t_cleared);
    lemma_with_dir(aside, target, t_cleared, t_one);
    lemma_with_dir(aside, target, t_one, t_two);
    lemma_with_dir(aside, target, t_two, t_three);
    lemma_with_dir(aside, target, t_three, t_flat);
    lemma_with_dir(aside, target, t_flat, t_flat);
    let turns = Seq::<Turn>::empty();
    let cur = start;
    // The bundle and its launcher entry stand.
    let turn = Turn { event: Event::Kind(PathKind::Directory), world: w0 };
    lemma_upgrade_extends(start, turns, cur, turn);
    let (turns, cur) = (turns.push(turn), upgrade_after(cur, turn));
    let turn = Turn { event: Event::Kind(PathKind::File), world: w0 };
    lemma_upgrade_extends(start, turns, cur, turn);
    let (turns, cur) = (turns.push(turn), upgrade_after(cur, turn));
    // The bundle is moved aside and its directory made anew.
    let turn = Turn { event: Event::Done, world: aside };
    lemma_upgrade_extends(start, turns, cur, turn);
    let (turns, cur) = (turns.push(turn), upgrade_after(cur, turn));
    let turn = Turn { event: Event::Done, world: with_dir(aside, target, t_new) };
    lemma_upgrade_extends(start, turns, cur, turn);
    let (turns, cur) = (turns.push(turn), upgrade_after(cur, turn));
    // The archive is copied in, made executable, and run.
    let turn = Turn { event: Event::Done, world: with_dir(aside, target, t_helper) };
    lemma_upgrade_extends(start, turns, cur, turn);
    let (turns, cur) = (turns.push(turn), upgrade_after(cur, turn));
    let turn = Turn { event: Event::Mode(mode), world: with_dir(aside, target, t_helper) };
    lemma_upgrade_extends(start, turns, cur, turn);
    let (turns, cur) = (turns.push(turn), upgrade_after(cur, turn));
    let turn = Turn { event: Event::Done, world: with_dir(aside, target, t_helper) };
    lemma_upgrade_extends(start, turns, cur, turn);
    let (turns, cur) = (turns.push(turn), upgrade_after(cur, turn));
    let turn = Turn { event: Event::Exit(0), world: with_dir(aside, target, t_extracted) };
    lemma_upgrade_extends(start, turns, cur, turn);
    let (turns, cur) = (turns.push(turn), upgrade_after(cur, turn));
    // The descriptor is found and read.
    let extracted = with_dir(aside, target, t_extracted);
    let turn = Turn { event: Event::Entries(es), world: extracted };
    lemma_upgrade_extends(start, turns, cur, turn);
    let (turns, cur) = (turns.push(turn), upgrade_after(cur, turn));
    let turn = Turn { event: Event::Text(text), world: extracted };
    lemma_upgrade_extends(start, turns, cur, turn);
    let (turns, cur) = (turns.push(turn), upgrade_after(cur, turn));
    // The directory is flattened.
    let turn = Turn { event: Event::Entries(es), world: extracted };
    lemma_upgrade_extends(start, turns, cur, turn);
    let (turns, cur) = (turns.push(turn), upgrade_after(cur, turn));
    let turn = Turn { event: Event::Done, world: with_dir(aside, target, t_cleared) };
    lemma_upgrade_extends(start, turns, cur, turn);
    let (turns, cur) = (turns.push(turn), upgrade_after(cur, turn));
    let turn = Turn { event: Event::Kind(PathKind::Missing), world: with_dir(aside, target, t_cleared) };
    lemma_upgrade_extends(start, turns, cur, turn);
    let (turns, cur) = (turns.push(turn), upgrade_after(cur, turn));
    let turn = Turn { event: Event::Done, world: with_dir(aside, target, t_one) };
    lemma_upgrade_extends(start, turns, cur, turn);
    let (turns, cur) = (turns.push(turn), upgrade_after(cur, turn));
    let turn = Turn { event: Event::Kind(PathKind::Missing), world: with_dir(aside, target, t_one) };
    lemma_upgrade_extends(start, turns, cur, turn);
    let (turns, cur) = (turns.push(turn), upgrade_after(cur, turn));
    let turn = Turn { event: Event::Done, world: with_dir(aside, target, t_two) };
    lemma_upgrade_extends(start, turns, cur, turn);
    let (turns, cur) = (turns.push(turn), upgrade_after(cur, turn));
    let turn = Turn { event: Event::Kind(PathKind::Missing), world: with_dir(aside, target, t_two) };
    lemma_upgrade_extends(start, turns, cur, turn);
    let (turns, cur) = (turns.push(turn), upgrade_after(cur, turn));
    let turn = Turn { event: Event::Done, world: with_dir(aside, target, t_three) };
    lemma_upgrade_extends(start, turns, cur, turn);
    let (turns, cur) = (turns.push(turn), upgrade_after(cur, turn));
    let flat = with_dir(aside, target, t_flat);
    let turn = Turn { event: Event::Done, world: flat };
    lemma_upgrade_extends(start, turns, cur, turn);
    let (turns, cur) = (turns.push(turn), upgrade_after(cur, turn));
    // The executable and the icon are found, and the launcher entry replaced.
    let turn = Turn { event: Event::Entries(es), world: flat };
    lemma_upgrade_extends(start, turns, cur, turn);
    let (turns, cur) = (turns.push(turn), upgrade_after(cur, turn));
    let set_aside = World {
        files: flat.files.remove(s.entry).insert(spare, flat.files[s.entry]),
        ..flat
    };
    let turn = Turn { event: Event::Done, world: set_aside };
    lemma_upgrade_extends(start, turns, cur, turn);
    let (turns, cur) = (turns.push(turn), upgrade_after(cur, turn));
    let content = cur.state.phase->Updating_0.content;
    let written = World { files: set_aside.files.insert(s.entry, content), ..set_aside };
    let turn = Turn { event: Event::Done, world: written };
    lemma_upgrade_extends(start, turns, cur, turn);
    let (turns, cur) = (turns.push(turn), upgrade_after(cur, turn));
    assert(upgrades(start, turns, cur));
}

} // verus!
