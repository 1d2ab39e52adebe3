//! What holds of every flattening, whatever the environment answers.

use crate::bundle::DirEntry;
use crate::effects::{helper_name, nested_name, Command, Event, Outcome};
use crate::layout::{
    flattening_begins, flattening_step, FlattenPhase, FlatteningView,
};
use crate::world::{performs, same_outside, shows, Entries, Point, Tree, Turn, World};
use vstd::prelude::*;

verus! {

/// The point that a flattening comes to by one turn.
pub open spec fn flattening_after(p: Point<FlatteningView>, turn: Turn) -> Point<FlatteningView> {
    let next = flattening_step(p.state, turn.event);
    Point { state: next.0, command: next.1, world: turn.world }
}

/// Whether the flattening goes from the point `from` to the point `to` by the
/// turns `turns`: each turn answers the pending command as the environment
/// may, and no turn follows the end.
pub open spec fn flattens(
    from: Point<FlatteningView>,
    turns: Seq<Turn>,
    to: Point<FlatteningView>,
) -> bool
    decreases turns.len(),
{
    if turns.len() == 0 {
        to == from
    } else {
        let turn = turns.first();
        &&& !(from.command is Finish)
        &&& performs(from.world, from.command, turn.event, turn.world)
        &&& flattens(flattening_after(from, turn), turns.drop_first(), to)
    }
}

/// The point at which the flattening of `dir` begins in the world `w`.
pub open spec fn flattening_start(dir: Seq<char>, w: World) -> Point<FlatteningView> {
    let begin = flattening_begins(dir);
    Point { state: begin.0, command: begin.1, world: w }
}

/// Whether the directory `t2` is the directory `t` flattened: it has no
/// extracted tree any more; every entry of the extracted tree stands at its
/// top; every other entry of its top, but for the helper, is as it was; and
/// the helper is gone where it was removed and the extracted tree had no
/// entry of its name.
pub open spec fn is_flattened(t: Tree, t2: Tree, helper_removed: bool) -> bool {
    t.nested matches Some(m) && {
        &&& t2.nested is None
        &&& forall|n: Seq<char>| #[trigger]
            m.contains_key(n) ==> t2.top.contains_key(n) && t2.top[n] == m[n]
        &&& forall|n: Seq<char>|
            !m.contains_key(n) && n != helper_name() ==> (#[trigger] t2.top.contains_key(n))
                == t.top.contains_key(n) && (t.top.contains_key(n) ==> t2.top[n] == t.top[n])
        &&& helper_removed && !m.contains_key(helper_name()) ==> !t2.top.contains_key(
            helper_name(),
        )
    }
}

/// Whether `n` names one of the first `k` entries of the listing.
spec fn promoted(es: Seq<DirEntry>, k: int, n: Seq<char>) -> bool
    decreases k,
{
    k > 0 && (es[k - 1].name@ == n || promoted(es, k - 1, n))
}

/// Whether the top of the directory is, at the name `n`, what the flattening
/// has made of it so far.
spec fn agrees(top: Entries, t: Tree, m: Entries, es: Seq<DirEntry>, k: int, n: Seq<char>) -> bool {
    if promoted(es, k, n) {
        top.contains_key(n) && top[n] == m[n]
    } else {
        top.contains_key(n) == t.top.contains_key(n) && (t.top.contains_key(n) ==> top[n]
            == t.top[n])
    }
}

/// Whether the top of the directory is what the flattening has made of it so
/// far, but perhaps at the helper and at the name `except`.
spec fn settled(top: Entries, t: Tree, m: Entries, es: Seq<DirEntry>, k: int, except: Option<
    Seq<char>,
>) -> bool {
    forall|n: Seq<char>|
        (n != helper_name() || promoted(es, k, n)) && Some(n) != except ==> #[trigger] agrees(
            top,
            t,
            m,
            es,
            k,
            n,
        )
}

/// Whether the extracted tree holds what has not been moved up yet.
spec fn remains(nested: Option<Entries>, m: Entries, es: Seq<DirEntry>, k: int) -> bool {
    nested matches Some(rest) && forall|n: Seq<char>|
        (#[trigger] rest.contains_key(n)) == (m.contains_key(n) && !promoted(es, k, n)) && (
        rest.contains_key(n) ==> rest[n] == m[n])
}

/// What holds at every point of a flattening that began in the world `w0`.
pub closed spec fn flatten_inv(p: Point<FlatteningView>, w0: World) -> bool {
    let f = p.state;
    let c = p.command;
    let w = p.world;
    let dir = f.dir;
    let t = w0.dirs[dir];
    let tc = w.dirs[dir];
    let es = f.entries;
    let k = f.next as int;
    let started = {
        &&& w0.dirs.contains_key(dir)
        &&& t.nested matches Some(m) && shows(es, m)
        &&& 0 <= k <= es.len() <= usize::MAX
    };
    let m = t.nested->0;
    let helper_gone = f.helper_removed && !promoted(es, k, helper_name()) ==> !tc.top.contains_key(
        helper_name(),
    );
    &&& same_outside(w0, w, dir)
    &&& match f.phase {
        FlattenPhase::Listing => c == (Command::ListNested { dir }) && w == w0,
        FlattenPhase::ClearingHelper => {
            &&& started
            &&& c == (Command::RemoveEntry { dir, name: helper_name(), recursive: false })
            &&& k == 0
            &&& tc == t
        },
        FlattenPhase::Probing => {
            &&& started
            &&& helper_gone
            &&& k < es.len()
            &&& c == (Command::ProbeEntry { dir, name: es[k].name@ })
            &&& settled(tc.top, t, m, es, k, None)
            &&& remains(tc.nested, m, es, k)
        },
        FlattenPhase::Clearing => {
            &&& started
            &&& helper_gone
            &&& k < es.len()
            &&& c matches Command::RemoveEntry { dir: d, name, recursive } && d == dir && name
                == es[k].name@
            &&& settled(tc.top, t, m, es, k, None)
            &&& remains(tc.nested, m, es, k)
        },
        FlattenPhase::Promoting => {
            &&& started
            &&& helper_gone
            &&& k < es.len()
            &&& c == (Command::Promote { dir, name: es[k].name@ })
            &&& settled(tc.top, t, m, es, k, Some(es[k].name@))
            &&& es[k].name@ != nested_name() ==> remains(tc.nested, m, es, k)
        },
        FlattenPhase::Removing => {
            &&& started
            &&& helper_gone
            &&& k == es.len()
            &&& c == (Command::RemoveNested { dir })
            &&& settled(tc.top, t, m, es, k, None)
        },
        FlattenPhase::Closed => {
            &&& c is Finish
            &&& c == Command::Finish(Outcome::Completed) ==> if w0.dirs.contains_key(dir)
                && t.nested is Some {
                is_flattened(t, tc, f.helper_removed)
            } else {
                w == w0
            }
        },
    }
}

/// Every name of a listing names one of its entries.
proof fn lemma_promoted(es: Seq<DirEntry>, k: int, n: Seq<char>)
    requires
        0 <= k <= es.len(),
    ensures
        promoted(es, k, n) <==> exists|i: int| 0 <= i < k && #[trigger] es[i].name@ == n,
    decreases k,
{
    if k > 0 {
        lemma_promoted(es, k - 1, n);
        if promoted(es, k - 1, n) {
            let i = choose|i: int| 0 <= i < k - 1 && #[trigger] es[i].name@ == n;
            assert(es[i].name@ == n);
        }
        if exists|i: int| 0 <= i < k && #[trigger] es[i].name@ == n {
            let i = choose|i: int| 0 <= i < k && #[trigger] es[i].name@ == n;
            if i < k - 1 {
                assert(es[i].name@ == n);
            }
        }
    }
}

/// A flattening begins as it is to go on.
pub proof fn lemma_flatten_begins(dir: Seq<char>, w0: World)
    ensures
        flatten_inv(flattening_start(dir, w0), w0),
{
    if w0.dirs.contains_key(dir) {
        assert(w0.dirs =~= w0.dirs.insert(dir, w0.dirs[dir]));
    }
}

/// What a flattening has come to when it has completed.
pub proof fn lemma_flatten_ends(p: Point<FlatteningView>, w0: World)
    requires
        flatten_inv(p, w0),
        p.command == Command::Finish(Outcome::Completed),
    ensures
        same_outside(w0, p.world, p.state.dir),
        if w0.dirs.contains_key(p.state.dir) && w0.dirs[p.state.dir].nested is Some {
            is_flattened(w0.dirs[p.state.dir], p.world.dirs[p.state.dir], p.state.helper_removed)
        } else {
            p.world == w0
        },
{
}

/// Each turn of a flattening leaves it as it is to go on.
pub proof fn lemma_flatten_turn(p: Point<FlatteningView>, turn: Turn, w0: World)
    requires
        flatten_inv(p, w0),
        !(p.command is Finish),
        performs(p.world, p.command, turn.event, turn.world),
    ensures
        flatten_inv(flattening_after(p, turn), w0),
{
    reveal_strlit("App.AppImage");
    reveal_strlit("squashfs-root");
    assert(helper_name() != nested_name()) by {
        assert(helper_name().len() != nested_name().len());
    }
    let f = p.state;
    let w = p.world;
    let w2 = turn.world;
    let dir = f.dir;
    let t = w0.dirs[dir];
    let tc = w.dirs[dir];
    let tn = w2.dirs[dir];
    let es = f.entries;
    let k = f.next as int;
    let m = t.nested->0;
    if w0.dirs.contains_key(dir) {
        assert(w2.dirs =~= w0.dirs.insert(dir, tn));
    }
    let h = helper_name();
    let fa = flattening_after(p, turn).state;
    // The helper, once removed, is not there until an entry of its name is
    // moved up.
    if f.phase != FlattenPhase::Listing && f.phase != FlattenPhase::Closed
        && w0.dirs.contains_key(dir) {
        if f.phase == FlattenPhase::ClearingHelper {
            if turn.event is Done {
                assert(!tn.top.contains_key(h));
            }
        } else if f.helper_removed && !promoted(es, k, h) {
            assert(!tc.top.contains_key(h));
            if turn.event is Done && k < es.len() && es[k].name@ != h {
                assert(!tn.top.contains_key(h));
            }
        }
        assert(fa.helper_removed && !promoted(es, fa.next as int, h) && fa.phase
            != FlattenPhase::Closed ==> !tn.top.contains_key(h));
    }
    match f.phase {
        FlattenPhase::Listing => {
            if let Event::Entries(entries) = turn.event {
                assert(entries@.len() == entries.len());
            }
        },
        FlattenPhase::ClearingHelper => {
            assert forall|n: Seq<char>| n != helper_name() implies #[trigger] agrees(
                tn.top,
                t,
                m,
                es,
                0,
                n,
            ) by {
                assert(tn.top.remove(helper_name()).contains_key(n) == tn.top.contains_key(n));
                assert(tc.top.remove(helper_name()).contains_key(n) == tc.top.contains_key(n));
                assert(tn.top.remove(helper_name())[n] == tn.top[n]);
                assert(tc.top.remove(helper_name())[n] == tc.top[n]);
            }
            assert(settled(tn.top, t, m, es, 0, None));
            assert(remains(tn.nested, m, es, 0));
        },
        FlattenPhase::Probing => {
        },
        FlattenPhase::Clearing => {
            if turn.event is Done {
                let name = es[k].name@;
                assert forall|n: Seq<char>|
                    (n != helper_name() || promoted(es, k, n)) && n != name implies #[trigger] agrees(
                    tn.top,
                    t,
                    m,
                    es,
                    k,
                    n,
                ) by {
                    assert(agrees(tc.top, t, m, es, k, n));
                }
            }
        },
        FlattenPhase::Promoting => {
            if turn.event is Done {
                let name = es[k].name@;
                let rest = tc.nested->0;
                assert(rest.contains_key(name));
                assert forall|n: Seq<char>|
                    (n != helper_name() || promoted(es, k + 1, n)) implies #[trigger] agrees(
                    tn.top,
                    t,
                    m,
                    es,
                    k + 1,
                    n,
                ) by {
                    if n != name {
                        assert(agrees(tc.top, t, m, es, k, n));
                    }
                }
                assert(settled(tn.top, t, m, es, k + 1, None));
                assert(remains(tn.nested, m, es, k + 1)) by {
                    let rest2 = tn.nested->0;
                    assert forall|n: Seq<char>|
                        (#[trigger] rest2.contains_key(n)) == (m.contains_key(n) && !promoted(
                            es,
                            k + 1,
                            n,
                        )) && (rest2.contains_key(n) ==> rest2[n] == m[n]) by {
                        assert(rest.contains_key(n) == (m.contains_key(n) && !promoted(es, k, n)));
                    }
                }
            }
        },
        FlattenPhase::Removing => {
            if turn.event is Done {
                lemma_promoted(es, k, h);
                if promoted(es, k, h) {
                    let i = choose|i: int| 0 <= i < k && #[trigger] es[i].name@ == h;
                    assert(m.contains_key(es[i].name@));
                }
                assert forall|n: Seq<char>| #[trigger] m.contains_key(n) implies tn.top.contains_key(
                    n,
                ) && tn.top[n] == m[n] by {
                    let i = choose|i: int| 0 <= i < es.len() && #[trigger] es[i].name@ == n;
                    lemma_promoted(es, k, n);
                    assert(agrees(tc.top, t, m, es, k, n));
                }
                assert forall|n: Seq<char>| !m.contains_key(n) && n != helper_name() implies (
                #[trigger] tn.top.contains_key(n)) == t.top.contains_key(n) && (t.top.contains_key(
                    n,
                ) ==> tn.top[n] == t.top[n]) by {
                    lemma_promoted(es, k, n);
                    assert(agrees(tc.top, t, m, es, k, n));
                }
            }
        },
        FlattenPhase::Closed => {},
    }
}

proof fn lemma_flatten_run(
    from: Point<FlatteningView>,
    turns: Seq<Turn>,
    to: Point<FlatteningView>,
    w0: World,
)
    requires
        flattens(from, turns, to),
        flatten_inv(from, w0),
    ensures
        flatten_inv(to, w0),
        to.state.dir == from.state.dir,
    decreases turns.len(),
{
    if turns.len() > 0 {
        let turn = turns.first();
        lemma_flatten_turn(from, turn, w0);
        lemma_flatten_run(
            flattening_after(from, turn),
            turns.drop_first(),
            to,
            w0,
        );
    }
}

/// What a completed flattening has done. Outside the directory nothing has
/// changed. A directory without an extracted tree is as it was, so that to
/// flatten a second time changes nothing. A directory with one is flattened:
/// the extracted tree is gone, each of its entries stands at the top of the
/// directory, what else stood there, but for the helper, is as it was, and
/// the helper is gone where its removal succeeded, unless the extracted tree
/// had an entry of its name.
pub proof fn lemma_flattening_normalizes(
    dir: Seq<char>,
    w0: World,
    turns: Seq<Turn>,
    end: Point<FlatteningView>,
)
    requires
        flattens(flattening_start(dir, w0), turns, end),
        end.command == Command::Finish(Outcome::Completed),
    ensures
        same_outside(w0, end.world, dir),
        if w0.dirs.contains_key(dir) && w0.dirs[dir].nested is Some {
            is_flattened(w0.dirs[dir], end.world.dirs[dir], end.state.helper_removed)
        } else {
            end.world == w0
        },
{
    lemma_flatten_begins(dir, w0);
    lemma_flatten_run(flattening_start(dir, w0), turns, end, w0);
    lemma_flatten_ends(end, w0);
}

} // verus!
