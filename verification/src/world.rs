//! A model of the file system that transactions work on, and of what the
//! environment may do when it carries out an action.
//!
//! The model knows two kinds of things by their paths: directories, which are
//! bundles, staging areas and backups, and files, which are launcher entries.
//! Of a directory it knows the entries at its top and, where an archive has
//! been extracted in it, the entries of the extracted tree. It does not say
//! that an action succeeds; it says what holds of the world afterwards when
//! it did, and what may have changed when it did not. The laws of the
//! transactions are proved of every course of events that the model admits.
//!
//! The model is no more than that. A path is a name to it: it does not know
//! that one path can lie inside another, as the directory of a bundle whose
//! name holds a separator would. Between two actions of a transaction
//! nothing changes: nobody else works on the file system meanwhile. And an
//! archive that is run writes its extracted tree and nothing else.

use crate::bundle::DirEntry;
use crate::desktop::Descriptor;
use crate::effects::{entry_path_of, helper_name, nested_name, Command, Event, PathKind};
use crate::extract::{ExtractPhase, ExtractionView};
use crate::layout::{FlattenPhase, FlatteningView};
use crate::publish::published_text;
use vstd::prelude::*;

verus! {

/// An entry of a directory with all it holds: two entries are the same where
/// they agree in kind, permissions and content.
pub struct Item {
    pub directory: bool,
    pub content: Seq<u8>,
}

/// The entries of a directory, by name.
pub type Entries = Map<Seq<char>, Item>;

/// A directory: the entries at its top, but for the extracted tree, and the
/// entries of the extracted tree where there is one.
pub struct Tree {
    pub top: Entries,
    pub nested: Option<Entries>,
}

/// The world: the directories and the files that stand at a path.
pub struct World {
    pub dirs: Map<Seq<char>, Tree>,
    pub files: Map<Seq<char>, Seq<char>>,
}

/// What the environment answered, and the world as it was then.
pub struct Turn {
    pub event: Event,
    pub world: World,
}

/// The directory that holds nothing.
pub open spec fn empty_tree() -> Tree {
    Tree { top: Map::empty(), nested: None }
}

/// What a path leads to.
pub open spec fn kind_of(w: World, path: Seq<char>) -> PathKind {
    if w.dirs.contains_key(path) {
        PathKind::Directory
    } else if w.files.contains_key(path) {
        PathKind::File
    } else {
        PathKind::Missing
    }
}

/// Whether a listing shows exactly the entries `m`, by their names.
pub open spec fn shows(es: Seq<DirEntry>, m: Entries) -> bool {
    &&& forall|i: int| 0 <= i < es.len() ==> m.contains_key(#[trigger] es[i].name@)
    &&& forall|name: Seq<char>|
        m.contains_key(name) ==> exists|i: int| 0 <= i < es.len() && #[trigger] es[i].name@ == name
}

/// Whether the directory has the entry `name`, the extracted tree counting
/// under its own name.
pub open spec fn has_entry(t: Tree, name: Seq<char>) -> bool {
    t.top.contains_key(name) || (name == nested_name() && t.nested is Some)
}

/// The directory without the entry `name`.
pub open spec fn without_entry(t: Tree, name: Seq<char>) -> Tree {
    Tree {
        top: t.top.remove(name),
        nested: if name == nested_name() {
            None
        } else {
            t.nested
        },
    }
}

/// Whether two directories differ at most in the entry `name`.
pub open spec fn same_but(t: Tree, t2: Tree, name: Seq<char>) -> bool {
    t2.top.remove(name) == t.top.remove(name) && (name != nested_name() ==> t2.nested == t.nested)
}

/// Whether two directories have entries of the same names.
pub open spec fn same_names(t: Tree, t2: Tree) -> bool {
    &&& t2.top.dom() == t.top.dom()
    &&& match (t.nested, t2.nested) {
        (Some(m), Some(m2)) => m2.dom() == m.dom(),
        (None, None) => true,
        _ => false,
    }
}

/// A transaction at one moment: its state, the command it has given, and the
/// world in which that command is to be carried out.
pub struct Point<S> {
    pub state: S,
    pub command: Command,
    pub world: World,
}

/// Whether the worlds differ at most in what the directory `dir` holds, and
/// not at all where there is no such directory.
pub open spec fn same_outside(w: World, w2: World, dir: Seq<char>) -> bool {
    &&& w2.files == w.files
    &&& if w.dirs.contains_key(dir) {
        w2.dirs.contains_key(dir) && w2.dirs == w.dirs.insert(dir, w2.dirs[dir])
    } else {
        w2.dirs == w.dirs
    }
}

/// What may happen when the environment carries out `c` in the world `w`:
/// whether it may answer `event` and leave the world `w2`.
pub open spec fn performs(w: World, c: Command, event: Event, w2: World) -> bool {
    match c {
        Command::CreateDir { path } => if event is Done {
            &&& kind_of(w, path) == PathKind::Missing
            &&& w2 == (World { dirs: w.dirs.insert(path, empty_tree()), ..w })
        } else {
            w2 == w
        },
        Command::Rename { from, to } => if event is Done {
            if w.dirs.contains_key(from) {
                &&& !w.files.contains_key(to)
                &&& w2 == (World { dirs: w.dirs.remove(from).insert(to, w.dirs[from]), ..w })
            } else {
                &&& w.files.contains_key(from)
                &&& !w.dirs.contains_key(to)
                &&& w2 == (World { files: w.files.remove(from).insert(to, w.files[from]), ..w })
            }
        } else {
            w2 == w
        },
        Command::RemoveDirAll { path } => {
            &&& w2.files == w.files
            &&& if event is Done {
                w2.dirs == w.dirs.remove(path)
            } else {
                w2.dirs.remove(path) == w.dirs.remove(path)
            }
        },
        Command::RemoveFile { path } => {
            &&& w2.dirs == w.dirs
            &&& if event is Done {
                w2.files == w.files.remove(path)
            } else {
                w2.files == w.files
            }
        },
        Command::WriteFile { path, content } => {
            &&& w2.dirs == w.dirs
            &&& if event is Done {
                !w.dirs.contains_key(path) && w2.files == w.files.insert(path, content)
            } else {
                w2.files.remove(path) == w.files.remove(path)
            }
        },
        Command::Probe { path } => {
            &&& w2 == w
            &&& event matches Event::Kind(kind) ==> kind == kind_of(w, path)
        },
        Command::PlaceHelper { archive, dir } => {
            &&& same_outside(w, w2, dir)
            &&& event is Done ==> w.dirs.contains_key(dir)
            &&& w.dirs.contains_key(dir) ==> same_but(w.dirs[dir], w2.dirs[dir], helper_name())
        },
        Command::ReadHelperMode { dir } => w2 == w,
        Command::SetHelperMode { dir, mode } => {
            &&& same_outside(w, w2, dir)
            &&& w.dirs.contains_key(dir) ==> same_but(w.dirs[dir], w2.dirs[dir], helper_name())
        },
        Command::RunExtractor { dir } => {
            &&& same_outside(w, w2, dir)
            &&& event is Exit ==> w.dirs.contains_key(dir)
            &&& w.dirs.contains_key(dir) ==> w2.dirs[dir].top == w.dirs[dir].top
        },
        Command::ListNested { dir } => {
            &&& w2 == w
            &&& event matches Event::Entries(es) ==> w.dirs.contains_key(dir) && (
            w.dirs[dir].nested matches Some(m) && shows(es@, m))
            &&& event is Absent ==> !w.dirs.contains_key(dir) || w.dirs[dir].nested is None
        },
        Command::ListDir { dir } => {
            &&& w2 == w
            &&& event matches Event::Entries(es) ==> w.dirs.contains_key(dir) && forall|i: int|
                0 <= i < es@.len() ==> has_entry(w.dirs[dir], #[trigger] es@[i].name@)
        },
        Command::ReadNested { dir, name } => w2 == w,
        Command::ProbeEntry { dir, name } => {
            &&& w2 == w
            &&& event matches Event::Kind(kind) ==> (kind == PathKind::Missing <==> !(
            w.dirs.contains_key(dir) && has_entry(w.dirs[dir], name)))
        },
        Command::RemoveEntry { dir, name, recursive } => {
            &&& same_outside(w, w2, dir)
            &&& event is Done ==> w.dirs.contains_key(dir)
            &&& w.dirs.contains_key(dir) ==> if event is Done {
                w2.dirs[dir] == without_entry(w.dirs[dir], name)
            } else {
                same_but(w.dirs[dir], w2.dirs[dir], name)
            }
        },
        Command::Promote { dir, name } => if event is Done {
            &&& same_outside(w, w2, dir)
            &&& w.dirs.contains_key(dir)
            &&& name != nested_name()
            &&& w.dirs[dir].nested matches Some(m) && m.contains_key(name) && w2.dirs[dir] == (Tree {
                top: w.dirs[dir].top.insert(name, m[name]),
                nested: Some(m.remove(name)),
            })
        } else {
            w2 == w
        },
        Command::RemoveNested { dir } => {
            &&& same_outside(w, w2, dir)
            &&& event is Done ==> w.dirs.contains_key(dir)
            &&& w.dirs.contains_key(dir) ==> w2.dirs[dir].top == w.dirs[dir].top && (event is Done
                ==> w2.dirs[dir].nested is None)
        },
        Command::RelaxPermissions { dir } => {
            &&& same_outside(w, w2, dir)
            &&& w.dirs.contains_key(dir) ==> same_names(w.dirs[dir], w2.dirs[dir])
        },
        Command::RefreshRegistry { dir } => w2 == w,
        Command::Confirm { name } => w2 == w,
        Command::Finish(outcome) => w2 == w,
    }
}

/// Whether the text of a launcher entry names, as executable and as icon,
/// entries that the directory `dir` holds.
pub open spec fn points_into(content: Seq<char>, dir: Seq<char>, t: Tree) -> bool {
    exists|d: Descriptor, x: Seq<char>, i: Seq<char>|
        has_entry(t, x) && has_entry(t, i) && content == #[trigger] published_text(
            d,
            entry_path_of(dir, x),
            entry_path_of(dir, i),
        )
}

/// Whether the world is the first world with one directory more, at `path`.
pub open spec fn adds_dir(w: World, w0: World, path: Seq<char>) -> bool {
    &&& kind_of(w0, path) == PathKind::Missing
    &&& w.files == w0.files
    &&& w.dirs.contains_key(path)
    &&& w.dirs.remove(path) == w0.dirs
}

/// Whether the pending command is that of the extraction.
pub open spec fn extraction_pending(x: ExtractionView, c: Command) -> bool {
    match x.phase {
        ExtractPhase::Copying => c matches Command::PlaceHelper { archive, dir } && dir == x.dir,
        ExtractPhase::ReadingMode => c == (Command::ReadHelperMode { dir: x.dir }),
        ExtractPhase::SettingMode => c matches Command::SetHelperMode { dir, mode } && dir
            == x.dir,
        ExtractPhase::Running => c == (Command::RunExtractor { dir: x.dir }),
        ExtractPhase::Closed => false,
    }
}

/// Whether the pending command is that of the flattening.
pub open spec fn flattening_pending(f: FlatteningView, c: Command) -> bool {
    match f.phase {
        FlattenPhase::Listing => c == (Command::ListNested { dir: f.dir }),
        FlattenPhase::ClearingHelper => c matches Command::RemoveEntry { dir, name, recursive }
            && dir == f.dir,
        FlattenPhase::Probing => c matches Command::ProbeEntry { dir, name } && dir == f.dir,
        FlattenPhase::Clearing => c matches Command::RemoveEntry { dir, name, recursive } && dir
            == f.dir,
        FlattenPhase::Promoting => c matches Command::Promote { dir, name } && dir == f.dir,
        FlattenPhase::Removing => c == (Command::RemoveNested { dir: f.dir }),
        FlattenPhase::Closed => false,
    }
}

/// A change inside the added directory leaves it the one directory added.
pub proof fn lemma_inside(w: World, w2: World, w0: World, dir: Seq<char>)
    requires
        adds_dir(w, w0, dir),
        same_outside(w, w2, dir),
    ensures
        adds_dir(w2, w0, dir),
{
    assert(w2.dirs.remove(dir) =~= w.dirs.remove(dir));
}

/// Whether the command works inside the directory `dir`, or changes nothing.
pub open spec fn works_inside(c: Command, dir: Seq<char>) -> bool {
    match c {
        Command::PlaceHelper { archive, dir: d } => d == dir,
        Command::ReadHelperMode { dir: d } => true,
        Command::SetHelperMode { dir: d, mode } => d == dir,
        Command::RunExtractor { dir: d } => d == dir,
        Command::ListNested { dir: d } => true,
        Command::ListDir { dir: d } => true,
        Command::ReadNested { dir: d, name } => true,
        Command::ProbeEntry { dir: d, name } => true,
        Command::RemoveEntry { dir: d, name, recursive } => d == dir,
        Command::Promote { dir: d, name } => d == dir,
        Command::RemoveNested { dir: d } => d == dir,
        Command::RelaxPermissions { dir: d } => d == dir,
        Command::Probe { path } => true,
        Command::RefreshRegistry { dir: d } => true,
        Command::Confirm { name } => true,
        _ => false,
    }
}

/// A command that works inside a directory leaves all else as it is.
pub proof fn lemma_works_inside(w: World, c: Command, turn: Turn, dir: Seq<char>)
    requires
        works_inside(c, dir),
        w.dirs.contains_key(dir),
        performs(w, c, turn.event, turn.world),
    ensures
        same_outside(w, turn.world, dir),
{
    assert(w.dirs =~= w.dirs.insert(dir, w.dirs[dir]));
}

/// Directories with entries of the same names have the same entries, by
/// name.
pub proof fn lemma_same_names(t: Tree, t2: Tree, name: Seq<char>)
    requires
        same_names(t, t2),
    ensures
        has_entry(t2, name) == has_entry(t, name),
{
    assert(t2.top.dom().contains(name) == t.top.dom().contains(name));
}


/// The world `base` with the directory `t` at `dir`.
pub open spec fn with_dir(base: World, dir: Seq<char>, t: Tree) -> World {
    World { dirs: base.dirs.insert(dir, t), ..base }
}

/// Directories put at the same path differ in nothing else.
pub proof fn lemma_with_dir(base: World, dir: Seq<char>, t: Tree, t2: Tree)
    ensures
        same_outside(with_dir(base, dir, t), with_dir(base, dir, t2), dir),
        with_dir(base, dir, t).dirs.contains_key(dir),
        with_dir(base, dir, t).dirs[dir] == t,
{
    assert(with_dir(base, dir, t2).dirs =~= with_dir(base, dir, t).dirs.insert(dir, t2));
}

} // verus!
