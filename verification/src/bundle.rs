//! What a bundle directory holds: the descriptor, the entry executable and
//! the icon, each the first qualifying entry of a directory listing.

use crate::paths::{extension, extension_of, same_text};
use vstd::prelude::*;

verus! {

/// One entry of a directory listing: its file name, whether it is a regular
/// file, and its permission bits.
#[derive(Clone, Debug, PartialEq, Eq)]
pub struct DirEntry {
    pub name: String,
    pub is_file: bool,
    pub mode: u32,
}

/// What is looked for in a bundle directory.
#[derive(Clone, Copy, PartialEq, Eq, Structural, Debug)]
pub enum Wanted {
    Descriptor,
    Executable,
    Icon,
}

/// Whether an extension is that of a supported image format.
pub open spec fn is_image_extension(ext: Seq<char>) -> bool {
    ext == "png"@ || ext == "jpg"@ || ext == "svg"@
}

/// Whether a listing entry is what is looked for: a descriptor is a regular
/// file with the extension `desktop`; an executable is a regular file without
/// extension that somebody may execute; an icon is a regular file with the
/// extension of an image format.
pub open spec fn qualifies(e: DirEntry, wanted: Wanted) -> bool {
    e.is_file && match wanted {
        Wanted::Descriptor => extension_of(e.name@) == Some("desktop"@),
        Wanted::Executable => extension_of(e.name@) is None && e.mode & 0o111 != 0,
        Wanted::Icon => extension_of(e.name@) matches Some(ext) && is_image_extension(ext),
    }
}

/// Whether `r` is the place of the first entry of `es` that qualifies, or
/// `None` where none does.
pub open spec fn is_first(es: Seq<DirEntry>, wanted: Wanted, r: Option<usize>) -> bool {
    match r {
        Some(i) => i < es.len() && qualifies(es[i as int], wanted) && forall|j: int|
            0 <= j < i ==> !qualifies(#[trigger] es[j], wanted),
        None => forall|j: int| 0 <= j < es.len() ==> !qualifies(#[trigger] es[j], wanted),
    }
}

/// The place of the first qualifying entry of a listing.
pub open spec fn first_of(es: Seq<DirEntry>, wanted: Wanted) -> Option<usize>
    decreases es.len(),
{
    if es.len() == 0 {
        None
    } else {
        match first_of(es.drop_last(), wanted) {
            Some(i) => Some(i),
            None => if qualifies(es.last(), wanted) {
                Some((es.len() - 1) as usize)
            } else {
                None
            },
        }
    }
}

/// The first qualifying entry qualifies, and no entry before it does.
pub proof fn lemma_first_of(es: Seq<DirEntry>, wanted: Wanted)
    requires
        es.len() <= usize::MAX,
    ensures
        is_first(es, wanted, first_of(es, wanted)),
    decreases es.len(),
{
    if es.len() > 0 {
        lemma_first_of(es.drop_last(), wanted);
        match first_of(es.drop_last(), wanted) {
            Some(i) => {
                assert(es.drop_last()[i as int] == es[i as int]);
                assert forall|j: int| 0 <= j < i implies !qualifies(#[trigger] es[j], wanted) by {
                    assert(es.drop_last()[j] == es[j]);
                }
            },
            None => {
                assert forall|j: int| 0 <= j < es.len() - 1 implies !qualifies(
                    #[trigger] es[j],
                    wanted,
                ) by {
                    assert(es.drop_last()[j] == es[j]);
                }
            },
        }
    }
}

/// Whether the entry is what is looked for.
pub fn entry_qualifies(e: &DirEntry, wanted: Wanted) -> (r: bool)
    ensures
        r == qualifies(*e, wanted),
{
    if !e.is_file {
        return false;
    }
    let ext = extension(e.name.as_str());
    match wanted {
        Wanted::Descriptor => match ext {
            Some(x) => same_text(x.as_str(), "desktop"),
            None => false,
        },
        Wanted::Executable => ext.is_none() && e.mode & 0o111 != 0,
        Wanted::Icon => match ext {
            Some(x) => same_text(x.as_str(), "png") || same_text(x.as_str(), "jpg") || same_text(
                x.as_str(),
                "svg",
            ),
            None => false,
        },
    }
}

/// The place of the first entry of the listing that is what is looked for.
pub fn find(es: &Vec<DirEntry>, wanted: Wanted) -> (r: Option<usize>)
    ensures
        is_first(es@, wanted, r),
        r == first_of(es@, wanted),
{
    let mut i: usize = 0;
    while i < es.len()
        invariant
            i <= es.len(),
            first_of(es@.take(i as int), wanted) is None,
        decreases es.len() - i,
    {
        assert(es@.take(i + 1).drop_last() == es@.take(i as int));
        if entry_qualifies(&es[i], wanted) {
            proof {
                lemma_first_rest(es@, wanted, i + 1);
                lemma_first_of(es@, wanted);
            }
            return Some(i);
        }
        i += 1;
    }
    proof {
        assert(es@.take(es.len() as int) == es@);
        lemma_first_of(es@, wanted);
    }
    None
}

/// What qualifies first among the first `n` entries does so in the whole
/// listing.
proof fn lemma_first_rest(es: Seq<DirEntry>, wanted: Wanted, n: int)
    requires
        0 <= n <= es.len(),
        first_of(es.take(n), wanted) is Some,
    ensures
        first_of(es, wanted) == first_of(es.take(n), wanted),
    decreases es.len() - n,
{
    if n < es.len() {
        assert(es.take(n + 1).drop_last() == es.take(n));
        lemma_first_rest(es, wanted, n + 1);
    } else {
        assert(es.take(n) == es);
    }
}

/// The first regular file of the listing whose extension is `desktop`.
pub fn find_desktop_file(es: &Vec<DirEntry>) -> (r: Option<usize>)
    ensures
        is_first(es@, Wanted::Descriptor, r),
        r == first_of(es@, Wanted::Descriptor),
{
    find(es, Wanted::Descriptor)
}

/// The first regular file of the listing that has no extension and an
/// execute bit, of the owner, the group or the others.
pub fn find_executable(es: &Vec<DirEntry>) -> (r: Option<usize>)
    ensures
        is_first(es@, Wanted::Executable, r),
        r == first_of(es@, Wanted::Executable),
{
    find(es, Wanted::Executable)
}

/// The first regular file of the listing whose extension is that of an image
/// format.
pub fn find_icon(es: &Vec<DirEntry>) -> (r: Option<usize>)
    ensures
        is_first(es@, Wanted::Icon, r),
        r == first_of(es@, Wanted::Icon),
{
    find(es, Wanted::Icon)
}

} // verus!
