//! Paths as texts: joining, extensions, the directories a transaction works
//! in, and the user's directories as the environment gives them.

use crate::text::{followed_by, from_chars, has_prefix, hyphenate, hyphenated, lowercase, lowercase_of, starts_with, to_chars};
use vstd::prelude::*;

verus! {

/// What `Path::parent` returns for the path `path`, as text.
pub uninterp spec fn parent_of(path: Seq<char>) -> Option<Seq<char>>;

/// What `Path::file_stem` returns for the path `path`, as text.
pub uninterp spec fn file_stem_of(path: Seq<char>) -> Option<Seq<char>>;

/// The text of an optional string.
pub open spec fn text_of(o: Option<String>) -> Option<Seq<char>> {
    match o {
        Some(s) => Some(s@),
        None => None,
    }
}

/// The text of an optional string slice.
pub open spec fn text_of_str(o: Option<&str>) -> Option<Seq<char>> {
    match o {
        Some(s) => Some(s@),
        None => None,
    }
}

/// `rel` adjoined to `base`, as `Path::join` does it on Unix: an absolute
/// `rel` replaces `base`; otherwise `rel` follows `base`, after a separator
/// unless `base` is empty or ends with one.
pub open spec fn joined(base: Seq<char>, rel: Seq<char>) -> Seq<char> {
    if rel.len() > 0 && rel.first() == '/' {
        rel
    } else if base.len() > 0 && base.last() != '/' {
        base + seq!['/'] + rel
    } else {
        base + rel
    }
}

/// The index of the last `c` in `s`, or -1 where there is none.
pub open spec fn last_index_of(s: Seq<char>, c: char) -> int
    decreases s.len(),
{
    if s.len() == 0 {
        -1
    } else if s.last() == c {
        s.len() - 1
    } else {
        last_index_of(s.drop_last(), c)
    }
}

/// The extension of the file name `name`, as `Path::extension` defines it:
/// what follows the last dot, unless there is no dot, the only dot leads the
/// name, or the name is `..`.
pub open spec fn extension_of(name: Seq<char>) -> Option<Seq<char>> {
    let dot = last_index_of(name, '.');
    if dot <= 0 || name == seq!['.', '.'] {
        None
    } else {
        Some(name.skip(dot + 1))
    }
}

/// The home directory that counts: the reported one, except that under
/// privilege escalation (the reported home is the superuser's and the
/// escalating user is known) it is that user's; with no reported home, the
/// escalating user's, else the superuser's.
pub open spec fn effective_home_of(home: Option<Seq<char>>, sudo_user: Option<Seq<char>>) -> Seq<
    char,
> {
    match (home, sudo_user) {
        (Some(h), Some(u)) => if h == "/root"@ {
            "/home/"@ + u
        } else {
            h
        },
        (Some(h), None) => h,
        (None, Some(u)) => "/home/"@ + u,
        (None, None) => "/root"@,
    }
}

/// The directory where launcher entries are published.
pub open spec fn applications_dir_of(
    data_home: Option<Seq<char>>,
    home: Option<Seq<char>>,
    sudo_user: Option<Seq<char>>,
) -> Seq<char> {
    match data_home {
        Some(d) => joined(d, "applications"@),
        None => joined(effective_home_of(home, sudo_user), ".local/share/applications"@),
    }
}

/// `path` with a leading `~/` replaced by the home directory `home`.
pub open spec fn tilde_expanded(path: Seq<char>, home: Seq<char>) -> Seq<char> {
    if has_prefix(path, "~/"@) {
        joined(home, path.skip(2))
    } else {
        path
    }
}

/// The slug of a display name: lower-cased, spaces turned into hyphens.
pub open spec fn slug_of(name: Seq<char>) -> Seq<char> {
    hyphenated(lowercase_of(name))
}

/// The directory of the bundle with the given slug (or of a staging area or a
/// backup with the given identifier), directly under the bundles' root.
pub open spec fn bundle_dir_of(slug: Seq<char>) -> Seq<char> {
    "/opt/"@ + slug
}

/// The launcher entry file of the bundle with the given slug.
pub open spec fn entry_file_of(applications_dir: Seq<char>, slug: Seq<char>) -> Seq<char> {
    joined(applications_dir, slug + ".desktop"@)
}

/// The parent of a path, by `Path::parent`. Nothing is claimed of it but that
/// it is what `parent_of` names: it depends on the path alone.
#[verifier::external_body]
pub(crate) fn parent(path: &str) -> (r: Option<String>)
    ensures
        text_of(r) == parent_of(path@),
{
    std::path::Path::new(path).parent().map(|p| p.to_string_lossy().into_owned())
}

/// The stem of a path's file name, by `Path::file_stem`. Nothing is claimed
/// of it but that it is what `file_stem_of` names: it depends on the path
/// alone.
#[verifier::external_body]
pub(crate) fn file_stem(path: &str) -> (r: Option<String>)
    ensures
        text_of(r) == file_stem_of(path@),
{
    std::path::Path::new(path).file_stem().map(|p| p.to_string_lossy().into_owned())
}

/// Whether two texts are the same.
pub fn same_text(a: &str, b: &str) -> (r: bool)
    ensures
        r == (a@ == b@),
{
    a.to_owned() == b.to_owned()
}

/// `rel` adjoined to `base`.
pub fn join_path(base: &str, rel: &str) -> (r: String)
    ensures
        r@ == joined(base@, rel@),
{
    let b = to_chars(base);
    let l = to_chars(rel);
    if l.len() > 0 && l[0] == '/' {
        rel.to_owned()
    } else if b.len() > 0 && b[b.len() - 1] != '/' {
        proof {
            reveal_strlit("/");
            assert("/"@ == seq!['/']);
        }
        followed_by(followed_by(base, "/").as_str(), rel)
    } else {
        followed_by(base, rel)
    }
}

/// The extension of a file name.
pub fn extension(name: &str) -> (r: Option<String>)
    ensures
        text_of(r) == extension_of(name@),
{
    let v = to_chars(name);
    let n = v.len();
    let mut i: usize = n;
    assert(v@.subrange(0, n as int) == v@);
    while i > 0 && v[i - 1] != '.'
        invariant
            i <= n == v.len(),
            last_index_of(v@, '.') == last_index_of(v@.subrange(0, i as int), '.'),
        decreases i,
    {
        assert(v@.subrange(0, i as int).drop_last() == v@.subrange(0, i - 1));
        i -= 1;
    }
    if i <= 1 || (n == 2 && v[0] == '.' && v[1] == '.') {
        proof {
            if n == 2 && v[0] == '.' && v[1] == '.' {
                assert(v@ == seq!['.', '.']);
            }
        }
        None
    } else {
        assert(v@ != seq!['.', '.']) by {
            if v@ == seq!['.', '.'] {
                assert(seq!['.', '.'].len() == 2);
                assert(v@[0] == seq!['.', '.'][0]);
                assert(v@[1] == seq!['.', '.'][1]);
            }
        }
        Some(from_chars(&v, i, n))
    }
}

/// The slug of a display name.
pub fn slug(name: &str) -> (r: String)
    ensures
        r@ == slug_of(name@),
{
    hyphenate(lowercase(name).as_str())
}

/// The directory of a bundle, a staging area or a backup under the bundles'
/// root.
pub fn bundle_dir(slug: &str) -> (r: String)
    ensures
        r@ == bundle_dir_of(slug@),
{
    followed_by("/opt/", slug)
}

/// The launcher entry file of a bundle.
pub fn entry_file(applications_dir: &str, slug: &str) -> (r: String)
    ensures
        r@ == entry_file_of(applications_dir@, slug@),
{
    join_path(applications_dir, followed_by(slug, ".desktop").as_str())
}

/// The home directory that counts, from the reported home (`HOME`) and the
/// user who escalated their privileges (`SUDO_USER`).
pub fn effective_home(home: Option<&str>, sudo_user: Option<&str>) -> (r: String)
    ensures
        r@ == effective_home_of(text_of_str(home), text_of_str(sudo_user)),
{
    match (home, sudo_user) {
        (Some(h), Some(u)) => {
            if same_text(h, "/root") {
                followed_by("/home/", u)
            } else {
                h.to_owned()
            }
        },
        (Some(h), None) => h.to_owned(),
        (None, Some(u)) => followed_by("/home/", u),
        (None, None) => "/root".to_owned(),
    }
}

/// The directory where launcher entries are published: `applications` under
/// the data-home override (`XDG_DATA_HOME`) where there is one, else
/// `.local/share/applications` under the effective home directory.
pub fn get_applications_dir(
    data_home: Option<&str>,
    home: Option<&str>,
    sudo_user: Option<&str>,
) -> (r: String)
    ensures
        r@ == applications_dir_of(
            text_of_str(data_home),
            text_of_str(home),
            text_of_str(sudo_user),
        ),
{
    match data_home {
        Some(d) => join_path(d, "applications"),
        None => join_path(effective_home(home, sudo_user).as_str(), ".local/share/applications"),
    }
}

/// `path` with a leading `~/` replaced by the home directory `home`; any
/// other path unchanged.
pub fn expand_tilde(path: &str, home: &str) -> (r: String)
    ensures
        r@ == tilde_expanded(path@, home@),
        !has_prefix(path@, "~/"@) ==> r@ == path@,
{
    if starts_with(path, "~/") {
        proof {
            reveal_strlit("~/");
        }
        let n = path.unicode_len();
        let rest = path.substring_char(2, n);
        assert(rest@ == path@.skip(2));
        join_path(home, rest)
    } else {
        path.to_owned()
    }
}

/// What the environment says of the user's directories.
#[derive(Clone, Debug, PartialEq, Eq)]
pub struct Environment {
    /// The data-home override (`XDG_DATA_HOME`).
    pub data_home: Option<String>,
    /// The reported home directory (`HOME`).
    pub home: Option<String>,
    /// The user who escalated their privileges (`SUDO_USER`).
    pub sudo_user: Option<String>,
}

/// An environment, with texts in place of strings.
pub struct EnvironmentView {
    pub data_home: Option<Seq<char>>,
    pub home: Option<Seq<char>>,
    pub sudo_user: Option<Seq<char>>,
}

impl View for Environment {
    type V = EnvironmentView;

    open spec fn view(&self) -> EnvironmentView {
        EnvironmentView {
            data_home: text_of(self.data_home),
            home: text_of(self.home),
            sudo_user: text_of(self.sudo_user),
        }
    }
}

/// An optional string as an optional slice.
pub fn as_text(o: &Option<String>) -> (r: Option<&str>)
    ensures
        text_of_str(r) == text_of(*o),
{
    match o {
        Some(s) => Some(s.as_str()),
        None => None,
    }
}

impl Environment {
    /// The home directory that counts.
    pub fn effective_home(&self) -> (r: String)
        ensures
            r@ == effective_home_of(self@.home, self@.sudo_user),
    {
        effective_home(as_text(&self.home), as_text(&self.sudo_user))
    }

    /// The directory where launcher entries are published.
    pub fn applications_dir(&self) -> (r: String)
        ensures
            r@ == applications_dir_of(self@.data_home, self@.home, self@.sudo_user),
    {
        get_applications_dir(
            as_text(&self.data_home),
            as_text(&self.home),
            as_text(&self.sudo_user),
        )
    }
}

/// The launcher entry of a bundle is not its directory.
pub proof fn lemma_entry_is_not_bundle(applications_dir: Seq<char>, slug: Seq<char>)
    ensures
        entry_file_of(applications_dir, slug) != bundle_dir_of(slug),
{
    reveal_strlit("/opt/");
    reveal_strlit(".desktop");
    let name = slug + ".desktop"@;
    assert(name.len() == slug.len() + 8);
    assert(joined(applications_dir, name).len() >= name.len());
    assert(bundle_dir_of(slug).len() == slug.len() + 5);
}

} // verus!
