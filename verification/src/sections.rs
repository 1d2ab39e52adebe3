//! The sections of a descriptor, as the `ini` crate reads them.
//!
//! The parser is the outside crate's; what this module adds is the type the
//! rest of the crate reads the result in, and the test that keeps texts away
//! from the parser on which it would abort.

use crate::paths::text_of;
use crate::text::{lowercase_of, to_chars};
use vstd::prelude::*;

verus! {

/// One key of a section, with its value where the line had a delimiter.
#[derive(Clone, Debug, PartialEq, Eq)]
pub struct Entry {
    pub key: String,
    pub value: Option<String>,
}

/// One section: its name and its keys, a later key overriding an earlier one
/// of the same name.
#[derive(Clone, Debug, PartialEq, Eq)]
pub struct Section {
    pub name: String,
    pub entries: Vec<Entry>,
}

/// The keys of one section, each with its optional value.
pub type Keys = Map<Seq<char>, Option<Seq<char>>>;

/// The sections of a descriptor, by name.
pub type Sections = Map<Seq<char>, Keys>;

/// What `ini::macro_safe_read` returns for the text `text`: the sections it
/// reads, or `None` where it reports an error.
pub uninterp spec fn ini_sections(text: Seq<char>) -> Option<Sections>;

/// Whether `t` is a lower-cased text: what `str::to_lowercase` returns for
/// some text.
pub open spec fn is_lowercased(t: Seq<char>) -> bool {
    exists|s: Seq<char>| t == #[trigger] lowercase_of(s)
}

/// Whether the names of the sections and their keys are lower-cased texts.
pub open spec fn names_are_lowercased(m: Sections) -> bool {
    forall|n: Seq<char>| #[trigger]
        m.contains_key(n) ==> is_lowercased(n) && forall|k: Seq<char>| #[trigger]
            m[n].contains_key(k) ==> is_lowercased(k)
}

/// The keys that a list of entries defines.
pub open spec fn entries_map(es: Seq<Entry>) -> Keys
    decreases es.len(),
{
    if es.len() == 0 {
        Map::empty()
    } else {
        entries_map(es.drop_last()).insert(es.last().key@, text_of(es.last().value))
    }
}

/// The sections that a list of sections defines.
pub open spec fn sections_map(ss: Seq<Section>) -> Sections
    decreases ss.len(),
{
    if ss.len() == 0 {
        Map::empty()
    } else {
        sections_map(ss.drop_last()).insert(ss.last().name@, entries_map(ss.last().entries@))
    }
}

/// The sections of an optional list.
pub open spec fn sections_of(r: Option<Vec<Section>>) -> Option<Sections> {
    match r {
        Some(ss) => Some(sections_map(ss@)),
        None => None,
    }
}

/// What has been seen of the current line, before any comment sign: an
/// opening bracket, a closing bracket before the first opening one, a closing
/// bracket after it.
pub struct LineScan {
    pub comment: bool,
    pub opened: bool,
    pub early: bool,
    pub late: bool,
}

/// The scan of an empty line.
pub open spec fn fresh_line() -> LineScan {
    LineScan { comment: false, opened: false, early: false, late: false }
}

/// The scan of a line after one more character, which is no line feed.
pub open spec fn scan_char(st: LineScan, c: char) -> LineScan {
    if st.comment {
        st
    } else if c == ';' || c == '#' {
        LineScan { comment: true, ..st }
    } else if c == '[' {
        LineScan { opened: true, ..st }
    } else if c == ']' {
        if st.opened {
            LineScan { late: true, ..st }
        } else {
            LineScan { early: true, ..st }
        }
    } else {
        st
    }
}

/// Whether a line has an opening bracket and closing brackets only before it.
pub open spec fn misordered(st: LineScan) -> bool {
    st.opened && st.early && !st.late
}

/// The scan of the last, unfinished line of `s`, and whether a line before it
/// was misordered.
pub open spec fn scan(s: Seq<char>) -> (LineScan, bool)
    decreases s.len(),
{
    if s.len() == 0 {
        (fresh_line(), false)
    } else {
        let (st, bad) = scan(s.drop_last());
        if s.last() == '\n' {
            (fresh_line(), bad || misordered(st))
        } else {
            (scan_char(st, s.last()), bad)
        }
    }
}

/// Whether no line of `s` has, before its first comment sign, an opening
/// bracket with closing brackets only before it. The parser takes the section
/// name from between the first opening and the last closing bracket of a
/// line, and aborts where that stretch would be negative.
pub open spec fn brackets_in_order(s: Seq<char>) -> bool {
    !scan(s).1 && !misordered(scan(s).0)
}

/// Reads the sections of an ini text by `ini::macro_safe_read`: the result,
/// read as a map in which a later entry overrides an earlier one, is what the
/// parser returned, and `None` stands for its error. The parser lower-cases
/// the name of every section and every key, so each is a lower-cased text.
/// Texts with a line whose brackets are out of order are left out: on those
/// the parser aborts.
#[verifier::external_body]
pub(crate) fn read_sections(text: &str) -> (r: Option<Vec<Section>>)
    requires
        brackets_in_order(text@),
    ensures
        sections_of(r) == ini_sections(text@),
        r matches Some(ss) ==> names_are_lowercased(sections_map(ss@)),
{
    match ini::macro_safe_read(text) {
        Ok(map) => Some(
            map.into_iter().map(
                |(name, keys)| Section {
                    name,
                    entries: keys.into_iter().map(|(key, value)| Entry { key, value }).collect(),
                },
            ).collect(),
        ),
        Err(_) => None,
    }
}

/// Whether the brackets of every line of `text` are in order.
pub fn brackets_ordered(text: &str) -> (r: bool)
    ensures
        r == brackets_in_order(text@),
{
    let v = to_chars(text);
    let mut st = LineScan { comment: false, opened: false, early: false, late: false };
    let mut bad = false;
    let mut i: usize = 0;
    while i < v.len()
        invariant
            i <= v.len(),
            (st, bad) == scan(v@.take(i as int)),
        decreases v.len() - i,
    {
        assert(v@.take(i + 1).drop_last() == v@.take(i as int));
        let c = v[i];
        if c == '\n' {
            bad = bad || (st.opened && st.early && !st.late);
            st = LineScan { comment: false, opened: false, early: false, late: false };
        } else if st.comment {
        } else if c == ';' || c == '#' {
            st.comment = true;
        } else if c == '[' {
            st.opened = true;
        } else if c == ']' {
            if st.opened {
                st.late = true;
            } else {
                st.early = true;
            }
        }
        i += 1;
    }
    assert(v@.take(v.len() as int) == v@);
    !bad && !(st.opened && st.early && !st.late)
}

/// The sections of an ini text: `None` where the brackets of a line are out
/// of order or the parser reports an error.
pub fn parse_sections(text: &str) -> (r: Option<Vec<Section>>)
    ensures
        sections_of(r) == if brackets_in_order(text@) {
            ini_sections(text@)
        } else {
            None
        },
        r matches Some(ss) ==> names_are_lowercased(sections_map(ss@)),
{
    if brackets_ordered(text) {
        read_sections(text)
    } else {
        None
    }
}

/// The place of the last section named `name`, which is the one that counts.
pub fn find_section(ss: &Vec<Section>, name: &str) -> (r: Option<usize>)
    ensures
        r is Some <==> sections_map(ss@).contains_key(name@),
        r matches Some(i) ==> i < ss.len() && ss[i as int].name@ == name@ && sections_map(
            ss@,
        )[name@] == entries_map(ss[i as int].entries@),
{
    let mut i: usize = ss.len();
    assert(ss@.take(i as int) == ss@);
    while i > 0
        invariant
            i <= ss.len(),
            sections_map(ss@).contains_key(name@) == sections_map(ss@.take(i as int)).contains_key(
                name@,
            ),
            sections_map(ss@).contains_key(name@) ==> sections_map(ss@)[name@] == sections_map(
                ss@.take(i as int),
            )[name@],
        decreases i,
    {
        assert(ss@.take(i as int).drop_last() == ss@.take(i - 1));
        assert(ss@.take(i as int).last() == ss@[i - 1]);
        if crate::paths::same_text(ss[i - 1].name.as_str(), name) {
            return Some(i - 1);
        }
        i -= 1;
    }
    None
}

/// The place of the last entry with the key `key`, which is the one that
/// counts.
pub fn find_entry(es: &Vec<Entry>, key: &str) -> (r: Option<usize>)
    ensures
        r is Some <==> entries_map(es@).contains_key(key@),
        r matches Some(i) ==> i < es.len() && es[i as int].key@ == key@ && entries_map(es@)[key@]
            == text_of(es[i as int].value),
{
    let mut i: usize = es.len();
    assert(es@.take(i as int) == es@);
    while i > 0
        invariant
            i <= es.len(),
            entries_map(es@).contains_key(key@) == entries_map(es@.take(i as int)).contains_key(
                key@,
            ),
            entries_map(es@).contains_key(key@) ==> entries_map(es@)[key@] == entries_map(
                es@.take(i as int),
            )[key@],
        decreases i,
    {
        assert(es@.take(i as int).drop_last() == es@.take(i - 1));
        assert(es@.take(i as int).last() == es@[i - 1]);
        if crate::paths::same_text(es[i - 1].key.as_str(), key) {
            return Some(i - 1);
        }
        i -= 1;
    }
    None
}

} // verus!
