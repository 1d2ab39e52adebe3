//! The launcher descriptor of a bundle: its required name, and the text of
//! the launcher entry that is published for it.

use crate::paths::{entry_file, entry_file_of, same_text, slug, slug_of, text_of, text_of_str};
use crate::sections::{
    brackets_in_order, entries_map, find_entry, find_section, ini_sections,
    names_are_lowercased, parse_sections, sections_map, Entry, Keys, Section, Sections,
};
use crate::text::{
    ascii_upper, comes_before, lemma_precedes_asymmetric, lemma_precedes_irreflexive,
    lemma_precedes_total, lemma_precedes_transitive, precedes, push_char, to_ascii_upper,
    to_chars, trim, trimmed,
};
use vstd::prelude::*;

verus! {

/// Why a descriptor yields no bundle metadata.
#[derive(Clone, Copy, PartialEq, Eq, Structural, Debug)]
pub enum DescriptorError {
    /// The text is no readable descriptor.
    Malformed,
    /// The recognised section has no name, or one that is empty once trimmed.
    MissingName,
}

/// The descriptor that a bundle ships: its display name and its sections.
#[derive(Clone, Debug, PartialEq, Eq)]
pub struct Desktop {
    pub name: String,
    pub content: Vec<Section>,
}

/// The value of the key `name` in the section `desktop entry`, where the
/// section has that key with a value.
pub open spec fn name_in(m: Sections) -> Option<Seq<char>> {
    if m.contains_key("desktop entry"@) && m["desktop entry"@].contains_key("name"@) {
        m["desktop entry"@]["name"@]
    } else {
        None
    }
}

/// The keys of the section `desktop entry`, none where there is no such
/// section.
pub open spec fn recognized_keys(m: Sections) -> Keys {
    if m.contains_key("desktop entry"@) {
        m["desktop entry"@]
    } else {
        Map::empty()
    }
}

/// `s` trimmed, where that leaves anything.
pub open spec fn non_empty_of(o: Option<Seq<char>>) -> Option<Seq<char>> {
    match o {
        Some(s) => if trimmed(s).len() == 0 {
            None
        } else {
            Some(trimmed(s))
        },
        None => None,
    }
}

/// The key `key` as descriptors write it: the first character of the key and
/// of each part after a hyphen in ASCII upper case.
pub open spec fn canonical(key: Seq<char>) -> Seq<char> {
    Seq::new(
        key.len(),
        |i: int|
            if i == 0 || key[i - 1] == '-' {
                ascii_upper(key[i])
            } else {
                key[i]
            },
    )
}

/// The value of `name` in the section `desktop entry`.
pub fn get_name(map: &Vec<Section>) -> (r: Option<&str>)
    ensures
        text_of_str(r) == name_in(sections_map(map@)),
{
    match find_section(map, "desktop entry") {
        Some(i) => {
            let section = &map[i];
            match find_entry(&section.entries, "name") {
                Some(j) => match &section.entries[j].value {
                    Some(v) => Some(v.as_str()),
                    None => None,
                },
                None => None,
            }
        },
        None => None,
    }
}

/// The text trimmed, unless nothing is left of it.
pub fn non_empty(opt: Option<&str>) -> (r: Option<String>)
    ensures
        text_of(r) == non_empty_of(text_of_str(opt)),
{
    match opt {
        Some(s) => {
            let t = trim(s);
            if t.as_str().unicode_len() == 0 {
                None
            } else {
                Some(t)
            }
        },
        None => None,
    }
}

/// The key as descriptors write it.
pub fn canonicalize_key(key: &str) -> (r: String)
    ensures
        r@ == canonical(key@),
{
    let v = to_chars(key);
    let mut r = String::new();
    let mut i: usize = 0;
    while i < v.len()
        invariant
            i <= v.len(),
            v@ == key@,
            r@ == canonical(key@).take(i as int),
        decreases v.len() - i,
    {
        let c = if i == 0 || v[i - 1] == '-' {
            to_ascii_upper(v[i])
        } else {
            v[i]
        };
        push_char(&mut r, c);
        i += 1;
    }
    r
}

/// Writing a key as descriptors write it a second time changes nothing.
pub proof fn lemma_canonical_idempotent(key: Seq<char>)
    ensures
        canonical(canonical(key)) == canonical(key),
{
    let c = canonical(key);
    assert forall|i: int| 0 <= i < key.len() implies #[trigger] canonical(c)[i] == c[i] by {
        if i > 0 {
            assert((c[i - 1] == '-') == (key[i - 1] == '-'));
        }
    }
}

/// The empty key is written as the empty text.
pub proof fn lemma_canonical_empty()
    ensures
        canonical(Seq::<char>::empty()) == Seq::<char>::empty(),
{
}

impl DescriptorError {
    /// The message of the error.
    pub fn message(&self) -> (r: String)
        ensures
            r@ == match *self {
                DescriptorError::Malformed => "Descriptor cannot be read"@,
                DescriptorError::MissingName => "Required field missing: Name"@,
            },
    {
        match self {
            DescriptorError::Malformed => "Descriptor cannot be read".to_owned(),
            DescriptorError::MissingName => "Required field missing: Name".to_owned(),
        }
    }
}

/// A descriptor, with texts in place of strings.
pub struct Descriptor {
    pub name: Seq<char>,
    pub sections: Sections,
}

impl View for Desktop {
    type V = Descriptor;

    open spec fn view(&self) -> Descriptor {
        Descriptor { name: self.name@, sections: sections_map(self.content@) }
    }
}

/// What a descriptor text yields. It is malformed where the brackets of a
/// line are out of order or the parser reports an error; it lacks its name
/// where the section `desktop entry` gives `name` no value or one that is
/// empty once trimmed. Otherwise it yields the sections read and the trimmed
/// name.
pub open spec fn descriptor_of(text: Seq<char>) -> Result<Descriptor, DescriptorError> {
    if !brackets_in_order(text) {
        Err(DescriptorError::Malformed)
    } else {
        match ini_sections(text) {
            None => Err(DescriptorError::Malformed),
            Some(sections) => descriptor_from(sections),
        }
    }
}

/// What the sections of a descriptor yield: the sections with the trimmed
/// name, unless the section `desktop entry` gives `name` no value or one that
/// is empty once trimmed.
pub open spec fn descriptor_from(sections: Sections) -> Result<Descriptor, DescriptorError> {
    match non_empty_of(name_in(sections)) {
        None => Err(DescriptorError::MissingName),
        Some(name) => Ok(Descriptor { name, sections }),
    }
}

/// What reading a descriptor gave, with texts in place of strings.
pub open spec fn reading_of(r: Result<Desktop, DescriptorError>) -> Result<
    Descriptor,
    DescriptorError,
> {
    match r {
        Ok(d) => Ok(d@),
        Err(e) => Err(e),
    }
}

/// A descriptor whose name is missing, empty or white space alone yields no
/// bundle metadata, whatever else it holds.
pub proof fn lemma_name_required(sections: Sections)
    requires
        name_in(sections) matches Some(name) ==> crate::text::is_blank(name),
    ensures
        descriptor_from(sections) == Err::<Descriptor, DescriptorError>(
            DescriptorError::MissingName,
        ),
{
    match name_in(sections) {
        Some(name) => {
            crate::text::lemma_blank_trims_to_empty(name);
        },
        None => {},
    }
}

/// A text of spaces alone is white space alone: a name of spaces is no name.
pub proof fn lemma_spaces_are_blank(s: Seq<char>)
    requires
        forall|i: int| 0 <= i < s.len() ==> s[i] == ' ',
    ensures
        crate::text::is_blank(s),
        non_empty_of(Some(s)) is None,
{
    crate::text::lemma_blank_trims_to_empty(s);
}

impl Desktop {
    /// Reads a descriptor from its text. The names of its sections and their
    /// keys are lower-cased texts, as the parser leaves them.
    pub fn new(text: &str) -> (r: Result<Desktop, DescriptorError>)
        ensures
            reading_of(r) == descriptor_of(text@),
            r matches Ok(d) ==> names_are_lowercased(d@.sections),
    {
        match parse_sections(text) {
            None => Err(DescriptorError::Malformed),
            Some(content) => Desktop::from_sections(content),
        }
    }

    /// Makes a descriptor of the sections read: it takes the name from them,
    /// trimmed, and lacks it where there is none or nothing is left of it.
    pub fn from_sections(content: Vec<Section>) -> (r: Result<Desktop, DescriptorError>)
        ensures
            reading_of(r) == descriptor_from(sections_map(content@)),
    {
        let name = non_empty(get_name(&content));
        match name {
            None => Err(DescriptorError::MissingName),
            Some(name) => Ok(Desktop { name, content }),
        }
    }

    /// The slug of the bundle: its directory name and the stem of its
    /// launcher entry file.
    pub fn slug(&self) -> (r: String)
        ensures
            r@ == slug_of(self.name@),
    {
        slug(self.name.as_str())
    }

    /// The launcher entry file of the bundle in the applications directory.
    pub fn destination(&self, applications_dir: &str) -> (r: String)
        ensures
            r@ == entry_file_of(applications_dir@, slug_of(self.name@)),
    {
        entry_file(applications_dir, self.slug().as_str())
    }
}

/// Whether the key `a` is written before the key `b`: keys go by what they
/// are written as, and two keys written alike by themselves.
pub open spec fn ranks_before(a: Seq<char>, b: Seq<char>) -> bool {
    precedes(canonical(a), canonical(b)) || (canonical(a) == canonical(b) && precedes(a, b))
}

/// Whether each key of the list is written before all that follow it.
pub open spec fn ascending(keys: Seq<Seq<char>>) -> bool {
    forall|i: int, j: int| 0 <= i < j < keys.len() ==> ranks_before(keys[i], keys[j])
}

/// Whether `order` lists exactly the keys of `keys`, in the order in which
/// they are written.
pub open spec fn lists(order: Seq<Seq<char>>, keys: Set<Seq<char>>) -> bool {
    ascending(order) && forall|k: Seq<char>| keys.contains(k) <==> order.contains(k)
}

/// The keys of `keys` in the order in which they are written.
pub open spec fn key_order(keys: Set<Seq<char>>) -> Seq<Seq<char>> {
    choose|order: Seq<Seq<char>>| lists(order, keys)
}

/// The keys of a list of entries, in the order of the list.
pub open spec fn keys_of(es: Seq<Entry>) -> Seq<Seq<char>> {
    Seq::new(es.len(), |i: int| es[i].key@)
}

/// The line of a key with a value.
pub open spec fn line_of(key: Seq<char>, value: Seq<char>) -> Seq<char> {
    canonical(key) + seq!['='] + value + seq!['\n']
}

/// The lines of the keys of `order` that have a value in `m`.
pub open spec fn body_of(m: Keys, order: Seq<Seq<char>>) -> Seq<char>
    decreases order.len(),
{
    if order.len() == 0 {
        Seq::empty()
    } else {
        body_of(m, order.drop_last()) + match m[order.last()] {
            Some(v) => line_of(order.last(), v),
            None => Seq::empty(),
        }
    }
}

/// The keys of a published entry: those of the descriptor, with `exec` and
/// `icon` set to the resolved paths whatever the descriptor gave them, and
/// without any other key that would be written as `Exec` or as `Icon`.
pub open spec fn published_keys(m: Keys, exec_path: Seq<char>, icon_path: Seq<char>) -> Keys {
    m.remove("Exec"@).remove("Icon"@).insert("exec"@, Some(exec_path)).insert(
        "icon"@,
        Some(icon_path),
    )
}

/// A published entry names the resolved executable and the resolved icon,
/// whatever the descriptor gave for them, and has every other key as the
/// descriptor gave it, but for those that would be written alike.
pub proof fn lemma_published_keys(m: Keys, exec_path: Seq<char>, icon_path: Seq<char>)
    ensures
        published_keys(m, exec_path, icon_path)["exec"@] == Some(exec_path),
        published_keys(m, exec_path, icon_path)["icon"@] == Some(icon_path),
        forall|k: Seq<char>|
            k != "exec"@ && k != "icon"@ && k != "Exec"@ && k != "Icon"@ ==> (
            #[trigger] published_keys(m, exec_path, icon_path).contains_key(k) == m.contains_key(
                k,
            )) && (m.contains_key(k) ==> published_keys(m, exec_path, icon_path)[k] == m[k]),
{
    reveal_strlit("exec");
    reveal_strlit("icon");
    reveal_strlit("Exec");
    reveal_strlit("Icon");
    assert("exec"@[0] != "icon"@[0]);
    assert("exec"@[0] != "Icon"@[0]);
    assert("icon"@[0] != "Exec"@[0]);
    assert("exec"@[0] != "Exec"@[0]);
    assert("icon"@[0] != "Icon"@[0]);
}

/// The keys that are written as a word of four letters with a capital: the
/// word itself and the word in small letters.
proof fn lemma_written_as(k: Seq<char>, word: Seq<char>, small: Seq<char>)
    requires
        word.len() == 4,
        small.len() == 4,
        'A' <= word[0] && word[0] <= 'Z',
        small[0] == ((word[0] as u8) + 32) as char,
        forall|i: int| 1 <= i < 4 ==> small[i] == word[i] && 'a' <= #[trigger] word[i] && word[i] <= 'z',
        canonical(k) == word,
    ensures
        k == word || k == small,
{
    assert(k.len() == 4);
    assert forall|i: int| 1 <= i < 4 implies k[i] == word[i] by {
        assert(canonical(k)[i] == word[i]);
        assert(canonical(k)[i - 1] == word[i - 1]);
        if k[i - 1] == '-' {
            assert(canonical(k)[i - 1] == '-');
        }
    }
    assert(canonical(k)[0] == word[0]);
    assert(k[0] == word[0] || k[0] == small[0]);
    if k[0] == word[0] {
        assert(k =~= word);
    } else {
        assert(k =~= small);
    }
}

/// A published entry has one executable and one icon. Of its keys only
/// `exec` is written as `Exec`, and only `icon` as `Icon`: however the
/// descriptor spelled them, the entry has one `Exec` and one `Icon`, with the
/// resolved paths.
pub proof fn lemma_one_exec_one_icon(m: Keys, exec_path: Seq<char>, icon_path: Seq<char>)
    ensures
        forall|k: Seq<char>|
            #[trigger] published_keys(m, exec_path, icon_path).contains_key(k) && canonical(k)
                == "Exec"@ ==> k == "exec"@,
        forall|k: Seq<char>|
            #[trigger] published_keys(m, exec_path, icon_path).contains_key(k) && canonical(k)
                == "Icon"@ ==> k == "icon"@,
        canonical("exec"@) == "Exec"@,
        canonical("icon"@) == "Icon"@,
        published_keys(m, exec_path, icon_path)["exec"@] == Some(exec_path),
        published_keys(m, exec_path, icon_path)["icon"@] == Some(icon_path),
{
    reveal_strlit("exec");
    reveal_strlit("icon");
    reveal_strlit("Exec");
    reveal_strlit("Icon");
    lemma_published_keys(m, exec_path, icon_path);
    let p = published_keys(m, exec_path, icon_path);
    assert("exec"@[0] != "Exec"@[0] && "icon"@[0] != "Icon"@[0]);
    assert("exec"@[0] != "Icon"@[0] && "icon"@[0] != "Exec"@[0]);
    assert(canonical("exec"@) =~= "Exec"@);
    assert(canonical("icon"@) =~= "Icon"@);
    assert forall|k: Seq<char>| #[trigger] p.contains_key(k) && canonical(k) == "Exec"@ implies k
        == "exec"@ by {
        lemma_written_as(k, "Exec"@, "exec"@);
    }
    assert forall|k: Seq<char>| #[trigger] p.contains_key(k) && canonical(k) == "Icon"@ implies k
        == "icon"@ by {
        lemma_written_as(k, "Icon"@, "icon"@);
    }
}

/// The text of the launcher entry with the keys `m`: the section header,
/// then one line for each key that has a value, in the order in which keys
/// are written.
pub open spec fn entry_text_of(m: Keys) -> Seq<char> {
    "[Desktop Entry]\n"@ + body_of(m, key_order(m.dom()))
}

/// No key is written before itself, and of two keys at most one is written
/// before the other.
pub proof fn lemma_ranks_asymmetric(a: Seq<char>, b: Seq<char>)
    ensures
        !ranks_before(a, a),
        ranks_before(a, b) ==> !ranks_before(b, a),
{
    lemma_precedes_irreflexive(a);
    lemma_precedes_irreflexive(canonical(a));
    if precedes(canonical(a), canonical(b)) {
        lemma_precedes_asymmetric(canonical(a), canonical(b));
        lemma_precedes_irreflexive(canonical(a));
    }
    if precedes(a, b) {
        lemma_precedes_asymmetric(a, b);
    }
    if precedes(canonical(b), canonical(a)) {
        lemma_precedes_asymmetric(canonical(b), canonical(a));
    }
}

/// The order in which keys are written is transitive.
pub proof fn lemma_ranks_transitive(a: Seq<char>, b: Seq<char>, c: Seq<char>)
    requires
        ranks_before(a, b),
        ranks_before(b, c),
    ensures
        ranks_before(a, c),
{
    if precedes(canonical(a), canonical(b)) && precedes(canonical(b), canonical(c)) {
        lemma_precedes_transitive(canonical(a), canonical(b), canonical(c));
    }
    if precedes(a, b) && precedes(b, c) {
        lemma_precedes_transitive(a, b, c);
    }
}

/// Of two different keys one is written before the other.
pub proof fn lemma_ranks_total(a: Seq<char>, b: Seq<char>)
    ensures
        a == b || ranks_before(a, b) || ranks_before(b, a),
{
    lemma_precedes_total(a, b);
    lemma_precedes_total(canonical(a), canonical(b));
}

/// A set of keys has one order at most: the text of an entry is fixed by its
/// keys.
pub proof fn lemma_order_unique(a: Seq<Seq<char>>, b: Seq<Seq<char>>, keys: Set<Seq<char>>)
    requires
        lists(a, keys),
        lists(b, keys),
    ensures
        a == b,
    decreases a.len(),
{
    if a.len() == 0 {
        if b.len() > 0 {
            assert(b.contains(b[0]));
        }
        assert(a == b);
    } else {
        let x = a.last();
        assert(a.contains(x));
        assert(b.contains(x));
        let y = b.last();
        assert(b.contains(y));
        assert(a.contains(y));
        let i = choose|i: int| 0 <= i < a.len() && a[i] == y;
        let j = choose|j: int| 0 <= j < b.len() && b[j] == x;
        lemma_ranks_asymmetric(x, y);
        assert(x == y);
        let rest = keys.remove(x);
        assert forall|k: Seq<char>| rest.contains(k) <==> a.drop_last().contains(k) by {
            if rest.contains(k) {
                let n = choose|n: int| 0 <= n < a.len() && a[n] == k;
                assert(a.drop_last()[n] == k);
            }
            if a.drop_last().contains(k) {
                let n = choose|n: int| 0 <= n < a.drop_last().len() && a.drop_last()[n] == k;
                assert(a[n] == k);
                assert(a.contains(k));
                lemma_ranks_asymmetric(k, k);
            }
        }
        assert forall|k: Seq<char>| rest.contains(k) <==> b.drop_last().contains(k) by {
            if rest.contains(k) {
                let n = choose|n: int| 0 <= n < b.len() && b[n] == k;
                assert(b.drop_last()[n] == k);
            }
            if b.drop_last().contains(k) {
                let n = choose|n: int| 0 <= n < b.drop_last().len() && b.drop_last()[n] == k;
                assert(b[n] == k);
                assert(b.contains(k));
                lemma_ranks_asymmetric(k, k);
            }
        }
        lemma_order_unique(a.drop_last(), b.drop_last(), rest);
        assert(a == a.drop_last().push(x));
        assert(b == b.drop_last().push(y));
    }
}

/// What a list of entries defines: its keys are those of the list, and in an
/// ascending list each key has the value that stands beside it.
proof fn lemma_entries_map(es: Seq<Entry>)
    ensures
        forall|k: Seq<char>| entries_map(es).contains_key(k) <==> keys_of(es).contains(k),
        ascending(keys_of(es)) ==> forall|i: int|
            0 <= i < es.len() ==> entries_map(es)[#[trigger] es[i].key@] == text_of(es[i].value),
    decreases es.len(),
{
    if es.len() > 0 {
        let init = es.drop_last();
        lemma_entries_map(init);
        assert forall|k: Seq<char>| entries_map(es).contains_key(k) <==> keys_of(es).contains(
            k,
        ) by {
            if keys_of(init).contains(k) {
                let n = choose|n: int| 0 <= n < init.len() && keys_of(init)[n] == k;
                assert(keys_of(es)[n] == k);
            }
            if keys_of(es).contains(k) {
                let n = choose|n: int| 0 <= n < es.len() && keys_of(es)[n] == k;
                if n < init.len() {
                    assert(keys_of(init)[n] == k);
                }
            }
            assert(keys_of(es)[es.len() - 1] == es.last().key@);
        }
        if ascending(keys_of(es)) {
            assert forall|i: int, j: int| 0 <= i < j < init.len() implies ranks_before(
                keys_of(init)[i],
                keys_of(init)[j],
            ) by {
                assert(ranks_before(keys_of(es)[i], keys_of(es)[j]));
            }
            assert forall|i: int| 0 <= i < es.len() implies entries_map(es)[#[trigger] es[i].key@]
                == text_of(es[i].value) by {
                if i < es.len() - 1 {
                    assert(ranks_before(keys_of(es)[i], keys_of(es)[es.len() - 1]));
                    lemma_ranks_asymmetric(es[i].key@, es[i].key@);
                    assert(init[i].key@ == es[i].key@);
                }
            }
        }
    }
}

/// Whether the key `a` is written before the key `b`.
pub fn ranks(a: &str, b: &str) -> (r: bool)
    ensures
        r == ranks_before(a@, b@),
{
    let ca = canonicalize_key(a);
    let cb = canonicalize_key(b);
    if comes_before(ca.as_str(), cb.as_str()) {
        true
    } else if same_text(ca.as_str(), cb.as_str()) {
        comes_before(a, b)
    } else {
        false
    }
}

/// Gives `key` the value `value` in an ascending list of entries: in place of
/// the entry with that key where there is one, else at the place that keeps
/// the list ascending.
pub fn upsert(es: &mut Vec<Entry>, key: String, value: Option<String>)
    requires
        ascending(keys_of(old(es)@)),
    ensures
        ascending(keys_of(final(es)@)),
        entries_map(final(es)@) == entries_map(old(es)@).insert(key@, text_of(value)),
{
    let ghost before = es@;
    let mut p: usize = 0;
    while p < es.len() && ranks(es[p].key.as_str(), key.as_str())
        invariant
            p <= es.len(),
            es@ == before,
            forall|i: int| 0 <= i < p ==> ranks_before(#[trigger] keys_of(before)[i], key@),
        decreases es.len() - p,
    {
        p += 1;
    }
    let replace = p < es.len() && same_text(es[p].key.as_str(), key.as_str());
    let ghost k = key@;
    let ghost v = text_of(value);
    if replace {
        es.set(p, Entry { key, value });
    } else {
        es.insert(p, Entry { key, value });
    }
    proof {
        let after = es@;
        let shift = if replace { 1int } else { 0int };
        assert(after[p as int].key@ == k && text_of(after[p as int].value) == v);
        assert forall|i: int, j: int| 0 <= i < j < after.len() implies ranks_before(
            keys_of(after)[i],
            keys_of(after)[j],
        ) by {
            let oi = if i < p { i } else { i - 1 + shift };
            let oj = if j < p { j } else { j - 1 + shift };
            if i != p && j != p {
                assert(ranks_before(keys_of(before)[oi], keys_of(before)[oj]));
            } else if i == p {
                // The entry after the place is none that is written before the key.
                assert(p + shift < before.len());
                let first = keys_of(before)[p + shift];
                if replace {
                    assert(ranks_before(keys_of(before)[p as int], first));
                } else {
                    lemma_ranks_total(first, k);
                }
                if oj > p + shift {
                    assert(ranks_before(first, keys_of(before)[oj]));
                    lemma_ranks_transitive(k, first, keys_of(before)[oj]);
                }
            } else {
                assert(ranks_before(keys_of(before)[oi], k));
            }
        }
        lemma_entries_map(before);
        lemma_entries_map(after);
        let target = entries_map(before).insert(k, v);
        assert forall|q: Seq<char>| entries_map(after).contains_key(q) <==> target.contains_key(
            q,
        ) by {
            if keys_of(after).contains(q) {
                let n = choose|n: int| 0 <= n < after.len() && keys_of(after)[n] == q;
                if n != p {
                    let o = if n < p { n } else { n - 1 + shift };
                    assert(keys_of(before)[o] == q);
                }
            }
            if keys_of(before).contains(q) && q != k {
                let o = choose|o: int| 0 <= o < before.len() && keys_of(before)[o] == q;
                let n = if o < p { o } else { o + 1 - shift };
                assert(keys_of(after)[n] == q);
            }
            assert(keys_of(after)[p as int] == k);
        }
        assert forall|q: Seq<char>| target.contains_key(q) implies entries_map(after)[q]
            == target[q] by {
            if q == k {
                assert(after[p as int].key@ == k);
            } else {
                assert(entries_map(before).contains_key(q));
                assert(keys_of(before).contains(q));
                let o = choose|o: int| 0 <= o < before.len() && keys_of(before)[o] == q;
                let n = if o < p { o } else { o + 1 - shift };
                assert(before[o].key@ == q);
                assert(after[n] == before[o]);
                assert(after[n].key@ == q);
            }
        }
        assert(entries_map(after) =~= target);
    }
}

/// Takes the key `key` out of an ascending list of entries.
pub fn remove_key(es: &mut Vec<Entry>, key: &str)
    requires
        ascending(keys_of(old(es)@)),
    ensures
        ascending(keys_of(final(es)@)),
        entries_map(final(es)@) == entries_map(old(es)@).remove(key@),
{
    let ghost before = es@;
    proof {
        lemma_entries_map(before);
    }
    let mut p: usize = 0;
    while p < es.len() && !same_text(es[p].key.as_str(), key)
        invariant
            p <= es.len(),
            es@ == before,
            forall|i: int| 0 <= i < p ==> #[trigger] keys_of(before)[i] != key@,
        decreases es.len() - p,
    {
        p += 1;
    }
    if p < es.len() {
        es.remove(p);
        proof {
            let after = es@;
            assert forall|i: int, j: int| 0 <= i < j < after.len() implies ranks_before(
                keys_of(after)[i],
                keys_of(after)[j],
            ) by {
                let oi = if i < p { i } else { i + 1 };
                let oj = if j < p { j } else { j + 1 };
                assert(ranks_before(keys_of(before)[oi], keys_of(before)[oj]));
            }
            lemma_entries_map(after);
            let target = entries_map(before).remove(key@);
            assert forall|q: Seq<char>| entries_map(after).contains_key(q)
                <==> target.contains_key(q) by {
                if keys_of(after).contains(q) {
                    let n = choose|n: int| 0 <= n < after.len() && keys_of(after)[n] == q;
                    let o = if n < p { n } else { n + 1 };
                    assert(keys_of(before)[o] == q);
                    if o < p {
                        assert(ranks_before(keys_of(before)[o], keys_of(before)[p as int]));
                    } else {
                        assert(ranks_before(keys_of(before)[p as int], keys_of(before)[o]));
                    }
                    lemma_ranks_asymmetric(q, q);
                }
                if keys_of(before).contains(q) && q != key@ {
                    let o = choose|o: int| 0 <= o < before.len() && keys_of(before)[o] == q;
                    let n = if o < p { o } else { o - 1 };
                    assert(keys_of(after)[n] == q);
                }
            }
            assert forall|q: Seq<char>| target.contains_key(q) implies entries_map(after)[q]
                == target[q] by {
                assert(entries_map(before).contains_key(q));
                assert(keys_of(before).contains(q));
                let o = choose|o: int| 0 <= o < before.len() && keys_of(before)[o] == q;
                let n = if o < p { o } else { o - 1 };
                assert(before[o].key@ == q);
                assert(after[n] == before[o]);
                assert(after[n].key@ == q);
            }
            assert(entries_map(after) =~= target);
        }
    } else {
        proof {
            assert(!keys_of(before).contains(key@));
            assert(entries_map(before).remove(key@) =~= entries_map(before));
        }
    }
}

/// A copy of an optional text.
pub fn copy_text(o: &Option<String>) -> (r: Option<String>)
    ensures
        text_of(r) == text_of(*o),
{
    match o {
        Some(s) => Some(s.clone()),
        None => None,
    }
}

/// The entries of a list in ascending order, a later entry of the list
/// overriding an earlier one with the same key.
pub fn sorted_entries(es: &Vec<Entry>) -> (r: Vec<Entry>)
    ensures
        ascending(keys_of(r@)),
        entries_map(r@) == entries_map(es@),
{
    let mut r: Vec<Entry> = Vec::new();
    let mut i: usize = 0;
    while i < es.len()
        invariant
            i <= es.len(),
            ascending(keys_of(r@)),
            entries_map(r@) == entries_map(es@.take(i as int)),
        decreases es.len() - i,
    {
        assert(es@.take(i + 1).drop_last() == es@.take(i as int));
        upsert(&mut r, es[i].key.clone(), copy_text(&es[i].value));
        i += 1;
    }
    assert(es@.take(es.len() as int) == es@);
    r
}

/// The text of the entry whose keys are those of an ascending list.
pub fn render(es: &Vec<Entry>) -> (r: String)
    requires
        ascending(keys_of(es@)),
    ensures
        r@ == entry_text_of(entries_map(es@)),
{
    let ghost m = entries_map(es@);
    let mut r = "[Desktop Entry]\n".to_owned();
    let mut i: usize = 0;
    proof {
        lemma_entries_map(es@);
    }
    while i < es.len()
        invariant
            i <= es.len(),
            m == entries_map(es@),
            forall|n: int| 0 <= n < es.len() ==> m[#[trigger] es[n].key@] == text_of(es[n].value),
            r@ == "[Desktop Entry]\n"@ + body_of(m, keys_of(es@).take(i as int)),
        decreases es.len() - i,
    {
        assert(keys_of(es@).take(i + 1).drop_last() == keys_of(es@).take(i as int));
        assert(keys_of(es@).take(i + 1).last() == es[i as int].key@);
        match &es[i].value {
            Some(v) => {
                proof {
                    reveal_strlit("=");
                    reveal_strlit("\n");
                    assert("="@ == seq!['=']);
                    assert("\n"@ == seq!['\n']);
                }
                let label = canonicalize_key(es[i].key.as_str());
                r.append(label.as_str());
                r.append("=");
                r.append(v.as_str());
                r.append("\n");
                assert(r@ == "[Desktop Entry]\n"@ + (body_of(m, keys_of(es@).take(i as int))
                    + line_of(es[i as int].key@, v@)));
            },
            None => {
                assert(body_of(m, keys_of(es@).take(i as int)) + Seq::<char>::empty() == body_of(
                    m,
                    keys_of(es@).take(i as int),
                ));
            },
        }
        i += 1;
    }
    proof {
        assert(keys_of(es@).take(es.len() as int) == keys_of(es@));
        assert(lists(keys_of(es@), m.dom()));
        lemma_order_unique(keys_of(es@), key_order(m.dom()), m.dom());
    }
    r
}

impl Desktop {
    /// The text of the launcher entry that is published for the bundle, with
    /// the resolved executable and icon.
    pub fn entry_text(&self, exec_path: &str, icon_path: &str) -> (r: String)
        ensures
            r@ == entry_text_of(
                published_keys(recognized_keys(self@.sections), exec_path@, icon_path@),
            ),
    {
        let mut keys: Vec<Entry> = match find_section(&self.content, "desktop entry") {
            Some(i) => sorted_entries(&self.content[i].entries),
            None => Vec::new(),
        };
        remove_key(&mut keys, "Exec");
        remove_key(&mut keys, "Icon");
        upsert(&mut keys, "exec".to_owned(), Some(exec_path.to_owned()));
        upsert(&mut keys, "icon".to_owned(), Some(icon_path.to_owned()));
        render(&keys)
    }
}

} // verus!
