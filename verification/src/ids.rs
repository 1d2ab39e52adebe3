//! Short random identifiers for staging areas and backups.

use vstd::prelude::*;

verus! {

/// Whether `c` is a digit or one of `a` to `f`.
pub open spec fn is_lower_hex(c: char) -> bool {
    ('0' <= c && c <= '9') || ('a' <= c && c <= 'f')
}

/// Whether `s` consists of lower-case hexadecimal digits.
pub open spec fn is_hex(s: Seq<char>) -> bool {
    forall|i: int| 0 <= i < s.len() ==> is_lower_hex(#[trigger] s[i])
}

/// Whether `s` is a short identifier: six lower-case hexadecimal digits.
pub open spec fn is_short_id(s: Seq<char>) -> bool {
    s.len() == 6 && is_hex(s)
}

/// A random identifier in its simple form, by `Uuid::new_v4` and
/// `Uuid::simple`: 32 lower-case hexadecimal digits. Which ones is left open:
/// two calls may differ. The outside function aborts where the system gives
/// no random bytes.
#[verifier::external_body]
pub(crate) fn random_simple() -> (r: String)
    ensures
        r@.len() == 32,
        is_hex(r@),
{
    uuid::Uuid::new_v4().simple().to_string()
}

/// The first six characters of an identifier.
pub fn short_id(id: &str) -> (r: String)
    requires
        id@.len() >= 6,
    ensures
        r@ == id@.take(6),
{
    let r = id.substring_char(0, 6);
    r.to_owned()
}

/// A fresh short identifier.
pub fn fresh_id() -> (r: String)
    ensures
        is_short_id(r@),
{
    let id = random_simple();
    short_id(id.as_str())
}

} // verus!
