//! Fresh row identifiers.
use vstd::prelude::*;

verus! {

/// Whether `c` belongs to nanoid's URL-safe alphabet (`_-0-9a-zA-Z`).
pub open spec fn is_id_char(c: char) -> bool {
    ||| c == '_'
    ||| c == '-'
    ||| ('0' <= c && c <= '9')
    ||| ('a' <= c && c <= 'z')
    ||| ('A' <= c && c <= 'Z')
}

/// Whether `s` has the shape of a fresh identifier: 21 characters of the URL-safe alphabet.
pub open spec fn is_fresh_id(s: Seq<char>) -> bool {
    s.len() == 21 && forall|i: int| 0 <= i < s.len() ==> is_id_char(#[trigger] s[i])
}

/// `nanoid::format(nanoid::rngs::default, &nanoid::alphabet::SAFE, 21)`, what `nanoid!()`
/// expands to. The characters are random; the contract states only what every outcome
/// has: 21 characters, each from the `SAFE` alphabet (all of them ASCII, so the byte
/// length at which `format` stops is the character count).
#[verifier::external_body]
pub(crate) fn new_id() -> (r: String)
    ensures
        is_fresh_id(r@),
{
    nanoid::format(nanoid::rngs::default, &nanoid::alphabet::SAFE, 21)
}

} // verus!
