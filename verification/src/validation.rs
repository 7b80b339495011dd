//! Field validation of request payloads: the length, e-mail and range rules that the
//! payload types declare, and the report of the fields that break them.
use vstd::prelude::*;

verus! {

/// The fields of a payload that break its rules, by field name, in declaration order.
pub struct ValidationErrors {
    pub fields: Vec<String>,
}

/// The names of the failing fields of a `ValidationErrors`.
pub open spec fn failed_fields(e: ValidationErrors) -> Seq<Seq<char>> {
    e.fields@.map_values(|f: String| f@)
}

/// Whether a string of `len` characters is within the optional bounds.
pub open spec fn length_ok(len: int, min: Option<u64>, max: Option<u64>) -> bool {
    &&& (min matches Some(m) ==> len >= m)
    &&& (max matches Some(m) ==> len <= m)
}

/// Whether a value lies within the optional inclusive bounds.
pub open spec fn range_ok(v: int, min: Option<i64>, max: Option<i64>) -> bool {
    &&& (min matches Some(m) ==> v >= m)
    &&& (max matches Some(m) ==> v <= m)
}

/// Whether `validator` accepts the text as an e-mail address.
pub uninterp spec fn email_is_valid(s: Seq<char>) -> bool;

/// `validator::ValidateEmail::validate_email` on a string. The contract names the
/// result and states what the source shows at its start: an empty text or one without
/// `@` is rejected. The HTML5 user and domain patterns it then applies are not stated.
#[verifier::external_body]
pub(crate) fn validate_email(s: &String) -> (r: bool)
    ensures
        r == email_is_valid(s@),
        (s@.len() == 0 || !s@.contains('@')) ==> !r,
{
    validator::ValidateEmail::validate_email(s)
}

/// The `length` rule: the number of characters lies within the bounds.
pub fn validate_length(s: &String, min: Option<u64>, max: Option<u64>) -> (r: bool)
    ensures
        r == length_ok(s@.len() as int, min, max),
{
    let len = s.as_str().unicode_len() as u64;
    let lower = match min {
        Some(m) => len >= m,
        None => true,
    };
    let upper = match max {
        Some(m) => len <= m,
        None => true,
    };
    lower && upper
}

/// The `range` rule on an integer field.
pub fn validate_range(v: i64, min: Option<i64>, max: Option<i64>) -> (r: bool)
    ensures
        r == range_ok(v as int, min, max),
{
    let lower = match min {
        Some(m) => v >= m,
        None => true,
    };
    let upper = match max {
        Some(m) => v <= m,
        None => true,
    };
    lower && upper
}

/// Adds `name` to the failing fields when `ok` is false.
pub fn note_failure(fields: &mut Vec<String>, ok: bool, name: &str)
    ensures
        final(fields)@.map_values(|f: String| f@) == if ok {
            old(fields)@.map_values(|f: String| f@)
        } else {
            old(fields)@.map_values(|f: String| f@).push(name@)
        },
{
    let ghost before = fields@;
    if !ok {
        fields.push(String::from_str(name));
        assert(fields@.map_values(|f: String| f@) =~= before.map_values(|f: String| f@).push(name@));
    }
}

/// The outcome of a validation from its failing fields.
pub fn finish_validation(fields: Vec<String>) -> (r: Result<(), ValidationErrors>)
    ensures
        fields.len() == 0 ==> r is Ok,
        fields.len() > 0 ==> (r matches Err(e) && e.fields@ == fields@),
{
    if fields.len() == 0 {
        Ok(())
    } else {
        Err(ValidationErrors { fields })
    }
}

} // verus!
