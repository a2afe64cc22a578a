//! Identifiers: UUIDs held as their 128-bit value, made and written by the
//! `uuid` crate.

use vstd::prelude::*;

verus! {

/// The lower-case hexadecimal digit for `d` (0..16).
pub open spec fn hex_digit(d: int) -> char {
    if d < 10 {
        (('0' as int) + d) as char
    } else {
        (('a' as int) + d - 10) as char
    }
}

/// The `i`-th of the 32 hexadecimal digits of `v`, most significant first.
pub open spec fn uuid_digit(v: u128, i: int) -> char {
    hex_digit(((v as int) / vstd::arithmetic::power::pow(16, (31 - i) as nat)) % 16)
}

/// The digits `from..to` of `v`.
pub open spec fn uuid_digits(v: u128, from: int, to: int) -> Seq<char> {
    Seq::new((to - from) as nat, |i: int| uuid_digit(v, from + i))
}

/// The hyphenated lower-case text of a UUID, `8-4-4-4-12` digits.
pub open spec fn uuid_text(v: u128) -> Seq<char> {
    uuid_digits(v, 0, 8) + seq!['-'] + uuid_digits(v, 8, 12) + seq!['-'] + uuid_digits(v, 12, 16)
        + seq!['-'] + uuid_digits(v, 16, 20) + seq!['-'] + uuid_digits(v, 20, 32)
}

/// `t` is the hyphenated lower-case text of some UUID.
pub open spec fn is_uuid_text(t: Seq<char>) -> bool {
    exists|v: u128| t == uuid_text(v)
}

/// What `uuid::Uuid::parse_str` makes of a text: the 128-bit value, or
/// the message of its error.
pub uninterp spec fn uuid_parsed(text: Seq<char>) -> Result<u128, Seq<char>>;

/// Calls `uuid::Uuid::new_v4` and returns its 128-bit value; the value is
/// random, so nothing is stated of it.
#[verifier::external_body]
pub(crate) fn new_id() -> (id: u128) {
    uuid::Uuid::new_v4().as_u128()
}

/// Calls `uuid::Uuid::from_u128` and formats the UUID with `to_string`,
/// which writes the hyphenated lower-case form; `Uuid::parse_str` reads
/// that text back as the same UUID.
#[verifier::external_body]
pub(crate) fn id_text(id: u128) -> (s: String)
    ensures
        s@ == uuid_text(id),
        uuid_parsed(s@) is Ok && uuid_parsed(s@)->Ok_0 == id,
{
    uuid::Uuid::from_u128(id).to_string()
}

/// Calls `uuid::Uuid::parse_str`: the value, or the error's message; the
/// result is named `uuid_parsed`. The hyphenated text of a UUID parses back
/// to that UUID.
#[verifier::external_body]
pub(crate) fn parse_id(s: &str) -> (r: Result<u128, String>)
    ensures
        match r {
            Ok(v) => uuid_parsed(s@) == Ok::<u128, Seq<char>>(v),
            Err(e) => uuid_parsed(s@) == Err::<u128, Seq<char>>(e@),
        },
        r is Ok || !is_uuid_text(s@),
        r matches Ok(w) ==> (is_uuid_text(s@) ==> s@ == uuid_text(w)),
{
    match uuid::Uuid::parse_str(s) {
        Ok(id) => Ok(id.as_u128()),
        Err(e) => Err(e.to_string()),
    }
}

} // verus!
