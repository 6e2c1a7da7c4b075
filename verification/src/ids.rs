//! Identifiers of tasks, projects and sync snapshots, held as 128-bit values.
use vstd::prelude::*;

verus! {

/// A fresh random identifier.
///
/// Calls `uuid::Uuid::new_v4`; nothing is claimed of the value, which is random.
#[verifier::external_body]
pub(crate) fn new_id() -> (r: u128) {
    uuid::Uuid::new_v4().as_u128()
}

/// The value of a hexadecimal digit, in lower case.
pub open spec fn hex_digit(v: int) -> char {
    if v < 10 {
        (('0' as int) + v) as char
    } else {
        (('a' as int) + v - 10) as char
    }
}

/// The `k`-th of the 32 hexadecimal digits of an identifier, the most significant first.
pub open spec fn id_nibble(id: u128, k: int) -> int {
    (id as int / vstd::arithmetic::power2::pow2((4 * (31 - k)) as nat) as int) % 16
}

/// The hyphenated form of an identifier: 32 lower-case hexadecimal digits in
/// groups of 8, 4, 4, 4 and 12.
pub open spec fn hyphenated(id: u128) -> Seq<char> {
    Seq::new(
        36,
        |p: int|
            if p == 8 || p == 13 || p == 18 || p == 23 {
                '-'
            } else {
                let hyphens: int = if p < 8 {
                    0
                } else if p < 13 {
                    1
                } else if p < 18 {
                    2
                } else if p < 23 {
                    3
                } else {
                    4
                };
                hex_digit(id_nibble(id, p - hyphens))
            },
    )
}

/// The text of an identifier.
///
/// Calls `Uuid::to_string` on `Uuid::from_u128`, which writes the hyphenated
/// lower-case form.
#[verifier::external_body]
pub(crate) fn id_text(id: u128) -> (r: String)
    ensures
        r@ == hyphenated(id),
{
    uuid::Uuid::from_u128(id).to_string()
}

/// The identifier that a text holds, as `uuid` parses it.
pub uninterp spec fn parsed_id(text: Seq<char>) -> Option<u128>;

/// Parses an identifier from its text.
///
/// Calls `uuid::Uuid::parse_str`; which texts it accepts is named by
/// `parsed_id`.
#[verifier::external_body]
pub(crate) fn parse_id(text: &str) -> (r: Option<u128>)
    ensures
        r == parsed_id(text@),
{
    match uuid::Uuid::parse_str(text) {
        Ok(id) => Some(id.as_u128()),
        Err(_) => None,
    }
}

} // verus!
