//! Text forms of ids, through the `uuid` crate.
use vstd::prelude::*;
use uuid::Uuid;

verus! {

/// The `k`-th hexadecimal digit of an id, counted from the most significant.
pub open spec fn id_nibble(id: u128, k: int) -> int {
    (id as int / vstd::arithmetic::power::pow(16, (31 - k) as nat)) % 16
}

/// How many hyphens come before place `i` of an id's text.
pub open spec fn hyphens_before(i: int) -> int {
    if i < 8 {
        0
    } else if i < 13 {
        1
    } else if i < 18 {
        2
    } else if i < 23 {
        3
    } else {
        4
    }
}

/// The hyphenated lowercase text that `uuid` writes for an id: its 32
/// hexadecimal digits, most significant first (the id's big-endian bytes),
/// in groups of 8, 4, 4, 4 and 12 joined by `-`.
pub open spec fn uuid_text(id: u128) -> Seq<char> {
    Seq::new(
        36,
        |i: int|
            if i == 8 || i == 13 || i == 18 || i == 23 {
                '-'
            } else {
                crate::text::hex_digit(id_nibble(id, i - hyphens_before(i)))
            },
    )
}

/// The id that `Uuid::parse_str` reads from a text, if it reads one.
pub uninterp spec fn uuid_parsed(s: Seq<char>) -> Option<u128>;

/// Calls `Uuid`'s `Display` (through `to_string`), which writes the
/// hyphenated lowercase form of the id's big-endian bytes: `uuid_text`.
#[verifier::external_body]
pub(crate) fn uuid_to_string(id: u128) -> (r: String)
    ensures
        r@ == uuid_text(id),
{
    Uuid::from_u128(id).to_string()
}

/// Calls `Uuid::parse_str`; the outcome depends on the text alone and is
/// named `uuid_parsed`.
#[verifier::external_body]
pub(crate) fn uuid_parse(s: &str) -> (r: Option<u128>)
    ensures
        r == uuid_parsed(s@),
{
    match Uuid::parse_str(s) {
        Ok(u) => Some(u.as_u128()),
        Err(_) => None,
    }
}

} // verus!
