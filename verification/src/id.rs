//! 128-bit identifiers of intents and orders, and their textual form.

use vstd::arithmetic::power::pow;
use vstd::prelude::*;

verus! {

/// A universally unique identifier, held as its 128 bits. The first byte of the
/// identifier is the most significant byte of the number.
#[derive(Clone, Copy, Debug, PartialEq, Eq, Hash, Structural)]
pub struct Uuid(pub u128);

/// The identifier that `uuid::Uuid::parse_str` reads from `text`, as its 128-bit
/// number, or `None` where it rejects the text.
pub uninterp spec fn uuid_of_text(text: Seq<char>) -> Option<u128>;

/// The lower-case hexadecimal digit of `n`, for `0 <= n < 16`.
pub open spec fn hex_digit(n: int) -> char {
    if n < 10 {
        ((48 + n) as u8) as char
    } else {
        ((87 + n) as u8) as char
    }
}

/// The `k`-th of the 32 hexadecimal digits of `bits`, counted from the most
/// significant one.
pub open spec fn nibble(bits: u128, k: int) -> int {
    (bits as int / pow(16, (31 - k) as nat)) % 16
}

/// Number of hyphens that precede position `i` of the hyphenated form.
pub open spec fn hyphens_before(i: int) -> int {
    if i < 8 {
        0
    } else if i < 13 {
        1
    } else if i < 18 {
        2
    } else if i < 23 {
        3
    } else {
        4
    }
}

/// The canonical text of an identifier: its 32 lower-case hexadecimal digits in
/// groups of 8, 4, 4, 4 and 12, with a hyphen between groups.
pub open spec fn hyphenated(bits: u128) -> Seq<char> {
    Seq::new(
        36,
        |i: int|
            if i == 8 || i == 13 || i == 18 || i == 23 {
                '-'
            } else {
                hex_digit(nibble(bits, i - hyphens_before(i)))
            },
    )
}

/// Calls `uuid::Uuid::parse_str` and hands out the identifier's 128 bits as
/// `Uuid::as_u128` gives them. Trusted: the outcome is a function of the text
/// alone.
#[verifier::external_body]
fn parse_bits(text: &str) -> (r: Option<u128>)
    ensures
        r == uuid_of_text(text@),
{
    uuid::Uuid::parse_str(text).ok().map(|id| id.as_u128())
}

/// Formats with the `Display` of `uuid::Uuid`, built by `Uuid::from_u128`.
/// Trusted: the text is the lower-case hyphenated form, and, as `uuid`
/// documents of every form that it writes, `uuid::Uuid::parse_str` reads the
/// same identifier back from it.
#[verifier::external_body]
fn format_bits(bits: u128) -> (r: String)
    ensures
        r@ == hyphenated(bits),
        uuid_of_text(r@) == Some(bits),
{
    uuid::Uuid::from_u128(bits).to_string()
}

impl Uuid {
    /// The identifier whose bytes, most significant first, make up `bits`.
    pub fn from_u128(bits: u128) -> (id: Uuid)
        ensures
            id == Uuid(bits),
    {
        Uuid(bits)
    }

    /// The identifier as a number.
    pub fn as_u128(&self) -> (bits: u128)
        ensures
            bits == self.0,
    {
        self.0
    }

    /// Reads an identifier from any of the textual forms in common use.
    pub fn parse_str(text: &str) -> (r: Option<Uuid>)
        ensures
            r == uuid_from(text@),
    {
        match parse_bits(text) {
            Some(bits) => Some(Uuid(bits)),
            None => None,
        }
    }

    /// The canonical hyphenated text of the identifier, from which
    /// [`Uuid::parse_str`] reads the identifier back.
    pub fn to_string(&self) -> (text: String)
        ensures
            text@ == hyphenated(self.0),
            uuid_from(text@) == Some(*self),
    {
        format_bits(self.0)
    }
}

/// The identifier that `text` denotes, if it denotes one.
pub open spec fn uuid_from(text: Seq<char>) -> Option<Uuid> {
    match uuid_of_text(text) {
        Some(bits) => Some(Uuid(bits)),
        None => None,
    }
}

} // verus!
