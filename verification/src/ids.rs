//! Identities: drawing new ones, and writing them as text.

use vstd::prelude::*;
use crate::Id;

verus! {

/// The hexadecimal digit of a value below 16, in lower case.
pub open spec fn hex_digit(value: int) -> char {
    seq!['0', '1', '2', '3', '4', '5', '6', '7', '8', '9', 'a', 'b', 'c', 'd', 'e', 'f'][value]
}

/// The `k`-th of the 32 hexadecimal digits of `id`, the most significant first.
pub open spec fn uuid_digit(id: Id, k: int) -> int {
    ((id >> ((4 * (31 - k)) as u128)) & 0xf) as int
}

/// How many of the four hyphens of a UUID's text stand before place `i`.
pub open spec fn hyphens_before(i: int) -> int {
    (if i > 8 {
        1int
    } else {
        0int
    }) + (if i > 13 {
        1int
    } else {
        0int
    }) + (if i > 18 {
        1int
    } else {
        0int
    }) + (if i > 23 {
        1int
    } else {
        0int
    })
}

/// The text of an identity in the canonical form of a UUID: 36 characters,
/// hyphens at places 8, 13, 18 and 23, and elsewhere the 32 hexadecimal
/// digits of the 128 bits, in lower case, the most significant first.
pub open spec fn uuid_text(id: Id) -> Seq<char> {
    Seq::new(
        36,
        |i: int|
            if i == 8 || i == 13 || i == 18 || i == 23 {
                '-'
            } else {
                hex_digit(uuid_digit(id, i - hyphens_before(i)))
            },
    )
}

/// Calls `uuid::Uuid::from_u128`, which takes the 128 bits most significant
/// byte first, and formats the result with its `Display` impl, which writes
/// the hyphenated lower-case form: the contract states that text.
#[verifier::external_body]
pub(crate) fn id_text(id: Id) -> (r: String)
    ensures
        r@ == uuid_text(id),
{
    uuid::Uuid::from_u128(id).to_string()
}

/// Calls `uuid::Uuid::new_v4`, which draws 122 random bits from the operating
/// system, and returns the UUID's 128 bits. Nothing is claimed of the value: it
/// may collide with one in use, and whoever stores a row under it checks that.
/// `new_v4` itself gives up where the operating system has no random bytes to
/// give.
#[verifier::external_body]
pub(crate) fn fresh_id() -> Id {
    uuid::Uuid::new_v4().as_u128()
}

} // verus!
