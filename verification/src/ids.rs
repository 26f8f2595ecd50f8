//! Random identifiers.
use vstd::prelude::*;

verus! {

/// The character of one hexadecimal digit, in lower case.
pub open spec fn hex_char(d: nat) -> char {
    if d < 10 {
        ('0' as u32 + d) as char
    } else {
        ('a' as u32 + (d - 10)) as char
    }
}

/// The hexadecimal digits of a 128-bit number: all of them, the most significant first.
pub open spec fn hex_digits(id: u128) -> Seq<char> {
    Seq::new(32, |i: int| hex_char(((id >> ((4 * (31 - i)) as u128)) & 0xf) as nat))
}

/// Whether the version and variant bits mark `id` as a random identifier.
pub open spec fn is_random_id(id: u128) -> bool {
    (id >> 76u128) & 0xf == 4 && (id >> 62u128) & 0x3 == 2
}

/// `uuid::Uuid::new_v4`, read as a number with `as_u128`.
///
/// Claims only what holds of every outcome: the version bits say random, the variant bits are
/// those of RFC 9562. The other bits are random; a system without a source of randomness makes the
/// call panic.
#[verifier::external_body]
pub(crate) fn new_random_id() -> (id: u128)
    ensures
        is_random_id(id),
{
    uuid::Uuid::new_v4().as_u128()
}

/// `uuid::Uuid::simple`, printed.
///
/// Claims that the simple form is the number's 32 lower-case hexadecimal digits.
#[verifier::external_body]
pub(crate) fn simple_text(id: u128) -> (text: String)
    ensures
        text@ == hex_digits(id),
{
    uuid::Uuid::from_u128(id).simple().to_string()
}

} // verus!
