//! Game identifiers: random UUIDs, held as their 128-bit value.

use vstd::prelude::*;

verus! {

/// `Uuid::new_v4().as_u128()`: the value of a fresh random identifier. It
/// rests on chance, so nothing is stated of it.
#[verifier::external_body]
pub(crate) fn new_game_id() -> u128 {
    uuid::Uuid::new_v4().as_u128()
}

/// The lowercase hexadecimal digit of a number below 16.
pub open spec fn hex_digit(d: int) -> char {
    if d < 10 { (d + 48) as char } else { (d + 87) as char }
}

/// The `n` lowest hexadecimal digits of `v`, most significant first.
pub open spec fn hex_digits(v: nat, n: nat) -> Seq<char>
    decreases n,
{
    if n == 0 {
        seq![]
    } else {
        hex_digits(v / 16, (n - 1) as nat).push(hex_digit((v % 16) as int))
    }
}

/// The identifier in its lowercase hyphenated form: its 32 hexadecimal
/// digits, most significant first, in groups of 8, 4, 4, 4 and 12 joined
/// by hyphens.
pub open spec fn spec_game_id_text(id: u128) -> Seq<char> {
    let d = hex_digits(id as nat, 32);
    d.subrange(0, 8) + seq!['-'] + d.subrange(8, 12) + seq!['-'] + d.subrange(12, 16) + seq!['-'] + d.subrange(
        16,
        20,
    ) + seq!['-'] + d.subrange(20, 32)
}

/// `Uuid::from_u128(id).to_string()`: the identifier's bytes taken
/// most significant first (`to_be_bytes`), written by `Display` as lowercase
/// hexadecimal in the hyphenated form, 36 characters long.
#[verifier::external_body]
pub(crate) fn game_id_text(id: u128) -> (r: String)
    ensures
        r@ == spec_game_id_text(id),
        r@.len() == 36,
{
    uuid::Uuid::from_u128(id).to_string()
}

} // verus!
