//! What the library takes from other crates. Verus reads the contracts
//! here and not the bodies: each says what is relied on.
use crate::repository::EntryId;
use vstd::prelude::*;

verus! {

/// The standard base64 text, with padding, of a string of bytes.
pub uninterp spec fn base64_text(bytes: Seq<u8>) -> Seq<char>;

/// Calls `base64::encode`, which writes its input in the standard
/// alphabet with padding. The text depends on the bytes alone; it is
/// named, not spelled out. (`encode` panics only when the length of the
/// text would overflow, which twelve bytes cannot cause.)
#[verifier::external_body]
pub(crate) fn base64_encode(id: &EntryId) -> (text: String)
    ensures
        text@ == base64_text(id@),
{
    base64::encode(id)
}

/// Calls `rand::random`, which draws a `u64` from the generator of the
/// thread. Nothing is claimed of the number drawn. (The call fails only
/// when the operating system gives the generator no seed, whatever the
/// caller does.)
#[verifier::external_body]
pub(crate) fn random_u64() -> u64 {
    rand::random::<u64>()
}

/// The 64-bit number with the bits of `x`, read as signed.
pub open spec fn signed(x: u64) -> int {
    if x < 0x8000_0000_0000_0000 {
        x as int
    } else {
        x - 0x1_0000_0000_0000_0000
    }
}

/// Reads the bits of `x` as a signed number.
pub fn to_signed(x: u64) -> (y: i64)
    ensures
        y == signed(x),
{
    if x < 0x8000_0000_0000_0000 {
        x as i64
    } else {
        ((x - 0x8000_0000_0000_0000) as i64) + i64::MIN
    }
}

/// A password drawn at random from all 64-bit signed numbers.
pub fn random_password() -> i64 {
    to_signed(random_u64())
}

/// A player's credential drawn at random.
pub fn random_token() -> usize {
    let x = random_u64();
    #[verifier::truncate]
    (x as usize)
}

} // verus!
