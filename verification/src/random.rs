//! Random byte sequences, for keys and for fixtures.

use vstd::prelude::*;

verus! {

/// Draws one byte by calling `rand::random::<u8>()`, which samples the
/// generator that `rand` keeps for the calling thread.
///
/// Nothing is claimed of the byte: every value of `u8` may come back, and two
/// calls may differ. `rand` panics where the operating system gives it no
/// seed on a thread's first draw, where a later reseed from the operating
/// system fails (one is due after every 64 KiB drawn, and after a fork), and
/// where it cannot register its fork handler. The wrapper takes no argument
/// by which such a failure of the machine could be left out; that none
/// happens is taken on trust.
#[verifier::external_body]
fn random_byte() -> (byte: u8) {
    rand::random::<u8>()
}

/// Draws `size` random bytes, one after the other.
///
/// No seed can be given and no two calls need agree: only the length of the
/// result is fixed.
pub fn generate_long_random_u8(size: usize) -> (bytes: Vec<u8>)
    ensures
        bytes@.len() == size,
{
    let mut bytes: Vec<u8> = Vec::with_capacity(size);
    let mut drawn: usize = 0;
    while drawn < size
        invariant
            drawn <= size,
            bytes@.len() == drawn,
        decreases size - drawn,
    {
        bytes.push(random_byte());
        drawn += 1;
    }
    bytes
}

/// Draws a key of `size` random bytes, at most 255 of them.
///
/// No seed can be given and no two calls need agree: only the length of the
/// result is fixed.
pub fn generate_code(size: u8) -> (code: Vec<u8>)
    ensures
        code@.len() == size,
{
    generate_long_random_u8(size as usize)
}

} // verus!
