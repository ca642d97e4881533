//! The masking transform: every byte of a buffer is moved by the byte of a
//! repeating mask that lines up with it, with arithmetic modulo 256.

use vstd::prelude::*;

verus! {

/// Why a masking transform was refused.
#[derive(Debug, Clone, Copy, PartialEq, Eq, Structural)]
pub enum MaskError {
    /// The mask holds no byte, so no byte lines up with any position.
    InvalidMask,
}

/// The mask byte that lines up with position `i`: the mask repeats end to end.
pub open spec fn mask_at(mask: Seq<u8>, i: int) -> u8
    recommends
        mask.len() > 0,
        0 <= i,
{
    mask[i % (mask.len() as int)]
}

/// `a + b` modulo 256.
pub open spec fn add_mod_256(a: u8, b: u8) -> u8 {
    ((a + b) % 256) as u8
}

/// `a - b` modulo 256.
pub open spec fn sub_mod_256(a: u8, b: u8) -> u8 {
    ((a - b) % 256) as u8
}

/// `source` with the repeating mask added to it, position by position.
pub open spec fn shifted(source: Seq<u8>, mask: Seq<u8>) -> Seq<u8> {
    Seq::new(source.len(), |i: int| add_mod_256(source[i], mask_at(mask, i)))
}

/// `source` with the repeating mask subtracted from it, position by position.
pub open spec fn unshifted(source: Seq<u8>, mask: Seq<u8>) -> Seq<u8> {
    Seq::new(source.len(), |i: int| sub_mod_256(source[i], mask_at(mask, i)))
}

/// The transform in either direction: `unshifted` when `reverse`, else `shifted`.
pub open spec fn offset(source: Seq<u8>, mask: Seq<u8>, reverse: bool) -> Seq<u8> {
    if reverse {
        unshifted(source, mask)
    } else {
        shifted(source, mask)
    }
}

/// Applies the mask to every byte of `source`, subtracting when `reverse`
/// and adding otherwise.
fn offset_bytes(source: &[u8], mask: &[u8], reverse: bool) -> (out: Vec<u8>)
    requires
        mask@.len() > 0,
    ensures
        out@ == offset(source@, mask@, reverse),
{
    let mask_len: usize = mask.len();
    let mut out: Vec<u8> = Vec::with_capacity(source.len());
    let mut b_index: usize = 0;
    while b_index < source.len()
        invariant
            mask_len == mask@.len(),
            mask_len > 0,
            b_index <= source@.len(),
            out@.len() == b_index,
            forall|k: int| 0 <= k < b_index ==> out@[k] == offset(source@, mask@, reverse)[k],
        decreases source@.len() - b_index,
    {
        let mask_index: usize = b_index % mask_len;
        let b_val: u8 = source[b_index];
        let moved: u8 = if reverse {
            b_val.wrapping_sub(mask[mask_index])
        } else {
            b_val.wrapping_add(mask[mask_index])
        };
        out.push(moved);
        b_index += 1;
    }
    out
}

/// Adds the repeating `mask` to `source`, byte by byte, modulo 256.
///
/// An empty mask is refused with [`MaskError::InvalidMask`], whatever the
/// source holds. Otherwise the result has the length of `source`, and
/// [`unshift_bytes`] with the same mask gives `source` back from it.
pub fn shift_bytes(source: &[u8], mask: &[u8]) -> (result: Result<Vec<u8>, MaskError>)
    ensures
        mask@.len() == 0 ==> result == Err::<Vec<u8>, MaskError>(MaskError::InvalidMask),
        mask@.len() > 0 ==> result is Ok,
        result matches Ok(out) ==> out@ == shifted(source@, mask@),
        result matches Ok(out) ==> out@.len() == source@.len(),
        result matches Ok(out) ==> unshifted(out@, mask@) == source@,
{
    if mask.len() == 0 {
        return Err(MaskError::InvalidMask);
    }
    proof {
        lemma_unshift_undoes_shift(source@, mask@);
    }
    Ok(offset_bytes(source, mask, false))
}

/// Subtracts the repeating `mask` from `source`, byte by byte, modulo 256.
///
/// An empty mask is refused with [`MaskError::InvalidMask`], whatever the
/// source holds. Otherwise the result has the length of `source`, and
/// [`shift_bytes`] with the same mask gives `source` back from it.
pub fn unshift_bytes(source: &[u8], mask: &[u8]) -> (result: Result<Vec<u8>, MaskError>)
    ensures
        mask@.len() == 0 ==> result == Err::<Vec<u8>, MaskError>(MaskError::InvalidMask),
        mask@.len() > 0 ==> result is Ok,
        result matches Ok(out) ==> out@ == unshifted(source@, mask@),
        result matches Ok(out) ==> out@.len() == source@.len(),
        result matches Ok(out) ==> shifted(out@, mask@) == source@,
{
    if mask.len() == 0 {
        return Err(MaskError::InvalidMask);
    }
    proof {
        lemma_shift_undoes_unshift(source@, mask@);
    }
    Ok(offset_bytes(source, mask, true))
}

/// Both directions of the transform keep the length of the source.
pub proof fn lemma_offset_keeps_length(source: Seq<u8>, mask: Seq<u8>)
    requires
        mask.len() > 0,
    ensures
        shifted(source, mask).len() == source.len(),
        unshifted(source, mask).len() == source.len(),
{
}

/// Subtracting a non-empty mask from what adding it gave returns the source.
pub proof fn lemma_unshift_undoes_shift(source: Seq<u8>, mask: Seq<u8>)
    requires
        mask.len() > 0,
    ensures
        unshifted(shifted(source, mask), mask) == source,
{
    assert(unshifted(shifted(source, mask), mask) =~= source);
}

/// Adding a non-empty mask to what subtracting it gave returns the source.
pub proof fn lemma_shift_undoes_unshift(source: Seq<u8>, mask: Seq<u8>)
    requires
        mask.len() > 0,
    ensures
        shifted(unshifted(source, mask), mask) == source,
{
    assert(shifted(unshifted(source, mask), mask) =~= source);
}

} // verus!
