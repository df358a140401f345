//! The bounded byte buffer that holds an avatar's DNA.

use vstd::prelude::*;

verus! {

#[verifier::external_type_specification]
#[verifier::external_body]
#[verifier::reject_recursive_types(T)]
#[verifier::reject_recursive_types(S)]
pub struct ExBoundedVec<T, S>(frame_support::BoundedVec<T, S>);

#[verifier::external_type_specification]
#[verifier::external_body]
pub struct ExConstU32<const N: u32>(frame_support::traits::ConstU32<N>);

/// Relies on `BoundedVec`'s `Clone`, which the derived `Clone` of the avatar
/// record calls; nothing is stated of the copy.
pub assume_specification<T: Clone, S>[ <frame_support::BoundedVec<T, S> as Clone>::clone ](
    v: &frame_support::BoundedVec<T, S>,
) -> frame_support::BoundedVec<T, S>;

/// Largest number of bytes a DNA buffer holds.
pub const MAX_DNA_LEN: usize = 100;

/// An avatar's DNA: at most `MAX_DNA_LEN` bytes.
pub type Dna = frame_support::BoundedVec<u8, frame_support::traits::ConstU32<100>>;

/// The bytes held by a DNA buffer, in order.
pub uninterp spec fn dna_bytes(d: Dna) -> Seq<u8>;

/// Relies on `BoundedVec`'s `Deref` to its inner `Vec` and `slice::to_vec`: a copy
/// of the bytes held, which never number more than the bound.
#[verifier::external_body]
pub(crate) fn dna_to_vec(d: &Dna) -> (r: Vec<u8>)
    ensures
        r@ == dna_bytes(*d),
        r@.len() <= MAX_DNA_LEN,
{
    d.to_vec()
}

/// Relies on `BoundedVec`'s `TryFrom<Vec<T>>`: succeeds exactly when the vector
/// fits the bound, keeping its bytes; otherwise hands the vector back.
#[verifier::external_body]
pub(crate) fn dna_from_vec(v: Vec<u8>) -> (r: Result<Dna, Vec<u8>>)
    ensures
        match r {
            Ok(d) => v@.len() <= MAX_DNA_LEN && dna_bytes(d) == v@,
            Err(e) => v@.len() > MAX_DNA_LEN && e@ == v@,
        },
{
    Dna::try_from(v)
}

} // verus!
