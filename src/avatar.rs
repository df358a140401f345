//! The avatar record and the tags that select its DNA layout.

use vstd::prelude::*;

use crate::dna::Dna;

verus! {

pub type SeasonId = u16;

pub type SoulCount = u32;

/// The bound on the length of an IPFS url attached to an avatar.
pub struct MaxIpfsUrl;

impl MaxIpfsUrl {
    pub fn get() -> (r: u32)
        ensures
            r == 80,
    {
        80
    }
}

/// Which version of the forging and/or mint logic should be used.
#[derive(Clone, Copy, Debug, Default, PartialEq, Eq, Structural)]
pub enum LogicGeneration {
    #[default]
    First,
    Second,
    Third,
}

/// The layout of an avatar's DNA byte sequence.
#[derive(Clone, Copy, Debug, Default, PartialEq, Eq, Structural)]
pub enum DnaEncoding {
    #[default]
    V1,
    V2,
    V3,
}

/// A game-asset entity: its season, DNA layout tag, DNA, soul count and the
/// block at which it was minted.
#[derive(Clone, Debug, Default, PartialEq, Eq)]
pub struct Avatar<BlockNumber> {
    pub season_id: SeasonId,
    pub encoding: DnaEncoding,
    pub dna: Dna,
    pub souls: SoulCount,
    pub minted_at: BlockNumber,
}

} // verus!
