//! Coarse properties of an avatar read straight from its DNA bytes: its rarity
//! and its force, each version with its own mapping.

use vstd::prelude::*;

use crate::avatar::{Avatar, DnaEncoding};
use crate::codec::{hi, lo, DNA_LEN};
use crate::dna::{dna_bytes, dna_to_vec};

verus! {

/// The rarity tiers, in increasing order.
#[derive(Clone, Copy, Debug, PartialEq, Eq, Structural)]
pub enum RarityTier {
    Unrated,
    Common,
    Uncommon,
    Rare,
    Epic,
    Legendary,
    Mythical,
}

/// The byte of a rarity tier; the order of bytes is the order of tiers.
pub open spec fn tier_byte(t: RarityTier) -> u8 {
    match t {
        RarityTier::Unrated => 0,
        RarityTier::Common => 1,
        RarityTier::Uncommon => 2,
        RarityTier::Rare => 3,
        RarityTier::Epic => 4,
        RarityTier::Legendary => 5,
        RarityTier::Mythical => 6,
    }
}

/// The tier of a byte; a byte of no tier reads as `Unrated`.
pub open spec fn tier_from_byte(b: u8) -> RarityTier {
    if b == 1 {
        RarityTier::Common
    } else if b == 2 {
        RarityTier::Uncommon
    } else if b == 3 {
        RarityTier::Rare
    } else if b == 4 {
        RarityTier::Epic
    } else if b == 5 {
        RarityTier::Legendary
    } else if b == 6 {
        RarityTier::Mythical
    } else {
        RarityTier::Unrated
    }
}

impl RarityTier {
    /// The byte of this tier.
    pub fn as_byte(&self) -> (r: u8)
        ensures
            r == tier_byte(*self),
    {
        match self {
            RarityTier::Unrated => 0,
            RarityTier::Common => 1,
            RarityTier::Uncommon => 2,
            RarityTier::Rare => 3,
            RarityTier::Epic => 4,
            RarityTier::Legendary => 5,
            RarityTier::Mythical => 6,
        }
    }

    /// The tier of a byte; a byte of no tier reads as `Unrated`.
    pub fn from_byte(b: u8) -> (r: RarityTier)
        ensures
            r == tier_from_byte(b),
            b <= 6 ==> tier_byte(r) == b,
            b > 6 ==> r == RarityTier::Unrated,
    {
        match b {
            1 => RarityTier::Common,
            2 => RarityTier::Uncommon,
            3 => RarityTier::Rare,
            4 => RarityTier::Epic,
            5 => RarityTier::Legendary,
            6 => RarityTier::Mythical,
            _ => RarityTier::Unrated,
        }
    }

    /// Whether this tier is below `other`.
    pub fn is_below(&self, other: &RarityTier) -> (r: bool)
        ensures
            r == (tier_byte(*self) < tier_byte(*other)),
    {
        self.as_byte() < other.as_byte()
    }
}

/// The lowest tier nibble among the first `n` bytes (0 when `n` is 0).
pub open spec fn min_tier_upto(d: Seq<u8>, n: nat) -> u8
    decreases n,
{
    if n == 0 {
        0
    } else if n == 1 {
        hi(d[0])
    } else {
        let m = min_tier_upto(d, (n - 1) as nat);
        if hi(d[n - 1]) < m {
            hi(d[n - 1])
        } else {
            m
        }
    }
}

/// The rarity tier nibble of DNA bytes in the given version. V1 takes the
/// lowest tier nibble of all its bytes; V2 and V3 store the rarity tier in the
/// low nibble of byte 2. A V2 or V3 sequence of another length holds 0.
pub open spec fn rarity_nibble_of_dna(enc: DnaEncoding, d: Seq<u8>) -> u8 {
    match enc {
        DnaEncoding::V1 => min_tier_upto(d, d.len()),
        _ => if d.len() == DNA_LEN {
            lo(d[2])
        } else {
            0
        },
    }
}

/// The rarity score of DNA bytes in the given version: the byte of the tier
/// that the rarity nibble names, so a nibble of no tier scores as `Unrated`.
pub open spec fn rarity_of_dna(enc: DnaEncoding, d: Seq<u8>) -> u8 {
    tier_byte(tier_from_byte(rarity_nibble_of_dna(enc, d)))
}

/// Rarity scores follow the tier order: of two DNA sequences, the one whose
/// rarity nibble names the lower tier has the lower score, and every score is
/// the byte of a tier.
pub proof fn lemma_rarity_follows_tier_order(enc: DnaEncoding, a: Seq<u8>, b: Seq<u8>)
    ensures
        rarity_of_dna(enc, a) <= 6,
        rarity_of_dna(enc, a) == tier_byte(tier_from_byte(rarity_nibble_of_dna(enc, a))),
        tier_byte(tier_from_byte(rarity_nibble_of_dna(enc, a))) < tier_byte(
            tier_from_byte(rarity_nibble_of_dna(enc, b)),
        ) ==> rarity_of_dna(enc, a) < rarity_of_dna(enc, b),
        rarity_nibble_of_dna(enc, a) > 6 ==> rarity_of_dna(enc, a) == tier_byte(
            RarityTier::Unrated,
        ),
{
}

/// The force score of DNA bytes in the given version. V1 takes the variation
/// nibble of the last byte (0 without bytes); V2 and V3 store the force in the
/// custom-type-2 byte. A V2 or V3 sequence of another length rates 0.
pub open spec fn force_of_dna(enc: DnaEncoding, d: Seq<u8>) -> u8 {
    match enc {
        DnaEncoding::V1 => if d.len() == 0 {
            0
        } else {
            lo(d[d.len() - 1])
        },
        _ => if d.len() == DNA_LEN {
            d[4]
        } else {
            0
        },
    }
}

/// Rarity and force as the V1 layout reads them.
pub struct AttributeMapperV1;

/// Rarity and force as the V2 layout reads them.
pub struct AttributeMapperV2;

/// Rarity and force as the V3 layout reads them.
pub struct AttributeMapperV3;

impl AttributeMapperV1 {
    pub fn rarity(d: &Vec<u8>) -> (r: u8)
        ensures
            r == rarity_of_dna(DnaEncoding::V1, d@),
    {
        if d.len() == 0 {
            return RarityTier::from_byte(0).as_byte();
        }
        let mut m: u8 = d[0] / 16;
        let mut i: usize = 1;
        while i < d.len()
            invariant
                1 <= i <= d@.len(),
                m == min_tier_upto(d@, i as nat),
            decreases d@.len() - i,
        {
            let t = d[i] / 16;
            if t < m {
                m = t;
            }
            i = i + 1;
        }
        RarityTier::from_byte(m).as_byte()
    }

    pub fn force(d: &Vec<u8>) -> (r: u8)
        ensures
            r == force_of_dna(DnaEncoding::V1, d@),
    {
        if d.len() == 0 {
            0
        } else {
            d[d.len() - 1] % 16
        }
    }
}

impl AttributeMapperV2 {
    pub fn rarity(d: &Vec<u8>) -> (r: u8)
        ensures
            r == rarity_of_dna(DnaEncoding::V2, d@),
    {
        let nibble = if d.len() == DNA_LEN {
            d[2] % 16
        } else {
            0
        };
        RarityTier::from_byte(nibble).as_byte()
    }

    pub fn force(d: &Vec<u8>) -> (r: u8)
        ensures
            r == force_of_dna(DnaEncoding::V2, d@),
    {
        if d.len() == DNA_LEN {
            d[4]
        } else {
            0
        }
    }
}

impl AttributeMapperV3 {
    pub fn rarity(d: &Vec<u8>) -> (r: u8)
        ensures
            r == rarity_of_dna(DnaEncoding::V3, d@),
    {
        AttributeMapperV2::rarity(d)
    }

    pub fn force(d: &Vec<u8>) -> (r: u8)
        ensures
            r == force_of_dna(DnaEncoding::V3, d@),
    {
        AttributeMapperV2::force(d)
    }
}

impl<BlockNumber> Avatar<BlockNumber> {
    /// The avatar's rarity score, read in the layout its encoding tag names.
    pub fn rarity(&self) -> (r: u8)
        ensures
            r == rarity_of_dna(self.encoding, dna_bytes(self.dna)),
    {
        let d = dna_to_vec(&self.dna);
        match self.encoding {
            DnaEncoding::V1 => AttributeMapperV1::rarity(&d),
            DnaEncoding::V2 => AttributeMapperV2::rarity(&d),
            DnaEncoding::V3 => AttributeMapperV3::rarity(&d),
        }
    }

    /// The avatar's force score, read in the layout its encoding tag names.
    pub fn force(&self) -> (r: u8)
        ensures
            r == force_of_dna(self.encoding, dna_bytes(self.dna)),
    {
        let d = dna_to_vec(&self.dna);
        match self.encoding {
            DnaEncoding::V1 => AttributeMapperV1::force(&d),
            DnaEncoding::V2 => AttributeMapperV2::force(&d),
            DnaEncoding::V3 => AttributeMapperV3::force(&d),
        }
    }
}

} // verus!
