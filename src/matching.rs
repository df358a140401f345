//! Progress matching: whether a sacrifice's progress array agrees closely
//! enough with the leader's to count as a match, and on which slots.

use vstd::prelude::*;

use crate::codec::{hi, lo, ByteType};
use crate::progress::{lowest, lowest_progress_byte};

verus! {

/// Number of variations a progress nibble cycles through.
pub const PROGRESS_VARIATIONS: u8 = 6;

/// Score a sacrifice needs to match: two points per matching slot, one per
/// mirrored slot.
pub const MATCH_SCORE: usize = 6;

/// Whether two variation nibbles are neighbours on the cycle of variations.
pub open spec fn variation_match(v1: u8, v2: u8) -> bool {
    let d = if v1 >= v2 {
        v1 - v2
    } else {
        v2 - v1
    };
    d == 1 || d == PROGRESS_VARIATIONS - 1
}

/// Slot `i` matches: both arrays have the same tier there, the leader's slot is
/// at its lowest tier, and either that tier is below `rarity_level` or the two
/// variations are neighbours.
pub open spec fn slot_matches(
    a1: Seq<u8>,
    a2: Seq<u8>,
    rarity_level: u8,
    low1: u8,
    i: int,
) -> bool {
    &&& hi(a1[i]) == hi(a2[i])
    &&& hi(a1[i]) <= low1
    &&& (hi(a1[i]) < rarity_level || variation_match(lo(a1[i]), lo(a2[i])))
}

/// Slot `i` mirrors: the leader's slot is above its lowest tier and both
/// arrays have the same variation there.
pub open spec fn slot_mirrors(a1: Seq<u8>, a2: Seq<u8>, low1: u8, i: int) -> bool {
    hi(a1[i]) > low1 && lo(a1[i]) == lo(a2[i])
}

/// The matching slots among the first `n`, in increasing order.
pub open spec fn matched_upto(a1: Seq<u8>, a2: Seq<u8>, rarity_level: u8, low1: u8, n: nat) -> Seq<
    usize,
>
    decreases n,
{
    if n == 0 {
        seq![]
    } else {
        let s = matched_upto(a1, a2, rarity_level, low1, (n - 1) as nat);
        if slot_matches(a1, a2, rarity_level, low1, n - 1) {
            s.push((n - 1) as usize)
        } else {
            s
        }
    }
}

/// The number of mirrored slots among the first `n`.
pub open spec fn mirrors_upto(a1: Seq<u8>, a2: Seq<u8>, low1: u8, n: nat) -> nat
    decreases n,
{
    if n == 0 {
        0
    } else {
        mirrors_upto(a1, a2, low1, (n - 1) as nat) + if slot_mirrors(a1, a2, low1, n - 1) {
            1nat
        } else {
            0nat
        }
    }
}

/// The slots on which `a2` matches the leader's array `a1`, or `None` when it
/// does not match: it does not when its lowest tier is below the leader's, or
/// when no slot matches, or when the score falls short of `MATCH_SCORE`.
pub open spec fn progress_match(a1: Seq<u8>, a2: Seq<u8>, rarity_level: u8) -> Option<Seq<usize>> {
    let low1 = lowest(a1, ByteType::High);
    let low2 = lowest(a2, ByteType::High);
    if low1 > low2 {
        None
    } else {
        let m = matched_upto(a1, a2, rarity_level, low1, a1.len());
        if m.len() > 0 && 2 * m.len() + mirrors_upto(a1, a2, low1, a1.len()) >= MATCH_SCORE {
            Some(m)
        } else {
            None
        }
    }
}

/// Every slot listed by `matched_upto` is below `n`.
pub proof fn lemma_matched_upto(a1: Seq<u8>, a2: Seq<u8>, rarity_level: u8, low1: u8, n: nat)
    requires
        n <= usize::MAX,
    ensures
        matched_upto(a1, a2, rarity_level, low1, n).len() <= n,
        forall|k: int|
            0 <= k < matched_upto(a1, a2, rarity_level, low1, n).len() ==> #[trigger] matched_upto(
                a1,
                a2,
                rarity_level,
                low1,
                n,
            )[k] < n,
    decreases n,
{
    if n > 0 {
        lemma_matched_upto(a1, a2, rarity_level, low1, (n - 1) as nat);
        let s = matched_upto(a1, a2, rarity_level, low1, (n - 1) as nat);
        let t = matched_upto(a1, a2, rarity_level, low1, n);
        assert forall|k: int| 0 <= k < t.len() implies #[trigger] t[k] < n by {
            if k < s.len() {
                assert(t[k] == s[k]);
            }
        }
    }
}

fn variation_matches(v1: u8, v2: u8) -> (r: bool)
    ensures
        r == variation_match(v1, v2),
{
    let d = if v1 >= v2 {
        v1 - v2
    } else {
        v2 - v1
    };
    d == 1 || d == PROGRESS_VARIATIONS - 1
}

/// The slots on which `a2` matches the leader's array `a1`, or `None`.
pub fn is_progress_match(a1: &Vec<u8>, a2: &Vec<u8>, rarity_level: u8) -> (r: Option<Vec<usize>>)
    requires
        a1@.len() == a2@.len(),
    ensures
        match r {
            Some(v) => progress_match(a1@, a2@, rarity_level) == Some(v@),
            None => progress_match(a1@, a2@, rarity_level) is None,
        },
{
    let low1 = lowest_progress_byte(a1, ByteType::High);
    let low2 = lowest_progress_byte(a2, ByteType::High);
    if low1 > low2 {
        return None;
    }
    let mut matches: Vec<usize> = Vec::new();
    let mut mirrors: usize = 0;
    let mut i: usize = 0;
    while i < a1.len()
        invariant
            i <= a1@.len(),
            a1@.len() == a2@.len(),
            low1 == lowest(a1@, ByteType::High),
            matches@ == matched_upto(a1@, a2@, rarity_level, low1, i as nat),
            mirrors == mirrors_upto(a1@, a2@, low1, i as nat),
            mirrors <= i,
        decreases a1@.len() - i,
    {
        let rarity_1 = a1[i] / 16;
        let variation_1 = a1[i] % 16;
        let rarity_2 = a2[i] / 16;
        let variation_2 = a2[i] % 16;
        let is_maxed = rarity_1 > low1;
        if rarity_1 == rarity_2 && !is_maxed && (rarity_1 < rarity_level || variation_matches(
            variation_1,
            variation_2,
        )) {
            matches.push(i);
        } else if is_maxed && variation_1 == variation_2 {
            mirrors = mirrors + 1;
        }
        i = i + 1;
    }
    let m = matches.len();
    if m > 0 && (m >= MATCH_SCORE / 2 || mirrors >= MATCH_SCORE - 2 * m) {
        Some(matches)
    } else {
        None
    }
}

} // verus!
