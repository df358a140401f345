//! The match phase shared by the forge algorithms: each accepted sacrifice
//! raises the tier of one of the leader's lowest progress slots.

use vstd::prelude::*;

use crate::codec::{hi, lo, ByteType, DNA_LEN};
use crate::hash_provider::{advance, stream_byte, HashProvider};
use crate::matching::{is_progress_match, lemma_matched_upto, progress_match};
use crate::progress::{
    lemma_indexes_upto, lowest, lowest_indexes, lowest_progress_indexes, progress_of,
    read_progress,
};

verus! {

/// Rarity tier from which matching slots also need neighbouring variations.
pub const MATCH_ALGO_START_RARITY: u8 = 4;

/// Item type of equippable items.
pub const ITEM_TYPE_EQUIPPABLE: u8 = 4;

/// Item type of special items.
pub const ITEM_TYPE_SPECIAL: u8 = 6;

/// Equippable subtype of a base armor piece.
pub const SUB_TYPE_ARMOR_BASE: u8 = 1;

/// Special subtype of a toolbox.
pub const SUB_TYPE_TOOLBOX: u8 = 4;

/// Largest tier a progress nibble can hold.
pub const MAX_TIER: u8 = 15;

pub open spec fn item_type(d: Seq<u8>) -> u8 {
    hi(d[0])
}

pub open spec fn item_sub_type(d: Seq<u8>) -> u8 {
    lo(d[0])
}

pub open spec fn rarity_of(d: Seq<u8>) -> u8 {
    lo(d[2])
}

pub open spec fn is_toolbox(d: Seq<u8>) -> bool {
    item_type(d) == ITEM_TYPE_SPECIAL && item_sub_type(d) == SUB_TYPE_TOOLBOX
}

/// The DNA sequences of a list of byte vectors.
pub open spec fn views(v: Seq<Vec<u8>>) -> Seq<Seq<u8>> {
    v.map_values(|x: Vec<u8>| x@)
}

/// A progress byte with its tier raised by one, unless the tier is at its
/// largest value; the variation is kept.
pub open spec fn upgrade(b: u8) -> u8 {
    if hi(b) < MAX_TIER {
        (b + 16) as u8
    } else {
        b
    }
}

/// The candidates among the first `n` that are still untouched: the current
/// array holds the original byte there.
pub open spec fn open_upto(cand: Seq<usize>, orig: Seq<u8>, cur: Seq<u8>, n: nat) -> Seq<usize>
    decreases n,
{
    if n == 0 {
        seq![]
    } else {
        let s = open_upto(cand, orig, cur, (n - 1) as nat);
        let i = cand[n - 1];
        if cur[i as int] == orig[i as int] {
            s.push(i)
        } else {
            s
        }
    }
}

/// The slots a sacrifice may raise: those it matches on, or for a toolbox that
/// does not match, all of the leader's lowest-tier slots.
pub open spec fn candidates(orig: Seq<u8>, sp: Seq<u8>, toolbox: bool, rarity_level: u8) -> Seq<
    usize,
> {
    match progress_match(orig, sp, rarity_level) {
        Some(m) => m,
        None => if toolbox {
            lowest_indexes(orig, ByteType::High)
        } else {
            seq![]
        },
    }
}

/// One sacrifice's effect on the current array `cur` and the stream cursor:
/// when some candidate slot is still untouched, one byte of the stream picks
/// one of them and its tier is raised.
pub open spec fn match_step(
    orig: Seq<u8>,
    cur: Seq<u8>,
    cand: Seq<usize>,
    seed: Seq<u8>,
    cursor: int,
) -> (
    Seq<u8>,
    int,
) {
    let open = open_upto(cand, orig, cur, cand.len());
    if open.len() == 0 {
        (cur, cursor)
    } else {
        let i = open[(stream_byte(seed, cursor, 0) as int) % (open.len() as int)];
        (cur.update(i as int, upgrade(cur[i as int])), advance(cursor, 1))
    }
}

/// The leader's progress array and the stream cursor after the first `n`
/// sacrifices went through the match phase; sacrifice `i` takes part when
/// `take[i]` holds. Candidates are always drawn from the leader's original
/// array.
pub open spec fn match_upto(
    leader: Seq<u8>,
    sacs: Seq<Seq<u8>>,
    take: Seq<bool>,
    rarity_level: u8,
    seed: Seq<u8>,
    cursor: int,
    n: nat,
) -> (Seq<u8>, int)
    decreases n,
{
    if n == 0 {
        (progress_of(leader), cursor)
    } else {
        let (cur, c) = match_upto(leader, sacs, take, rarity_level, seed, cursor, (n - 1) as nat);
        let s = sacs[n - 1];
        if take[n - 1] {
            match_step(
                progress_of(leader),
                cur,
                candidates(progress_of(leader), progress_of(s), is_toolbox(s), rarity_level),
                seed,
                c,
            )
        } else {
            (cur, c)
        }
    }
}

proof fn lemma_candidates_in_range(orig: Seq<u8>, sp: Seq<u8>, toolbox: bool, rarity_level: u8)
    requires
        orig.len() <= usize::MAX,
    ensures
        forall|k: int|
            0 <= k < candidates(orig, sp, toolbox, rarity_level).len() ==> #[trigger] candidates(
                orig,
                sp,
                toolbox,
                rarity_level,
            )[k] < orig.len(),
{
    let low1 = lowest(orig, ByteType::High);
    lemma_matched_upto(orig, sp, rarity_level, low1, orig.len());
    lemma_indexes_upto(orig, ByteType::High, low1, orig.len());
}

proof fn lemma_open_upto(cand: Seq<usize>, orig: Seq<u8>, cur: Seq<u8>, n: nat, bound: nat)
    requires
        n <= cand.len(),
        forall|k: int| 0 <= k < cand.len() ==> #[trigger] cand[k] < bound,
    ensures
        open_upto(cand, orig, cur, n).len() <= n,
        forall|k: int|
            0 <= k < open_upto(cand, orig, cur, n).len() ==> #[trigger] open_upto(
                cand,
                orig,
                cur,
                n,
            )[k] < bound,
        forall|k: int|
            0 <= k < open_upto(cand, orig, cur, n).len() ==> cur[#[trigger] open_upto(
                cand,
                orig,
                cur,
                n,
            )[k] as int] == orig[open_upto(cand, orig, cur, n)[k] as int],
    decreases n,
{
    if n > 0 {
        lemma_open_upto(cand, orig, cur, (n - 1) as nat, bound);
        let s = open_upto(cand, orig, cur, (n - 1) as nat);
        let t = open_upto(cand, orig, cur, n);
        assert forall|k: int| 0 <= k < t.len() implies #[trigger] t[k] < bound && cur[t[k] as int]
            == orig[t[k] as int] by {
            if k < s.len() {
                assert(t[k] == s[k]);
            } else {
                assert(t[k] == cand[n - 1]);
            }
        }
    }
}

/// A slot of the current array is either the original byte or the original
/// byte raised by exactly one tier, from a tier below the largest.
pub open spec fn raised_at_most_once(orig: Seq<u8>, cur: Seq<u8>, i: int) -> bool {
    cur[i] == orig[i] || (hi(orig[i]) < MAX_TIER && cur[i] == orig[i] + 16)
}

pub proof fn lemma_upgrade(b: u8)
    ensures
        hi(b) < MAX_TIER ==> upgrade(b) == b + 16 && hi(upgrade(b)) == hi(b) + 1 && lo(upgrade(b))
            == lo(b),
        hi(b) >= MAX_TIER ==> upgrade(b) == b,
{
}

/// The match phase never lowers a progress slot and raises each slot by at most
/// one tier, keeping its variation, and never past the largest tier.
pub proof fn lemma_match_monotonic(
    leader: Seq<u8>,
    sacs: Seq<Seq<u8>>,
    take: Seq<bool>,
    rarity_level: u8,
    seed: Seq<u8>,
    cursor: int,
    n: nat,
)
    requires
        leader.len() == DNA_LEN,
        n <= sacs.len(),
        n <= take.len(),
    ensures
        match_upto(leader, sacs, take, rarity_level, seed, cursor, n).0.len() == progress_of(
            leader,
        ).len(),
        forall|i: int|
            0 <= i < progress_of(leader).len() ==> raised_at_most_once(
                progress_of(leader),
                match_upto(leader, sacs, take, rarity_level, seed, cursor, n).0,
                i,
            ),
    decreases n,
{
    let orig = progress_of(leader);
    if n > 0 {
        lemma_match_monotonic(leader, sacs, take, rarity_level, seed, cursor, (n - 1) as nat);
        let (cur, c) = match_upto(leader, sacs, take, rarity_level, seed, cursor, (n - 1) as nat);
        let s = sacs[n - 1];
        if take[n - 1] {
            let cand = candidates(orig, progress_of(s), is_toolbox(s), rarity_level);
            lemma_candidates_in_range(orig, progress_of(s), is_toolbox(s), rarity_level);
            lemma_open_upto(cand, orig, cur, cand.len(), orig.len());
            let open = open_upto(cand, orig, cur, cand.len());
            if open.len() > 0 {
                let k = (stream_byte(seed, c, 0) as int) % (open.len() as int);
                vstd::arithmetic::div_mod::lemma_mod_pos_bound(
                    stream_byte(seed, c, 0) as int,
                    open.len() as int,
                );
                let j = open[k];
                assert(cur[j as int] == orig[j as int]);
                lemma_upgrade(orig[j as int]);
                let next = cur.update(j as int, upgrade(cur[j as int]));
                assert forall|i: int| 0 <= i < orig.len() implies raised_at_most_once(
                    orig,
                    next,
                    i,
                ) by {
                    assert(raised_at_most_once(orig, cur, i));
                    if i != j {
                        assert(next[i] == cur[i]);
                    } else {
                        assert(j < orig.len());
                        assert(next[i] == upgrade(orig[i]));
                    }
                }
            }
        }
    }
}

fn upgrade_byte(b: u8) -> (r: u8)
    ensures
        r == upgrade(b),
{
    if b / 16 < MAX_TIER {
        b + 16
    } else {
        b
    }
}

pub(crate) fn dna_is_toolbox(d: &Vec<u8>) -> (r: bool)
    requires
        d@.len() > 0,
    ensures
        r == is_toolbox(d@),
{
    d[0] / 16 == ITEM_TYPE_SPECIAL && d[0] % 16 == SUB_TYPE_TOOLBOX
}

/// Runs the match phase: the leader's progress array after every sacrifice `i`
/// with `take[i]` has been offered, in order.
pub(crate) fn match_progress(
    leader: &Vec<u8>,
    sacs: &Vec<Vec<u8>>,
    take: &Vec<bool>,
    rarity_level: u8,
    hash_provider: &mut HashProvider,
) -> (r: Vec<u8>)
    requires
        leader@.len() == DNA_LEN,
        take@.len() == sacs@.len(),
        forall|i: int| 0 <= i < sacs@.len() ==> (#[trigger] sacs@[i])@.len() == DNA_LEN,
    ensures
        (r@, final(hash_provider).cursor()) == match_upto(
            leader@,
            views(sacs@),
            take@,
            rarity_level,
            old(hash_provider).seed(),
            old(hash_provider).cursor(),
            sacs@.len(),
        ),
        final(hash_provider).seed() == old(hash_provider).seed(),
        r@.len() == crate::codec::PROGRESS_LEN,
{
    let orig = read_progress(leader);
    let mut cur = read_progress(leader);
    let mut i: usize = 0;
    while i < sacs.len()
        invariant
            i <= sacs@.len(),
            leader@.len() == DNA_LEN,
            take@.len() == sacs@.len(),
            forall|j: int| 0 <= j < sacs@.len() ==> (#[trigger] sacs@[j])@.len() == DNA_LEN,
            orig@ == progress_of(leader@),
            cur@.len() == orig@.len(),
            hash_provider.seed() == old(hash_provider).seed(),
            (cur@, hash_provider.cursor()) == match_upto(
                leader@,
                views(sacs@),
                take@,
                rarity_level,
                old(hash_provider).seed(),
                old(hash_provider).cursor(),
                i as nat,
            ),
        decreases sacs@.len() - i,
    {
        let ghost sv = views(sacs@);
        assert(sv[i as int] == sacs@[i as int]@);
        if take[i] {
            let sp = read_progress(&sacs[i]);
            let toolbox = dna_is_toolbox(&sacs[i]);
            let cand = match is_progress_match(&orig, &sp, rarity_level) {
                Some(m) => m,
                None => if toolbox {
                    lowest_progress_indexes(&orig, ByteType::High)
                } else {
                    Vec::new()
                },
            };
            assert(cand@ == candidates(orig@, sp@, toolbox, rarity_level));
            proof {
                lemma_candidates_in_range(orig@, sp@, toolbox, rarity_level);
            }
            let mut open: Vec<usize> = Vec::new();
            let mut k: usize = 0;
            while k < cand.len()
                invariant
                    k <= cand@.len(),
                    cur@.len() == orig@.len(),
                    orig@.len() == crate::codec::PROGRESS_LEN,
                    forall|q: int| 0 <= q < cand@.len() ==> #[trigger] cand@[q] < orig@.len(),
                    open@ == open_upto(cand@, orig@, cur@, k as nat),
                decreases cand@.len() - k,
            {
                let j = cand[k];
                if cur[j] == orig[j] {
                    open.push(j);
                }
                k = k + 1;
            }
            proof {
                lemma_open_upto(cand@, orig@, cur@, cand@.len(), orig@.len());
            }
            if open.len() > 0 {
                let b = hash_provider.next();
                let j = open[(b as usize) % open.len()];
                let nb = upgrade_byte(cur[j]);
                cur.set(j, nb);
            }
        }
        i = i + 1;
    }
    cur
}

} // verus!
