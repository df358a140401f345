//! The progress array: the trailing DNA bytes whose two nibbles serve as
//! independent counters for the forge algorithms.

use vstd::prelude::*;

use crate::codec::{part_max, read_at, read_part, ByteType, DNA_LEN, PROGRESS_LEN, PROGRESS_START};

verus! {

/// The progress array of a DNA sequence.
pub open spec fn progress_of(dna: Seq<u8>) -> Seq<u8> {
    dna.subrange(PROGRESS_START as int, (PROGRESS_START + PROGRESS_LEN) as int)
}

/// The DNA sequence with its progress array replaced by `p`.
pub open spec fn with_progress(dna: Seq<u8>, p: Seq<u8>) -> Seq<u8> {
    dna.subrange(0, PROGRESS_START as int) + p
}

/// The smallest value of the chosen part among the first `n` bytes of `p`
/// (the part's largest value when `n` is 0).
pub open spec fn lowest_upto(p: Seq<u8>, part: ByteType, n: nat) -> u8
    decreases n,
{
    if n == 0 {
        part_max(part)
    } else {
        let m = lowest_upto(p, part, (n - 1) as nat);
        let x = read_part(p[n - 1], part);
        if x < m {
            x
        } else {
            m
        }
    }
}

/// The smallest value of the chosen part over all bytes of `p`.
pub open spec fn lowest(p: Seq<u8>, part: ByteType) -> u8 {
    lowest_upto(p, part, p.len())
}

/// The positions, in increasing order, among the first `n` bytes of `p` whose
/// chosen part holds `v`.
pub open spec fn indexes_upto(p: Seq<u8>, part: ByteType, v: u8, n: nat) -> Seq<usize>
    decreases n,
{
    if n == 0 {
        seq![]
    } else {
        let s = indexes_upto(p, part, v, (n - 1) as nat);
        if read_part(p[n - 1], part) == v {
            s.push((n - 1) as usize)
        } else {
            s
        }
    }
}

/// All positions, in increasing order, whose chosen part holds the lowest value.
pub open spec fn lowest_indexes(p: Seq<u8>, part: ByteType) -> Seq<usize> {
    indexes_upto(p, part, lowest(p, part), p.len())
}

/// Every position listed by `indexes_upto` is below `n` and holds `v`.
pub proof fn lemma_indexes_upto(p: Seq<u8>, part: ByteType, v: u8, n: nat)
    requires
        n <= p.len(),
        p.len() <= usize::MAX,
    ensures
        indexes_upto(p, part, v, n).len() <= n,
        forall|k: int|
            0 <= k < indexes_upto(p, part, v, n).len() ==> {
                let i = #[trigger] indexes_upto(p, part, v, n)[k];
                &&& i < n
                &&& read_part(p[i as int], part) == v
            },
    decreases n,
{
    if n > 0 {
        lemma_indexes_upto(p, part, v, (n - 1) as nat);
        let s = indexes_upto(p, part, v, (n - 1) as nat);
        let t = indexes_upto(p, part, v, n);
        assert forall|k: int| 0 <= k < t.len() implies {
            let i = #[trigger] t[k];
            &&& i < n
            &&& read_part(p[i as int], part) == v
        } by {
            if k < s.len() {
                assert(t[k] == s[k]);
            }
        }
    }
}

/// Reads the progress array of a DNA sequence.
pub fn read_progress(dna: &Vec<u8>) -> (r: Vec<u8>)
    requires
        dna@.len() == DNA_LEN,
    ensures
        r@ == progress_of(dna@),
{
    let mut r: Vec<u8> = Vec::new();
    let mut i: usize = PROGRESS_START;
    while i < DNA_LEN
        invariant
            dna@.len() == DNA_LEN,
            PROGRESS_START <= i <= DNA_LEN,
            r@ == dna@.subrange(PROGRESS_START as int, i as int),
        decreases DNA_LEN - i,
    {
        r.push(dna[i]);
        i = i + 1;
        assert(r@ =~= dna@.subrange(PROGRESS_START as int, i as int));
    }
    r
}

/// Writes `p` as the progress array of a DNA sequence.
pub fn write_progress(dna: &mut Vec<u8>, p: &Vec<u8>)
    requires
        old(dna)@.len() == DNA_LEN,
        p@.len() == PROGRESS_LEN,
    ensures
        final(dna)@ == with_progress(old(dna)@, p@),
{
    let mut i: usize = 0;
    while i < PROGRESS_LEN
        invariant
            i <= PROGRESS_LEN,
            p@.len() == PROGRESS_LEN,
            dna@.len() == DNA_LEN,
            forall|k: int| 0 <= k < PROGRESS_START ==> dna@[k] == old(dna)@[k],
            forall|k: int| 0 <= k < i ==> dna@[PROGRESS_START + k] == p@[k],
        decreases PROGRESS_LEN - i,
    {
        dna.set(PROGRESS_START + i, p[i]);
        i = i + 1;
    }
    assert(dna@ =~= with_progress(old(dna)@, p@));
}

/// The smallest value of the chosen part over all bytes of `p`.
pub fn lowest_progress_byte(p: &Vec<u8>, part: ByteType) -> (r: u8)
    ensures
        r == lowest(p@, part),
{
    let mut m: u8 = match part {
        ByteType::Full => 255,
        _ => 15,
    };
    let mut i: usize = 0;
    while i < p.len()
        invariant
            i <= p@.len(),
            m == lowest_upto(p@, part, i as nat),
        decreases p@.len() - i,
    {
        let x = read_at(p[i], part);
        if x < m {
            m = x;
        }
        i = i + 1;
    }
    m
}

/// All positions, in increasing order, whose chosen part holds the lowest value.
pub fn lowest_progress_indexes(p: &Vec<u8>, part: ByteType) -> (r: Vec<usize>)
    ensures
        r@ == lowest_indexes(p@, part),
{
    let v = lowest_progress_byte(p, part);
    let mut r: Vec<usize> = Vec::new();
    let mut i: usize = 0;
    while i < p.len()
        invariant
            i <= p@.len(),
            v == lowest(p@, part),
            r@ == indexes_upto(p@, part, v, i as nat),
        decreases p@.len() - i,
    {
        if read_at(p[i], part) == v {
            r.push(i);
        }
        i = i + 1;
    }
    r
}

} // verus!
