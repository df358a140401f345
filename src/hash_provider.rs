//! A deterministic byte stream drawn from a fixed seed.

use vstd::prelude::*;

verus! {

/// Number of bytes in a seed.
pub const HASH_LEN: usize = 32;

/// The position `k` draws after position `cursor`.
pub open spec fn advance(cursor: int, k: int) -> int {
    (cursor + k) % (HASH_LEN as int)
}

/// The byte the stream yields `k` draws after position `cursor`.
pub open spec fn stream_byte(seed: Seq<u8>, cursor: int, k: int) -> u8 {
    seed[advance(cursor, k)]
}

/// The order of `0..count` after the first `s` swaps of the shuffle, and the
/// cursor after them. Swap `k` (from 1) exchanges position `count - k` with the
/// position that the next stream byte picks modulo `count - k + 1`.
pub open spec fn shuffle_steps(count: nat, seed: Seq<u8>, cursor: int, s: nat) -> (Seq<usize>, int)
    decreases s,
{
    if s == 0 {
        (Seq::new(count, |i: int| i as usize), cursor)
    } else {
        let (p, c) = shuffle_steps(count, seed, cursor, (s - 1) as nat);
        let i = count - s;
        let j = (stream_byte(seed, c, 0) as int) % (i + 1);
        (p.update(i, p[j]).update(j, p[i]), advance(c, 1))
    }
}

/// The shuffled order of `0..count` and the cursor after it: `count - 1`
/// swaps, none for fewer than two positions.
pub open spec fn shuffle(count: nat, seed: Seq<u8>, cursor: int) -> (Seq<usize>, int) {
    if count == 0 {
        (seq![], cursor)
    } else {
        shuffle_steps(count, seed, cursor, (count - 1) as nat)
    }
}

/// The sum of the first `n` weights.
pub open spec fn weight_prefix(w: Seq<u8>, n: nat) -> nat
    decreases n,
{
    if n == 0 {
        0
    } else {
        weight_prefix(w, (n - 1) as nat) + w[n - 1] as nat
    }
}

proof fn lemma_weight_prefix_monotonic(w: Seq<u8>, a: nat, b: nat)
    requires
        a <= b,
    ensures
        weight_prefix(w, a) <= weight_prefix(w, b),
    decreases b - a,
{
    if a < b {
        lemma_weight_prefix_monotonic(w, a, (b - 1) as nat);
    }
}

/// Hands out the bytes of a seed one after the other, starting again at the
/// first byte once the last one has been read.
pub struct HashProvider {
    hash: [u8; 32],
    current_index: usize,
}

proof fn lemma_advance_step(c: int, i: int)
    requires
        0 <= c,
        0 <= i,
    ensures
        advance(advance(c, i), 0) == advance(c, i),
        advance(advance(c, i), 1) == advance(c, i + 1),
{
    let n = HASH_LEN as int;
    vstd::arithmetic::div_mod::lemma_mod_twice(c + i, n);
    vstd::arithmetic::div_mod::lemma_add_mod_noop(c + i, 1, n);
    vstd::arithmetic::div_mod::lemma_mod_twice(1, n);
}

impl HashProvider {
    #[verifier::type_invariant]
    spec fn inv(&self) -> bool {
        self.current_index < HASH_LEN
    }

    /// The seed.
    pub closed spec fn seed(&self) -> Seq<u8> {
        self.hash@
    }

    /// The position of the next byte to be read.
    pub closed spec fn cursor(&self) -> int {
        self.current_index as int
    }

    /// A provider that starts at the first byte of `hash`.
    pub fn new_with_bytes(hash: [u8; 32]) -> (r: Self)
        ensures
            r.seed() == hash@,
            r.cursor() == 0,
    {
        HashProvider { hash, current_index: 0 }
    }

    /// The next byte of the stream.
    pub fn next(&mut self) -> (r: u8)
        ensures
            r == stream_byte(old(self).seed(), old(self).cursor(), 0),
            final(self).seed() == old(self).seed(),
            final(self).cursor() == advance(old(self).cursor(), 1),
    {
        proof {
            use_type_invariant(&*self);
        }
        let r = self.hash[self.current_index];
        self.current_index = (self.current_index + 1) % HASH_LEN;
        r
    }

    /// The next `n` bytes of the stream, in order.
    pub fn random_slice(&mut self, n: usize) -> (r: Vec<u8>)
        ensures
            r@.len() == n,
            forall|k: int| 0 <= k < n ==> r@[k] == stream_byte(old(self).seed(), old(self).cursor(), k),
            final(self).seed() == old(self).seed(),
            final(self).cursor() == advance(old(self).cursor(), n as int),
    {
        proof {
            use_type_invariant(&*self);
            vstd::arithmetic::div_mod::lemma_small_mod(self.current_index as nat, HASH_LEN as nat);
        }
        let mut r: Vec<u8> = Vec::new();
        let mut i: usize = 0;
        while i < n
            invariant
                i <= n,
                r@.len() == i,
                self.seed() == old(self).seed(),
                self.cursor() == advance(old(self).cursor(), i as int),
                forall|k: int| 0 <= k < i ==> r@[k] == stream_byte(old(self).seed(), old(self).cursor(), k),
            decreases n - i,
        {
            let b = self.next();
            proof {
                lemma_advance_step(old(self).cursor(), i as int);
            }
            r.push(b);
            i = i + 1;
        }
        r
    }

    /// A permutation of `0..count`, shuffled with one stream byte per swap.
    pub fn shuffled(&mut self, count: usize) -> (r: Vec<usize>)
        ensures
            (r@, final(self).cursor()) == shuffle(count as nat, old(self).seed(), old(self).cursor()),
            final(self).seed() == old(self).seed(),
            r@.len() == count,
            forall|k: int| 0 <= k < count ==> #[trigger] r@[k] < count,
            forall|a: int, b: int| 0 <= a < b < count ==> r@[a] != r@[b],
    {
        let mut r: Vec<usize> = Vec::new();
        let mut k: usize = 0;
        while k < count
            invariant
                k <= count,
                r@.len() == k,
                forall|q: int| 0 <= q < k ==> r@[q] == q as usize,
            decreases count - k,
        {
            r.push(k);
            k = k + 1;
        }
        if count == 0 {
            assert(r@ =~= seq![]);
            return r;
        }
        assert(r@ =~= Seq::new(count as nat, |i: int| i as usize));
        let mut s: usize = 1;
        while s < count
            invariant
                1 <= s <= count,
                r@.len() == count,
                self.seed() == old(self).seed(),
                (r@, self.cursor()) == shuffle_steps(
                    count as nat,
                    old(self).seed(),
                    old(self).cursor(),
                    (s - 1) as nat,
                ),
                forall|q: int| 0 <= q < count ==> #[trigger] r@[q] < count,
                forall|a: int, b: int| 0 <= a < b < count ==> r@[a] != r@[b],
            decreases count - s,
        {
            let i = count - s;
            let b = self.next();
            let j = (b as usize) % (i + 1);
            let x = r[i];
            let y = r[j];
            r.set(i, y);
            r.set(j, x);
            s = s + 1;
        }
        r
    }

    /// A weighted pick among the indexes of `weights`: the next stream byte,
    /// modulo the total weight, falls into the share of exactly one index, which
    /// is returned. `None`, drawing no byte, when the total weight is zero.
    pub fn weighted_index(&mut self, weights: &Vec<u8>) -> (r: Option<usize>)
        ensures
            final(self).seed() == old(self).seed(),
            weight_prefix(weights@, weights@.len()) == 0 ==> r is None && final(self).cursor()
                == old(self).cursor(),
            weight_prefix(weights@, weights@.len()) > 0 ==> r is Some && {
                let k = r->0 as int;
                let x = (stream_byte(old(self).seed(), old(self).cursor(), 0) as nat) % weight_prefix(
                    weights@,
                    weights@.len(),
                );
                &&& 0 <= k < weights@.len()
                &&& weight_prefix(weights@, k as nat) <= x < weight_prefix(weights@, (k + 1) as nat)
                &&& final(self).cursor() == advance(old(self).cursor(), 1)
            },
    {
        let mut total: u128 = 0;
        let mut i: usize = 0;
        while i < weights.len()
            invariant
                i <= weights@.len(),
                total == weight_prefix(weights@, i as nat),
                total <= 255 * i,
                *self == *old(self),
            decreases weights@.len() - i,
        {
            total = total + weights[i] as u128;
            i = i + 1;
        }
        if total == 0 {
            return None;
        }
        let b = self.next();
        let x = (b as u128) % total;
        let mut acc: u128 = 0;
        let mut k: usize = 0;
        while k < weights.len()
            invariant
                k <= weights@.len(),
                total == weight_prefix(weights@, weights@.len()),
                acc == weight_prefix(weights@, k as nat),
                acc <= x,
                x < total,
                self.seed() == old(self).seed(),
                self.cursor() == advance(old(self).cursor(), 1),
                x as nat == (stream_byte(old(self).seed(), old(self).cursor(), 0) as nat) % (
                total as nat),
            decreases weights@.len() - k,
        {
            proof {
                lemma_weight_prefix_monotonic(weights@, (k + 1) as nat, weights@.len());
            }
            let next_acc = acc + weights[k] as u128;
            if x < next_acc {
                return Some(k);
            }
            acc = next_acc;
            k = k + 1;
        }
        proof {
            assert(acc == total);
        }
        None
    }
}

} // verus!
