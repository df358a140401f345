//! The match forge: sacrifices of the leader's full type, and toolboxes, raise
//! the leader's progress; those that match are consumed, the others handed back.

use vstd::prelude::*;

use crate::avatar::{Avatar, SoulCount};
use crate::codec::{hi, lo, EncodingError, DNA_LEN, PROGRESS_LEN};
use crate::combinator::{
    consumed_souls, inputs_problem, load_inputs, sacrifice_dnas, same_full_and_class_types,
    souls_upto, AvatarCombinator, ForgeError, ForgeItem, ForgeOutput, LeaderForgeOutput,
};
use crate::dna::{dna_bytes, dna_from_vec};
use crate::hash_provider::HashProvider;
use crate::match_phase::{
    dna_is_toolbox, is_toolbox, lemma_match_monotonic, lemma_upgrade, match_progress, match_upto,
    raised_at_most_once, views, MATCH_ALGO_START_RARITY,
};
use crate::matching::{is_progress_match, progress_match};
use crate::progress::{progress_of, read_progress, with_progress, write_progress};

verus! {
/// Whether the sacrifice takes part in the match forge's match phase: it has
/// the leader's full type and class types, or it is a toolbox.
pub open spec fn match_take(leader: Seq<u8>, sacs: Seq<Seq<u8>>) -> Seq<bool> {
    Seq::new(sacs.len(), |i: int| same_full_and_class_types(sacs[i], leader) || is_toolbox(sacs[i]))
}

/// Whether a match forge consumes the sacrifice: a toolbox always, otherwise a
/// sacrifice of the leader's full type and class types whose progress array
/// matches the leader's.
pub open spec fn is_matching(leader: Seq<u8>, s: Seq<u8>) -> bool {
    is_toolbox(s) || (same_full_and_class_types(s, leader) && progress_match(
        progress_of(leader),
        progress_of(s),
        MATCH_ALGO_START_RARITY,
    ) is Some)
}

/// The leader's DNA after a match forge, and the stream cursor after it: only
/// the progress array changes.
pub open spec fn match_dna(leader: Seq<u8>, sacs: Seq<Seq<u8>>, seed: Seq<u8>, cursor: int) -> (
    Seq<u8>,
    int,
) {
    let (p, c) = match_upto(
        leader,
        sacs,
        match_take(leader, sacs),
        MATCH_ALGO_START_RARITY,
        seed,
        cursor,
        sacs.len(),
    );
    (with_progress(leader, p), c)
}

/// The souls of the sacrifices among the first `n` that a match forge consumes.
pub open spec fn matched_souls_upto<B>(leader: Seq<u8>, sacs: Seq<ForgeItem<B>>, n: nat) -> nat
    decreases n,
{
    if n == 0 {
        0
    } else {
        matched_souls_upto(leader, sacs, (n - 1) as nat) + if is_matching(
            leader,
            dna_bytes(sacs[n - 1].1.dna),
        ) {
            sacs[n - 1].1.souls as nat
        } else {
            0nat
        }
    }
}

/// The outcome of a successful match forge: the leader's progress array
/// rewritten as `match_dna` says, its souls raised by those of the consumed
/// sacrifices (capped at the largest soul count), its other fields kept; each
/// sacrifice consumed when `is_matching`, else handed back untouched.
pub open spec fn is_matched<B>(
    leader: ForgeItem<B>,
    sacs: Seq<ForgeItem<B>>,
    seed: Seq<u8>,
    cursor: int,
    out: LeaderForgeOutput<B>,
    outs: Seq<ForgeOutput<B>>,
    cursor_after: int,
) -> bool {
    let l = dna_bytes(leader.1.dna);
    let (d, c) = match_dna(l, sacrifice_dnas(sacs), seed, cursor);
    let t = leader.1.souls + matched_souls_upto(l, sacs, sacs.len());
    &&& out is Forged
    &&& out->Forged_1 == 0
    &&& out->Forged_0.0 == leader.0
    &&& out->Forged_0.1.season_id == leader.1.season_id
    &&& out->Forged_0.1.encoding == leader.1.encoding
    &&& dna_bytes(out->Forged_0.1.dna) == d
    &&& out->Forged_0.1.souls == if t > SoulCount::MAX {
        SoulCount::MAX
    } else {
        t as SoulCount
    }
    &&& out->Forged_0.1.minted_at == leader.1.minted_at
    &&& outs.len() == sacs.len()
    &&& forall|i: int|
        0 <= i < sacs.len() ==> #[trigger] outs[i] == if is_matching(l, dna_bytes(sacs[i].1.dna)) {
            ForgeOutput::<B>::Consumed(sacs[i].0)
        } else {
            ForgeOutput::<B>::Forged(sacs[i], 0)
        }
    &&& cursor_after == c
}

fn is_matching_exec(leader: &Vec<u8>, orig: &Vec<u8>, s: &Vec<u8>) -> (r: bool)
    requires
        s@.len() == DNA_LEN,
        leader@.len() == DNA_LEN,
        orig@ == progress_of(leader@),
    ensures
        r == is_matching(leader@, s@),
{
    if dna_is_toolbox(s) {
        return true;
    }
    if !(s[0] == leader[0] && s[1] == leader[1]) {
        return false;
    }
    let sp = read_progress(s);
    match is_progress_match(orig, &sp, MATCH_ALGO_START_RARITY) {
        Some(_) => true,
        None => false,
    }
}

/// Rewrites the leader's DNA for a match forge; see `match_dna`.
fn match_leader_dna(
    leader: &Vec<u8>,
    sacs: &Vec<Vec<u8>>,
    hash_provider: &mut HashProvider,
) -> (r: Vec<u8>)
    requires
        leader@.len() == DNA_LEN,
        forall|i: int| 0 <= i < sacs@.len() ==> (#[trigger] sacs@[i])@.len() == DNA_LEN,
    ensures
        (r@, final(hash_provider).cursor()) == match_dna(
            leader@,
            views(sacs@),
            old(hash_provider).seed(),
            old(hash_provider).cursor(),
        ),
        final(hash_provider).seed() == old(hash_provider).seed(),
        r@.len() == DNA_LEN,
{
    let ghost sv = views(sacs@);
    let mut take: Vec<bool> = Vec::new();
    let mut i: usize = 0;
    while i < sacs.len()
        invariant
            i <= sacs@.len(),
            leader@.len() == DNA_LEN,
            sv == views(sacs@),
            forall|j: int| 0 <= j < sacs@.len() ==> (#[trigger] sacs@[j])@.len() == DNA_LEN,
            take@ == match_take(leader@, sv).subrange(0, i as int),
        decreases sacs@.len() - i,
    {
        assert(sv[i as int] == sacs@[i as int]@);
        let t = (sacs[i][0] == leader[0] && sacs[i][1] == leader[1]) || dna_is_toolbox(&sacs[i]);
        take.push(t);
        i = i + 1;
        assert(take@ =~= match_take(leader@, sv).subrange(0, i as int));
    }
    assert(take@ =~= match_take(leader@, sv));
    let p = match_progress(leader, sacs, &take, MATCH_ALGO_START_RARITY, hash_provider);
    let mut d = leader.clone();
    write_progress(&mut d, &p);
    d
}

impl AvatarCombinator {
    /// Runs the match forge (V2 layout only).
    ///
    /// Refused exactly as `assemble_avatars` is. Otherwise every sacrifice of the
    /// leader's full type and class types, and every toolbox, is offered to the
    /// match phase; the result is as `is_matched` states.
    pub fn match_avatars<B>(
        input_leader: ForgeItem<B>,
        input_sacrifices: Vec<ForgeItem<B>>,
        hash_provider: &mut HashProvider,
    ) -> (r: Result<(LeaderForgeOutput<B>, Vec<ForgeOutput<B>>), ForgeError>)
        ensures
            input_sacrifices@.len() == 0 ==> r == Err::<
                (LeaderForgeOutput<B>, Vec<ForgeOutput<B>>),
                ForgeError,
            >(ForgeError::EmptySacrificeSet),
            input_sacrifices@.len() > 0 && inputs_problem(input_leader.1, input_sacrifices@) is Some
                ==> r == Err::<(LeaderForgeOutput<B>, Vec<ForgeOutput<B>>), ForgeError>(
                ForgeError::Encoding(inputs_problem(input_leader.1, input_sacrifices@)->0),
            ),
            r is Err ==> *final(hash_provider) == *old(hash_provider),
            input_sacrifices@.len() > 0 && inputs_problem(input_leader.1, input_sacrifices@) is None
                ==> r is Ok && is_matched(
                input_leader,
                input_sacrifices@,
                old(hash_provider).seed(),
                old(hash_provider).cursor(),
                r->Ok_0.0,
                r->Ok_0.1@,
                final(hash_provider).cursor(),
            ),
            final(hash_provider).seed() == old(hash_provider).seed(),
    {
        let (leader_id, leader) = input_leader;
        let n = input_sacrifices.len();
        if n == 0 {
            return Err(ForgeError::EmptySacrificeSet);
        }
        let (leader_dna, sac_dnas) = match load_inputs(&leader, &input_sacrifices) {
            Ok(x) => x,
            Err(e) => {
                return Err(ForgeError::Encoding(e));
            },
        };
        let ghost sacs = input_sacrifices@;
        let ghost l = leader_dna@;
        let new_dna = match_leader_dna(&leader_dna, &sac_dnas, hash_provider);
        let orig = read_progress(&leader_dna);
        let mut rest = input_sacrifices;
        let mut outs: Vec<ForgeOutput<B>> = Vec::new();
        let mut souls: SoulCount = leader.souls;
        let mut i: usize = 0;
        while i < n
            invariant
                n == sacs.len(),
                i <= n,
                l == leader_dna@,
                l.len() == DNA_LEN,
                orig@ == progress_of(l),
                views(sac_dnas@) == sacrifice_dnas(sacs),
                sac_dnas@.len() == n,
                forall|j: int| 0 <= j < sac_dnas@.len() ==> (#[trigger] sac_dnas@[j])@.len() == DNA_LEN,
                rest@ == sacs.subrange(i as int, n as int),
                outs@.len() == i,
                forall|j: int|
                    0 <= j < i ==> #[trigger] outs@[j] == if is_matching(l, dna_bytes(sacs[j].1.dna)) {
                        ForgeOutput::<B>::Consumed(sacs[j].0)
                    } else {
                        ForgeOutput::<B>::Forged(sacs[j], 0)
                    },
                souls as int == if leader.souls + matched_souls_upto(l, sacs, i as nat) > SoulCount::MAX {
                    SoulCount::MAX as int
                } else {
                    leader.souls + matched_souls_upto(l, sacs, i as nat)
                },
            decreases n - i,
        {
            assert(views(sac_dnas@)[i as int] == sac_dnas@[i as int]@);
            assert(sacrifice_dnas(sacs)[i as int] == dna_bytes(sacs[i as int].1.dna));
            let matching = is_matching_exec(&leader_dna, &orig, &sac_dnas[i]);
            let it = rest.remove(0);
            assert(it == sacs[i as int]);
            if matching {
                souls = souls.saturating_add(it.1.souls);
                outs.push(ForgeOutput::Consumed(it.0));
            } else {
                outs.push(ForgeOutput::Forged(it, 0));
            }
            i = i + 1;
            assert(rest@ =~= sacs.subrange(i as int, n as int));
        }
        let dna = match dna_from_vec(new_dna) {
            Ok(d) => d,
            Err(_) => {
                return Err(ForgeError::Encoding(EncodingError::WrongLength));
            },
        };
        let Avatar { season_id, encoding, dna: _, souls: _, minted_at } = leader;
        let avatar = Avatar { season_id, encoding, dna, souls, minted_at };
        Ok((LeaderForgeOutput::Forged((leader_id, avatar), 0), outs))
    }
}

proof fn lemma_matched_are_consumed<B>(
    l: Seq<u8>,
    sacs: Seq<ForgeItem<B>>,
    outs: Seq<ForgeOutput<B>>,
    n: nat,
)
    requires
        n <= sacs.len(),
        n <= outs.len(),
        forall|i: int|
            0 <= i < sacs.len() ==> #[trigger] outs[i] == if is_matching(l, dna_bytes(sacs[i].1.dna)) {
                ForgeOutput::<B>::Consumed(sacs[i].0)
            } else {
                ForgeOutput::<B>::Forged(sacs[i], 0)
            },
    ensures
        consumed_souls(sacs, outs, n) == matched_souls_upto(l, sacs, n),
    decreases n,
{
    if n > 0 {
        lemma_matched_are_consumed(l, sacs, outs, (n - 1) as nat);
        assert(outs[n - 1] == if is_matching(l, dna_bytes(sacs[n - 1].1.dna)) {
            ForgeOutput::<B>::Consumed(sacs[n - 1].0)
        } else {
            ForgeOutput::<B>::Forged(sacs[n - 1], 0)
        });
    }
}

/// Soul conservation for the match forge: when the total fits a soul count, the
/// leader holds its own souls plus the souls of every consumed sacrifice.
pub proof fn lemma_match_conserves_souls<B>(
    leader: ForgeItem<B>,
    sacs: Seq<ForgeItem<B>>,
    seed: Seq<u8>,
    cursor: int,
    out: LeaderForgeOutput<B>,
    outs: Seq<ForgeOutput<B>>,
    cursor_after: int,
)
    requires
        is_matched(leader, sacs, seed, cursor, out, outs, cursor_after),
        leader.1.souls + souls_upto(sacs, sacs.len()) <= SoulCount::MAX,
    ensures
        out->Forged_0.1.souls == leader.1.souls + consumed_souls(sacs, outs, sacs.len()),
{
    let l = dna_bytes(leader.1.dna);
    lemma_matched_are_consumed(l, sacs, outs, sacs.len());
    lemma_matched_souls_bound(l, sacs, sacs.len());
}

proof fn lemma_matched_souls_bound<B>(l: Seq<u8>, sacs: Seq<ForgeItem<B>>, n: nat)
    requires
        n <= sacs.len(),
    ensures
        matched_souls_upto(l, sacs, n) <= souls_upto(sacs, n),
    decreases n,
{
    if n > 0 {
        lemma_matched_souls_bound(l, sacs, (n - 1) as nat);
    }
}

/// Disposition completeness for the match forge: one disposition per
/// sacrifice, in input order, each naming the sacrifice at its position.
pub proof fn lemma_match_dispositions_complete<B>(
    leader: ForgeItem<B>,
    sacs: Seq<ForgeItem<B>>,
    seed: Seq<u8>,
    cursor: int,
    out: LeaderForgeOutput<B>,
    outs: Seq<ForgeOutput<B>>,
    cursor_after: int,
)
    requires
        is_matched(leader, sacs, seed, cursor, out, outs, cursor_after),
    ensures
        outs.len() == sacs.len(),
        forall|i: int|
            0 <= i < sacs.len() ==> (#[trigger] outs[i] is Consumed && outs[i]->Consumed_0
                == sacs[i].0) || (outs[i] is Forged && outs[i]->Forged_0 == sacs[i]),
{
    assert forall|i: int| 0 <= i < sacs.len() implies (#[trigger] outs[i] is Consumed
        && outs[i]->Consumed_0 == sacs[i].0) || (outs[i] is Forged && outs[i]->Forged_0
        == sacs[i]) by {
        assert(outs[i] == if is_matching(dna_bytes(leader.1.dna), dna_bytes(sacs[i].1.dna)) {
            ForgeOutput::<B>::Consumed(sacs[i].0)
        } else {
            ForgeOutput::<B>::Forged(sacs[i], 0)
        });
    }
}

/// Determinism for the match forge: the same inputs, seed and cursor give the
/// same leader, byte for byte, the same dispositions and the same cursor.
pub proof fn lemma_match_deterministic<B>(
    leader: ForgeItem<B>,
    sacs: Seq<ForgeItem<B>>,
    seed: Seq<u8>,
    cursor: int,
    out1: LeaderForgeOutput<B>,
    outs1: Seq<ForgeOutput<B>>,
    cursor1: int,
    out2: LeaderForgeOutput<B>,
    outs2: Seq<ForgeOutput<B>>,
    cursor2: int,
)
    requires
        is_matched(leader, sacs, seed, cursor, out1, outs1, cursor1),
        is_matched(leader, sacs, seed, cursor, out2, outs2, cursor2),
    ensures
        out1->Forged_0.0 == out2->Forged_0.0,
        out1->Forged_1 == out2->Forged_1,
        out1->Forged_0.1.season_id == out2->Forged_0.1.season_id,
        out1->Forged_0.1.encoding == out2->Forged_0.1.encoding,
        dna_bytes(out1->Forged_0.1.dna) == dna_bytes(out2->Forged_0.1.dna),
        out1->Forged_0.1.souls == out2->Forged_0.1.souls,
        out1->Forged_0.1.minted_at == out2->Forged_0.1.minted_at,
        outs1 == outs2,
        cursor1 == cursor2,
{
    assert forall|i: int| 0 <= i < outs1.len() implies outs1[i] == outs2[i] by {
        let l = dna_bytes(leader.1.dna);
        assert(outs1[i] == if is_matching(l, dna_bytes(sacs[i].1.dna)) {
            ForgeOutput::<B>::Consumed(sacs[i].0)
        } else {
            ForgeOutput::<B>::Forged(sacs[i], 0)
        });
        assert(outs2[i] == if is_matching(l, dna_bytes(sacs[i].1.dna)) {
            ForgeOutput::<B>::Consumed(sacs[i].0)
        } else {
            ForgeOutput::<B>::Forged(sacs[i], 0)
        });
    }
    assert(outs1 =~= outs2);
}

/// Progress monotonicity for the match forge: no progress slot of the leader is
/// lower than before, each rose by at most one tier, kept its variation and
/// stayed within the 4-bit range; the other DNA bytes are untouched.
pub proof fn lemma_match_progress_monotonic<B>(
    leader: ForgeItem<B>,
    sacs: Seq<ForgeItem<B>>,
    seed: Seq<u8>,
    cursor: int,
    out: LeaderForgeOutput<B>,
    outs: Seq<ForgeOutput<B>>,
    cursor_after: int,
)
    requires
        is_matched(leader, sacs, seed, cursor, out, outs, cursor_after),
        dna_bytes(leader.1.dna).len() == DNA_LEN,
    ensures
        dna_bytes(out->Forged_0.1.dna).len() == DNA_LEN,
        forall|i: int|
            0 <= i < crate::codec::PROGRESS_START ==> #[trigger] dna_bytes(out->Forged_0.1.dna)[i]
                == dna_bytes(leader.1.dna)[i],
        forall|i: int|
            0 <= i < PROGRESS_LEN ==> #[trigger] raised_at_most_once(
                progress_of(dna_bytes(leader.1.dna)),
                progress_of(dna_bytes(out->Forged_0.1.dna)),
                i,
            ),
        forall|i: int|
            0 <= i < PROGRESS_LEN ==> hi(progress_of(dna_bytes(leader.1.dna))[i]) <= hi(
                #[trigger] progress_of(dna_bytes(out->Forged_0.1.dna))[i],
            ) && lo(progress_of(dna_bytes(leader.1.dna))[i]) == lo(
                progress_of(dna_bytes(out->Forged_0.1.dna))[i],
            ),
{
    let l = dna_bytes(leader.1.dna);
    let sd = sacrifice_dnas(sacs);
    let take = match_take(l, sd);
    lemma_match_monotonic(l, sd, take, MATCH_ALGO_START_RARITY, seed, cursor, sd.len());
    let (p, c) = match_upto(l, sd, take, MATCH_ALGO_START_RARITY, seed, cursor, sd.len());
    let d = dna_bytes(out->Forged_0.1.dna);
    assert(progress_of(d) =~= p);
    assert forall|i: int| 0 <= i < PROGRESS_LEN implies hi(progress_of(l)[i]) <= hi(
        #[trigger] progress_of(d)[i],
    ) && lo(progress_of(l)[i]) == lo(progress_of(d)[i]) by {
        assert(raised_at_most_once(progress_of(l), p, i));
        lemma_upgrade(progress_of(l)[i]);
    }
}

} // verus!
