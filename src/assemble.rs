//! The assemble algorithm: a base armor leader takes in sacrifices of its kind,
//! raises its progress, may gain one armor component, and is re-rated.

use vstd::prelude::*;

use crate::avatar::{Avatar, SoulCount};
use crate::codec::{
    hi, lo, write_at, write_part, ByteType, EncodingError, DNA_LEN, PROGRESS_LEN, SPEC_START,
};
use crate::combinator::{
    consumed_souls, lemma_all_consumed_souls, load_inputs, pooled_souls, sacrifice_dnas,
    same_assemble_version, same_full_and_class_types, souls_upto, AvatarCombinator, ForgeError,
    ForgeItem, ForgeOutput, LeaderForgeOutput, inputs_problem,
};
use crate::dna::{dna_bytes, dna_from_vec};
use crate::hash_provider::HashProvider;
use crate::match_phase::{
    dna_is_toolbox, is_toolbox, item_sub_type, item_type, lemma_match_monotonic, lemma_upgrade,
    match_progress, match_upto, raised_at_most_once, rarity_of, views, ITEM_TYPE_EQUIPPABLE,
    MATCH_ALGO_START_RARITY, SUB_TYPE_ARMOR_BASE,
};
use crate::mapper::{tier_byte, tier_from_byte, RarityTier};
use crate::matching::{is_progress_match, progress_match};
use crate::progress::{
    lowest, lowest_progress_byte, progress_of, read_progress, with_progress, write_progress,
};

verus! {
pub open spec fn assemble_take(leader: Seq<u8>, sacs: Seq<Seq<u8>>) -> Seq<bool> {
    Seq::new(sacs.len(), |i: int| same_assemble_version(sacs[i], leader) || is_toolbox(sacs[i]))
}

/// A sacrifice that can lend its component to the leader: of other full type or
/// class types than the leader, matching the leader's original progress array,
/// and an equippable that is not a base armor.
pub open spec fn is_component_for(leader: Seq<u8>, s: Seq<u8>) -> bool {
    &&& !same_full_and_class_types(s, leader)
    &&& progress_match(progress_of(leader), progress_of(s), MATCH_ALGO_START_RARITY) is Some
    &&& item_type(s) == ITEM_TYPE_EQUIPPABLE
    &&& item_sub_type(s) != SUB_TYPE_ARMOR_BASE
}

/// The first component among the first `n` sacrifices with `take[i] == group`.
pub open spec fn first_in_group(
    leader: Seq<u8>,
    sacs: Seq<Seq<u8>>,
    take: Seq<bool>,
    group: bool,
    n: nat,
) -> Option<int>
    decreases n,
{
    if n == 0 {
        None
    } else {
        match first_in_group(leader, sacs, take, group, (n - 1) as nat) {
            Some(k) => Some(k),
            None => if take[n - 1] == group && is_component_for(leader, sacs[n - 1]) {
                Some(n - 1)
            } else {
                None
            },
        }
    }
}

/// The component that is attached: the first one among the sacrifices that took
/// part in the match phase, else the first one among the others.
pub open spec fn first_component(leader: Seq<u8>, sacs: Seq<Seq<u8>>) -> Option<int> {
    let take = assemble_take(leader, sacs);
    match first_in_group(leader, sacs, take, true, sacs.len()) {
        Some(k) => Some(k),
        None => first_in_group(leader, sacs, take, false, sacs.len()),
    }
}

/// The leader's DNA after an assemble, and the stream cursor after it.
///
/// The match phase runs over the sacrifices of the leader's assemble version and
/// the toolboxes. The lowest tier of the new progress array, read as a rarity
/// tier, is the progress rarity. When the leader is a base armor whose rarity
/// is below the progress rarity, the first component's spec byte is merged into
/// the leader's by bitwise or. Last, the leader's rarity becomes the progress
/// rarity.
pub open spec fn assemble_dna(leader: Seq<u8>, sacs: Seq<Seq<u8>>, seed: Seq<u8>, cursor: int) -> (
    Seq<u8>,
    int,
) {
    let (p, c) = match_upto(
        leader,
        sacs,
        assemble_take(leader, sacs),
        MATCH_ALGO_START_RARITY,
        seed,
        cursor,
        sacs.len(),
    );
    let rarity = tier_byte(tier_from_byte(lowest(p, ByteType::High)));
    let attach = item_type(leader) == ITEM_TYPE_EQUIPPABLE && item_sub_type(leader)
        == SUB_TYPE_ARMOR_BASE && tier_byte(tier_from_byte(rarity_of(leader))) < rarity;
    let spec1 = if attach {
        match first_component(leader, sacs) {
            Some(k) => leader[SPEC_START as int] | sacs[k][SPEC_START as int],
            None => leader[SPEC_START as int],
        }
    } else {
        leader[SPEC_START as int]
    };
    let d = with_progress(leader, p).update(SPEC_START as int, spec1);
    (d.update(2, write_part(d[2], ByteType::Low, rarity)), c)
}

fn same_assemble_version_exec(s: &Vec<u8>, leader: &Vec<u8>) -> (r: bool)
    requires
        s@.len() == DNA_LEN,
        leader@.len() == DNA_LEN,
    ensures
        r == same_assemble_version(s@, leader@),
{
    s[0] / 16 == leader[0] / 16 && s[1] == leader[1]
}

fn is_component_for_exec(leader: &Vec<u8>, orig: &Vec<u8>, s: &Vec<u8>) -> (r: bool)
    requires
        s@.len() == DNA_LEN,
        leader@.len() == DNA_LEN,
        orig@ == progress_of(leader@),
    ensures
        r == is_component_for(leader@, s@),
{
    if s[0] == leader[0] && s[1] == leader[1] {
        return false;
    }
    if !(s[0] / 16 == ITEM_TYPE_EQUIPPABLE && s[0] % 16 != SUB_TYPE_ARMOR_BASE) {
        return false;
    }
    let sp = read_progress(s);
    match is_progress_match(orig, &sp, MATCH_ALGO_START_RARITY) {
        Some(_) => true,
        None => false,
    }
}

/// The first component among the sacrifices with `take[i] == group`.
fn find_component(
    leader: &Vec<u8>,
    orig: &Vec<u8>,
    sacs: &Vec<Vec<u8>>,
    take: &Vec<bool>,
    group: bool,
) -> (r: Option<usize>)
    requires
        leader@.len() == DNA_LEN,
        orig@ == progress_of(leader@),
        take@.len() == sacs@.len(),
        forall|i: int| 0 <= i < sacs@.len() ==> (#[trigger] sacs@[i])@.len() == DNA_LEN,
    ensures
        first_in_group(leader@, views(sacs@), take@, group, sacs@.len()) == (match r {
            Some(k) => Some(k as int),
            None => None::<int>,
        }),
        r is Some ==> r->0 < sacs@.len(),
{
    let ghost sv = views(sacs@);
    let mut found: Option<usize> = None;
    let mut j: usize = 0;
    while j < sacs.len()
        invariant
            j <= sacs@.len(),
            leader@.len() == DNA_LEN,
            orig@ == progress_of(leader@),
            sv == views(sacs@),
            take@.len() == sacs@.len(),
            forall|q: int| 0 <= q < sacs@.len() ==> (#[trigger] sacs@[q])@.len() == DNA_LEN,
            first_in_group(leader@, sv, take@, group, j as nat) == (match found {
                Some(k) => Some(k as int),
                None => None::<int>,
            }),
            found is Some ==> found->0 < j,
        decreases sacs@.len() - j,
    {
        if found.is_none() {
            assert(sv[j as int] == sacs@[j as int]@);
            if take[j] == group && is_component_for_exec(leader, orig, &sacs[j]) {
                found = Some(j);
            }
        }
        j = j + 1;
    }
    found
}

/// Rewrites the leader's DNA for an assemble; see `assemble_dna`.
pub(crate) fn assemble_leader_dna(
    leader: &Vec<u8>,
    sacs: &Vec<Vec<u8>>,
    hash_provider: &mut HashProvider,
) -> (r: Vec<u8>)
    requires
        leader@.len() == DNA_LEN,
        forall|i: int| 0 <= i < sacs@.len() ==> (#[trigger] sacs@[i])@.len() == DNA_LEN,
    ensures
        (r@, final(hash_provider).cursor()) == assemble_dna(
            leader@,
            views(sacs@),
            old(hash_provider).seed(),
            old(hash_provider).cursor(),
        ),
        final(hash_provider).seed() == old(hash_provider).seed(),
        r@.len() == DNA_LEN,
{
    let ghost sv = views(sacs@);
    let mut take: Vec<bool> = Vec::new();
    let mut i: usize = 0;
    while i < sacs.len()
        invariant
            i <= sacs@.len(),
            leader@.len() == DNA_LEN,
            sv == views(sacs@),
            forall|j: int| 0 <= j < sacs@.len() ==> (#[trigger] sacs@[j])@.len() == DNA_LEN,
            take@ == assemble_take(leader@, sv).subrange(0, i as int),
        decreases sacs@.len() - i,
    {
        assert(sv[i as int] == sacs@[i as int]@);
        let t = same_assemble_version_exec(&sacs[i], leader) || dna_is_toolbox(&sacs[i]);
        take.push(t);
        i = i + 1;
        assert(take@ =~= assemble_take(leader@, sv).subrange(0, i as int));
    }
    assert(take@ =~= assemble_take(leader@, sv));
    let orig = read_progress(leader);
    let p = match_progress(leader, sacs, &take, MATCH_ALGO_START_RARITY, hash_provider);
    let rarity = RarityTier::from_byte(lowest_progress_byte(&p, ByteType::High)).as_byte();
    let leader_rarity = RarityTier::from_byte(leader[2] % 16).as_byte();
    let mut spec1 = leader[SPEC_START];
    if leader[0] / 16 == ITEM_TYPE_EQUIPPABLE && leader[0] % 16 == SUB_TYPE_ARMOR_BASE
        && leader_rarity < rarity {
        let mut found = find_component(leader, &orig, sacs, &take, true);
        if found.is_none() {
            found = find_component(leader, &orig, sacs, &take, false);
        }
        if let Some(k) = found {
            spec1 = leader[SPEC_START] | sacs[k][SPEC_START];
        }
    }
    let mut d = leader.clone();
    write_progress(&mut d, &p);
    d.set(SPEC_START, spec1);
    let b = write_at(d[2], ByteType::Low, rarity);
    d.set(2, b);
    d
}

/// The outcome of a successful assemble: the leader rewritten as `assemble_dna`
/// says, holding the pooled souls and keeping its other fields, and every
/// sacrifice consumed, in input order. `assemble_avatars` establishes it for
/// every call with at least one sacrifice where the leader and all sacrifices
/// are V2 avatars of the V2 length; the laws below hold of every such call.
pub open spec fn is_assembled<B>(
    leader: ForgeItem<B>,
    sacs: Seq<ForgeItem<B>>,
    seed: Seq<u8>,
    cursor: int,
    out: LeaderForgeOutput<B>,
    outs: Seq<ForgeOutput<B>>,
    cursor_after: int,
) -> bool {
    let (d, c) = assemble_dna(dna_bytes(leader.1.dna), sacrifice_dnas(sacs), seed, cursor);
    &&& out is Forged
    &&& out->Forged_1 == 0
    &&& out->Forged_0.0 == leader.0
    &&& out->Forged_0.1.season_id == leader.1.season_id
    &&& out->Forged_0.1.encoding == leader.1.encoding
    &&& dna_bytes(out->Forged_0.1.dna) == d
    &&& out->Forged_0.1.souls == pooled_souls(leader.1, sacs)
    &&& out->Forged_0.1.minted_at == leader.1.minted_at
    &&& outs.len() == sacs.len()
    &&& forall|i: int| 0 <= i < sacs.len() ==> outs[i] == ForgeOutput::<B>::Consumed(sacs[i].0)
    &&& cursor_after == c
}

impl AvatarCombinator {
    /// Assembles the sacrifices into the leader (V2 layout only).
    ///
    /// Refused with `EmptySacrificeSet` when there is no sacrifice, and with the
    /// first encoding problem among the leader and then the sacrifices when one
    /// of them is not a V2 avatar of the V2 length; a refused call leaves the
    /// hash provider as it was. Otherwise the leader is rewritten as
    /// `is_assembled` states and all sacrifices are consumed.
    pub fn assemble_avatars<B>(
        input_leader: ForgeItem<B>,
        input_sacrifices: Vec<ForgeItem<B>>,
        hash_provider: &mut HashProvider,
    ) -> (r: Result<(LeaderForgeOutput<B>, Vec<ForgeOutput<B>>), ForgeError>)
        ensures
            input_sacrifices@.len() == 0 ==> r == Err::<
                (LeaderForgeOutput<B>, Vec<ForgeOutput<B>>),
                ForgeError,
            >(ForgeError::EmptySacrificeSet),
            input_sacrifices@.len() > 0 && inputs_problem(input_leader.1, input_sacrifices@) is Some
                ==> r == Err::<(LeaderForgeOutput<B>, Vec<ForgeOutput<B>>), ForgeError>(
                ForgeError::Encoding(inputs_problem(input_leader.1, input_sacrifices@)->0),
            ),
            r is Err ==> *final(hash_provider) == *old(hash_provider),
            input_sacrifices@.len() > 0 && inputs_problem(input_leader.1, input_sacrifices@) is None
                ==> r is Ok && is_assembled(
                input_leader,
                input_sacrifices@,
                old(hash_provider).seed(),
                old(hash_provider).cursor(),
                r->Ok_0.0,
                r->Ok_0.1@,
                final(hash_provider).cursor(),
            ),
            final(hash_provider).seed() == old(hash_provider).seed(),
    {
        let (leader_id, leader) = input_leader;
        let n = input_sacrifices.len();
        if n == 0 {
            return Err(ForgeError::EmptySacrificeSet);
        }
        let (leader_dna, sac_dnas) = match load_inputs(&leader, &input_sacrifices) {
            Ok(x) => x,
            Err(e) => {
                return Err(ForgeError::Encoding(e));
            },
        };
        let ghost sacs = input_sacrifices@;
        let mut souls: SoulCount = leader.souls;
        let mut i: usize = 0;
        while i < n
            invariant
                n == sacs.len(),
                sacs == input_sacrifices@,
                i <= n,
                souls as int == if leader.souls + souls_upto(sacs, i as nat) > SoulCount::MAX {
                    SoulCount::MAX as int
                } else {
                    leader.souls + souls_upto(sacs, i as nat)
                },
            decreases n - i,
        {
            souls = souls.saturating_add(input_sacrifices[i].1.souls);
            i = i + 1;
        }
        let new_dna = assemble_leader_dna(&leader_dna, &sac_dnas, hash_provider);
        let dna = match dna_from_vec(new_dna) {
            Ok(d) => d,
            Err(_) => {
                return Err(ForgeError::Encoding(EncodingError::WrongLength));
            },
        };
        let Avatar { season_id, encoding, dna: _, souls: _, minted_at } = leader;
        let avatar = Avatar { season_id, encoding, dna, souls, minted_at };
        let mut outs: Vec<ForgeOutput<B>> = Vec::new();
        let mut k: usize = 0;
        while k < n
            invariant
                n == sacs.len(),
                sacs == input_sacrifices@,
                k <= n,
                outs@.len() == k,
                forall|j: int| 0 <= j < k ==> outs@[j] == ForgeOutput::<B>::Consumed(sacs[j].0),
            decreases n - k,
        {
            outs.push(ForgeOutput::Consumed(input_sacrifices[k].0));
            k = k + 1;
        }
        Ok((LeaderForgeOutput::Forged((leader_id, avatar), 0), outs))
    }
}

/// Soul conservation: when the total fits a soul count, the assembled leader
/// holds its own souls plus the souls of every consumed sacrifice.
pub proof fn lemma_assemble_conserves_souls<B>(
    leader: ForgeItem<B>,
    sacs: Seq<ForgeItem<B>>,
    seed: Seq<u8>,
    cursor: int,
    out: LeaderForgeOutput<B>,
    outs: Seq<ForgeOutput<B>>,
    cursor_after: int,
)
    requires
        is_assembled(leader, sacs, seed, cursor, out, outs, cursor_after),
        leader.1.souls + souls_upto(sacs, sacs.len()) <= SoulCount::MAX,
    ensures
        out->Forged_0.1.souls == leader.1.souls + consumed_souls(sacs, outs, sacs.len()),
{
    lemma_all_consumed_souls(sacs, outs, sacs.len());
}

/// Disposition completeness: there is one disposition per sacrifice, in input
/// order, and each consumes the sacrifice at its position.
pub proof fn lemma_assemble_dispositions_complete<B>(
    leader: ForgeItem<B>,
    sacs: Seq<ForgeItem<B>>,
    seed: Seq<u8>,
    cursor: int,
    out: LeaderForgeOutput<B>,
    outs: Seq<ForgeOutput<B>>,
    cursor_after: int,
)
    requires
        is_assembled(leader, sacs, seed, cursor, out, outs, cursor_after),
    ensures
        outs.len() == sacs.len(),
        forall|i: int|
            0 <= i < sacs.len() ==> #[trigger] outs[i] is Consumed && outs[i]->Consumed_0
                == sacs[i].0,
{
}

/// Determinism: two assembles of the same leader and sacrifices from the same
/// seed and cursor give the same leader, byte for byte, the same dispositions
/// and the same cursor.
pub proof fn lemma_assemble_deterministic<B>(
    leader: ForgeItem<B>,
    sacs: Seq<ForgeItem<B>>,
    seed: Seq<u8>,
    cursor: int,
    out1: LeaderForgeOutput<B>,
    outs1: Seq<ForgeOutput<B>>,
    cursor1: int,
    out2: LeaderForgeOutput<B>,
    outs2: Seq<ForgeOutput<B>>,
    cursor2: int,
)
    requires
        is_assembled(leader, sacs, seed, cursor, out1, outs1, cursor1),
        is_assembled(leader, sacs, seed, cursor, out2, outs2, cursor2),
    ensures
        out1->Forged_0.0 == out2->Forged_0.0,
        out1->Forged_1 == out2->Forged_1,
        out1->Forged_0.1.season_id == out2->Forged_0.1.season_id,
        out1->Forged_0.1.encoding == out2->Forged_0.1.encoding,
        dna_bytes(out1->Forged_0.1.dna) == dna_bytes(out2->Forged_0.1.dna),
        out1->Forged_0.1.souls == out2->Forged_0.1.souls,
        out1->Forged_0.1.minted_at == out2->Forged_0.1.minted_at,
        outs1 == outs2,
        cursor1 == cursor2,
{
    assert(outs1 =~= outs2);
}

/// Progress monotonicity: after an assemble no progress slot of the leader is
/// lower than before, and each slot rose by at most one tier, kept its
/// variation and stayed within the 4-bit range.
pub proof fn lemma_assemble_progress_monotonic<B>(
    leader: ForgeItem<B>,
    sacs: Seq<ForgeItem<B>>,
    seed: Seq<u8>,
    cursor: int,
    out: LeaderForgeOutput<B>,
    outs: Seq<ForgeOutput<B>>,
    cursor_after: int,
)
    requires
        is_assembled(leader, sacs, seed, cursor, out, outs, cursor_after),
        dna_bytes(leader.1.dna).len() == DNA_LEN,
    ensures
        progress_of(dna_bytes(out->Forged_0.1.dna)).len() == PROGRESS_LEN,
        forall|i: int|
            0 <= i < PROGRESS_LEN ==> #[trigger] raised_at_most_once(
                progress_of(dna_bytes(leader.1.dna)),
                progress_of(dna_bytes(out->Forged_0.1.dna)),
                i,
            ),
        forall|i: int|
            0 <= i < PROGRESS_LEN ==> hi(progress_of(dna_bytes(leader.1.dna))[i]) <= hi(
                #[trigger] progress_of(dna_bytes(out->Forged_0.1.dna))[i],
            ) && lo(progress_of(dna_bytes(leader.1.dna))[i]) == lo(
                progress_of(dna_bytes(out->Forged_0.1.dna))[i],
            ),
{
    let l = dna_bytes(leader.1.dna);
    let sd = sacrifice_dnas(sacs);
    let take = assemble_take(l, sd);
    lemma_match_monotonic(l, sd, take, MATCH_ALGO_START_RARITY, seed, cursor, sd.len());
    let (p, c) = match_upto(l, sd, take, MATCH_ALGO_START_RARITY, seed, cursor, sd.len());
    let d = dna_bytes(out->Forged_0.1.dna);
    assert(progress_of(d) =~= p);
    assert forall|i: int| 0 <= i < PROGRESS_LEN implies hi(progress_of(l)[i]) <= hi(
        #[trigger] progress_of(d)[i],
    ) && lo(progress_of(l)[i]) == lo(progress_of(d)[i]) by {
        assert(raised_at_most_once(progress_of(l), p, i));
        lemma_upgrade(progress_of(l)[i]);
    }
}

/// Re-rating: after an assemble the leader's rarity nibble is the tier, read
/// through the tier table, of the lowest tier nibble of its new progress array.
pub proof fn lemma_assemble_rerates_leader<B>(
    leader: ForgeItem<B>,
    sacs: Seq<ForgeItem<B>>,
    seed: Seq<u8>,
    cursor: int,
    out: LeaderForgeOutput<B>,
    outs: Seq<ForgeOutput<B>>,
    cursor_after: int,
)
    requires
        is_assembled(leader, sacs, seed, cursor, out, outs, cursor_after),
        dna_bytes(leader.1.dna).len() == DNA_LEN,
    ensures
        lo(dna_bytes(out->Forged_0.1.dna)[2]) == tier_byte(
            tier_from_byte(lowest(progress_of(dna_bytes(out->Forged_0.1.dna)), ByteType::High)),
        ),
{
    let l = dna_bytes(leader.1.dna);
    let sd = sacrifice_dnas(sacs);
    let take = assemble_take(l, sd);
    let (p, c) = match_upto(l, sd, take, MATCH_ALGO_START_RARITY, seed, cursor, sd.len());
    lemma_match_monotonic(l, sd, take, MATCH_ALGO_START_RARITY, seed, cursor, sd.len());
    let d = dna_bytes(out->Forged_0.1.dna);
    assert(progress_of(d) =~= p);
    let rarity = tier_byte(tier_from_byte(lowest(p, ByteType::High)));
    assert(rarity <= 15);
    let e = with_progress(l, p).update(SPEC_START as int, d[SPEC_START as int]);
    crate::codec::lemma_write_read_part(e[2], ByteType::Low, rarity);
}

/// Unrelated bytes are kept: an assemble rewrites only the rarity nibble, the
/// first spec byte and the progress array of the leader's DNA; its length, its
/// other bytes and the high nibble of byte 2 stay as they were.
pub proof fn lemma_assemble_keeps_other_bytes<B>(
    leader: ForgeItem<B>,
    sacs: Seq<ForgeItem<B>>,
    seed: Seq<u8>,
    cursor: int,
    out: LeaderForgeOutput<B>,
    outs: Seq<ForgeOutput<B>>,
    cursor_after: int,
)
    requires
        is_assembled(leader, sacs, seed, cursor, out, outs, cursor_after),
        dna_bytes(leader.1.dna).len() == DNA_LEN,
    ensures
        dna_bytes(out->Forged_0.1.dna).len() == DNA_LEN,
        hi(dna_bytes(out->Forged_0.1.dna)[2]) == hi(dna_bytes(leader.1.dna)[2]),
        forall|i: int|
            0 <= i < crate::codec::PROGRESS_START && i != 2 && i != SPEC_START
                ==> #[trigger] dna_bytes(out->Forged_0.1.dna)[i] == dna_bytes(leader.1.dna)[i],
{
    let l = dna_bytes(leader.1.dna);
    let sd = sacrifice_dnas(sacs);
    let take = assemble_take(l, sd);
    lemma_match_monotonic(l, sd, take, MATCH_ALGO_START_RARITY, seed, cursor, sd.len());
    let (p, c) = match_upto(l, sd, take, MATCH_ALGO_START_RARITY, seed, cursor, sd.len());
    let rarity = tier_byte(tier_from_byte(lowest(p, ByteType::High)));
    let d = dna_bytes(out->Forged_0.1.dna);
    let e = with_progress(l, p).update(SPEC_START as int, d[SPEC_START as int]);
    assert(e[2] == l[2]);
    crate::codec::lemma_write_read_part(e[2], ByteType::Low, rarity);
}

} // verus!
