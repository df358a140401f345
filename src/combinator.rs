//! The forge algorithms over whole avatars: the records they return, input
//! checks, soul accounting, and the choice of algorithm.

use vstd::prelude::*;

use crate::assemble::assemble_take;
use crate::avatar::{Avatar, DnaEncoding, SoulCount};
use crate::codec::{hi, EncodingError, DNA_LEN};
use crate::dna::{dna_bytes, dna_to_vec};
use crate::hash_provider::HashProvider;
use crate::match_forge::{is_matched, match_take};
use crate::assemble::is_assembled;
use crate::match_phase::{
    dna_is_toolbox, item_sub_type, item_type, views, ITEM_TYPE_EQUIPPABLE, SUB_TYPE_ARMOR_BASE,
};

verus! {

/// Identifies an avatar in the caller's storage.
pub type AvatarId = u64;

/// An avatar together with its identifier.
pub type ForgeItem<BlockNumber> = (AvatarId, Avatar<BlockNumber>);

/// What became of the leader.
pub enum LeaderForgeOutput<BlockNumber> {
    /// The leader, rewritten, with a count of extra results.
    Forged(ForgeItem<BlockNumber>, u8),
    /// The leader, untouched.
    Unchanged(ForgeItem<BlockNumber>),
}

/// What became of one sacrifice.
pub enum ForgeOutput<BlockNumber> {
    /// The sacrifice is used up and must be removed.
    Consumed(AvatarId),
    /// The sacrifice became a new avatar.
    Forged(ForgeItem<BlockNumber>, u8),
}

/// Why a forge call was refused. A refused call changes nothing.
#[derive(Clone, Copy, Debug, PartialEq, Eq, Structural)]
pub enum ForgeError {
    /// An input avatar cannot be read in the layout the algorithm works on.
    Encoding(EncodingError),
    /// The leader and sacrifices fit no forge algorithm.
    UnknownForgeType,
    /// The algorithm was handed no sacrifice.
    EmptySacrificeSet,
}

/// The encoding problem of an avatar for the V2 algorithms, if any.
pub open spec fn v2_problem<B>(a: Avatar<B>) -> Option<EncodingError> {
    if a.encoding != DnaEncoding::V2 {
        Some(EncodingError::WrongVersion)
    } else if dna_bytes(a.dna).len() != DNA_LEN {
        Some(EncodingError::WrongLength)
    } else {
        None
    }
}

/// The first encoding problem among the first `n` sacrifices.
pub open spec fn first_problem<B>(sacs: Seq<ForgeItem<B>>, n: nat) -> Option<EncodingError>
    decreases n,
{
    if n == 0 {
        None
    } else {
        match first_problem(sacs, (n - 1) as nat) {
            Some(e) => Some(e),
            None => v2_problem(sacs[n - 1].1),
        }
    }
}

/// The first encoding problem among the leader, then the sacrifices in order.
pub open spec fn inputs_problem<B>(leader: Avatar<B>, sacs: Seq<ForgeItem<B>>) -> Option<
    EncodingError,
> {
    match v2_problem(leader) {
        Some(e) => Some(e),
        None => first_problem(sacs, sacs.len()),
    }
}

/// The DNA sequences of the sacrifices, in order.
pub open spec fn sacrifice_dnas<B>(sacs: Seq<ForgeItem<B>>) -> Seq<Seq<u8>> {
    Seq::new(sacs.len(), |i: int| dna_bytes(sacs[i].1.dna))
}

/// The souls of the first `n` sacrifices.
pub open spec fn souls_upto<B>(sacs: Seq<ForgeItem<B>>, n: nat) -> nat
    decreases n,
{
    if n == 0 {
        0
    } else {
        souls_upto(sacs, (n - 1) as nat) + sacs[n - 1].1.souls as nat
    }
}

/// The leader's souls plus those of all sacrifices, capped at the largest soul
/// count.
pub open spec fn pooled_souls<B>(leader: Avatar<B>, sacs: Seq<ForgeItem<B>>) -> SoulCount {
    let t = leader.souls + souls_upto(sacs, sacs.len());
    if t > SoulCount::MAX {
        SoulCount::MAX
    } else {
        t as SoulCount
    }
}

/// Whether the sacrifice takes part in the assemble match phase: it is of the
/// leader's item type and class types, or it is a toolbox.
pub open spec fn same_assemble_version(s: Seq<u8>, leader: Seq<u8>) -> bool {
    hi(s[0]) == hi(leader[0]) && s[1] == leader[1]
}

pub open spec fn same_full_and_class_types(s: Seq<u8>, leader: Seq<u8>) -> bool {
    s[0] == leader[0] && s[1] == leader[1]
}

/// Once a prefix of the sacrifices has an encoding problem, every longer prefix
/// reports that same problem.
proof fn lemma_first_problem_stays<B>(sacs: Seq<ForgeItem<B>>, i: nat, m: nat)
    requires
        i <= m,
        first_problem(sacs, i) is Some,
    ensures
        first_problem(sacs, m) == first_problem(sacs, i),
    decreases m - i,
{
    if m > i {
        lemma_first_problem_stays(sacs, i, (m - 1) as nat);
    }
}

/// Reads the DNA of the leader and of every sacrifice, or reports the first
/// encoding problem among them.
pub(crate) fn load_inputs<B>(leader: &Avatar<B>, sacs: &Vec<ForgeItem<B>>) -> (r: Result<
    (Vec<u8>, Vec<Vec<u8>>),
    EncodingError,
>)
    ensures
        match r {
            Ok((l, v)) => {
                &&& inputs_problem(*leader, sacs@) is None
                &&& l@ == dna_bytes(leader.dna)
                &&& l@.len() == DNA_LEN
                &&& views(v@) == sacrifice_dnas(sacs@)
                &&& v@.len() == sacs@.len()
                &&& forall|j: int| 0 <= j < v@.len() ==> (#[trigger] v@[j])@.len() == DNA_LEN
            },
            Err(e) => inputs_problem(*leader, sacs@) == Some(e),
        },
{
    if leader.encoding != DnaEncoding::V2 {
        return Err(EncodingError::WrongVersion);
    }
    let leader_dna = dna_to_vec(&leader.dna);
    if leader_dna.len() != DNA_LEN {
        return Err(EncodingError::WrongLength);
    }
    let n = sacs.len();
    let mut sac_dnas: Vec<Vec<u8>> = Vec::new();
    let mut i: usize = 0;
    while i < n
        invariant
            n == sacs@.len(),
            i <= n,
            first_problem(sacs@, i as nat) is None,
            v2_problem(*leader) is None,
            leader_dna@ == dna_bytes(leader.dna),
            leader_dna@.len() == DNA_LEN,
            sac_dnas@.len() == i,
            views(sac_dnas@) == sacrifice_dnas(sacs@).subrange(0, i as int),
            forall|j: int| 0 <= j < sac_dnas@.len() ==> (#[trigger] sac_dnas@[j])@.len() == DNA_LEN,
        decreases n - i,
    {
        let s = &sacs[i].1;
        assert(first_problem(sacs@, (i + 1) as nat) == v2_problem(sacs@[i as int].1));
        if s.encoding != DnaEncoding::V2 {
            proof {
                lemma_first_problem_stays(sacs@, (i + 1) as nat, n as nat);
            }
            return Err(EncodingError::WrongVersion);
        }
        let d = dna_to_vec(&s.dna);
        if d.len() != DNA_LEN {
            proof {
                lemma_first_problem_stays(sacs@, (i + 1) as nat, n as nat);
            }
            return Err(EncodingError::WrongLength);
        }
        let ghost before = sac_dnas@;
        sac_dnas.push(d);
        i = i + 1;
        assert forall|j: int| 0 <= j < i implies #[trigger] views(sac_dnas@)[j]
            == sacrifice_dnas(sacs@)[j] by {
            if j < i - 1 {
                assert(sac_dnas@[j] == before[j]);
                assert(views(before)[j] == sacrifice_dnas(sacs@).subrange(0, i - 1)[j]);
            }
        }
        assert(views(sac_dnas@) =~= sacrifice_dnas(sacs@).subrange(0, i as int));
    }
    assert(views(sac_dnas@) =~= sacrifice_dnas(sacs@));
    Ok((leader_dna, sac_dnas))
}

/// Entry point of the forge algorithms.
pub struct AvatarCombinator;

/// The souls of the sacrifices among the first `n` that are consumed.
pub open spec fn consumed_souls<B>(
    sacs: Seq<ForgeItem<B>>,
    outs: Seq<ForgeOutput<B>>,
    n: nat,
) -> nat
    decreases n,
{
    if n == 0 {
        0
    } else {
        consumed_souls(sacs, outs, (n - 1) as nat) + if outs[n - 1] is Consumed {
            sacs[n - 1].1.souls as nat
        } else {
            0nat
        }
    }
}

pub(crate) proof fn lemma_all_consumed_souls<B>(
    sacs: Seq<ForgeItem<B>>,
    outs: Seq<ForgeOutput<B>>,
    n: nat,
)
    requires
        n <= sacs.len(),
        n <= outs.len(),
        forall|i: int| 0 <= i < n ==> #[trigger] outs[i] is Consumed,
    ensures
        consumed_souls(sacs, outs, n) == souls_upto(sacs, n),
    decreases n,
{
    if n > 0 {
        lemma_all_consumed_souls(sacs, outs, (n - 1) as nat);
        assert(outs[n - 1] is Consumed);
    }
}

/// The forge algorithm that fits a leader and its sacrifices.
#[derive(Clone, Copy, Debug, PartialEq, Eq, Structural)]
pub enum ForgeType {
    Assemble,
    Match,
    Unknown,
}

/// Whether the DNA is that of an armor piece: an equippable whose subtype is
/// the base armor or one of the three armor components.
pub open spec fn is_armor(d: Seq<u8>) -> bool {
    item_type(d) == ITEM_TYPE_EQUIPPABLE && SUB_TYPE_ARMOR_BASE <= item_sub_type(d) <= 4
}

/// The forge type of V2 DNA sequences: `Assemble` for an armor leader whose
/// sacrifices are all of its assemble version or toolboxes; else `Match` when
/// the sacrifices all have the leader's full type and class types or are
/// toolboxes; `Unknown` otherwise, and without sacrifices.
pub open spec fn forge_type_of(leader: Seq<u8>, sacs: Seq<Seq<u8>>) -> ForgeType {
    if sacs.len() == 0 {
        ForgeType::Unknown
    } else if is_armor(leader) && forall|i: int|
        0 <= i < sacs.len() ==> #[trigger] assemble_take(leader, sacs)[i] {
        ForgeType::Assemble
    } else if forall|i: int| 0 <= i < sacs.len() ==> #[trigger] match_take(leader, sacs)[i] {
        ForgeType::Match
    } else {
        ForgeType::Unknown
    }
}

/// Whether every sacrifice passes the assemble (`assemble` true) or the match
/// (`assemble` false) participation test.
fn all_take(leader: &Vec<u8>, sacs: &Vec<Vec<u8>>, assemble: bool) -> (r: bool)
    requires
        leader@.len() == DNA_LEN,
        forall|i: int| 0 <= i < sacs@.len() ==> (#[trigger] sacs@[i])@.len() == DNA_LEN,
    ensures
        assemble ==> r == forall|i: int|
            0 <= i < sacs@.len() ==> #[trigger] assemble_take(leader@, views(sacs@))[i],
        !assemble ==> r == forall|i: int|
            0 <= i < sacs@.len() ==> #[trigger] match_take(leader@, views(sacs@))[i],
{
    let ghost sv = views(sacs@);
    let mut i: usize = 0;
    while i < sacs.len()
        invariant
            i <= sacs@.len(),
            leader@.len() == DNA_LEN,
            sv == views(sacs@),
            forall|j: int| 0 <= j < sacs@.len() ==> (#[trigger] sacs@[j])@.len() == DNA_LEN,
            assemble ==> forall|j: int| 0 <= j < i ==> #[trigger] assemble_take(leader@, sv)[j],
            !assemble ==> forall|j: int| 0 <= j < i ==> #[trigger] match_take(leader@, sv)[j],
        decreases sacs@.len() - i,
    {
        assert(sv[i as int] == sacs@[i as int]@);
        let s = &sacs[i];
        let kin = if assemble {
            s[0] / 16 == leader[0] / 16 && s[1] == leader[1]
        } else {
            s[0] == leader[0] && s[1] == leader[1]
        };
        if !(kin || dna_is_toolbox(s)) {
            assert(assemble ==> !assemble_take(leader@, sv)[i as int]);
            assert(!assemble ==> !match_take(leader@, sv)[i as int]);
            return false;
        }
        i = i + 1;
    }
    true
}

/// The forge type of V2 DNA sequences; see `forge_type_of`.
fn forge_type_of_dna(leader: &Vec<u8>, sacs: &Vec<Vec<u8>>) -> (r: ForgeType)
    requires
        leader@.len() == DNA_LEN,
        forall|i: int| 0 <= i < sacs@.len() ==> (#[trigger] sacs@[i])@.len() == DNA_LEN,
    ensures
        r == forge_type_of(leader@, views(sacs@)),
{
    if sacs.len() == 0 {
        return ForgeType::Unknown;
    }
    let armor = leader[0] / 16 == ITEM_TYPE_EQUIPPABLE && SUB_TYPE_ARMOR_BASE <= leader[0] % 16
        && leader[0] % 16 <= 4;
    if armor && all_take(leader, sacs, true) {
        ForgeType::Assemble
    } else if all_take(leader, sacs, false) {
        ForgeType::Match
    } else {
        ForgeType::Unknown
    }
}

impl AvatarCombinator {
    /// Classifies a leader and its sacrifices: `Unknown` when one of them is not
    /// a V2 avatar of the V2 length, else as `forge_type_of` says.
    pub fn determine_forge_type<B>(
        leader: &Avatar<B>,
        sacrifices: &Vec<ForgeItem<B>>,
    ) -> (r: ForgeType)
        ensures
            inputs_problem(*leader, sacrifices@) is Some ==> r == ForgeType::Unknown,
            inputs_problem(*leader, sacrifices@) is None ==> r == forge_type_of(
                dna_bytes(leader.dna),
                sacrifice_dnas(sacrifices@),
            ),
    {
        match load_inputs(leader, sacrifices) {
            Ok((l, v)) => forge_type_of_dna(&l, &v),
            Err(_) => ForgeType::Unknown,
        }
    }

    /// The single entry point: builds a hash provider on `seed` and runs the
    /// algorithm that `determine_forge_type` picks.
    ///
    /// Refused with `EmptySacrificeSet` without sacrifices, then with the first
    /// encoding problem, then with `UnknownForgeType` when no algorithm fits.
    pub fn forge<B>(
        leader: ForgeItem<B>,
        sacrifices: Vec<ForgeItem<B>>,
        seed: [u8; 32],
    ) -> (r: Result<(LeaderForgeOutput<B>, Vec<ForgeOutput<B>>), ForgeError>)
        ensures
            sacrifices@.len() == 0 ==> r == Err::<
                (LeaderForgeOutput<B>, Vec<ForgeOutput<B>>),
                ForgeError,
            >(ForgeError::EmptySacrificeSet),
            sacrifices@.len() > 0 && inputs_problem(leader.1, sacrifices@) is Some ==> r == Err::<
                (LeaderForgeOutput<B>, Vec<ForgeOutput<B>>),
                ForgeError,
            >(ForgeError::Encoding(inputs_problem(leader.1, sacrifices@)->0)),
            ({
                let t = forge_type_of(dna_bytes(leader.1.dna), sacrifice_dnas(sacrifices@));
                sacrifices@.len() > 0 && inputs_problem(leader.1, sacrifices@) is None ==> {
                    &&& t == ForgeType::Unknown ==> r == Err::<
                        (LeaderForgeOutput<B>, Vec<ForgeOutput<B>>),
                        ForgeError,
                    >(ForgeError::UnknownForgeType)
                    &&& t == ForgeType::Assemble ==> r is Ok && exists|c: int|
                        is_assembled(leader, sacrifices@, seed@, 0, r->Ok_0.0, r->Ok_0.1@, c)
                    &&& t == ForgeType::Match ==> r is Ok && exists|c: int|
                        is_matched(leader, sacrifices@, seed@, 0, r->Ok_0.0, r->Ok_0.1@, c)
                }
            }),
    {
        if sacrifices.len() == 0 {
            return Err(ForgeError::EmptySacrificeSet);
        }
        let t = AvatarCombinator::determine_forge_type(&leader.1, &sacrifices);
        if let Err(e) = load_inputs(&leader.1, &sacrifices) {
            return Err(ForgeError::Encoding(e));
        }
        let mut hash_provider = HashProvider::new_with_bytes(seed);
        match t {
            ForgeType::Assemble => {
                AvatarCombinator::assemble_avatars(leader, sacrifices, &mut hash_provider)
            },
            ForgeType::Match => {
                AvatarCombinator::match_avatars(leader, sacrifices, &mut hash_provider)
            },
            ForgeType::Unknown => Err(ForgeError::UnknownForgeType),
        }
    }
}

} // verus!
