use awesome_avatars::{
    Avatar, AvatarCombinator, DnaEncoding, EncodingError, ForgeError, ForgeItem, ForgeOutput,
    ForgeType, HashProvider, LeaderForgeOutput, MaxIpfsUrl,
};

fn item(id: u64, dna: Vec<u8>, souls: u32) -> ForgeItem<u64> {
    (
        id,
        Avatar {
            season_id: 2,
            encoding: DnaEncoding::V2,
            dna: frame_support::BoundedVec::try_from(dna).unwrap(),
            souls,
            minted_at: 7,
        },
    )
}

fn pet_dna(progress: [u8; 11]) -> Vec<u8> {
    let mut dna = vec![0u8; 32];
    dna[0] = 0x11;
    dna[1] = 0x23;
    dna[2] = 0x01;
    dna[21..].copy_from_slice(&progress);
    dna
}

const LEADER: [u8; 11] = [0x31, 0x20, 0x35, 0x33, 0x20, 0x33, 0x31, 0x22, 0x32, 0x22, 0x34];
const MATCHING: [u8; 11] = [0x31, 0x25, 0x32, 0x25, 0x21, 0x22, 0x22, 0x21, 0x23, 0x21, 0x25];
const NOT_MATCHING: [u8; 11] = [0x11; 11];

fn leader_avatar(out: LeaderForgeOutput<u64>) -> Avatar<u64> {
    match out {
        LeaderForgeOutput::Forged((_, avatar), extra) => {
            assert_eq!(extra, 0);
            avatar
        }
        _ => panic!("the leader should be forged"),
    }
}

#[test]
fn match_consumes_matching_and_returns_the_rest() {
    let mut hp = HashProvider::new_with_bytes([0u8; 32]);
    let leader = item(10, pet_dna(LEADER), 5);
    let sacs = vec![item(11, pet_dna(MATCHING), 3), item(12, pet_dna(NOT_MATCHING), 4)];
    let (out, outs) = AvatarCombinator::match_avatars(leader, sacs, &mut hp).unwrap();
    let avatar = leader_avatar(out);
    assert_eq!(avatar.souls, 8);
    assert_eq!(avatar.season_id, 2);
    assert_eq!(avatar.minted_at, 7);
    // The first stream byte is 0, so the first open slot (1) is raised.
    assert_eq!(
        avatar.dna[21..].to_vec(),
        vec![0x31, 0x30, 0x35, 0x33, 0x20, 0x33, 0x31, 0x22, 0x32, 0x22, 0x34]
    );
    assert_eq!(avatar.dna[..21].to_vec(), pet_dna(LEADER)[..21].to_vec());
    assert_eq!(outs.len(), 2);
    assert!(matches!(outs[0], ForgeOutput::Consumed(11)));
    match &outs[1] {
        ForgeOutput::Forged((id, a), 0) => {
            assert_eq!(*id, 12);
            assert_eq!(a.souls, 4);
            assert_eq!(a.dna.to_vec(), pet_dna(NOT_MATCHING));
        }
        _ => panic!("the non-matching sacrifice should be handed back"),
    }
}

#[test]
fn match_is_deterministic() {
    let run = || {
        let mut hp = HashProvider::new_with_bytes([7u8; 32]);
        let leader = item(1, pet_dna(LEADER), 1);
        let sacs = vec![item(2, pet_dna(MATCHING), 1), item(3, pet_dna(MATCHING), 1)];
        let (out, outs) = AvatarCombinator::match_avatars(leader, sacs, &mut hp).unwrap();
        (leader_avatar(out).dna.to_vec(), outs.len(), hp.next())
    };
    assert_eq!(run(), run());
}

#[test]
fn souls_saturate_at_the_largest_count() {
    let mut hp = HashProvider::new_with_bytes([0u8; 32]);
    let leader = item(1, pet_dna(LEADER), u32::MAX - 1);
    let sacs = vec![item(2, pet_dna(MATCHING), 5)];
    let (out, _) = AvatarCombinator::match_avatars(leader, sacs, &mut hp).unwrap();
    assert_eq!(leader_avatar(out).souls, u32::MAX);
}

#[test]
fn classification_of_leaders_and_sacrifices() {
    let pet = item(1, pet_dna(LEADER), 0);
    let same_pet = item(2, pet_dna(MATCHING), 0);
    let mut other = pet_dna(MATCHING);
    other[1] = 0x24;
    let other_pet = item(3, other, 0);
    assert_eq!(
        AvatarCombinator::determine_forge_type(&pet.1, &vec![same_pet]),
        ForgeType::Match
    );
    assert_eq!(
        AvatarCombinator::determine_forge_type(&pet.1, &vec![other_pet]),
        ForgeType::Unknown
    );
    assert_eq!(AvatarCombinator::determine_forge_type(&pet.1, &vec![]), ForgeType::Unknown);
}

#[test]
fn forge_refuses_unknown_and_badly_encoded_inputs() {
    let pet = item(1, pet_dna(LEADER), 0);
    let mut other = pet_dna(MATCHING);
    other[1] = 0x24;
    let r = AvatarCombinator::forge(pet, vec![item(3, other, 0)], [0u8; 32]);
    assert_eq!(r.err(), Some(ForgeError::UnknownForgeType));

    let mut v1 = item(4, pet_dna(MATCHING), 0);
    v1.1.encoding = DnaEncoding::V1;
    let r = AvatarCombinator::forge(item(1, pet_dna(LEADER), 0), vec![v1], [0u8; 32]);
    assert_eq!(r.err(), Some(ForgeError::Encoding(EncodingError::WrongVersion)));

    let short = item(5, vec![0x11; 20], 0);
    let r = AvatarCombinator::forge(item(1, pet_dna(LEADER), 0), vec![short], [0u8; 32]);
    assert_eq!(r.err(), Some(ForgeError::Encoding(EncodingError::WrongLength)));

    let r = AvatarCombinator::forge(item(1, pet_dna(LEADER), 0), vec![], [0u8; 32]);
    assert_eq!(r.err(), Some(ForgeError::EmptySacrificeSet));
}

#[test]
fn forge_runs_the_match_forge() {
    let leader = item(1, pet_dna(LEADER), 2);
    let r = AvatarCombinator::forge(leader, vec![item(2, pet_dna(MATCHING), 3)], [0u8; 32]);
    let (out, outs) = r.unwrap();
    assert_eq!(leader_avatar(out).souls, 5);
    assert!(matches!(outs[0], ForgeOutput::Consumed(2)));
}

#[test]
fn ipfs_url_bound() {
    assert_eq!(MaxIpfsUrl::get(), 80);
}
