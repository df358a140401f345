use awesome_avatars::{
    is_progress_match, Avatar, AttributeMapperV1, AttributeMapperV2, DnaEncoding, HashProvider,
    RarityTier,
};

fn seed() -> [u8; 32] {
    let mut s = [0u8; 32];
    for (i, b) in s.iter_mut().enumerate() {
        *b = i as u8 * 3 + 1;
    }
    s
}

#[test]
fn next_walks_the_seed_and_wraps() {
    let mut hp = HashProvider::new_with_bytes(seed());
    assert_eq!(hp.next(), 1);
    assert_eq!(hp.next(), 4);
    for _ in 2..32 {
        hp.next();
    }
    assert_eq!(hp.next(), 1);
}

#[test]
fn random_slice_takes_consecutive_bytes() {
    let mut hp = HashProvider::new_with_bytes(seed());
    hp.next();
    assert_eq!(hp.random_slice(3), vec![4, 7, 10]);
    assert_eq!(hp.next(), 13);
    let mut hp = HashProvider::new_with_bytes(seed());
    let all = hp.random_slice(34);
    assert_eq!(all[32], 1);
    assert_eq!(all[33], 4);
}

#[test]
fn shuffled_is_a_reproducible_permutation() {
    let mut hp = HashProvider::new_with_bytes(seed());
    let order = hp.shuffled(5);
    // Swaps 4 <-> 1 % 5, 3 <-> 4 % 4, 2 <-> 7 % 3, 1 <-> 10 % 2:
    // [0, 4, 2, 3, 1], [3, 4, 2, 0, 1], [3, 2, 4, 0, 1], [2, 3, 4, 0, 1].
    assert_eq!(order, vec![2, 3, 4, 0, 1]);
    let mut sorted = order.clone();
    sorted.sort();
    assert_eq!(sorted, vec![0, 1, 2, 3, 4]);
    assert_eq!(hp.next(), 13);

    let mut again = HashProvider::new_with_bytes(seed());
    assert_eq!(again.shuffled(5), order);
    assert_eq!(again.shuffled(0), Vec::<usize>::new());
    assert_eq!(again.shuffled(1), vec![0]);
    assert_eq!(again.next(), 13);
}

#[test]
fn progress_match_reports_matching_slots() {
    let leader = vec![0x31, 0x20, 0x35, 0x33, 0x20, 0x33, 0x31, 0x22, 0x32, 0x22, 0x34];
    let sac = vec![0x31, 0x25, 0x32, 0x25, 0x21, 0x22, 0x22, 0x21, 0x23, 0x21, 0x25];
    assert_eq!(is_progress_match(&leader, &sac, 4), Some(vec![1, 4, 7, 9]));
    // From tier 2 on, slots need neighbouring variations: 0 and 5 are
    // neighbours on the cycle of six, so slot 1 still matches.
    assert_eq!(is_progress_match(&leader, &sac, 2), Some(vec![1, 4, 7, 9]));
    let toolbox = vec![0xBB; 11];
    assert_eq!(is_progress_match(&leader, &toolbox, 4), None);
    let lower = vec![0x11; 11];
    assert_eq!(is_progress_match(&leader, &lower, 4), None);
}

#[test]
fn progress_match_needs_enough_score() {
    let leader = vec![0x31, 0x20, 0x35, 0x33, 0x30, 0x33, 0x31, 0x32, 0x32, 0x32, 0x34];
    let one_mirror = vec![0x31, 0x25, 0x32, 0x25, 0x23, 0x22, 0x22, 0x20, 0x23, 0x20, 0x25];
    assert_eq!(is_progress_match(&leader, &one_mirror, 4), None);
    let six_mirrors = vec![0x21, 0x21, 0x35, 0x34, 0x24, 0x33, 0x23, 0x22, 0x22, 0x22, 0x22];
    assert_eq!(is_progress_match(&leader, &six_mirrors, 4), Some(vec![1]));
}

#[test]
fn attribute_mappers_per_version() {
    let v1 = vec![0x53, 0x21, 0x47, 0x3C];
    assert_eq!(AttributeMapperV1::rarity(&v1), 2);
    assert_eq!(AttributeMapperV1::force(&v1), 0xC);
    assert_eq!(AttributeMapperV1::rarity(&vec![]), 0);

    let mut v2 = vec![0u8; 32];
    v2[2] = 0x13;
    v2[4] = 0x05;
    assert_eq!(AttributeMapperV2::rarity(&v2), 3);
    assert_eq!(AttributeMapperV2::force(&v2), 5);
    assert_eq!(AttributeMapperV2::rarity(&v2[..31].to_vec()), 0);

    let avatar = |encoding| Avatar {
        season_id: 1,
        encoding,
        dna: frame_support::BoundedVec::try_from(v2.clone()).unwrap(),
        souls: 0,
        minted_at: 0u32,
    };
    assert_eq!(avatar(DnaEncoding::V2).rarity(), 3);
    assert_eq!(avatar(DnaEncoding::V3).force(), 5);
    assert_eq!(avatar(DnaEncoding::V1).rarity(), 0);
    assert_eq!(avatar(DnaEncoding::V1).force(), 0);
}

#[test]
fn rarity_tiers_are_ordered() {
    assert_eq!(RarityTier::from_byte(3), RarityTier::Rare);
    assert_eq!(RarityTier::from_byte(9), RarityTier::Unrated);
    assert_eq!(RarityTier::Legendary.as_byte(), 5);
    assert!(RarityTier::Common.is_below(&RarityTier::Uncommon));
    assert!(!RarityTier::Mythical.is_below(&RarityTier::Epic));
}

#[test]
fn weighted_index_falls_into_a_share() {
    // The first byte is 1: with weights [1, 0, 3] the shares are 0 | - | 1..4.
    let mut hp = HashProvider::new_with_bytes(seed());
    assert_eq!(hp.weighted_index(&vec![1, 0, 3]), Some(2));
    // The second byte is 4, and 4 % 5 = 4 lands in the last share of [2, 2, 1].
    assert_eq!(hp.weighted_index(&vec![2, 2, 1]), Some(2));
    // The third byte is 7, and 7 % 4 = 3 lands in the second share of [2, 2].
    assert_eq!(hp.weighted_index(&vec![2, 2]), Some(1));
    assert_eq!(hp.weighted_index(&vec![0, 0]), None);
    assert_eq!(hp.weighted_index(&vec![]), None);
    assert_eq!(hp.next(), 10);
}

#[test]
fn rarity_nibble_of_no_tier_scores_as_unrated() {
    let mut common = vec![0u8; 32];
    common[2] = 0x01;
    let mut beyond = vec![0u8; 32];
    beyond[2] = 0x09;
    assert_eq!(AttributeMapperV2::rarity(&common), 1);
    assert_eq!(AttributeMapperV2::rarity(&beyond), RarityTier::Unrated.as_byte());
    assert!(AttributeMapperV2::rarity(&beyond) < AttributeMapperV2::rarity(&common));
    assert_eq!(AttributeMapperV1::rarity(&vec![0x93, 0xA1]), 0);
    assert_eq!(AttributeMapperV1::rarity(&vec![0x53, 0x61]), 5);
}
