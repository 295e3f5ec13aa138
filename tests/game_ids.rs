use clvm_tools_rs::classic::clvm::__type_compatibility__::{sha256, Bytes, BytesFromType};
use potato_handler::game_id::GameIdAllocator;
use potato_handler::hashing::{amount_atom_exec, coin_id, game_id_seed};
use potato_handler::types::{ChannelHandlerPrivateKeys, CoinString, CoinID, PrivateKey, PuzzleHash};

fn seed(first: u8) -> [u8; 32] {
    let mut s = [0u8; 32];
    s[0] = first;
    s
}

#[test]
fn game_ids_count_up_with_carry() {
    let mut a = GameIdAllocator::seeded(seed(0xFE));
    let ids: Vec<[u8; 32]> = (0..3).map(|_| a.next_game_id().unwrap().0).collect();
    assert_eq!(ids[0], seed(0xFE));
    assert_eq!(ids[1], seed(0xFF));
    let mut third = [0u8; 32];
    third[1] = 1;
    assert_eq!(ids[2], third);
}

#[test]
fn game_ids_wrap_after_the_largest() {
    let mut a = GameIdAllocator::seeded([0xFF; 32]);
    assert_eq!(a.next_game_id().unwrap().0, [0xFF; 32]);
    assert_eq!(a.next_game_id().unwrap().0, [0; 32]);
    assert_eq!(a.next_game_id().unwrap().0, seed(1));
}

#[test]
fn game_ids_are_distinct() {
    let mut a = GameIdAllocator::seeded(seed(0xF0));
    let mut seen = std::collections::HashSet::new();
    for _ in 0..1000 {
        assert!(seen.insert(a.next_game_id().unwrap().0));
    }
}

#[test]
fn unseeded_allocator_gives_nothing() {
    let mut a = GameIdAllocator::unseeded();
    assert!(!a.is_ready());
    assert!(a.next_game_id().is_none());
}

fn keys() -> ChannelHandlerPrivateKeys {
    ChannelHandlerPrivateKeys {
        my_channel_coin_private_key: PrivateKey([1; 32]),
        my_unroll_coin_private_key: PrivateKey([2; 32]),
        my_referee_private_key: PrivateKey([3; 32]),
    }
}

#[test]
fn seed_is_the_digest_of_the_keys() {
    let mut data = vec![1u8; 32];
    data.extend(vec![2u8; 32]);
    data.extend(vec![3u8; 32]);
    let expected = sha256(Bytes::new(Some(BytesFromType::Raw(data.clone())))).data().clone();
    let got = game_id_seed(&keys());
    assert_eq!(got.to_vec(), expected);
    assert_ne!(got.to_vec(), data[..32].to_vec());
}

#[test]
fn amounts_are_clvm_atoms() {
    assert_eq!(amount_atom_exec(0), Vec::<u8>::new());
    assert_eq!(amount_atom_exec(100), vec![100]);
    assert_eq!(amount_atom_exec(200), vec![0, 200]);
    assert_eq!(amount_atom_exec(0x1234), vec![0x12, 0x34]);
    assert_eq!(amount_atom_exec(u64::MAX), vec![0, 0xFF, 0xFF, 0xFF, 0xFF, 0xFF, 0xFF, 0xFF, 0xFF]);
}

#[test]
fn coin_id_hashes_parent_puzzle_hash_and_amount() {
    let c = CoinString { parent: CoinID([4; 32]), puzzle_hash: PuzzleHash([5; 32]), amount: 200 };
    let mut data = vec![4u8; 32];
    data.extend(vec![5u8; 32]);
    data.extend(vec![0, 200]);
    let expected = sha256(Bytes::new(Some(BytesFromType::Raw(data)))).data().clone();
    assert_eq!(coin_id(&c).0.to_vec(), expected);
}

#[test]
fn sha256_of_abc_is_the_standard_vector() {
    // Checks the digest that the seed and coin identifiers are built on.
    let d = sha256(Bytes::new(Some(BytesFromType::Raw(b"abc".to_vec())))).data().clone();
    assert_eq!(d[0], 0xba);
    assert_eq!(d[31], 0xad);
}
