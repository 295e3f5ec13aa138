use potato_handler::envelope::{decode, encode};
use potato_handler::protocol::Error;
use potato_handler::types::{
    Aggsig, CoinID, CoinSpend, CoinString, GameID, GameStart, GameType, HandshakeA, HandshakeB,
    PeerMessage, PotatoSignatures, PublicKey, PuzzleHash, SpendBundle,
};
use potato_handler::wire::decimal_exec;

fn sigs() -> PotatoSignatures {
    PotatoSignatures {
        my_channel_half_signature_peer: Aggsig([0xAA; 96]),
        my_unroll_half_signature_peer: Aggsig([0xBB; 96]),
    }
}

fn coin(b: u8) -> CoinString {
    CoinString { parent: CoinID([b; 32]), puzzle_hash: PuzzleHash([b + 1; 32]), amount: 200 }
}

fn bundle() -> SpendBundle {
    SpendBundle {
        spends: vec![
            CoinSpend { coin: coin(1), puzzle: vec![1, 2, 3], solution: vec![], signature: Aggsig([5; 96]) },
            CoinSpend { coin: coin(7), puzzle: vec![], solution: vec![9; 40], signature: Aggsig([6; 96]) },
        ],
    }
}

fn game(t: &str, my_turn: bool, p: Vec<u8>) -> GameStart {
    GameStart { game_type: GameType(t.as_bytes().to_vec()), my_turn, parameters: p }
}

fn every_variant() -> Vec<PeerMessage> {
    vec![
        PeerMessage::HandshakeA(HandshakeA {
            parent: coin(3),
            channel_public_key: PublicKey([1; 48]),
            unroll_public_key: PublicKey([2; 48]),
            reward_puzzle_hash: PuzzleHash([3; 32]),
            referee_puzzle_hash: PuzzleHash([4; 32]),
        }),
        PeerMessage::HandshakeB(HandshakeB {
            channel_public_key: PublicKey([5; 48]),
            unroll_public_key: PublicKey([6; 48]),
            reward_puzzle_hash: PuzzleHash([7; 32]),
            referee_puzzle_hash: PuzzleHash([8; 32]),
        }),
        PeerMessage::HandshakeE { bundle: bundle() },
        PeerMessage::HandshakeF { bundle: bundle() },
        PeerMessage::Nil(sigs()),
        PeerMessage::StartGames(vec![
            game("calpoker", true, vec![1]),
            game("krunk", false, vec![]),
            game("calpoker", false, vec![0x80, 0x01]),
        ]),
        PeerMessage::Move(GameID([9; 32]), (0..500).map(|i| (i % 251) as u8).collect(), sigs()),
        PeerMessage::Accept(GameID([10; 32]), sigs()),
        PeerMessage::Shutdown(Aggsig([11; 96])),
        PeerMessage::RequestPotato,
    ]
}

#[test]
fn codec_round_trip_every_variant() {
    for m in every_variant() {
        let bytes = encode(&m).expect("should encode");
        let back = decode(&bytes).expect("should decode");
        assert_eq!(format!("{back:?}"), format!("{m:?}"));
    }
}

#[test]
fn codec_start_games_three_entries() {
    let m = &every_variant()[5];
    let back = decode(&encode(m).unwrap()).unwrap();
    match back {
        PeerMessage::StartGames(g) => {
            assert_eq!(g.len(), 3);
            assert_eq!(g[1].game_type.0, b"krunk".to_vec());
            assert!(!g[1].my_turn);
            assert_eq!(g[2].parameters, vec![0x80, 0x01]);
        }
        other => panic!("expected StartGames, got {other:?}"),
    }
}

#[test]
fn codec_move_with_large_payload() {
    let m = &every_variant()[6];
    match decode(&encode(m).unwrap()).unwrap() {
        PeerMessage::Move(id, payload, s) => {
            assert_eq!(id.0, [9; 32]);
            assert_eq!(payload.len(), 500);
            assert_eq!(payload[250], (250 % 251) as u8);
            assert_eq!(s.my_unroll_half_signature_peer.0, [0xBB; 96]);
        }
        other => panic!("expected Move, got {other:?}"),
    }
}

#[test]
fn codec_output_is_bson() {
    for m in every_variant() {
        let bytes = encode(&m).unwrap();
        let doc = bson::Document::from_reader(&mut bytes.as_slice()).expect("should be bson");
        let inner = doc.get_document("PeerMessage").expect("should hold the message");
        assert!(inner.get_i64("tag").is_ok());
    }
}

#[test]
fn codec_layout_of_request_potato() {
    let bytes = encode(&PeerMessage::RequestPotato).unwrap();
    let mut expected: Vec<u8> = Vec::new();
    let inner: Vec<u8> = {
        let mut v = vec![18u8];
        v.extend_from_slice(b"tag\0");
        v.extend_from_slice(&9u64.to_le_bytes());
        let mut d = ((v.len() + 5) as u32).to_le_bytes().to_vec();
        d.extend(v);
        d.push(0);
        d
    };
    let mut body = vec![3u8];
    body.extend_from_slice(b"PeerMessage\0");
    body.extend(inner);
    expected.extend_from_slice(&((body.len() + 5) as u32).to_le_bytes());
    expected.extend(body);
    expected.push(0);
    assert_eq!(bytes, expected);
}

#[test]
fn codec_rejects_unknown_tag_and_garbage() {
    let mut bytes = encode(&PeerMessage::RequestPotato).unwrap();
    // The tag's value starts right after its key.
    let pos = 4 + 1 + 12 + 4 + 1 + 4;
    assert_eq!(bytes[pos], 9);
    bytes[pos] = 42;
    assert_eq!(decode(&bytes).err(), Some(Error::WireDecode));
    assert_eq!(decode(&[]).err(), Some(Error::WireDecode));
    let mut truncated = encode(&PeerMessage::Nil(sigs())).unwrap();
    truncated.pop();
    assert_eq!(decode(&truncated).err(), Some(Error::WireDecode));
}

#[test]
fn codec_rejects_a_short_signature() {
    let m = PeerMessage::Shutdown(Aggsig([11; 96]));
    let mut bytes = encode(&m).unwrap();
    let n = bytes.len();
    bytes[n - 3] ^= 0xFF;
    assert!(decode(&bytes).is_ok());
    let mut short = encode(&m).unwrap();
    let cut = short.len() - 3;
    short.remove(cut);
    assert_eq!(decode(&short).err(), Some(Error::WireDecode));
}

#[test]
fn array_index_keys_are_decimal() {
    assert_eq!(decimal_exec(0), b"0".to_vec());
    assert_eq!(decimal_exec(7), b"7".to_vec());
    assert_eq!(decimal_exec(10), b"10".to_vec());
    assert_eq!(decimal_exec(1234), b"1234".to_vec());
}
