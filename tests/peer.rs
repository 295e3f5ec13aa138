use std::collections::VecDeque;

use potato_handler::collaborators::{dispatch, BootstrapTowardWallet, PacketSender, ToLocalUI};
use potato_handler::envelope::{decode, encode};
use potato_handler::handler::{
    ChannelHandler, ChannelHandlerInitiationData, PeerEnv, Phase, PotatoHandler,
};
use potato_handler::protocol::{Effect, Error};
use potato_handler::types::{
    Aggsig, ChannelHandlerPrivateKeys, CoinID, CoinSpend, CoinString, GameID, GameStart, GameType,
    PeerMessage, PotatoSignatures, PrivateKey, PublicKey, PuzzleHash, SpendBundle,
};

/// A channel handler that signs with fixed bytes and records what it did.
struct MockChannel {
    log: Vec<String>,
    refuse: bool,
}

fn sigs(b: u8) -> PotatoSignatures {
    PotatoSignatures {
        my_channel_half_signature_peer: Aggsig([b; 96]),
        my_unroll_half_signature_peer: Aggsig([b.wrapping_add(1); 96]),
    }
}

impl ChannelHandler for MockChannel {
    fn send_empty_potato(&mut self) -> Option<PotatoSignatures> {
        if self.refuse {
            return None;
        }
        self.log.push("nil".to_string());
        Some(sigs(1))
    }
    fn received_empty_potato(&mut self, _sigs: &PotatoSignatures) -> bool {
        self.log.push("nil".to_string());
        !self.refuse
    }
    fn send_potato_start_game(&mut self, games: &Vec<GameStart>) -> bool {
        self.log.push(format!("start {}", games.len()));
        !self.refuse
    }
    fn received_potato_start_game(&mut self, games: &Vec<GameStart>) -> bool {
        self.log.push(format!("start {}", games.len()));
        !self.refuse
    }
    fn send_potato_move(&mut self, id: &GameID, readable: &Vec<u8>) -> Option<PotatoSignatures> {
        self.log.push(format!("move {:?} {:?}", id.0[0], readable));
        Some(sigs(3))
    }
    fn received_potato_move(&mut self, id: &GameID, readable: &Vec<u8>, _s: &PotatoSignatures) -> bool {
        self.log.push(format!("move {:?} {:?}", id.0[0], readable));
        true
    }
    fn send_potato_accept(&mut self, id: &GameID) -> Option<PotatoSignatures> {
        self.log.push(format!("accept {:?}", id.0[0]));
        Some(sigs(5))
    }
    fn received_potato_accept(&mut self, id: &GameID, _s: &PotatoSignatures) -> bool {
        self.log.push(format!("accept {:?}", id.0[0]));
        true
    }
    fn send_potato_clean_shutdown(&mut self) -> Option<Aggsig> {
        self.log.push("shutdown".to_string());
        Some(Aggsig([7; 96]))
    }
    fn received_potato_clean_shutdown(&mut self, _sig: &Aggsig) -> bool {
        self.log.push("shutdown".to_string());
        true
    }
    fn channel_puzzle_hash(&self) -> PuzzleHash {
        PuzzleHash([9; 32])
    }
}

struct MockEnv {
    refuse: bool,
}

impl PeerEnv<MockChannel> for MockEnv {
    fn public_key(&mut self, sk: &PrivateKey) -> PublicKey {
        let mut pk = [0u8; 48];
        pk[..32].copy_from_slice(&sk.0);
        PublicKey(pk)
    }
    fn puzzle_hash_for_pk(&mut self, pk: &PublicKey) -> PuzzleHash {
        let mut ph = [0u8; 32];
        ph.copy_from_slice(&pk.0[16..48]);
        PuzzleHash(ph)
    }
    fn new_channel_handler(
        &mut self,
        _keys: &ChannelHandlerPrivateKeys,
        _init: &ChannelHandlerInitiationData,
    ) -> Option<MockChannel> {
        if self.refuse {
            None
        } else {
            Some(MockChannel { log: Vec::new(), refuse: false })
        }
    }
}

/// The outside world of one peer: its outbox and what its wallet was told.
#[derive(Default)]
struct Pipe {
    queue: VecDeque<Vec<u8>>,
    sent: Vec<PeerMessage>,
    channel_puzzle_hashes: Vec<PuzzleHash>,
    offers: Vec<SpendBundle>,
    completions: Vec<SpendBundle>,
    moves: Vec<(GameID, Vec<u8>)>,
    fail: bool,
}

impl PacketSender for Pipe {
    fn send_message(&mut self, msg: &PeerMessage) -> Result<(), Error> {
        if self.fail {
            return Err(Error::WalletRejection);
        }
        let bytes = encode(msg).expect("should encode");
        self.queue.push_back(bytes);
        self.sent.push(decode(&self.queue.back().unwrap()[..]).expect("should decode"));
        Ok(())
    }
}

impl BootstrapTowardWallet for Pipe {
    fn channel_puzzle_hash(&mut self, puzzle_hash: &PuzzleHash) -> Result<(), Error> {
        self.channel_puzzle_hashes.push(*puzzle_hash);
        Ok(())
    }
    fn received_channel_offer(&mut self, bundle: &SpendBundle) -> Result<(), Error> {
        self.offers.push(copy_bundle(bundle));
        Ok(())
    }
    fn received_channel_transaction_completion(&mut self, bundle: &SpendBundle) -> Result<(), Error> {
        self.completions.push(copy_bundle(bundle));
        Ok(())
    }
}

impl ToLocalUI for Pipe {
    fn opponent_moved(&mut self, id: &GameID, readable: &Vec<u8>) -> Result<(), Error> {
        self.moves.push((*id, readable.clone()));
        Ok(())
    }
    fn game_message(&mut self, _id: &GameID, _readable: &Vec<u8>) -> Result<(), Error> {
        Ok(())
    }
    fn game_finished(&mut self, _id: &GameID, _my_share: u64) -> Result<(), Error> {
        Ok(())
    }
    fn game_cancelled(&mut self, _id: &GameID) -> Result<(), Error> {
        Ok(())
    }
    fn shutdown_complete(&mut self, _reward_coin_string: &CoinString) -> Result<(), Error> {
        Ok(())
    }
    fn going_on_chain(&mut self) -> Result<(), Error> {
        Ok(())
    }
}

fn copy_bundle(b: &SpendBundle) -> SpendBundle {
    SpendBundle {
        spends: b
            .spends
            .iter()
            .map(|s| CoinSpend {
                coin: s.coin,
                puzzle: s.puzzle.clone(),
                solution: s.solution.clone(),
                signature: s.signature,
            })
            .collect(),
    }
}

fn keys(b: u8) -> ChannelHandlerPrivateKeys {
    ChannelHandlerPrivateKeys {
        my_channel_coin_private_key: PrivateKey([b; 32]),
        my_unroll_coin_private_key: PrivateKey([b + 1; 32]),
        my_referee_private_key: PrivateKey([b + 2; 32]),
    }
}

fn launch_bundle(tag: u8) -> SpendBundle {
    SpendBundle {
        spends: vec![CoinSpend {
            coin: CoinString {
                parent: CoinID([tag; 32]),
                puzzle_hash: PuzzleHash([tag + 1; 32]),
                amount: 200,
            },
            puzzle: vec![1, 2, 3],
            solution: vec![tag],
            signature: Aggsig([tag; 96]),
        }],
    }
}

struct World {
    peers: [PotatoHandler<MockChannel>; 2],
    pipes: [Pipe; 2],
    env: MockEnv,
}

fn new_world() -> World {
    World {
        peers: [
            PotatoHandler::new(true, keys(10), 100, 100, PuzzleHash([1; 32])),
            PotatoHandler::new(false, keys(20), 100, 100, PuzzleHash([2; 32])),
        ],
        pipes: [Pipe::default(), Pipe::default()],
        env: MockEnv { refuse: false },
    }
}

impl World {
    fn run(&mut self, who: usize, effects: Vec<Effect>) {
        dispatch(&mut self.pipes[who], effects).expect("should dispatch");
    }

    /// Delivers one message to `who` from its peer's outbox, if there is one.
    fn deliver(&mut self, who: usize) -> bool {
        let from = 1 - who;
        let Some(bytes) = self.pipes[from].queue.pop_front() else {
            return false;
        };
        let effects = self.peers[who]
            .received_message(&mut self.env, &bytes)
            .expect("should receive");
        self.run(who, effects);
        true
    }

    /// Answers the wallets' requests: alice's offer, then bob's completion.
    fn wallets(&mut self) {
        if let Some(_ph) = self.pipes[0].channel_puzzle_hashes.pop() {
            let effects = self.peers[0].channel_offer(launch_bundle(40));
            self.run(0, effects);
        }
        if let Some(offer) = self.pipes[1].offers.pop() {
            let mut full = copy_bundle(&offer);
            full.spends.push(launch_bundle(50).spends.pop().unwrap());
            let effects = self.peers[1].channel_transaction_completion(&full);
            self.run(1, effects);
        }
    }

    fn settle(&mut self) {
        for _ in 0..50 {
            let a = self.deliver(0);
            let b = self.deliver(1);
            self.wallets();
            if !a && !b && self.pipes[0].queue.is_empty() && self.pipes[1].queue.is_empty() {
                break;
            }
        }
    }

    fn handshake(&mut self) {
        let parent = CoinString {
            parent: CoinID([0; 32]),
            puzzle_hash: PuzzleHash([3; 32]),
            amount: 200,
        };
        let effects = self.peers[0].start(&mut self.env, parent).expect("should work");
        self.run(0, effects);
        self.settle();
    }
}

fn count(sent: &[PeerMessage], pred: fn(&PeerMessage) -> bool) -> usize {
    sent.iter().filter(|m| pred(m)).count()
}

#[test]
fn test_peer_smoke() {
    let mut w = new_world();
    w.handshake();
    assert!(w.peers[0].handshake_finished());
    assert!(w.peers[1].handshake_finished());

    let params: Vec<u8> = vec![0x80];
    let (ids, effects) = w.peers[0]
        .start_games(true, &vec![(GameType(b"calpoker".to_vec()), true, params)])
        .expect("should run");
    assert_eq!(ids.len(), 1);
    w.run(0, effects);
    let last = w.pipes[0].sent.last().expect("should send");
    match last {
        PeerMessage::StartGames(g) => {
            assert_eq!(g.len(), 1);
            assert_eq!(g[0].game_type.0, b"calpoker".to_vec());
            assert!(g[0].my_turn);
        }
        other => panic!("expected StartGames, got {other:?}"),
    }
}

#[test]
fn smoke_handshake_messages() {
    let mut w = new_world();
    w.handshake();
    let all: Vec<PeerMessage> = w.pipes[0]
        .sent
        .iter()
        .chain(w.pipes[1].sent.iter())
        .map(|m| decode(&encode(m).unwrap()[..]).unwrap())
        .collect();
    assert_eq!(count(&all, |m| matches!(m, PeerMessage::HandshakeA(_))), 1);
    assert_eq!(count(&all, |m| matches!(m, PeerMessage::HandshakeB(_))), 1);
    assert_eq!(count(&all, |m| matches!(m, PeerMessage::Nil(_))), 2);
    assert_eq!(count(&all, |m| matches!(m, PeerMessage::HandshakeE { .. })), 1);
    assert_eq!(count(&all, |m| matches!(m, PeerMessage::HandshakeF { .. })), 1);
    assert_eq!(w.peers[0].current_phase(), Phase::Finished);
    assert_eq!(w.peers[1].current_phase(), Phase::Finished);
    assert!(matches!(w.pipes[0].sent[0], PeerMessage::HandshakeA(_)));
    assert!(matches!(w.pipes[1].sent[0], PeerMessage::HandshakeB(_)));
}

#[test]
fn smoke_wallet_calls_once() {
    let mut w = new_world();
    let parent = CoinString { parent: CoinID([0; 32]), puzzle_hash: PuzzleHash([3; 32]), amount: 200 };
    let effects = w.peers[0].start(&mut w.env, parent).unwrap();
    w.run(0, effects);
    let mut puzzle_hash_calls = 0;
    let mut offer_calls = 0;
    for _ in 0..50 {
        w.deliver(0);
        w.deliver(1);
        puzzle_hash_calls += w.pipes[0].channel_puzzle_hashes.len();
        offer_calls += w.pipes[1].offers.len();
        w.wallets();
    }
    assert_eq!(puzzle_hash_calls, 1);
    assert_eq!(offer_calls, 1);
    assert!(w.peers[0].handshake_finished() && w.peers[1].handshake_finished());
}

#[test]
fn potato_held_by_exactly_one_after_handshake() {
    let mut w = new_world();
    w.handshake();
    assert!(w.peers[0].have_potato());
    assert!(!w.peers[1].have_potato());
}

#[test]
fn start_games_sends_one_batch_and_empties_queue() {
    let mut w = new_world();
    w.handshake();
    let (ids, effects) = w.peers[0]
        .start_games(true, &vec![(GameType(b"calpoker".to_vec()), true, vec![1, 2])])
        .unwrap();
    w.run(0, effects);
    assert_eq!(w.peers[0].my_start_queue_len(), 0);
    assert!(!w.peers[0].have_potato());
    let seed = potato_handler::hashing::game_id_seed(&keys(10));
    assert_eq!(ids[0].0, seed);
    w.settle();
    assert_eq!(w.peers[1].their_start_queue_len(), 1);
    assert!(w.peers[1].have_potato());
}

#[test]
fn request_potato_round_trip() {
    let mut w = new_world();
    w.handshake();
    let before = w.pipes[1].sent.len();
    let id = GameID([4; 32]);
    let effects = w.peers[1].make_move(id, vec![9, 9]).unwrap();
    w.run(1, effects);
    let new: Vec<&PeerMessage> = w.pipes[1].sent[before..].iter().collect();
    assert_eq!(new.len(), 1);
    assert!(matches!(new[0], PeerMessage::RequestPotato));
    // Alice answers with the potato.
    assert!(w.deliver(0));
    assert!(matches!(w.pipes[0].sent.last().unwrap(), PeerMessage::Nil(_)));
    // Bob uses it for his move.
    assert!(w.deliver(1));
    match w.pipes[1].sent.last().unwrap() {
        PeerMessage::Move(mid, m, _) => {
            assert_eq!(mid.0, [4; 32]);
            assert_eq!(m, &vec![9, 9]);
        }
        other => panic!("expected Move, got {other:?}"),
    }
    assert!(w.deliver(0));
    assert_eq!(w.pipes[0].moves.len(), 1);
    assert_eq!(w.pipes[0].moves[0].0 .0, [4; 32]);
    assert_eq!(w.pipes[0].moves[0].1, vec![9, 9]);
    assert!(w.peers[0].have_potato());
}

#[test]
fn second_request_is_not_sent_twice() {
    let mut w = new_world();
    w.handshake();
    let before = w.pipes[1].sent.len();
    let e1 = w.peers[1].make_move(GameID([4; 32]), vec![1]).unwrap();
    w.run(1, e1);
    let e2 = w.peers[1].accept(GameID([4; 32])).unwrap();
    w.run(1, e2);
    assert_eq!(w.pipes[1].sent.len() - before, 1);
}

#[test]
fn a_move_goes_first_and_the_rest_waits_for_the_next_potato() {
    let mut w = new_world();
    w.handshake();
    let e = w.peers[1].make_move(GameID([4; 32]), vec![1]).unwrap();
    w.run(1, e);
    let e = w.peers[1].accept(GameID([4; 32])).unwrap();
    w.run(1, e);
    w.settle();
    let kinds = |w: &World| -> Vec<&'static str> {
        w.pipes[1]
            .sent
            .iter()
            .filter_map(|m| match m {
                PeerMessage::Move(..) => Some("move"),
                PeerMessage::Accept(..) => Some("accept"),
                PeerMessage::RequestPotato => Some("request"),
                _ => None,
            })
            .collect()
    };
    // Only a waiting batch of games asks for the potato back after a move.
    assert_eq!(kinds(&w), vec!["request", "move"]);
    // A new intent without the potato asks for it again; the accept goes next.
    let e = w.peers[1].shut_down().unwrap();
    w.run(1, e);
    w.settle();
    assert_eq!(kinds(&w), vec!["request", "move", "request", "accept"]);
}

#[test]
fn both_channel_handlers_see_the_same_transitions() {
    let mut w = new_world();
    w.handshake();
    let (_, e) = w.peers[0]
        .start_games(true, &vec![(GameType(b"calpoker".to_vec()), true, vec![])])
        .unwrap();
    w.run(0, e);
    assert!(w.deliver(1));
    let e = w.peers[1].make_move(GameID([4; 32]), vec![1]).unwrap();
    w.run(1, e);
    w.settle();
    let a = &w.peers[0].channel_handler().ok().unwrap().log;
    let b = &w.peers[1].channel_handler().ok().unwrap().log;
    assert_eq!(a, b);
    assert!(a.len() >= 4);
}

#[test]
fn out_of_order_envelope_is_fatal() {
    let mut w = new_world();
    let hs_b = PeerMessage::HandshakeB(potato_handler::types::HandshakeB {
        channel_public_key: PublicKey([1; 48]),
        unroll_public_key: PublicKey([2; 48]),
        reward_puzzle_hash: PuzzleHash([3; 32]),
        referee_puzzle_hash: PuzzleHash([4; 32]),
    });
    let bytes = encode(&hs_b).unwrap();
    let r = w.peers[1].received_message(&mut w.env, &bytes);
    assert_eq!(r.err(), Some(Error::ProtocolState));
    assert_eq!(w.peers[1].current_phase(), Phase::StepB);
}

#[test]
fn garbage_is_a_wire_error() {
    let mut w = new_world();
    let r = w.peers[1].received_message(&mut w.env, &vec![1, 2, 3, 4, 5]);
    assert_eq!(r.err(), Some(Error::WireDecode));
    assert_eq!(w.peers[1].current_phase(), Phase::StepB);
}

#[test]
fn local_command_before_handshake_is_refused() {
    let mut w = new_world();
    let r = w.peers[0].start_games(true, &vec![(GameType(b"x".to_vec()), true, vec![])]);
    assert_eq!(r.err(), Some(Error::MissingPrecondition));
    assert_eq!(w.peers[0].make_move(GameID([0; 32]), vec![]).err(), Some(Error::MissingPrecondition));
    assert_eq!(w.peers[0].accept(GameID([0; 32])).err(), Some(Error::MissingPrecondition));
    assert_eq!(w.peers[0].shut_down().err(), Some(Error::MissingPrecondition));
}

#[test]
fn refusing_channel_handler_fails_the_call() {
    let mut w = new_world();
    w.env.refuse = true;
    let parent = CoinString { parent: CoinID([0; 32]), puzzle_hash: PuzzleHash([3; 32]), amount: 200 };
    let effects = w.peers[0].start(&mut w.env, parent).unwrap();
    w.run(0, effects);
    assert!(w.pipes[0].queue.len() == 1);
    let bytes = w.pipes[0].queue.pop_front().unwrap();
    let r = w.peers[1].received_message(&mut w.env, &bytes);
    assert_eq!(r.err(), Some(Error::ChannelHandlerFailure));
    assert_eq!(w.peers[1].current_phase(), Phase::StepB);
}

#[test]
fn start_twice_is_a_protocol_error() {
    let mut w = new_world();
    let parent = CoinString { parent: CoinID([0; 32]), puzzle_hash: PuzzleHash([3; 32]), amount: 200 };
    assert!(w.peers[0].start(&mut w.env, parent).is_ok());
    assert_eq!(w.peers[0].start(&mut w.env, parent).err(), Some(Error::ProtocolState));
    assert_eq!(w.peers[1].start(&mut w.env, parent).err(), Some(Error::ProtocolState));
}

#[test]
fn request_potato_without_potato_is_a_protocol_error() {
    let mut w = new_world();
    w.handshake();
    let bytes = encode(&PeerMessage::RequestPotato).unwrap();
    let r = w.peers[1].received_message(&mut w.env, &bytes);
    assert_eq!(r.err(), Some(Error::ProtocolState));
}

#[test]
fn failing_transport_stops_dispatch() {
    let mut pipe = Pipe { fail: true, ..Pipe::default() };
    let r = dispatch(&mut pipe, vec![Effect::Send(PeerMessage::RequestPotato)]);
    assert_eq!(r, Err(Error::WalletRejection));
    assert_eq!(Error::WalletRejection.message(), "the wallet refused the request");
}

#[test]
fn offer_after_returned_nil_still_finishes() {
    let mut w = new_world();
    let parent = CoinString { parent: CoinID([0; 32]), puzzle_hash: PuzzleHash([3; 32]), amount: 200 };
    let effects = w.peers[0].start(&mut w.env, parent).unwrap();
    w.run(0, effects);
    // Exchange messages without answering any wallet request.
    for _ in 0..10 {
        w.deliver(1);
        w.deliver(0);
    }
    assert_eq!(w.peers[0].current_phase(), Phase::PostStepE);
    assert!(w.peers[0].have_potato());
    w.settle();
    assert!(w.peers[0].handshake_finished());
    assert!(w.peers[1].handshake_finished());
    assert!(w.peers[0].have_potato());
    assert!(!w.peers[1].have_potato());
}

#[test]
fn shutdown_passes_the_potato() {
    let mut w = new_world();
    w.handshake();
    let effects = w.peers[0].shut_down().unwrap();
    w.run(0, effects);
    assert!(matches!(w.pipes[0].sent.last().unwrap(), PeerMessage::Shutdown(_)));
    assert!(!w.peers[0].have_potato());
    assert!(w.deliver(1));
    assert!(w.peers[1].have_potato());
    let a = &w.peers[0].channel_handler().ok().unwrap().log;
    let b = &w.peers[1].channel_handler().ok().unwrap().log;
    assert_eq!(a.last().unwrap(), "shutdown");
    assert_eq!(a, b);
}

#[test]
fn batches_wait_for_the_potato_and_ask_for_it_back() {
    let mut w = new_world();
    w.handshake();
    let games = vec![(GameType(b"calpoker".to_vec()), true, vec![])];
    let (_, e) = w.peers[1].start_games(false, &games).unwrap();
    w.run(1, e);
    let (_, e) = w.peers[1].start_games(false, &games).unwrap();
    w.run(1, e);
    assert_eq!(w.peers[1].my_start_queue_len(), 2);
    assert!(matches!(w.pipes[1].sent.last().unwrap(), PeerMessage::RequestPotato));
    // Alice hands the potato over; bob starts his first batch and asks again.
    assert!(w.deliver(0));
    assert!(w.deliver(1));
    let n = w.pipes[1].sent.len();
    assert!(matches!(w.pipes[1].sent[n - 2], PeerMessage::StartGames(_)));
    assert!(matches!(w.pipes[1].sent[n - 1], PeerMessage::RequestPotato));
    assert_eq!(w.peers[1].my_start_queue_len(), 1);
    w.settle();
    assert_eq!(w.peers[1].my_start_queue_len(), 0);
    assert_eq!(w.peers[0].their_start_queue_len(), 2);
}

#[test]
fn initiator_wallet_gets_the_completed_funding() {
    let mut w = new_world();
    w.handshake();
    assert_eq!(w.pipes[0].completions.len(), 1);
    assert_eq!(w.pipes[1].completions.len(), 0);
    let spends = &w.pipes[0].completions[0].spends;
    assert_eq!(spends.len(), 2);
    assert_eq!(spends[0].solution, vec![40]);
    assert_eq!(spends[1].solution, vec![50]);
}

#[test]
fn a_new_peer_has_no_channel_handler() {
    let w = new_world();
    assert!(w.peers[0].channel_handler().is_err());
    assert!(w.peers[1].channel_handler().is_err());
    assert!(!w.peers[0].handshake_finished());
}

#[test]
fn completing_a_step_outside_its_state_does_nothing() {
    let mut w = new_world();
    assert!(w.peers[0].try_complete_step_e().is_empty());
    assert!(w.peers[1].try_complete_step_f().is_empty());
    w.handshake();
    assert!(w.peers[0].try_complete_step_e().is_empty());
    assert!(w.peers[1].try_complete_step_f().is_empty());
    assert_eq!(w.peers[0].current_phase(), Phase::Finished);
}

#[test]
fn intent_while_funding_returns_asks_and_gets_the_potato_with_it() {
    let mut w = new_world();
    let parent = CoinString { parent: CoinID([0; 32]), puzzle_hash: PuzzleHash([3; 32]), amount: 200 };
    let e = w.peers[0].start(&mut w.env, parent).unwrap();
    w.run(0, e);
    assert!(w.deliver(1)); // bob takes HandshakeA
    assert!(w.deliver(0)); // alice takes HandshakeB, sends Nil
    let e = w.peers[0].channel_offer(launch_bundle(40));
    w.run(0, e);
    assert!(w.deliver(1)); // bob takes Nil, returns Nil
    assert!(w.deliver(0)); // alice takes Nil, sends HandshakeE
    assert_eq!(w.peers[0].current_phase(), Phase::Finished);
    assert!(!w.peers[0].have_potato());
    let e = w.peers[0].make_move(GameID([8; 32]), vec![5]).unwrap();
    w.run(0, e);
    assert!(matches!(w.pipes[0].sent.last().unwrap(), PeerMessage::RequestPotato));
    assert!(w.deliver(1)); // bob takes HandshakeE
    assert_eq!(w.peers[1].current_phase(), Phase::PostStepF);
    // Bob, still funding, refuses the request and changes nothing.
    let request = w.pipes[0].queue.pop_front().unwrap();
    let r = w.peers[1].received_message(&mut w.env, &request);
    assert_eq!(r.err(), Some(Error::ProtocolState));
    assert_eq!(w.peers[1].current_phase(), Phase::PostStepF);
    assert!(w.peers[1].have_potato());
    w.wallets();
    assert!(w.deliver(0)); // alice takes HandshakeF and makes her move
    match w.pipes[0].sent.last().unwrap() {
        PeerMessage::Move(id, m, _) => {
            assert_eq!(id.0, [8; 32]);
            assert_eq!(m, &vec![5]);
        }
        other => panic!("expected Move, got {other:?}"),
    }
}
