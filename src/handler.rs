use vstd::prelude::*;

use crate::channel::{model_with, Channel, ChannelEvent, ChannelModel};
use crate::envelope::{decode, decode_spec};
use crate::game_id::{id_space, le_value, GameIdAllocator};
use crate::hashing::{coin_id, coin_id_spec, game_id_seed, game_id_seed_spec};
use crate::protocol::{
    effects_view, lemma_effects_view_concat, lemma_sent_push, lemma_single, only_sends, potatoes,
    sent, transitions, Effect, EffectView, Error, Transition,
};
use crate::types::{
    games_view, Aggsig, ChannelHandlerPrivateKeys, CoinID, CoinSpendView,
    CoinString, GameID, GameStart, GameStartView, GameType, HandshakeA, HandshakeB, MessageView,
    PeerMessage, PotatoSignatures, PrivateKey, PublicKey, PuzzleHash, SpendBundle,
};

verus! {

/// What the channel handler is told when it is made.
#[derive(Clone, Copy, Debug)]
pub struct ChannelHandlerInitiationData {
    pub launcher_coin_id: CoinID,
    pub we_start_with_potato: bool,
    pub their_channel_pubkey: PublicKey,
    pub their_unroll_pubkey: PublicKey,
    pub their_referee_puzzle_hash: PuzzleHash,
    pub my_contribution: u64,
    pub their_contribution: u64,
}

/// The cryptographic core of one side of the channel: it signs the states this
/// peer moves to and checks the signatures of the states the peer moves to.
/// Each method answers `None` or `false` when it refuses.
pub trait ChannelHandler {
    fn send_empty_potato(&mut self) -> Option<PotatoSignatures>;

    fn received_empty_potato(&mut self, sigs: &PotatoSignatures) -> bool;

    fn send_potato_start_game(&mut self, games: &Vec<GameStart>) -> bool;

    fn received_potato_start_game(&mut self, games: &Vec<GameStart>) -> bool;

    fn send_potato_move(&mut self, id: &GameID, readable: &Vec<u8>) -> Option<PotatoSignatures>;

    fn received_potato_move(
        &mut self,
        id: &GameID,
        readable: &Vec<u8>,
        sigs: &PotatoSignatures,
    ) -> bool;

    fn send_potato_accept(&mut self, id: &GameID) -> Option<PotatoSignatures>;

    fn received_potato_accept(&mut self, id: &GameID, sigs: &PotatoSignatures) -> bool;

    fn send_potato_clean_shutdown(&mut self) -> Option<Aggsig>;

    fn received_potato_clean_shutdown(&mut self, sig: &Aggsig) -> bool;

    /// The puzzle hash of the channel coin.
    fn channel_puzzle_hash(&self) -> PuzzleHash;
}

/// The environment a peer runs in: key derivation and the making of its
/// channel handler.
pub trait PeerEnv<C> {
    fn public_key(&mut self, sk: &PrivateKey) -> PublicKey;

    fn puzzle_hash_for_pk(&mut self, pk: &PublicKey) -> PuzzleHash;

    fn new_channel_handler(
        &mut self,
        keys: &ChannelHandlerPrivateKeys,
        init: &ChannelHandlerInitiationData,
    ) -> Option<C>;
}

/// Both peers' greetings.
#[derive(Clone, Copy, Debug)]
pub struct HandshakeStepInfo {
    pub first_player_hs_info: HandshakeA,
    pub second_player_hs_info: HandshakeB,
}

/// Both peers' greetings and the spend that launches the channel coin.
#[derive(Debug)]
pub struct HandshakeStepWithSpend {
    pub info: HandshakeStepInfo,
    pub spend: SpendBundle,
}

#[derive(Clone, Copy, Debug, PartialEq, Eq, Structural)]
pub enum Phase {
    StepA,
    StepB,
    StepC,
    StepD,
    StepE,
    PostStepE,
    StepF,
    PostStepF,
    Finished,
}

/// Where a peer stands in the handshake, with what it has learnt so far.
#[derive(Debug)]
pub enum HandshakeState {
    StepA,
    StepB,
    StepC(CoinString, HandshakeA),
    StepD(HandshakeStepInfo),
    StepE(HandshakeStepInfo),
    PostStepE(HandshakeStepInfo),
    StepF(HandshakeStepInfo),
    PostStepF(HandshakeStepInfo),
    Finished(HandshakeStepWithSpend),
}

impl HandshakeState {
    pub open spec fn phase(&self) -> Phase {
        match self {
            HandshakeState::StepA => Phase::StepA,
            HandshakeState::StepB => Phase::StepB,
            HandshakeState::StepC(..) => Phase::StepC,
            HandshakeState::StepD(_) => Phase::StepD,
            HandshakeState::StepE(_) => Phase::StepE,
            HandshakeState::PostStepE(_) => Phase::PostStepE,
            HandshakeState::StepF(_) => Phase::StepF,
            HandshakeState::PostStepF(_) => Phase::PostStepF,
            HandshakeState::Finished(_) => Phase::Finished,
        }
    }
}

pub open spec fn queue_view(q: Seq<Vec<GameStart>>) -> Seq<Seq<GameStartView>> {
    q.map_values(|g: Vec<GameStart>| games_view(g@))
}

pub open spec fn moves_view(q: Seq<(GameID, Vec<u8>)>) -> Seq<(GameID, Seq<u8>)> {
    q.map_values(|m: (GameID, Vec<u8>)| (m.0, m.1@))
}

pub open spec fn bundle_view(b: Option<SpendBundle>) -> Option<Seq<CoinSpendView>> {
    match b {
        Some(s) => Some(s@),
        None => None,
    }
}

/// Where a peer's greetings stand: none yet, its own sent, or both known.
pub enum Greetings {
    NotYet,
    Sent(CoinString, HandshakeA),
    Both(HandshakeStepInfo),
}

impl HandshakeState {
    pub open spec fn greetings(&self) -> Greetings {
        match self {
            HandshakeState::StepA => Greetings::NotYet,
            HandshakeState::StepB => Greetings::NotYet,
            HandshakeState::StepC(parent, a) => Greetings::Sent(*parent, *a),
            HandshakeState::StepD(info) => Greetings::Both(*info),
            HandshakeState::StepE(info) => Greetings::Both(*info),
            HandshakeState::PostStepE(info) => Greetings::Both(*info),
            HandshakeState::StepF(info) => Greetings::Both(*info),
            HandshakeState::PostStepF(info) => Greetings::Both(*info),
            HandshakeState::Finished(w) => Greetings::Both(w.info),
        }
    }
}

/// This peer's public keys and referee puzzle hash, as its environment
/// derives them from its secret keys.
#[derive(Clone, Copy, Debug)]
pub struct OurKeys {
    pub channel_public_key: PublicKey,
    pub unroll_public_key: PublicKey,
    pub referee_puzzle_hash: PuzzleHash,
}

/// The state of a peer as its contracts speak of it.
pub struct HandlerView {
    pub have_potato: bool,
    pub phase: Phase,
    pub greetings: Greetings,
    /// The channel handler, once made, as far as this peer has dealt with it.
    pub channel: Option<ChannelModel>,
    pub potato_requested: bool,
    pub my_start_queue: Seq<Seq<GameStartView>>,
    pub their_start_queue: Seq<Seq<GameStartView>>,
    pub pending_moves: Seq<(GameID, Seq<u8>)>,
    pub pending_accepts: Seq<GameID>,
    pub shutdown_pending: bool,
    pub ids: GameIdAllocator,
    pub channel_initiation_transaction: Option<Seq<CoinSpendView>>,
    pub channel_finished_transaction: Option<Seq<CoinSpendView>>,
    pub private_keys: ChannelHandlerPrivateKeys,
    pub my_contribution: u64,
    pub their_contribution: u64,
    pub reward_puzzle_hash: PuzzleHash,
}

impl HandlerView {
    pub open spec fn has_channel(self) -> bool {
        self.channel is Some
    }

    /// The channel transitions this peer's channel handler has signed or
    /// checked, in order.
    pub open spec fn log(self) -> Seq<Transition> {
        match self.channel {
            Some(c) => c.log,
            None => Seq::empty(),
        }
    }

    /// Whether some local intent waits for the potato.
    pub open spec fn has_work(self) -> bool {
        ||| self.my_start_queue.len() > 0
        ||| self.pending_moves.len() > 0
        ||| self.pending_accepts.len() > 0
        ||| self.shutdown_pending
    }

    /// The invariant of a peer's state.
    pub open spec fn valid(self) -> bool {
        let p = self.phase;
        let before_channel = p == Phase::StepA || p == Phase::StepB || p == Phase::StepC;
        &&& self.has_channel() <==> !before_channel
        &&& self.ids.wf()
        &&& self.ids.is_seeded() <==> !before_channel
        &&& (p == Phase::StepA || p == Phase::StepC || p == Phase::PostStepE || p
            == Phase::PostStepF) ==> self.have_potato
        &&& (p == Phase::StepB || p == Phase::StepD || p == Phase::StepE || p == Phase::StepF)
            ==> !self.have_potato
        &&& p != Phase::Finished ==> !self.has_work() && !self.potato_requested
        &&& self.potato_requested ==> !self.have_potato
    }
}

/// A peer's state with one more state change agreed by its channel handler.
pub open spec fn with_event(v: HandlerView, e: ChannelEvent) -> HandlerView {
    HandlerView {
        channel: match v.channel {
            Some(c) => Some(model_with(c, e)),
            None => None,
        },
        ..v
    }
}

/// What the channel handler signs for a message that announces a
/// transition, and returned when it did.
pub open spec fn sent_event(m: MessageView) -> ChannelEvent {
    match m {
        MessageView::Nil(s) => ChannelEvent::SentNil(s),
        MessageView::Move(id, b, s) => ChannelEvent::SentMove(id, b, s),
        MessageView::Accept(id, s) => ChannelEvent::SentAccept(id, s),
        MessageView::Shutdown(s) => ChannelEvent::SentShutdown(s),
        MessageView::StartGames(g) => ChannelEvent::SentStartGames(g),
        _ => ChannelEvent::SentStartGames(Seq::empty()),
    }
}

/// What the channel handler checks for a received message that announces a
/// transition, with what it was given.
pub open spec fn checked_event(m: MessageView) -> ChannelEvent {
    match m {
        MessageView::Nil(s) => ChannelEvent::CheckedNil(s),
        MessageView::Move(id, b, s) => ChannelEvent::CheckedMove(id, b, s),
        MessageView::Accept(id, s) => ChannelEvent::CheckedAccept(id, s),
        MessageView::Shutdown(s) => ChannelEvent::CheckedShutdown(s),
        MessageView::StartGames(g) => ChannelEvent::CheckedStartGames(g),
        _ => ChannelEvent::CheckedStartGames(Seq::empty()),
    }
}

/// The bookkeeping that every call keeps: the potato is neither made nor lost,
/// a peer that holds it is never handed another, and the log grows by exactly
/// the transitions received and then those sent.
pub open spec fn step_keeps(
    pre: HandlerView,
    post: HandlerView,
    received: Seq<MessageView>,
    out: Seq<MessageView>,
) -> bool {
    &&& potatoes(received) > 0 ==> !pre.have_potato
    &&& post.have_potato as int + potatoes(out) == pre.have_potato as int + potatoes(received)
    &&& post.log() == pre.log() + transitions(received) + transitions(out)
}

/// After a peer handed the potato over with `out[0]`, which carries what the
/// channel handler signed for it: it asks for the potato back when batches of
/// games still wait to start.
pub open spec fn sent_one(rest: HandlerView, post: HandlerView, out: Seq<MessageView>) -> bool {
    &&& out.len() >= 1
    &&& post == (HandlerView {
        have_potato: false,
        potato_requested: rest.my_start_queue.len() > 0,
        ..with_event(rest, sent_event(out[0]))
    })
    &&& out == if rest.my_start_queue.len() > 0 {
        seq![out[0], MessageView::RequestPotato]
    } else {
        seq![out[0]]
    }
}

/// What a peer does with the potato it holds: it starts its oldest batch of
/// games, or else makes its oldest move, or else its oldest accept, or else its
/// shutdown; with nothing to do it keeps the potato.
pub open spec fn drained(pre: HandlerView, post: HandlerView, out: Seq<MessageView>) -> bool {
    if pre.my_start_queue.len() > 0 {
        &&& out.len() >= 1 && out[0] == MessageView::StartGames(pre.my_start_queue[0])
        &&& sent_one(HandlerView { my_start_queue: pre.my_start_queue.drop_first(), ..pre }, post, out)
    } else if pre.pending_moves.len() > 0 {
        &&& out.len() >= 1
        &&& out[0] matches MessageView::Move(id, b, _) && id == pre.pending_moves[0].0 && b
            == pre.pending_moves[0].1
        &&& sent_one(HandlerView { pending_moves: pre.pending_moves.drop_first(), ..pre }, post, out)
    } else if pre.pending_accepts.len() > 0 {
        &&& out.len() >= 1
        &&& out[0] matches MessageView::Accept(id, _) && id == pre.pending_accepts[0]
        &&& sent_one(
            HandlerView { pending_accepts: pre.pending_accepts.drop_first(), ..pre },
            post,
            out,
        )
    } else if pre.shutdown_pending {
        &&& out.len() >= 1
        &&& out[0] is Shutdown
        &&& sent_one(HandlerView { shutdown_pending: false, ..pre }, post, out)
    } else {
        &&& post == pre
        &&& out.len() == 0
    }
}

/// What a peer in the finished state does once a local intent is queued: use
/// the potato if it holds it, else ask for it, once until it comes.
pub open spec fn intent_sent(mid: HandlerView, post: HandlerView, out: Seq<MessageView>) -> bool {
    if mid.have_potato {
        drained(mid, post, out)
    } else if !mid.potato_requested {
        &&& post == (HandlerView { potato_requested: true, ..mid })
        &&& out == seq![MessageView::RequestPotato]
    } else {
        &&& post == mid
        &&& out.len() == 0
    }
}

/// Which messages a peer takes in which state; any other is a protocol error.
pub open spec fn allowed(pre: HandlerView, m: MessageView) -> bool {
    match pre.phase {
        Phase::StepB => m is HandshakeA,
        Phase::StepC => m is HandshakeB,
        Phase::StepD => m is Nil,
        Phase::StepE => m is Nil,
        Phase::StepF => m is HandshakeE,
        Phase::Finished => match m {
            MessageView::RequestPotato => pre.have_potato,
            MessageView::HandshakeF { .. } => !pre.have_potato
                && pre.channel_finished_transaction is None,
            MessageView::Nil(_) => !pre.have_potato,
            MessageView::StartGames(_) => !pre.have_potato,
            MessageView::Move(..) => !pre.have_potato,
            MessageView::Accept(..) => !pre.have_potato,
            MessageView::Shutdown(_) => !pre.have_potato,
            _ => false,
        },
        _ => false,
    }
}

/// A finished peer's state once it has taken in a message that hands it the
/// potato (its channel handler having checked what the message announces),
/// before it uses the potato.
pub open spec fn absorbed(pre: HandlerView, m: MessageView) -> HandlerView {
    let checked = if m is HandshakeF {
        pre
    } else {
        with_event(pre, checked_event(m))
    };
    let got = HandlerView { have_potato: true, potato_requested: false, ..checked };
    match m {
        MessageView::HandshakeF { bundle } => HandlerView {
            channel_finished_transaction: Some(bundle),
            ..got
        },
        MessageView::StartGames(g) => HandlerView {
            their_start_queue: pre.their_start_queue.push(g),
            ..got
        },
        _ => got,
    }
}

/// A peer's counter once the channel handler exists: seeded from its keys.
pub open spec fn seeded_from_keys(pre: HandlerView, post: HandlerView) -> bool {
    &&& post.ids.is_seeded()
    &&& post.ids.next_bytes() == game_id_seed_spec(pre.private_keys)
    &&& post.ids.issued() == 0
}

/// A channel handler made by this peer from its secret keys, for the channel
/// launched from `parent`, with the peer's keys and both contributions.
pub open spec fn made_for(
    c: ChannelModel,
    pre: HandlerView,
    parent: CoinString,
    we_start_with_potato: bool,
    their_channel_pubkey: PublicKey,
    their_unroll_pubkey: PublicKey,
    their_referee_puzzle_hash: PuzzleHash,
) -> bool {
    &&& c.keys == pre.private_keys
    &&& c.made_with.launcher_coin_id.0@ == coin_id_spec(parent)
    &&& c.made_with.we_start_with_potato == we_start_with_potato
    &&& c.made_with.their_channel_pubkey == their_channel_pubkey
    &&& c.made_with.their_unroll_pubkey == their_unroll_pubkey
    &&& c.made_with.their_referee_puzzle_hash == their_referee_puzzle_hash
    &&& c.made_with.my_contribution == pre.my_contribution
    &&& c.made_with.their_contribution == pre.their_contribution
}

/// The initiator's greeting for a channel funded by `parent`.
pub open spec fn greeting_of(pre: HandlerView, parent: CoinString, keys: OurKeys) -> HandshakeA {
    HandshakeA {
        parent,
        channel_public_key: keys.channel_public_key,
        unroll_public_key: keys.unroll_public_key,
        reward_puzzle_hash: pre.reward_puzzle_hash,
        referee_puzzle_hash: keys.referee_puzzle_hash,
    }
}

/// A peer that greeted its peer from StepA: it holds its greeting and the
/// parent coin, and sends the greeting, nothing else.
pub open spec fn started(
    pre: HandlerView,
    post: HandlerView,
    out: Seq<EffectView>,
    parent: CoinString,
    keys: OurKeys,
) -> bool {
    &&& post == (HandlerView {
        phase: Phase::StepC,
        greetings: Greetings::Sent(parent, greeting_of(pre, parent, keys)),
        ..pre
    })
    &&& out == seq![EffectView::Send(MessageView::HandshakeA(greeting_of(pre, parent, keys)))]
}

/// The responder's greeting.
pub open spec fn reply_of(pre: HandlerView, keys: OurKeys) -> HandshakeB {
    HandshakeB {
        channel_public_key: keys.channel_public_key,
        unroll_public_key: keys.unroll_public_key,
        reward_puzzle_hash: pre.reward_puzzle_hash,
        referee_puzzle_hash: keys.referee_puzzle_hash,
    }
}

/// What a peer does with an allowed message, `keys` being what its
/// environment derived as its public keys: its next state and its effects.
pub open spec fn handled(
    pre: HandlerView,
    m: MessageView,
    post: HandlerView,
    out: Seq<EffectView>,
    keys: OurKeys,
) -> bool {
    match pre.phase {
        Phase::StepB => {
            &&& m matches MessageView::HandshakeA(a)
            &&& post.channel matches Some(c) && made_for(
                c,
                pre,
                a.parent,
                true,
                a.channel_public_key,
                a.unroll_public_key,
                a.referee_puzzle_hash,
            ) && c.record == Seq::<ChannelEvent>::empty() && c.log == Seq::<Transition>::empty()
            &&& post == (HandlerView {
                phase: Phase::StepD,
                greetings: Greetings::Both(
                    HandshakeStepInfo {
                        first_player_hs_info: a,
                        second_player_hs_info: reply_of(pre, keys),
                    },
                ),
                channel: post.channel,
                ids: post.ids,
                ..pre
            })
            &&& seeded_from_keys(pre, post)
            &&& out == seq![EffectView::Send(MessageView::HandshakeB(reply_of(pre, keys)))]
        },
        Phase::StepC => {
            &&& m matches MessageView::HandshakeB(b)
            &&& pre.greetings matches Greetings::Sent(parent, a)
            &&& out.len() == 2
            &&& out[1] matches EffectView::Send(MessageView::Nil(s))
            &&& post.channel matches Some(c) && made_for(
                c,
                pre,
                parent,
                false,
                b.channel_public_key,
                b.unroll_public_key,
                b.referee_puzzle_hash,
            ) && c.record == seq![ChannelEvent::SentNil(s)] && c.log == seq![Transition::Nil]
                && out[0] == EffectView::ChannelPuzzleHash(c.puzzle_hash)
            &&& post == (HandlerView {
                phase: Phase::StepE,
                greetings: Greetings::Both(
                    HandshakeStepInfo { first_player_hs_info: a, second_player_hs_info: b },
                ),
                channel: post.channel,
                have_potato: false,
                ids: post.ids,
                ..pre
            })
            &&& seeded_from_keys(pre, post)
        },
        Phase::StepD => {
            &&& m matches MessageView::Nil(theirs)
            &&& out.len() == 1
            &&& out[0] matches EffectView::Send(MessageView::Nil(ours))
            &&& post == (HandlerView {
                phase: Phase::StepF,
                ..with_event(
                    with_event(pre, ChannelEvent::CheckedNil(theirs)),
                    ChannelEvent::SentNil(ours),
                )
            })
        },
        Phase::StepE => {
            &&& m matches MessageView::Nil(theirs)
            &&& match pre.channel_initiation_transaction {
                Some(b) => {
                    &&& post == (HandlerView {
                        phase: Phase::Finished,
                        ..with_event(pre, ChannelEvent::CheckedNil(theirs))
                    })
                    &&& out == seq![EffectView::Send(MessageView::HandshakeE { bundle: b })]
                },
                None => {
                    &&& post == (HandlerView {
                        phase: Phase::PostStepE,
                        have_potato: true,
                        ..with_event(pre, ChannelEvent::CheckedNil(theirs))
                    })
                    &&& out.len() == 0
                },
            }
        },
        Phase::StepF => {
            &&& m matches MessageView::HandshakeE { bundle }
            &&& match pre.channel_finished_transaction {
                Some(f) => {
                    &&& post == (HandlerView { phase: Phase::Finished, ..pre })
                    &&& out == seq![
                        EffectView::ReceivedChannelOffer(bundle),
                        EffectView::Send(MessageView::HandshakeF { bundle: f }),
                    ]
                },
                None => {
                    &&& post == (HandlerView { phase: Phase::PostStepF, have_potato: true, ..pre })
                    &&& out == seq![EffectView::ReceivedChannelOffer(bundle)]
                },
            }
        },
        Phase::Finished => match m {
            MessageView::RequestPotato => {
                &&& out.len() == 1
                &&& out[0] matches EffectView::Send(MessageView::Nil(s))
                &&& post == (HandlerView {
                    have_potato: false,
                    ..with_event(pre, ChannelEvent::SentNil(s))
                })
            },
            MessageView::Move(id, b, _) => {
                &&& out.len() >= 1
                &&& out[0] == EffectView::OpponentMoved(id, b)
                &&& only_sends(out.drop_first())
                &&& drained(absorbed(pre, m), post, sent(out.drop_first()))
            },
            MessageView::HandshakeF { bundle } => {
                &&& out.len() >= 1
                &&& out[0] == EffectView::ReceivedChannelTransactionCompletion(bundle)
                &&& only_sends(out.drop_first())
                &&& drained(absorbed(pre, m), post, sent(out.drop_first()))
            },
            _ => only_sends(out) && drained(absorbed(pre, m), post, sent(out)),
        },
        _ => false,
    }
}

/// Whether taking in an allowed message consults the channel handler (or the
/// environment, to make one), which may refuse: everywhere but on the
/// funding messages, and on the funding spend's return only when an intent
/// waits for the potato it brings.
pub open spec fn consults_channel(pre: HandlerView, m: MessageView) -> bool {
    match pre.phase {
        Phase::StepF => false,
        Phase::Finished => match m {
            MessageView::HandshakeF { .. } => absorbed(pre, m).has_work(),
            _ => true,
        },
        _ => true,
    }
}

/// The outcome of taking in a message: a protocol error, with nothing changed,
/// exactly when the message is not allowed; else either what `handled` says,
/// or, only where the channel handler is consulted, its refusal. A refusal
/// leaves the state as it was, but for what the channel handler already
/// agreed to: the peer's Nil it checked before refusing to sign ours, or, in
/// the finished state, the message taken in with its potato.
pub open spec fn message_outcome(
    pre: HandlerView,
    m: MessageView,
    post: HandlerView,
    r: Result<Seq<EffectView>, Error>,
    keys: OurKeys,
) -> bool {
    match r {
        Ok(out) => allowed(pre, m) && handled(pre, m, post, out, keys),
        Err(e) => {
            &&& (e == Error::ProtocolState) <==> !allowed(pre, m)
            &&& e == Error::ProtocolState || e == Error::ChannelHandlerFailure
            &&& e == Error::ChannelHandlerFailure ==> consults_channel(pre, m)
            &&& {
                ||| post == pre
                ||| (e == Error::ChannelHandlerFailure && pre.phase == Phase::StepD && m is Nil
                    && post == with_event(pre, checked_event(m)))
                ||| (e == Error::ChannelHandlerFailure && pre.phase == Phase::Finished && post
                    == absorbed(pre, m))
            }
        },
    }
}

pub open spec fn result_view(r: Result<Vec<Effect>, Error>) -> Result<Seq<EffectView>, Error> {
    match r {
        Ok(v) => Ok(effects_view(v@)),
        Err(e) => Err(e),
    }
}

/// Using or asking for the potato leaves the game identifiers alone.
pub proof fn lemma_intent_keeps_ids(mid: HandlerView, post: HandlerView, out: Seq<MessageView>)
    requires
        intent_sent(mid, post, out),
    ensures
        post.ids == mid.ids,
{
}

/// A finished peer's state once a batch of games is queued and its
/// identifiers handed out.
pub open spec fn start_games_queued(
    pre: HandlerView,
    games: Seq<(GameType, bool, Vec<u8>)>,
    ids: GameIdAllocator,
) -> HandlerView {
    HandlerView { my_start_queue: pre.my_start_queue.push(batch_view(games)), ids, ..pre }
}

/// A batch of games as it is queued.
pub open spec fn batch_view(games: Seq<(GameType, bool, Vec<u8>)>) -> Seq<GameStartView> {
    games.map_values(
        |g: (GameType, bool, Vec<u8>)|
            GameStartView { game_type: g.0@, my_turn: g.1, parameters: g.2@ },
    )
}

/// One peer of a channel.
pub struct PotatoHandler<C> {
    have_potato: bool,
    handshake_state: HandshakeState,
    their_start_queue: Vec<Vec<GameStart>>,
    my_start_queue: Vec<Vec<GameStart>>,
    pending_moves: Vec<(GameID, Vec<u8>)>,
    pending_accepts: Vec<GameID>,
    shutdown_pending: bool,
    potato_requested: bool,
    next_game_id: GameIdAllocator,
    channel_handler: Option<Channel<C>>,
    channel_initiation_transaction: Option<SpendBundle>,
    channel_finished_transaction: Option<SpendBundle>,
    private_keys: ChannelHandlerPrivateKeys,
    my_contribution: u64,
    their_contribution: u64,
    reward_puzzle_hash: PuzzleHash,
}

impl<C> View for PotatoHandler<C> {
    type V = HandlerView;

    closed spec fn view(&self) -> HandlerView {
        HandlerView {
            have_potato: self.have_potato,
            phase: self.handshake_state.phase(),
            greetings: self.handshake_state.greetings(),
            channel: match &self.channel_handler {
                Some(c) => Some(c@),
                None => None,
            },
            potato_requested: self.potato_requested,
            my_start_queue: queue_view(self.my_start_queue@),
            their_start_queue: queue_view(self.their_start_queue@),
            pending_moves: moves_view(self.pending_moves@),
            pending_accepts: self.pending_accepts@,
            shutdown_pending: self.shutdown_pending,
            ids: self.next_game_id,
            channel_initiation_transaction: bundle_view(self.channel_initiation_transaction),
            channel_finished_transaction: bundle_view(self.channel_finished_transaction),
            private_keys: self.private_keys,
            my_contribution: self.my_contribution,
            their_contribution: self.their_contribution,
            reward_puzzle_hash: self.reward_puzzle_hash,
        }
    }
}

fn emit(out: &mut Vec<Effect>, e: Effect)
    ensures
        effects_view(final(out)@) == effects_view(old(out)@).push(e@),
        sent(effects_view(final(out)@)) == sent(effects_view(old(out)@)) + match e@ {
            EffectView::Send(m) => seq![m],
            _ => seq![],
        },
{
    let ghost ev = e@;
    out.push(e);
    proof {
        assert(effects_view(out@) =~= effects_view(old(out)@).push(ev));
        lemma_sent_push(effects_view(old(out)@), ev);
    }
}

impl<C: ChannelHandler> PotatoHandler<C> {
    pub open spec fn wf(&self) -> bool {
        self@.valid()
    }

    pub fn new(
        have_potato: bool,
        private_keys: ChannelHandlerPrivateKeys,
        my_contribution: u64,
        their_contribution: u64,
        reward_puzzle_hash: PuzzleHash,
    ) -> (r: PotatoHandler<C>)
        ensures
            r.wf(),
            r@.have_potato == have_potato,
            r@.phase == if have_potato {
                Phase::StepA
            } else {
                Phase::StepB
            },
            !r@.potato_requested,
            r@.my_start_queue.len() == 0,
            r@.their_start_queue.len() == 0,
            r@.pending_moves.len() == 0,
            r@.pending_accepts.len() == 0,
            !r@.shutdown_pending,
            r@.channel_initiation_transaction is None,
            r@.channel_finished_transaction is None,
            r@.private_keys == private_keys,
            r@.my_contribution == my_contribution,
            r@.their_contribution == their_contribution,
            r@.reward_puzzle_hash == reward_puzzle_hash,
            r@.log() == Seq::<Transition>::empty(),
            r@.channel is None,
            r@.greetings == Greetings::NotYet,
            !r@.ids.is_seeded(),
            r@.ids.issued() == 0,
    {
        let r = PotatoHandler {
            have_potato,
            handshake_state: if have_potato {
                HandshakeState::StepA
            } else {
                HandshakeState::StepB
            },
            their_start_queue: Vec::new(),
            my_start_queue: Vec::new(),
            pending_moves: Vec::new(),
            pending_accepts: Vec::new(),
            shutdown_pending: false,
            potato_requested: false,
            next_game_id: GameIdAllocator::unseeded(),
            channel_handler: None,
            channel_initiation_transaction: None,
            channel_finished_transaction: None,
            private_keys,
            my_contribution,
            their_contribution,
            reward_puzzle_hash,
        };
        assert(r@.my_start_queue.len() == 0);
        r
    }

    /// The channel handler, once the handshake has made one.
    pub fn channel_handler(&self) -> (r: Result<&C, Error>)
        ensures
            r is Ok <==> self@.has_channel(),
            r is Err ==> r->Err_0 == Error::ChannelHandlerFailure,
    {
        match &self.channel_handler {
            Some(ch) => Ok(ch.inner()),
            None => Err(Error::ChannelHandlerFailure),
        }
    }

    pub fn handshake_finished(&self) -> (r: bool)
        ensures
            r == (self@.phase == Phase::Finished),
    {
        match self.handshake_state {
            HandshakeState::Finished(_) => true,
            _ => false,
        }
    }

    pub fn have_potato(&self) -> (r: bool)
        ensures
            r == self@.have_potato,
    {
        self.have_potato
    }

    /// How many batches of games this peer still waits to start.
    pub fn my_start_queue_len(&self) -> (r: usize)
        ensures
            r == self@.my_start_queue.len(),
    {
        self.my_start_queue.len()
    }

    /// How many batches of games the peer has started here.
    pub fn their_start_queue_len(&self) -> (r: usize)
        ensures
            r == self@.their_start_queue.len(),
    {
        self.their_start_queue.len()
    }
}

impl<C: ChannelHandler> PotatoHandler<C> {
    /// Uses the potato this peer holds, as `drained` says.
    fn drain(&mut self) -> (r: Result<Vec<Effect>, Error>)
        requires
            old(self).wf(),
            old(self)@.have_potato,
            old(self)@.phase == Phase::Finished,
        ensures
            final(self).wf(),
            r is Ok ==> drained(old(self)@, final(self)@, sent(effects_view(r->Ok_0@))),
            r is Ok ==> only_sends(effects_view(r->Ok_0@)),
            r is Err ==> r->Err_0 == Error::ChannelHandlerFailure && final(self)@ == old(self)@,
            !old(self)@.has_work() ==> r is Ok,
    {
        let mut out: Vec<Effect> = Vec::new();
        proof {
            assert(effects_view(out@) =~= Seq::<EffectView>::empty());
        }
        let ghost pre = self@;
        let ghost mut rest = pre;
        assert(sent(effects_view(out@)) =~= Seq::<MessageView>::empty());
        if self.my_start_queue.len() > 0 {
            let ok = match &mut self.channel_handler {
                Some(ch) => ch.send_potato_start_game(&self.my_start_queue[0]),
                None => false,
            };
            if !ok {
                return Err(Error::ChannelHandlerFailure);
            }
            let games = self.my_start_queue.remove(0);
            let ghost gv = games_view(games@);
            proof {
                rest = HandlerView { my_start_queue: pre.my_start_queue.drop_first(), ..pre };
            }
            proof {
                assert(queue_view(self.my_start_queue@) =~= pre.my_start_queue.drop_first());
                lemma_single(MessageView::StartGames(gv));
            }
            emit(&mut out, Effect::Send(PeerMessage::StartGames(games)));
        } else if self.pending_moves.len() > 0 {
            let sigs = match &mut self.channel_handler {
                Some(ch) => ch.send_potato_move(&self.pending_moves[0].0, &self.pending_moves[0].1),
                None => None,
            };
            match sigs {
                None => {
                    return Err(Error::ChannelHandlerFailure);
                },
                Some(s) => {
                    let (id, m) = self.pending_moves.remove(0);
                    let ghost mv = m@;
                    proof {
                        rest = HandlerView { pending_moves: pre.pending_moves.drop_first(), ..pre };
                    }
                    proof {
                        assert(moves_view(self.pending_moves@) =~= pre.pending_moves.drop_first());
                        lemma_single(MessageView::Move(id, mv, s));
                    }
                    emit(&mut out, Effect::Send(PeerMessage::Move(id, m, s)));
                },
            }
        } else if self.pending_accepts.len() > 0 {
            let sigs = match &mut self.channel_handler {
                Some(ch) => ch.send_potato_accept(&self.pending_accepts[0]),
                None => None,
            };
            match sigs {
                None => {
                    return Err(Error::ChannelHandlerFailure);
                },
                Some(s) => {
                    let id = self.pending_accepts.remove(0);
                    proof {
                        rest = HandlerView {
                            pending_accepts: pre.pending_accepts.drop_first(),
                            ..pre
                        };
                    }
                    proof {
                        assert(self.pending_accepts@ =~= pre.pending_accepts.drop_first());
                        lemma_single(MessageView::Accept(id, s));
                    }
                    emit(&mut out, Effect::Send(PeerMessage::Accept(id, s)));
                },
            }
        } else if self.shutdown_pending {
            let sig = match &mut self.channel_handler {
                Some(ch) => ch.send_potato_clean_shutdown(),
                None => None,
            };
            match sig {
                None => {
                    return Err(Error::ChannelHandlerFailure);
                },
                Some(s) => {
                    self.shutdown_pending = false;
                    proof {
                        rest = HandlerView { shutdown_pending: false, ..pre };
                        lemma_single(MessageView::Shutdown(s));
                    }
                    emit(&mut out, Effect::Send(PeerMessage::Shutdown(s)));
                },
            }
        } else {
            return Ok(out);
        }
        self.have_potato = false;
        let ghost first = sent(effects_view(out@))[0];
        assert(sent(effects_view(out@)) =~= seq![first]);
        assert(self@ == (HandlerView { have_potato: false, ..with_event(rest, sent_event(first)) }));
        if self.my_start_queue.len() > 0 {
            emit(&mut out, Effect::Send(PeerMessage::RequestPotato));
            self.potato_requested = true;
            assert(sent(effects_view(out@)) =~= seq![first, MessageView::RequestPotato]);
        }
        assert(sent_one(rest, self@, sent(effects_view(out@))));
        assert(only_sends(effects_view(out@)));
        Ok(out)
    }

    /// After a local intent was queued: uses the potato, or asks for it.
    fn after_intent(&mut self) -> (r: Result<Vec<Effect>, Error>)
        requires
            old(self).wf(),
            old(self)@.phase == Phase::Finished,
        ensures
            final(self).wf(),
            r is Ok ==> intent_sent(old(self)@, final(self)@, sent(effects_view(r->Ok_0@))),
            r is Ok ==> only_sends(effects_view(r->Ok_0@)),
            r is Err ==> r->Err_0 == Error::ChannelHandlerFailure && final(self)@ == old(self)@,
            !old(self)@.have_potato ==> r is Ok,
    {
        if self.have_potato {
            self.drain()
        } else if !self.potato_requested {
            let mut out: Vec<Effect> = Vec::new();
            proof {
                assert(effects_view(out@) =~= Seq::<EffectView>::empty());
            }
            emit(&mut out, Effect::Send(PeerMessage::RequestPotato));
            self.potato_requested = true;
            assert(only_sends(effects_view(out@)));
            Ok(out)
        } else {
            let out: Vec<Effect> = Vec::new();
            proof {
                assert(effects_view(out@) =~= Seq::<EffectView>::empty());
            }
            Ok(out)
        }
    }

    /// Queues a move in a game, and sends it when the potato allows.
    pub fn make_move(&mut self, id: GameID, readable: Vec<u8>) -> (r: Result<Vec<Effect>, Error>)
        requires
            old(self).wf(),
        ensures
            final(self).wf(),
            (r is Err && r->Err_0 == Error::MissingPrecondition) <==> old(self)@.phase
                != Phase::Finished,
            (r is Err && r->Err_0 == Error::MissingPrecondition) ==> final(self)@ == old(self)@,
            old(self)@.phase == Phase::Finished && !old(self)@.have_potato ==> r is Ok,
            ({
                let mid = HandlerView {
                    pending_moves: old(self)@.pending_moves.push((id, readable@)),
                    ..old(self)@
                };
                &&& r is Ok ==> intent_sent(mid, final(self)@, sent(effects_view(r->Ok_0@)))
                &&& r is Ok ==> only_sends(effects_view(r->Ok_0@))
                &&& (r is Err && r->Err_0 != Error::MissingPrecondition) ==> (r->Err_0
                    == Error::ChannelHandlerFailure && final(self)@ == old(self)@)
            }),
    {
        if !self.handshake_finished() {
            return Err(Error::MissingPrecondition);
        }
        let ghost rv = readable@;
        self.pending_moves.push((id, readable));
        proof {
            assert(moves_view(self.pending_moves@) =~= old(self)@.pending_moves.push((id, rv)));
        }
        let r = self.after_intent();
        if r.is_err() {
            let ghost before = self.pending_moves@;
            self.pending_moves.pop();
            assert(moves_view(before.drop_last()) =~= moves_view(before).drop_last());
            assert(moves_view(self.pending_moves@) =~= old(self)@.pending_moves);
        }
        r
    }

    /// Queues the acceptance of a game's outcome.
    pub fn accept(&mut self, id: GameID) -> (r: Result<Vec<Effect>, Error>)
        requires
            old(self).wf(),
        ensures
            final(self).wf(),
            (r is Err && r->Err_0 == Error::MissingPrecondition) <==> old(self)@.phase
                != Phase::Finished,
            (r is Err && r->Err_0 == Error::MissingPrecondition) ==> final(self)@ == old(self)@,
            old(self)@.phase == Phase::Finished && !old(self)@.have_potato ==> r is Ok,
            ({
                let mid = HandlerView {
                    pending_accepts: old(self)@.pending_accepts.push(id),
                    ..old(self)@
                };
                &&& r is Ok ==> intent_sent(mid, final(self)@, sent(effects_view(r->Ok_0@)))
                &&& r is Ok ==> only_sends(effects_view(r->Ok_0@))
                &&& (r is Err && r->Err_0 != Error::MissingPrecondition) ==> (r->Err_0
                    == Error::ChannelHandlerFailure && final(self)@ == old(self)@)
            }),
    {
        if !self.handshake_finished() {
            return Err(Error::MissingPrecondition);
        }
        self.pending_accepts.push(id);
        let r = self.after_intent();
        if r.is_err() {
            self.pending_accepts.pop();
            assert(self.pending_accepts@ =~= old(self)@.pending_accepts);
        }
        r
    }

    /// Asks for the channel to be closed cooperatively.
    pub fn shut_down(&mut self) -> (r: Result<Vec<Effect>, Error>)
        requires
            old(self).wf(),
        ensures
            final(self).wf(),
            (r is Err && r->Err_0 == Error::MissingPrecondition) <==> old(self)@.phase
                != Phase::Finished,
            (r is Err && r->Err_0 == Error::MissingPrecondition) ==> final(self)@ == old(self)@,
            old(self)@.phase == Phase::Finished && !old(self)@.have_potato ==> r is Ok,
            ({
                let mid = HandlerView { shutdown_pending: true, ..old(self)@ };
                &&& r is Ok ==> intent_sent(mid, final(self)@, sent(effects_view(r->Ok_0@)))
                &&& r is Ok ==> only_sends(effects_view(r->Ok_0@))
                &&& (r is Err && r->Err_0 != Error::MissingPrecondition) ==> (r->Err_0
                    == Error::ChannelHandlerFailure && final(self)@ == old(self)@)
            }),
    {
        if !self.handshake_finished() {
            return Err(Error::MissingPrecondition);
        }
        let was_pending = self.shutdown_pending;
        self.shutdown_pending = true;
        let r = self.after_intent();
        if r.is_err() {
            self.shutdown_pending = was_pending;
        }
        r
    }
}

impl<C: ChannelHandler> PotatoHandler<C> {
    /// Starts a batch of games: gives each the next game identifier, queues
    /// the batch, and sends it when the potato allows.
    pub fn start_games(&mut self, i_initiated: bool, games: &Vec<(GameType, bool, Vec<u8>)>) -> (r:
        Result<(Vec<GameID>, Vec<Effect>), Error>)
        requires
            old(self).wf(),
        ensures
            final(self).wf(),
            (r is Err && r->Err_0 == Error::MissingPrecondition) <==> old(self)@.phase
                != Phase::Finished,
            (r is Err && r->Err_0 == Error::MissingPrecondition) ==> final(self)@ == old(self)@,
            old(self)@.phase == Phase::Finished && r is Ok ==> final(self)@.ids.is_seeded()
                && final(self)@.ids.seed() == old(self)@.ids.seed() && final(self)@.ids.issued()
                == old(self)@.ids.issued() + games@.len() && le_value(
                final(self)@.ids.next_bytes(),
            ) == ((old(self)@.ids.seed() + old(self)@.ids.issued() + games@.len()) as int) % (
            id_space() as int),
            old(self)@.phase == Phase::Finished && !old(self)@.have_potato ==> r is Ok,
            old(self)@.phase == Phase::Finished && r is Ok ==> {
                let (ids, out) = r->Ok_0;
                &&& ids@.len() == games@.len()
                &&& forall|k: int|
                    0 <= k < ids@.len() ==> le_value(#[trigger] ids@[k].0@) == (old(self)@.ids.seed()
                        + old(self)@.ids.issued() + k) % (id_space() as int)
                &&& ids@.len() > 0 ==> ids@[0].0@ == old(self)@.ids.next_bytes()
            },
            old(self)@.phase == Phase::Finished && r is Ok ==> {
                let (ids, out) = r->Ok_0;
                &&& intent_sent(
                    start_games_queued(old(self)@, games@, final(self)@.ids),
                    final(self)@,
                    sent(effects_view(out@)),
                )
                &&& only_sends(effects_view(out@))
            },
            old(self)@.phase == Phase::Finished && r is Err ==> r->Err_0
                == Error::ChannelHandlerFailure && final(self)@ == old(self)@,
    {
        if !self.handshake_finished() {
            return Err(Error::MissingPrecondition);
        }
        let ghost pre = self@;
        let saved_ids = self.next_game_id;
        assert(self.next_game_id.is_seeded());
        let game_ids = match self.next_game_id.next_game_ids(games.len()) {
            Some(ids) => ids,
            None => {
                return Err(Error::AllocatorUnseeded);
            },
        };
        let mut batch: Vec<GameStart> = Vec::new();
        let mut i: usize = 0;
        while i < games.len()
            invariant
                i <= games.len(),
                batch@.len() == i,
                forall|k: int|
                    0 <= k < i ==> #[trigger] batch@[k]@ == (GameStartView {
                        game_type: games@[k].0@,
                        my_turn: games@[k].1,
                        parameters: games@[k].2@,
                    }),
            decreases games.len() - i,
        {
            let g = &games[i];
            batch.push(
                GameStart {
                    game_type: GameType(g.0.0.clone()),
                    my_turn: g.1,
                    parameters: g.2.clone(),
                },
            );
            i = i + 1;
        }
        let ghost bv = games_view(batch@);
        assert(bv =~= batch_view(games@));
        self.my_start_queue.push(batch);
        assert(queue_view(self.my_start_queue@) =~= pre.my_start_queue.push(bv));
        let ghost mid = self@;
        assert(mid == (HandlerView {
            my_start_queue: pre.my_start_queue.push(batch_view(games@)),
            ids: self.next_game_id,
            ..pre
        }));
        match self.after_intent() {
            Ok(out) => {
                proof {
                    lemma_intent_keeps_ids(mid, self@, sent(effects_view(out@)));
                }
                assert(self@.ids == mid.ids);
                assert(self@.ids.is_seeded());
                assert(self@.ids.seed() == pre.ids.seed());
                assert(self@.ids.issued() == pre.ids.issued() + games@.len());
                assert(game_ids@.len() == games@.len());
                assert(intent_sent(mid, self@, sent(effects_view(out@))));
                assert(forall|k: int|
                    0 <= k < game_ids@.len() ==> le_value(#[trigger] game_ids@[k].0@) == (
                    pre.ids.seed() + pre.ids.issued() + k) % (id_space() as int));
                assert(game_ids@.len() > 0 ==> game_ids@[0].0@ == pre.ids.next_bytes());
                proof {
                    crate::game_id::lemma_next_value(self@.ids);
                }
                Ok((game_ids, out))
            },
            Err(e) => {
                assert(self@ == mid);
                let ghost before = self.my_start_queue@;
                self.my_start_queue.pop();
                self.next_game_id = saved_ids;
                assert(queue_view(before.drop_last()) =~= queue_view(before).drop_last());
                assert(queue_view(self.my_start_queue@) =~= pre.my_start_queue);
                Err(e)
            },
        }
    }

    /// Sends this peer's greeting to open the channel funded by `parent_coin`;
    /// only the peer that starts with the potato does this, once. Its keys are
    /// what the environment derives from this peer's secret keys.
    pub fn start<E: PeerEnv<C>>(&mut self, env: &mut E, parent_coin: CoinString) -> (r: Result<
        Vec<Effect>,
        Error,
    >)
        requires
            old(self).wf(),
        ensures
            final(self).wf(),
            r is Err <==> old(self)@.phase != Phase::StepA,
            r is Err ==> r->Err_0 == Error::ProtocolState && final(self)@ == old(self)@,
            r is Ok ==> exists|keys: OurKeys|
                started(old(self)@, final(self)@, effects_view(r->Ok_0@), parent_coin, keys),
    {
        if self.current_phase() != Phase::StepA {
            return Err(Error::ProtocolState);
        }
        let keys = self.our_keys(env);
        let r = self.start_with_keys(parent_coin, &keys);
        assert(r is Ok ==> started(old(self)@, self@, effects_view(r->Ok_0@), parent_coin, keys));
        r
    }

    /// Sends this peer's greeting, with `keys` as its public keys, to open
    /// the channel funded by `parent_coin`.
    pub fn start_with_keys(&mut self, parent_coin: CoinString, keys: &OurKeys) -> (r: Result<
        Vec<Effect>,
        Error,
    >)
        requires
            old(self).wf(),
        ensures
            final(self).wf(),
            r is Err <==> old(self)@.phase != Phase::StepA,
            r is Err ==> r->Err_0 == Error::ProtocolState && final(self)@ == old(self)@,
            r is Ok ==> started(old(self)@, final(self)@, effects_view(r->Ok_0@), parent_coin, *keys),
    {
        match self.handshake_state {
            HandshakeState::StepA => {},
            _ => {
                return Err(Error::ProtocolState);
            },
        }
        let my_hs_info = HandshakeA {
            parent: parent_coin,
            channel_public_key: keys.channel_public_key,
            unroll_public_key: keys.unroll_public_key,
            reward_puzzle_hash: self.reward_puzzle_hash,
            referee_puzzle_hash: keys.referee_puzzle_hash,
        };
        self.handshake_state = HandshakeState::StepC(parent_coin, my_hs_info);
        let mut out: Vec<Effect> = Vec::new();
        proof {
            assert(effects_view(out@) =~= Seq::<EffectView>::empty());
        }
        emit(&mut out, Effect::Send(PeerMessage::HandshakeA(my_hs_info)));
        assert(effects_view(out@) =~= seq![EffectView::Send(MessageView::HandshakeA(my_hs_info))]);
        Ok(out)
    }

    /// In `PostStepE`: once the wallet's offer is here, sends it to the peer
    /// with the potato and finishes the handshake. In any other state, and so
    /// once finished, it does nothing.
    pub fn try_complete_step_e(&mut self) -> (r: Vec<Effect>)
        requires
            old(self).wf(),
        ensures
            final(self).wf(),
            old(self)@.phase != Phase::PostStepE ==> final(self)@ == old(self)@ && r@.len() == 0,
            old(self)@.phase == Phase::PostStepE ==> match old(self)@.channel_initiation_transaction {
                Some(b) => {
                    &&& final(self)@ == (HandlerView {
                        phase: Phase::Finished,
                        have_potato: false,
                        ..old(self)@
                    })
                    &&& effects_view(r@) == seq![EffectView::Send(MessageView::HandshakeE { bundle: b })]
                },
                None => final(self)@ == old(self)@ && r@.len() == 0,
            },
    {
        let mut out: Vec<Effect> = Vec::new();
        proof {
            assert(effects_view(out@) =~= Seq::<EffectView>::empty());
        }
        let info = match &self.handshake_state {
            HandshakeState::PostStepE(info) => *info,
            _ => {
                return out;
            },
        };
        match &self.channel_initiation_transaction {
            Some(spend) => {
                let bundle = spend.duplicate();
                let kept = spend.duplicate();
                self.handshake_state = HandshakeState::Finished(
                    HandshakeStepWithSpend { info, spend: kept },
                );
                self.have_potato = false;
                emit(&mut out, Effect::Send(PeerMessage::HandshakeE { bundle }));
                assert(effects_view(out@) =~= seq![EffectView::Send(MessageView::HandshakeE { bundle: old(self)@.channel_initiation_transaction->0 })]);
            },
            None => {},
        }
        out
    }

    /// In `PostStepF`: once the wallet has completed the channel's funding,
    /// sends it back to the peer with the potato and finishes the handshake.
    /// In any other state, and so once finished, it does nothing.
    pub fn try_complete_step_f(&mut self) -> (r: Vec<Effect>)
        requires
            old(self).wf(),
        ensures
            final(self).wf(),
            old(self)@.phase != Phase::PostStepF ==> final(self)@ == old(self)@ && r@.len() == 0,
            old(self)@.phase == Phase::PostStepF ==> match old(self)@.channel_finished_transaction {
                Some(b) => {
                    &&& final(self)@ == (HandlerView {
                        phase: Phase::Finished,
                        have_potato: false,
                        ..old(self)@
                    })
                    &&& effects_view(r@) == seq![EffectView::Send(MessageView::HandshakeF { bundle: b })]
                },
                None => final(self)@ == old(self)@ && r@.len() == 0,
            },
    {
        let mut out: Vec<Effect> = Vec::new();
        proof {
            assert(effects_view(out@) =~= Seq::<EffectView>::empty());
        }
        let info = match &self.handshake_state {
            HandshakeState::PostStepF(info) => *info,
            _ => {
                return out;
            },
        };
        match &self.channel_finished_transaction {
            Some(spend) => {
                let bundle = spend.duplicate();
                let kept = spend.duplicate();
                self.handshake_state = HandshakeState::Finished(
                    HandshakeStepWithSpend { info, spend: kept },
                );
                self.have_potato = false;
                emit(&mut out, Effect::Send(PeerMessage::HandshakeF { bundle }));
                assert(effects_view(out@) =~= seq![EffectView::Send(MessageView::HandshakeF { bundle: old(self)@.channel_finished_transaction->0 })]);
            },
            None => {},
        }
        out
    }

    /// The wallet's partly funded offer for the channel coin: kept, and sent
    /// on if the handshake waits for it.
    pub fn channel_offer(&mut self, bundle: SpendBundle) -> (r: Vec<Effect>)
        requires
            old(self).wf(),
        ensures
            final(self).wf(),
            ({
                let mid = HandlerView {
                    channel_initiation_transaction: Some(bundle@),
                    ..old(self)@
                };
                if old(self)@.phase == Phase::PostStepE {
                    &&& final(self)@ == (HandlerView {
                        phase: Phase::Finished,
                        have_potato: false,
                        ..mid
                    })
                    &&& effects_view(r@) == seq![EffectView::Send(MessageView::HandshakeE { bundle: bundle@ })]
                } else {
                    final(self)@ == mid && r@.len() == 0
                }
            }),
    {
        self.channel_initiation_transaction = Some(bundle);
        if self.current_phase() == Phase::PostStepE {
            self.try_complete_step_e()
        } else {
            Vec::new()
        }
    }

    /// The wallet's fully funded channel spend: kept, and sent back to the
    /// peer if the handshake waits for it.
    pub fn channel_transaction_completion(&mut self, bundle: &SpendBundle) -> (r: Vec<Effect>)
        requires
            old(self).wf(),
        ensures
            final(self).wf(),
            ({
                let mid = HandlerView {
                    channel_finished_transaction: Some(bundle@),
                    ..old(self)@
                };
                if old(self)@.phase == Phase::PostStepF {
                    &&& final(self)@ == (HandlerView {
                        phase: Phase::Finished,
                        have_potato: false,
                        ..mid
                    })
                    &&& effects_view(r@) == seq![EffectView::Send(MessageView::HandshakeF { bundle: bundle@ })]
                } else {
                    final(self)@ == mid && r@.len() == 0
                }
            }),
    {
        self.channel_finished_transaction = Some(bundle.duplicate());
        if self.current_phase() == Phase::PostStepF {
            self.try_complete_step_f()
        } else {
            Vec::new()
        }
    }

    pub fn current_phase(&self) -> (r: Phase)
        ensures
            r == self@.phase,
    {
        match self.handshake_state {
            HandshakeState::StepA => Phase::StepA,
            HandshakeState::StepB => Phase::StepB,
            HandshakeState::StepC(..) => Phase::StepC,
            HandshakeState::StepD(_) => Phase::StepD,
            HandshakeState::StepE(_) => Phase::StepE,
            HandshakeState::PostStepE(_) => Phase::PostStepE,
            HandshakeState::StepF(_) => Phase::StepF,
            HandshakeState::PostStepF(_) => Phase::PostStepF,
            HandshakeState::Finished(_) => Phase::Finished,
        }
    }
}

impl<C: ChannelHandler> PotatoHandler<C> {
    /// Takes in a message from the peer, as `message_outcome` says, with this
    /// peer's public keys as the environment derives them.
    pub fn handle_message<E: PeerEnv<C>>(&mut self, env: &mut E, msg: PeerMessage) -> (r: Result<
        Vec<Effect>,
        Error,
    >)
        requires
            old(self).wf(),
        ensures
            final(self).wf(),
            exists|keys: OurKeys| message_outcome(old(self)@, msg@, final(self)@, result_view(r), keys),
    {
        // Only the responder's greeting uses the keys; elsewhere none are derived.
        let keys = if self.current_phase() == Phase::StepB {
            self.our_keys(env)
        } else {
            OurKeys {
                channel_public_key: PublicKey([0u8; 48]),
                unroll_public_key: PublicKey([0u8; 48]),
                referee_puzzle_hash: PuzzleHash([0u8; 32]),
            }
        };
        let r = self.handle_message_with_keys(env, &keys, msg);
        assert(message_outcome(old(self)@, msg@, self@, result_view(r), keys));
        r
    }

    /// Takes in a message from the peer, as `message_outcome` says, with
    /// `keys` as this peer's public keys.
    pub fn handle_message_with_keys<E: PeerEnv<C>>(
        &mut self,
        env: &mut E,
        keys: &OurKeys,
        msg: PeerMessage,
    ) -> (r: Result<Vec<Effect>, Error>)
        requires
            old(self).wf(),
        ensures
            final(self).wf(),
            message_outcome(old(self)@, msg@, final(self)@, result_view(r), *keys),
    {
        match self.current_phase() {
            Phase::StepB => self.receive_handshake_a(env, keys, msg),
            Phase::StepC => self.receive_handshake_b(env, keys, msg),
            Phase::StepD => self.receive_first_nil(keys, msg),
            Phase::StepE => self.receive_returned_nil(keys, msg),
            Phase::StepF => self.receive_handshake_e(keys, msg),
            Phase::Finished => self.receive_finished(keys, msg),
            _ => Err(Error::ProtocolState),
        }
    }

    /// What the responder makes its channel handler with, on the initiator's
    /// greeting: the launcher is the coin the greeting names as parent, and the
    /// responder is the first to receive the potato.
    pub fn initiation_for_greeting(&self, a: &HandshakeA) -> (r: ChannelHandlerInitiationData)
        ensures
            r.launcher_coin_id.0@ == coin_id_spec(a.parent),
            r.we_start_with_potato,
            r.their_channel_pubkey == a.channel_public_key,
            r.their_unroll_pubkey == a.unroll_public_key,
            r.their_referee_puzzle_hash == a.referee_puzzle_hash,
            r.my_contribution == self@.my_contribution,
            r.their_contribution == self@.their_contribution,
    {
        ChannelHandlerInitiationData {
            launcher_coin_id: coin_id(&a.parent),
            we_start_with_potato: true,
            their_channel_pubkey: a.channel_public_key,
            their_unroll_pubkey: a.unroll_public_key,
            their_referee_puzzle_hash: a.referee_puzzle_hash,
            my_contribution: self.my_contribution,
            their_contribution: self.their_contribution,
        }
    }

    /// What the initiator makes its channel handler with, on the responder's
    /// reply: the launcher is the parent coin it started from, and it does not
    /// start with the potato.
    pub fn initiation_for_reply(&self, parent: &CoinString, b: &HandshakeB) -> (r:
        ChannelHandlerInitiationData)
        ensures
            r.launcher_coin_id.0@ == coin_id_spec(*parent),
            !r.we_start_with_potato,
            r.their_channel_pubkey == b.channel_public_key,
            r.their_unroll_pubkey == b.unroll_public_key,
            r.their_referee_puzzle_hash == b.referee_puzzle_hash,
            r.my_contribution == self@.my_contribution,
            r.their_contribution == self@.their_contribution,
    {
        ChannelHandlerInitiationData {
            launcher_coin_id: coin_id(parent),
            we_start_with_potato: false,
            their_channel_pubkey: b.channel_public_key,
            their_unroll_pubkey: b.unroll_public_key,
            their_referee_puzzle_hash: b.referee_puzzle_hash,
            my_contribution: self.my_contribution,
            their_contribution: self.their_contribution,
        }
    }

    /// Asks the environment for this peer's public keys, and for the puzzle
    /// hash of its referee key.
    pub fn our_keys<E: PeerEnv<C>>(&self, env: &mut E) -> OurKeys {
        let channel_public_key = env.public_key(&self.private_keys.my_channel_coin_private_key);
        let unroll_public_key = env.public_key(&self.private_keys.my_unroll_coin_private_key);
        let referee_public_key = env.public_key(&self.private_keys.my_referee_private_key);
        let referee_puzzle_hash = env.puzzle_hash_for_pk(&referee_public_key);
        OurKeys { channel_public_key, unroll_public_key, referee_puzzle_hash }
    }

    fn receive_handshake_a<E: PeerEnv<C>>(&mut self, env: &mut E, keys: &OurKeys, msg: PeerMessage) -> (r:
        Result<Vec<Effect>, Error>)
        requires
            old(self).wf(),
            old(self)@.phase == Phase::StepB,
        ensures
            final(self).wf(),
            message_outcome(old(self)@, msg@, final(self)@, result_view(r), *keys),
    {
        let a = match msg {
            PeerMessage::HandshakeA(a) => a,
            _ => {
                return Err(Error::ProtocolState);
            },
        };
        let init = self.initiation_for_greeting(&a);
        let ch = match Channel::make(env, &self.private_keys, init) {
            Some(ch) => ch,
            None => {
                return Err(Error::ChannelHandlerFailure);
            },
        };
        let b = HandshakeB {
            channel_public_key: keys.channel_public_key,
            unroll_public_key: keys.unroll_public_key,
            reward_puzzle_hash: self.reward_puzzle_hash,
            referee_puzzle_hash: keys.referee_puzzle_hash,
        };
        self.channel_handler = Some(ch);
        self.next_game_id = GameIdAllocator::seeded(game_id_seed(&self.private_keys));
        self.handshake_state = HandshakeState::StepD(
            HandshakeStepInfo { first_player_hs_info: a, second_player_hs_info: b },
        );
        let mut out: Vec<Effect> = Vec::new();
        proof {
            assert(effects_view(out@) =~= Seq::<EffectView>::empty());
        }
        emit(&mut out, Effect::Send(PeerMessage::HandshakeB(b)));
        assert(effects_view(out@) =~= seq![EffectView::Send(MessageView::HandshakeB(b))]);
        Ok(out)
    }

    fn receive_handshake_b<E: PeerEnv<C>>(&mut self, env: &mut E, keys: &OurKeys, msg: PeerMessage) -> (r:
        Result<Vec<Effect>, Error>)
        requires
            old(self).wf(),
            old(self)@.phase == Phase::StepC,
        ensures
            final(self).wf(),
            message_outcome(old(self)@, msg@, final(self)@, result_view(r), *keys),
    {
        let (parent, hs_a) = match &self.handshake_state {
            HandshakeState::StepC(parent, hs_a) => (*parent, *hs_a),
            _ => {
                return Err(Error::ProtocolState);
            },
        };
        let b = match msg {
            PeerMessage::HandshakeB(b) => b,
            _ => {
                return Err(Error::ProtocolState);
            },
        };
        let init = self.initiation_for_reply(&parent, &b);
        let mut ch = match Channel::make(env, &self.private_keys, init) {
            Some(ch) => ch,
            None => {
                return Err(Error::ChannelHandlerFailure);
            },
        };
        let channel_puzzle_hash = ch.puzzle_hash();
        let sigs = match ch.send_empty_potato() {
            Some(s) => s,
            None => {
                return Err(Error::ChannelHandlerFailure);
            },
        };
        self.channel_handler = Some(ch);
        self.next_game_id = GameIdAllocator::seeded(game_id_seed(&self.private_keys));
        self.handshake_state = HandshakeState::StepE(
            HandshakeStepInfo { first_player_hs_info: hs_a, second_player_hs_info: b },
        );
        self.have_potato = false;
        let mut out: Vec<Effect> = Vec::new();
        emit(&mut out, Effect::ChannelPuzzleHash(channel_puzzle_hash));
        emit(&mut out, Effect::Send(PeerMessage::Nil(sigs)));
        Ok(out)
    }

    fn receive_first_nil(&mut self, keys: &OurKeys, msg: PeerMessage) -> (r: Result<Vec<Effect>, Error>)
        requires
            old(self).wf(),
            old(self)@.phase == Phase::StepD,
        ensures
            final(self).wf(),
            message_outcome(old(self)@, msg@, final(self)@, result_view(r), *keys),
    {
        let info = match &self.handshake_state {
            HandshakeState::StepD(info) => *info,
            _ => {
                return Err(Error::ProtocolState);
            },
        };
        let theirs = match msg {
            PeerMessage::Nil(s) => s,
            _ => {
                return Err(Error::ProtocolState);
            },
        };
        let sigs = match &mut self.channel_handler {
            Some(ch) => {
                if ch.received_empty_potato(&theirs) {
                    ch.send_empty_potato()
                } else {
                    None
                }
            },
            None => None,
        };
        let sigs = match sigs {
            Some(s) => s,
            None => {
                return Err(Error::ChannelHandlerFailure);
            },
        };
        self.handshake_state = HandshakeState::StepF(info);
        let mut out: Vec<Effect> = Vec::new();
        emit(&mut out, Effect::Send(PeerMessage::Nil(sigs)));
        Ok(out)
    }

    fn receive_returned_nil(&mut self, keys: &OurKeys, msg: PeerMessage) -> (r: Result<Vec<Effect>, Error>)
        requires
            old(self).wf(),
            old(self)@.phase == Phase::StepE,
        ensures
            final(self).wf(),
            message_outcome(old(self)@, msg@, final(self)@, result_view(r), *keys),
    {
        let info = match &self.handshake_state {
            HandshakeState::StepE(info) => *info,
            _ => {
                return Err(Error::ProtocolState);
            },
        };
        let theirs = match msg {
            PeerMessage::Nil(s) => s,
            _ => {
                return Err(Error::ProtocolState);
            },
        };
        let ok = match &mut self.channel_handler {
            Some(ch) => ch.received_empty_potato(&theirs),
            None => false,
        };
        if !ok {
            return Err(Error::ChannelHandlerFailure);
        }
        self.handshake_state = HandshakeState::PostStepE(info);
        self.have_potato = true;
        Ok(self.try_complete_step_e())
    }

    fn receive_handshake_e(&mut self, keys: &OurKeys, msg: PeerMessage) -> (r: Result<Vec<Effect>, Error>)
        requires
            old(self).wf(),
            old(self)@.phase == Phase::StepF,
        ensures
            final(self).wf(),
            message_outcome(old(self)@, msg@, final(self)@, result_view(r), *keys),
    {
        let info = match &self.handshake_state {
            HandshakeState::StepF(info) => *info,
            _ => {
                return Err(Error::ProtocolState);
            },
        };
        let bundle = match msg {
            PeerMessage::HandshakeE { bundle } => bundle,
            _ => {
                return Err(Error::ProtocolState);
            },
        };
        let ghost bv = bundle@;
        let mut out: Vec<Effect> = Vec::new();
        emit(&mut out, Effect::ReceivedChannelOffer(bundle));
        self.handshake_state = HandshakeState::PostStepF(info);
        self.have_potato = true;
        let mut rest = self.try_complete_step_f();
        let ghost restv = effects_view(rest@);
        let ghost outv = effects_view(out@);
        proof {
            lemma_effects_view_concat(out@, rest@);
        }
        out.append(&mut rest);
        assert(outv =~= seq![EffectView::ReceivedChannelOffer(bv)]);
        assert(effects_view(out@) == outv + restv);
        assert(msg@ == MessageView::HandshakeE { bundle: bv });
        proof {
        match old(self)@.channel_finished_transaction {
            Some(f) => {
                assert(restv == seq![EffectView::Send(MessageView::HandshakeF { bundle: f })]);
                assert(effects_view(out@) =~= seq![
                    EffectView::ReceivedChannelOffer(bv),
                    EffectView::Send(MessageView::HandshakeF { bundle: f }),
                ]);
                assert(self@ == (HandlerView { phase: Phase::Finished, ..old(self)@ }));
            },
            None => {
                assert(effects_view(out@) =~= seq![EffectView::ReceivedChannelOffer(bv)]);
                assert(self@ == (HandlerView { phase: Phase::PostStepF, have_potato: true, ..old(self)@ }));
            },
        }
        }
        Ok(out)
    }

    fn took_potato(&mut self)
        ensures
            final(self)@ == (HandlerView {
                have_potato: true,
                potato_requested: false,
                ..old(self)@
            }),
    {
        self.have_potato = true;
        self.potato_requested = false;
    }

    #[verifier::rlimit(60)]
    fn receive_finished(&mut self, keys: &OurKeys, msg: PeerMessage) -> (r: Result<Vec<Effect>, Error>)
        requires
            old(self).wf(),
            old(self)@.phase == Phase::Finished,
        ensures
            final(self).wf(),
            message_outcome(old(self)@, msg@, final(self)@, result_view(r), *keys),
    {
        let ghost mv = msg@;
        proof {
            lemma_single(mv);
        }
        match msg {
            PeerMessage::RequestPotato => {
                if !self.have_potato {
                    return Err(Error::ProtocolState);
                }
                let sigs = match &mut self.channel_handler {
                    Some(ch) => ch.send_empty_potato(),
                    None => None,
                };
                match sigs {
                    None => Err(Error::ChannelHandlerFailure),
                    Some(s) => {
                        self.have_potato = false;
                        let mut out: Vec<Effect> = Vec::new();
                        emit(&mut out, Effect::Send(PeerMessage::Nil(s)));
                        Ok(out)
                    },
                }
            },
            PeerMessage::HandshakeF { bundle } => {
                if self.have_potato || self.channel_finished_transaction.is_some() {
                    return Err(Error::ProtocolState);
                }
                let mut out: Vec<Effect> = Vec::new();
                emit(&mut out, Effect::ReceivedChannelTransactionCompletion(bundle.duplicate()));
                self.channel_finished_transaction = Some(bundle);
                self.took_potato();
                match self.drain() {
                    Ok(mut rest) => {
                        proof {
                            lemma_effects_view_concat(out@, rest@);
                        }
                        let ghost restv = effects_view(rest@);
                        out.append(&mut rest);
                        assert(effects_view(out@).drop_first() =~= restv);
                        Ok(out)
                    },
                    Err(e) => Err(e),
                }
            },
            PeerMessage::Nil(theirs) => {
                if self.have_potato {
                    return Err(Error::ProtocolState);
                }
                let ok = match &mut self.channel_handler {
                    Some(ch) => ch.received_empty_potato(&theirs),
                    None => false,
                };
                if !ok {
                    return Err(Error::ChannelHandlerFailure);
                }
                self.took_potato();
                self.drain()
            },
            PeerMessage::StartGames(games) => {
                if self.have_potato {
                    return Err(Error::ProtocolState);
                }
                let ok = match &mut self.channel_handler {
                    Some(ch) => ch.received_potato_start_game(&games),
                    None => false,
                };
                if !ok {
                    return Err(Error::ChannelHandlerFailure);
                }
                let ghost gv = games_view(games@);
                self.their_start_queue.push(games);
                assert(queue_view(self.their_start_queue@) =~= old(self)@.their_start_queue.push(
                    gv,
                ));
                self.took_potato();
                self.drain()
            },
            PeerMessage::Move(id, readable, theirs) => {
                if self.have_potato {
                    return Err(Error::ProtocolState);
                }
                let ok = match &mut self.channel_handler {
                    Some(ch) => ch.received_potato_move(&id, &readable, &theirs),
                    None => false,
                };
                if !ok {
                    return Err(Error::ChannelHandlerFailure);
                }
                self.took_potato();
                let mut out: Vec<Effect> = Vec::new();
                emit(&mut out, Effect::OpponentMoved(id, readable));
                match self.drain() {
                    Ok(mut rest) => {
                        proof {
                            lemma_effects_view_concat(out@, rest@);
                        }
                        let ghost restv = effects_view(rest@);
                        out.append(&mut rest);
                        assert(effects_view(out@).drop_first() =~= restv);
                        Ok(out)
                    },
                    Err(e) => Err(e),
                }
            },
            PeerMessage::Accept(id, theirs) => {
                if self.have_potato {
                    return Err(Error::ProtocolState);
                }
                let ok = match &mut self.channel_handler {
                    Some(ch) => ch.received_potato_accept(&id, &theirs),
                    None => false,
                };
                if !ok {
                    return Err(Error::ChannelHandlerFailure);
                }
                self.took_potato();
                self.drain()
            },
            PeerMessage::Shutdown(sig) => {
                if self.have_potato {
                    return Err(Error::ProtocolState);
                }
                let ok = match &mut self.channel_handler {
                    Some(ch) => ch.received_potato_clean_shutdown(&sig),
                    None => false,
                };
                if !ok {
                    return Err(Error::ChannelHandlerFailure);
                }
                self.took_potato();
                self.drain()
            },
            _ => Err(Error::ProtocolState),
        }
    }
}

impl<C: ChannelHandler> PotatoHandler<C> {
    /// Takes in the bytes of a message from the peer: `WireDecode`, with
    /// nothing changed, when they spell no message; else as `handle_message`.
    pub fn received_message<E: PeerEnv<C>>(&mut self, env: &mut E, msg: &Vec<u8>) -> (r: Result<
        Vec<Effect>,
        Error,
    >)
        requires
            old(self).wf(),
        ensures
            final(self).wf(),
            decode_spec(msg@) is None ==> r == Err::<Vec<Effect>, Error>(Error::WireDecode)
                && final(self)@ == old(self)@,
            decode_spec(msg@) matches Some(m) ==> exists|keys: OurKeys|
                message_outcome(old(self)@, m, final(self)@, result_view(r), keys),
    {
        match decode(msg.as_slice()) {
            Ok(m) => self.handle_message(env, m),
            Err(e) => Err(e),
        }
    }
}

} // verus!
