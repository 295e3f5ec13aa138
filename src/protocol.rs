use vstd::prelude::*;

use crate::types::{
    CoinSpendView, GameID, GameStartView, MessageView, PeerMessage, PuzzleHash, SpendBundle,
};

verus! {

/// The kinds of failure a call into the handler can end in.
#[derive(Clone, Copy, Debug, PartialEq, Eq, Structural)]
pub enum Error {
    /// The bytes are not a well-formed envelope.
    WireDecode,
    /// The message is not allowed in the current state.
    ProtocolState,
    /// A local command came before the handshake finished.
    MissingPrecondition,
    /// The channel handler refused a signature or a state.
    ChannelHandlerFailure,
    /// A game identifier was asked for before the counter was seeded.
    AllocatorUnseeded,
    /// The wallet, or the transport, refused a request.
    WalletRejection,
}

impl Error {
    pub fn message(&self) -> (r: &'static str) {
        match self {
            Error::WireDecode => "the envelope could not be decoded",
            Error::ProtocolState => "the message is not allowed in this state",
            Error::MissingPrecondition => "the handshake has not finished",
            Error::ChannelHandlerFailure => "the channel handler refused the state",
            Error::AllocatorUnseeded => "no game id set",
            Error::WalletRejection => "the wallet refused the request",
        }
    }
}

/// What a call asks its caller to do, in order.
#[derive(Debug)]
pub enum Effect {
    /// Send the message to the peer.
    Send(PeerMessage),
    /// Tell the wallet the puzzle hash of the channel coin.
    ChannelPuzzleHash(PuzzleHash),
    /// Hand the peer's partly funded channel offer to the wallet.
    ReceivedChannelOffer(SpendBundle),
    /// Hand the fully funded channel spend, back from the peer, to the wallet.
    ReceivedChannelTransactionCompletion(SpendBundle),
    /// Tell the local user that the opponent moved.
    OpponentMoved(GameID, Vec<u8>),
}

pub enum EffectView {
    Send(MessageView),
    ChannelPuzzleHash(PuzzleHash),
    ReceivedChannelOffer(Seq<CoinSpendView>),
    ReceivedChannelTransactionCompletion(Seq<CoinSpendView>),
    OpponentMoved(GameID, Seq<u8>),
}

impl View for Effect {
    type V = EffectView;

    open spec fn view(&self) -> EffectView {
        match self {
            Effect::Send(m) => EffectView::Send(m@),
            Effect::ChannelPuzzleHash(p) => EffectView::ChannelPuzzleHash(*p),
            Effect::ReceivedChannelOffer(b) => EffectView::ReceivedChannelOffer(b@),
            Effect::ReceivedChannelTransactionCompletion(b) => {
                EffectView::ReceivedChannelTransactionCompletion(b@)
            },
            Effect::OpponentMoved(id, m) => EffectView::OpponentMoved(*id, m@),
        }
    }
}

pub open spec fn effects_view(e: Seq<Effect>) -> Seq<EffectView> {
    e.map_values(|x: Effect| x@)
}

/// A change of channel state that both channel handlers sign.
pub enum Transition {
    Nil,
    StartGames(Seq<GameStartView>),
    Move(GameID, Seq<u8>),
    Accept(GameID),
    Shutdown,
}

/// The channel transition a message announces, if any.
pub open spec fn transition_of(m: MessageView) -> Seq<Transition> {
    match m {
        MessageView::Nil(_) => seq![Transition::Nil],
        MessageView::StartGames(g) => seq![Transition::StartGames(g)],
        MessageView::Move(id, b, _) => seq![Transition::Move(id, b)],
        MessageView::Accept(id, _) => seq![Transition::Accept(id)],
        MessageView::Shutdown(_) => seq![Transition::Shutdown],
        _ => seq![],
    }
}

/// Whether every effect is a message to the peer.
pub open spec fn only_sends(e: Seq<EffectView>) -> bool {
    forall|i: int| 0 <= i < e.len() ==> #[trigger] e[i] is Send
}

/// The messages among some effects, in order.
pub open spec fn sent(e: Seq<EffectView>) -> Seq<MessageView>
    decreases e.len(),
{
    if e.len() == 0 {
        seq![]
    } else {
        sent(e.drop_last()) + match e.last() {
            EffectView::Send(m) => seq![m],
            _ => seq![],
        }
    }
}

/// The transitions that some messages announce, in order.
pub open spec fn transitions(ms: Seq<MessageView>) -> Seq<Transition>
    decreases ms.len(),
{
    if ms.len() == 0 {
        seq![]
    } else {
        transitions(ms.drop_last()) + transition_of(ms.last())
    }
}

/// How many of some messages hand over the potato.
pub open spec fn potatoes(ms: Seq<MessageView>) -> nat
    decreases ms.len(),
{
    if ms.len() == 0 {
        0
    } else {
        potatoes(ms.drop_last()) + if ms.last().passes_potato() {
            1nat
        } else {
            0nat
        }
    }
}

pub proof fn lemma_sent_push(e: Seq<EffectView>, x: EffectView)
    ensures
        sent(e.push(x)) == sent(e) + match x {
            EffectView::Send(m) => seq![m],
            _ => seq![],
        },
{
    assert(e.push(x).drop_last() =~= e);
}

pub proof fn lemma_sent_concat(a: Seq<EffectView>, b: Seq<EffectView>)
    ensures
        sent(a + b) == sent(a) + sent(b),
    decreases b.len(),
{
    if b.len() == 0 {
        assert(a + b =~= a);
        assert(sent(a) + sent(b) =~= sent(a));
    } else {
        assert((a + b).drop_last() =~= a + b.drop_last());
        lemma_sent_concat(a, b.drop_last());
        assert(sent(a + b) =~= sent(a) + sent(b));
    }
}

pub proof fn lemma_effects_view_concat(a: Seq<Effect>, b: Seq<Effect>)
    ensures
        effects_view(a + b) == effects_view(a) + effects_view(b),
{
    assert(effects_view(a + b) =~= effects_view(a) + effects_view(b));
}

pub proof fn lemma_transitions_concat(a: Seq<MessageView>, b: Seq<MessageView>)
    ensures
        transitions(a + b) == transitions(a) + transitions(b),
    decreases b.len(),
{
    if b.len() == 0 {
        assert(a + b =~= a);
        assert(transitions(a) + transitions(b) =~= transitions(a));
    } else {
        assert((a + b).drop_last() =~= a + b.drop_last());
        lemma_transitions_concat(a, b.drop_last());
        assert(transitions(a + b) =~= transitions(a) + transitions(b));
    }
}

pub proof fn lemma_potatoes_concat(a: Seq<MessageView>, b: Seq<MessageView>)
    ensures
        potatoes(a + b) == potatoes(a) + potatoes(b),
    decreases b.len(),
{
    if b.len() == 0 {
        assert(a + b =~= a);
    } else {
        assert((a + b).drop_last() =~= a + b.drop_last());
        lemma_potatoes_concat(a, b.drop_last());
    }
}

pub proof fn lemma_single(m: MessageView)
    ensures
        transitions(seq![m]) == transition_of(m),
        potatoes(seq![m]) == if m.passes_potato() {
            1nat
        } else {
            0nat
        },
{
    let e = Seq::<MessageView>::empty();
    assert(seq![m].drop_last() =~= e);
    assert(seq![m].last() == m);
    assert(transitions(e) == Seq::<Transition>::empty());
    assert(potatoes(e) == 0);
    assert(transitions(seq![m]) == transitions(e) + transition_of(m));
    assert(transitions(seq![m]) =~= transition_of(m));
}

/// A message that announces a transition also hands over the potato.
pub proof fn lemma_transitions_need_potatoes(ms: Seq<MessageView>)
    ensures
        potatoes(ms) == 0 ==> transitions(ms) == Seq::<Transition>::empty(),
    decreases ms.len(),
{
    if ms.len() > 0 {
        lemma_transitions_need_potatoes(ms.drop_last());
        if potatoes(ms) == 0 {
            assert(transitions(ms) =~= Seq::<Transition>::empty());
        }
    }
}

} // verus!
