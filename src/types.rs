use vstd::prelude::*;

verus! {

/// A 32-byte BLS secret scalar.
#[derive(Clone, Copy, Debug)]
pub struct PrivateKey(pub [u8; 32]);

/// A 48-byte compressed BLS public key.
#[derive(Clone, Copy, Debug)]
pub struct PublicKey(pub [u8; 48]);

/// A 96-byte aggregated BLS signature.
#[derive(Clone, Copy, Debug)]
pub struct Aggsig(pub [u8; 96]);

/// The tree hash of a puzzle.
#[derive(Clone, Copy, Debug)]
pub struct PuzzleHash(pub [u8; 32]);

/// The identifier of a coin.
#[derive(Clone, Copy, Debug)]
pub struct CoinID(pub [u8; 32]);

/// The identifier of a game played inside the channel.
#[derive(Clone, Copy, Debug)]
pub struct GameID(pub [u8; 32]);

/// A coin named by its parent, its puzzle hash and its amount.
#[derive(Clone, Copy, Debug)]
pub struct CoinString {
    pub parent: CoinID,
    pub puzzle_hash: PuzzleHash,
    pub amount: u64,
}

/// The pair of half signatures that goes with every state-advancing message.
#[derive(Clone, Copy, Debug)]
pub struct PotatoSignatures {
    pub my_channel_half_signature_peer: Aggsig,
    pub my_unroll_half_signature_peer: Aggsig,
}

/// The three secret keys of one peer.
#[derive(Clone, Copy, Debug)]
pub struct ChannelHandlerPrivateKeys {
    pub my_channel_coin_private_key: PrivateKey,
    pub my_unroll_coin_private_key: PrivateKey,
    pub my_referee_private_key: PrivateKey,
}

/// One spend of a spend bundle: a coin, the puzzle that locks it, the solution
/// that unlocks it and its signature.
#[derive(Debug)]
pub struct CoinSpend {
    pub coin: CoinString,
    pub puzzle: Vec<u8>,
    pub solution: Vec<u8>,
    pub signature: Aggsig,
}

pub struct CoinSpendView {
    pub coin: CoinString,
    pub puzzle: Seq<u8>,
    pub solution: Seq<u8>,
    pub signature: Aggsig,
}

impl View for CoinSpend {
    type V = CoinSpendView;

    open spec fn view(&self) -> CoinSpendView {
        CoinSpendView {
            coin: self.coin,
            puzzle: self.puzzle@,
            solution: self.solution@,
            signature: self.signature,
        }
    }
}

impl CoinSpend {
    pub fn duplicate(&self) -> (r: CoinSpend)
        ensures
            r@ == self@,
    {
        CoinSpend {
            coin: self.coin,
            puzzle: self.puzzle.clone(),
            solution: self.solution.clone(),
            signature: self.signature,
        }
    }
}

/// An ordered list of coin spends.
#[derive(Debug)]
pub struct SpendBundle {
    pub spends: Vec<CoinSpend>,
}

impl View for SpendBundle {
    type V = Seq<CoinSpendView>;

    open spec fn view(&self) -> Seq<CoinSpendView> {
        self.spends@.map_values(|s: CoinSpend| s@)
    }
}

impl SpendBundle {
    pub fn duplicate(&self) -> (r: SpendBundle)
        ensures
            r@ == self@,
    {
        let mut spends: Vec<CoinSpend> = Vec::new();
        let mut i: usize = 0;
        while i < self.spends.len()
            invariant
                i <= self.spends.len(),
                spends@.len() == i,
                forall|j: int| 0 <= j < i ==> #[trigger] spends@[j]@ == self.spends@[j]@,
            decreases self.spends.len() - i,
        {
            spends.push(self.spends[i].duplicate());
            i = i + 1;
        }
        let r = SpendBundle { spends };
        assert(r@ =~= self@);
        r
    }
}

/// The name of a game factory.
#[derive(Debug)]
pub struct GameType(pub Vec<u8>);

impl View for GameType {
    type V = Seq<u8>;

    open spec fn view(&self) -> Seq<u8> {
        self.0@
    }
}

/// A request to start one game: its type, whether we move first, and its
/// serialized parameters.
#[derive(Debug)]
pub struct GameStart {
    pub game_type: GameType,
    pub my_turn: bool,
    pub parameters: Vec<u8>,
}

pub struct GameStartView {
    pub game_type: Seq<u8>,
    pub my_turn: bool,
    pub parameters: Seq<u8>,
}

impl View for GameStart {
    type V = GameStartView;

    open spec fn view(&self) -> GameStartView {
        GameStartView {
            game_type: self.game_type@,
            my_turn: self.my_turn,
            parameters: self.parameters@,
        }
    }
}

pub open spec fn games_view(games: Seq<GameStart>) -> Seq<GameStartView> {
    games.map_values(|g: GameStart| g@)
}

impl GameStart {
    pub fn duplicate(&self) -> (r: GameStart)
        ensures
            r@ == self@,
    {
        GameStart {
            game_type: GameType(self.game_type.0.clone()),
            my_turn: self.my_turn,
            parameters: self.parameters.clone(),
        }
    }
}

/// The initiator's greeting: the coin that will fund the channel, its keys, and
/// where its rewards and referee live.
#[derive(Clone, Copy, Debug)]
pub struct HandshakeA {
    pub parent: CoinString,
    pub channel_public_key: PublicKey,
    pub unroll_public_key: PublicKey,
    pub reward_puzzle_hash: PuzzleHash,
    pub referee_puzzle_hash: PuzzleHash,
}

/// The responder's greeting.
#[derive(Clone, Copy, Debug)]
pub struct HandshakeB {
    pub channel_public_key: PublicKey,
    pub unroll_public_key: PublicKey,
    pub reward_puzzle_hash: PuzzleHash,
    pub referee_puzzle_hash: PuzzleHash,
}

/// The envelope of every message between the two peers.
#[derive(Debug)]
pub enum PeerMessage {
    HandshakeA(HandshakeA),
    HandshakeB(HandshakeB),
    /// Carries the partly funded spend of the launcher coin.
    HandshakeE { bundle: SpendBundle },
    HandshakeF { bundle: SpendBundle },
    Nil(PotatoSignatures),
    StartGames(Vec<GameStart>),
    Move(GameID, Vec<u8>, PotatoSignatures),
    Accept(GameID, PotatoSignatures),
    Shutdown(Aggsig),
    RequestPotato,
}

pub enum MessageView {
    HandshakeA(HandshakeA),
    HandshakeB(HandshakeB),
    HandshakeE { bundle: Seq<CoinSpendView> },
    HandshakeF { bundle: Seq<CoinSpendView> },
    Nil(PotatoSignatures),
    StartGames(Seq<GameStartView>),
    Move(GameID, Seq<u8>, PotatoSignatures),
    Accept(GameID, PotatoSignatures),
    Shutdown(Aggsig),
    RequestPotato,
}

impl View for PeerMessage {
    type V = MessageView;

    open spec fn view(&self) -> MessageView {
        match self {
            PeerMessage::HandshakeA(a) => MessageView::HandshakeA(*a),
            PeerMessage::HandshakeB(b) => MessageView::HandshakeB(*b),
            PeerMessage::HandshakeE { bundle } => MessageView::HandshakeE { bundle: bundle@ },
            PeerMessage::HandshakeF { bundle } => MessageView::HandshakeF { bundle: bundle@ },
            PeerMessage::Nil(s) => MessageView::Nil(*s),
            PeerMessage::StartGames(g) => MessageView::StartGames(games_view(g@)),
            PeerMessage::Move(id, m, s) => MessageView::Move(*id, m@, *s),
            PeerMessage::Accept(id, s) => MessageView::Accept(*id, *s),
            PeerMessage::Shutdown(s) => MessageView::Shutdown(*s),
            PeerMessage::RequestPotato => MessageView::RequestPotato,
        }
    }
}

impl MessageView {
    /// Whether the message hands the potato to the receiver.
    pub open spec fn passes_potato(self) -> bool {
        match self {
            MessageView::HandshakeE { .. } => true,
            MessageView::HandshakeF { .. } => true,
            MessageView::Nil(_) => true,
            MessageView::StartGames(_) => true,
            MessageView::Move(..) => true,
            MessageView::Accept(..) => true,
            MessageView::Shutdown(_) => true,
            _ => false,
        }
    }
}

} // verus!
