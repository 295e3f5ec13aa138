use vstd::prelude::*;

use crate::protocol::{Effect, Error};
use crate::types::{CoinID, CoinString, GameID, PeerMessage, PuzzleHash, SpendBundle};

verus! {

/// The transport toward the peer.
pub trait PacketSender {
    fn send_message(&mut self, msg: &PeerMessage) -> Result<(), Error>;
}

/// What a peer tells its wallet while the channel is being funded.
pub trait BootstrapTowardWallet {
    /// The puzzle hash of the channel coin; only the initiator says this.
    fn channel_puzzle_hash(&mut self, puzzle_hash: &PuzzleHash) -> Result<(), Error>;

    /// The initiator's partly funded offer, for the responder's wallet to
    /// finish funding and spend.
    fn received_channel_offer(&mut self, bundle: &SpendBundle) -> Result<(), Error>;

    /// The fully funded spend of the launcher coin.
    fn received_channel_transaction_completion(&mut self, bundle: &SpendBundle) -> Result<
        (),
        Error,
    >;
}

/// What the wallet tells a peer while the channel is being funded: the
/// handler's `channel_offer` and `channel_transaction_completion` decide, and
/// an implementation carries out the effects they return.
pub trait BootstrapTowardGame {
    fn channel_offer(&mut self, bundle: SpendBundle) -> Result<(), Error>;

    fn channel_transaction_completion(&mut self, bundle: &SpendBundle) -> Result<(), Error>;
}

/// The wallet's news about coins a peer watches.
pub trait SpendWalletReceiver {
    fn coin_created(&mut self, coin_id: &CoinString) -> Result<(), Error>;

    fn coin_spent(&mut self, coin_id: &CoinString) -> Result<(), Error>;

    fn coin_timeout_reached(&mut self, coin_id: &CoinString) -> Result<(), Error>;
}

/// What a peer asks of its wallet once the channel must go on chain.
pub trait WalletSpendInterface {
    /// Enqueue an outbound transaction.
    fn spend_transaction_and_add_fee(&mut self, bundle: &SpendBundle) -> Result<(), Error>;

    /// Report the coin's lifecycle until it is spent.
    fn register_coin(&mut self, coin_id: &CoinID, timeout: u64) -> Result<(), Error>;
}

/// What a peer tells its local user.
pub trait ToLocalUI {
    fn opponent_moved(&mut self, id: &GameID, readable: &Vec<u8>) -> Result<(), Error>;

    fn game_message(&mut self, id: &GameID, readable: &Vec<u8>) -> Result<(), Error>;

    fn game_finished(&mut self, id: &GameID, my_share: u64) -> Result<(), Error>;

    fn game_cancelled(&mut self, id: &GameID) -> Result<(), Error>;

    fn shutdown_complete(&mut self, reward_coin_string: &CoinString) -> Result<(), Error>;

    fn going_on_chain(&mut self) -> Result<(), Error>;
}

/// Carries out effects in order, and stops at the first that fails, with its
/// error.
pub fn dispatch<G: PacketSender + BootstrapTowardWallet + ToLocalUI>(
    g: &mut G,
    effects: Vec<Effect>,
) -> Result<(), Error> {
    let mut i: usize = 0;
    while i < effects.len()
        invariant
            i <= effects.len(),
        decreases effects.len() - i,
    {
        let done = match &effects[i] {
            Effect::Send(m) => g.send_message(m),
            Effect::ChannelPuzzleHash(p) => g.channel_puzzle_hash(p),
            Effect::ReceivedChannelOffer(b) => g.received_channel_offer(b),
            Effect::ReceivedChannelTransactionCompletion(b) => {
                g.received_channel_transaction_completion(b)
            },
            Effect::OpponentMoved(id, readable) => g.opponent_moved(id, readable),
        };
        match done {
            Ok(()) => {},
            Err(e) => {
                return Err(e);
            },
        }
        i = i + 1;
    }
    Ok(())
}

} // verus!
