use vstd::prelude::*;

verus! {

/// The names that stand in the wire envelope.
#[derive(Clone, Copy, Debug, PartialEq, Eq, Structural)]
pub enum Key {
    Name,
    Tag,
    ParentCoin,
    ParentPuzzleHash,
    ParentAmount,
    ChannelPublicKey,
    UnrollPublicKey,
    RewardPuzzleHash,
    RefereePuzzleHash,
    Bundle,
    CoinParent,
    CoinPuzzleHash,
    CoinAmount,
    Puzzle,
    Solution,
    Signature,
    ChannelSig,
    UnrollSig,
    Games,
    GameType,
    MyTurn,
    Parameters,
    GameId,
    Readable,
}

/// The bytes of a name.
pub open spec fn key_of(k: Key) -> Seq<u8> {
    match k {
        Key::Name => seq![80u8, 101u8, 101u8, 114u8, 77u8, 101u8, 115u8, 115u8, 97u8, 103u8, 101u8],
        Key::Tag => seq![116u8, 97u8, 103u8],
        Key::ParentCoin => seq![112u8, 97u8, 114u8, 101u8, 110u8, 116u8, 95u8, 99u8, 111u8, 105u8, 110u8],
        Key::ParentPuzzleHash => seq![112u8, 97u8, 114u8, 101u8, 110u8, 116u8, 95u8, 112u8, 117u8, 122u8, 122u8, 108u8, 101u8, 95u8, 104u8, 97u8, 115u8, 104u8],
        Key::ParentAmount => seq![112u8, 97u8, 114u8, 101u8, 110u8, 116u8, 95u8, 97u8, 109u8, 111u8, 117u8, 110u8, 116u8],
        Key::ChannelPublicKey => seq![99u8, 104u8, 97u8, 110u8, 110u8, 101u8, 108u8, 95u8, 112u8, 117u8, 98u8, 108u8, 105u8, 99u8, 95u8, 107u8, 101u8, 121u8],
        Key::UnrollPublicKey => seq![117u8, 110u8, 114u8, 111u8, 108u8, 108u8, 95u8, 112u8, 117u8, 98u8, 108u8, 105u8, 99u8, 95u8, 107u8, 101u8, 121u8],
        Key::RewardPuzzleHash => seq![114u8, 101u8, 119u8, 97u8, 114u8, 100u8, 95u8, 112u8, 117u8, 122u8, 122u8, 108u8, 101u8, 95u8, 104u8, 97u8, 115u8, 104u8],
        Key::RefereePuzzleHash => seq![114u8, 101u8, 102u8, 101u8, 114u8, 101u8, 101u8, 95u8, 112u8, 117u8, 122u8, 122u8, 108u8, 101u8, 95u8, 104u8, 97u8, 115u8, 104u8],
        Key::Bundle => seq![98u8, 117u8, 110u8, 100u8, 108u8, 101u8],
        Key::CoinParent => seq![99u8, 111u8, 105u8, 110u8, 95u8, 112u8, 97u8, 114u8, 101u8, 110u8, 116u8],
        Key::CoinPuzzleHash => seq![99u8, 111u8, 105u8, 110u8, 95u8, 112u8, 117u8, 122u8, 122u8, 108u8, 101u8, 95u8, 104u8, 97u8, 115u8, 104u8],
        Key::CoinAmount => seq![99u8, 111u8, 105u8, 110u8, 95u8, 97u8, 109u8, 111u8, 117u8, 110u8, 116u8],
        Key::Puzzle => seq![112u8, 117u8, 122u8, 122u8, 108u8, 101u8],
        Key::Solution => seq![115u8, 111u8, 108u8, 117u8, 116u8, 105u8, 111u8, 110u8],
        Key::Signature => seq![115u8, 105u8, 103u8, 110u8, 97u8, 116u8, 117u8, 114u8, 101u8],
        Key::ChannelSig => seq![99u8, 104u8, 97u8, 110u8, 110u8, 101u8, 108u8, 95u8, 115u8, 105u8, 103u8],
        Key::UnrollSig => seq![117u8, 110u8, 114u8, 111u8, 108u8, 108u8, 95u8, 115u8, 105u8, 103u8],
        Key::Games => seq![103u8, 97u8, 109u8, 101u8, 115u8],
        Key::GameType => seq![103u8, 97u8, 109u8, 101u8, 95u8, 116u8, 121u8, 112u8, 101u8],
        Key::MyTurn => seq![109u8, 121u8, 95u8, 116u8, 117u8, 114u8, 110u8],
        Key::Parameters => seq![112u8, 97u8, 114u8, 97u8, 109u8, 101u8, 116u8, 101u8, 114u8, 115u8],
        Key::GameId => seq![103u8, 97u8, 109u8, 101u8, 95u8, 105u8, 100u8],
        Key::Readable => seq![114u8, 101u8, 97u8, 100u8, 97u8, 98u8, 108u8, 101u8],
    }
}

pub fn key_exec(k: Key) -> (r: Vec<u8>)
    ensures
        r@ == key_of(k),
{
    let mut v: Vec<u8> = Vec::new();
    match k {
        Key::Name => {
            v.push(80u8);
            v.push(101u8);
            v.push(101u8);
            v.push(114u8);
            v.push(77u8);
            v.push(101u8);
            v.push(115u8);
            v.push(115u8);
            v.push(97u8);
            v.push(103u8);
            v.push(101u8);
        },
        Key::Tag => {
            v.push(116u8);
            v.push(97u8);
            v.push(103u8);
        },
        Key::ParentCoin => {
            v.push(112u8);
            v.push(97u8);
            v.push(114u8);
            v.push(101u8);
            v.push(110u8);
            v.push(116u8);
            v.push(95u8);
            v.push(99u8);
            v.push(111u8);
            v.push(105u8);
            v.push(110u8);
        },
        Key::ParentPuzzleHash => {
            v.push(112u8);
            v.push(97u8);
            v.push(114u8);
            v.push(101u8);
            v.push(110u8);
            v.push(116u8);
            v.push(95u8);
            v.push(112u8);
            v.push(117u8);
            v.push(122u8);
            v.push(122u8);
            v.push(108u8);
            v.push(101u8);
            v.push(95u8);
            v.push(104u8);
            v.push(97u8);
            v.push(115u8);
            v.push(104u8);
        },
        Key::ParentAmount => {
            v.push(112u8);
            v.push(97u8);
            v.push(114u8);
            v.push(101u8);
            v.push(110u8);
            v.push(116u8);
            v.push(95u8);
            v.push(97u8);
            v.push(109u8);
            v.push(111u8);
            v.push(117u8);
            v.push(110u8);
            v.push(116u8);
        },
        Key::ChannelPublicKey => {
            v.push(99u8);
            v.push(104u8);
            v.push(97u8);
            v.push(110u8);
            v.push(110u8);
            v.push(101u8);
            v.push(108u8);
            v.push(95u8);
            v.push(112u8);
            v.push(117u8);
            v.push(98u8);
            v.push(108u8);
            v.push(105u8);
            v.push(99u8);
            v.push(95u8);
            v.push(107u8);
            v.push(101u8);
            v.push(121u8);
        },
        Key::UnrollPublicKey => {
            v.push(117u8);
            v.push(110u8);
            v.push(114u8);
            v.push(111u8);
            v.push(108u8);
            v.push(108u8);
            v.push(95u8);
            v.push(112u8);
            v.push(117u8);
            v.push(98u8);
            v.push(108u8);
            v.push(105u8);
            v.push(99u8);
            v.push(95u8);
            v.push(107u8);
            v.push(101u8);
            v.push(121u8);
        },
        Key::RewardPuzzleHash => {
            v.push(114u8);
            v.push(101u8);
            v.push(119u8);
            v.push(97u8);
            v.push(114u8);
            v.push(100u8);
            v.push(95u8);
            v.push(112u8);
            v.push(117u8);
            v.push(122u8);
            v.push(122u8);
            v.push(108u8);
            v.push(101u8);
            v.push(95u8);
            v.push(104u8);
            v.push(97u8);
            v.push(115u8);
            v.push(104u8);
        },
        Key::RefereePuzzleHash => {
            v.push(114u8);
            v.push(101u8);
            v.push(102u8);
            v.push(101u8);
            v.push(114u8);
            v.push(101u8);
            v.push(101u8);
            v.push(95u8);
            v.push(112u8);
            v.push(117u8);
            v.push(122u8);
            v.push(122u8);
            v.push(108u8);
            v.push(101u8);
            v.push(95u8);
            v.push(104u8);
            v.push(97u8);
            v.push(115u8);
            v.push(104u8);
        },
        Key::Bundle => {
            v.push(98u8);
            v.push(117u8);
            v.push(110u8);
            v.push(100u8);
            v.push(108u8);
            v.push(101u8);
        },
        Key::CoinParent => {
            v.push(99u8);
            v.push(111u8);
            v.push(105u8);
            v.push(110u8);
            v.push(95u8);
            v.push(112u8);
            v.push(97u8);
            v.push(114u8);
            v.push(101u8);
            v.push(110u8);
            v.push(116u8);
        },
        Key::CoinPuzzleHash => {
            v.push(99u8);
            v.push(111u8);
            v.push(105u8);
            v.push(110u8);
            v.push(95u8);
            v.push(112u8);
            v.push(117u8);
            v.push(122u8);
            v.push(122u8);
            v.push(108u8);
            v.push(101u8);
            v.push(95u8);
            v.push(104u8);
            v.push(97u8);
            v.push(115u8);
            v.push(104u8);
        },
        Key::CoinAmount => {
            v.push(99u8);
            v.push(111u8);
            v.push(105u8);
            v.push(110u8);
            v.push(95u8);
            v.push(97u8);
            v.push(109u8);
            v.push(111u8);
            v.push(117u8);
            v.push(110u8);
            v.push(116u8);
        },
        Key::Puzzle => {
            v.push(112u8);
            v.push(117u8);
            v.push(122u8);
            v.push(122u8);
            v.push(108u8);
            v.push(101u8);
        },
        Key::Solution => {
            v.push(115u8);
            v.push(111u8);
            v.push(108u8);
            v.push(117u8);
            v.push(116u8);
            v.push(105u8);
            v.push(111u8);
            v.push(110u8);
        },
        Key::Signature => {
            v.push(115u8);
            v.push(105u8);
            v.push(103u8);
            v.push(110u8);
            v.push(97u8);
            v.push(116u8);
            v.push(117u8);
            v.push(114u8);
            v.push(101u8);
        },
        Key::ChannelSig => {
            v.push(99u8);
            v.push(104u8);
            v.push(97u8);
            v.push(110u8);
            v.push(110u8);
            v.push(101u8);
            v.push(108u8);
            v.push(95u8);
            v.push(115u8);
            v.push(105u8);
            v.push(103u8);
        },
        Key::UnrollSig => {
            v.push(117u8);
            v.push(110u8);
            v.push(114u8);
            v.push(111u8);
            v.push(108u8);
            v.push(108u8);
            v.push(95u8);
            v.push(115u8);
            v.push(105u8);
            v.push(103u8);
        },
        Key::Games => {
            v.push(103u8);
            v.push(97u8);
            v.push(109u8);
            v.push(101u8);
            v.push(115u8);
        },
        Key::GameType => {
            v.push(103u8);
            v.push(97u8);
            v.push(109u8);
            v.push(101u8);
            v.push(95u8);
            v.push(116u8);
            v.push(121u8);
            v.push(112u8);
            v.push(101u8);
        },
        Key::MyTurn => {
            v.push(109u8);
            v.push(121u8);
            v.push(95u8);
            v.push(116u8);
            v.push(117u8);
            v.push(114u8);
            v.push(110u8);
        },
        Key::Parameters => {
            v.push(112u8);
            v.push(97u8);
            v.push(114u8);
            v.push(97u8);
            v.push(109u8);
            v.push(101u8);
            v.push(116u8);
            v.push(101u8);
            v.push(114u8);
            v.push(115u8);
        },
        Key::GameId => {
            v.push(103u8);
            v.push(97u8);
            v.push(109u8);
            v.push(101u8);
            v.push(95u8);
            v.push(105u8);
            v.push(100u8);
        },
        Key::Readable => {
            v.push(114u8);
            v.push(101u8);
            v.push(97u8);
            v.push(100u8);
            v.push(97u8);
            v.push(98u8);
            v.push(108u8);
            v.push(101u8);
        },
    }
    assert(v@ =~= key_of(k));
    v
}

} // verus!
