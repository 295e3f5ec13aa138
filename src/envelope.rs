use vstd::prelude::*;

use crate::codec::{
    at, enc_field, enc_fields, enc_leaf, enc_record, fields_fit, items_fit, leaves_fit,
    lemma_at_split, lemma_leaf, lemma_record_len, lemma_record_round_trip, p_leaf, p_record, Field, FlatSchema,
    Kind, Leaf, LeafKind, Schema,
};
use crate::keys::{key_exec, key_of, Key};
use crate::protocol::Error;
use crate::types::{
    games_view, Aggsig, CoinID, CoinSpend, CoinSpendView, CoinString, GameID, GameStart,
    GameStartView, GameType, HandshakeA, HandshakeB, MessageView, PeerMessage, PotatoSignatures,
    PublicKey, PuzzleHash, SpendBundle,
};
use crate::wire::{
    decode_record, encode_record, fields_view, items_view, leaf_result, leaves_view, read_leaf,
    schema_view, EField, EKind, ELeaf, MAX_DOC,
};

verus! {

broadcast use vstd::array::group_array_axioms;

/// The array whose bytes are `s`.
pub open spec fn arr_of<const N: usize>(s: Seq<u8>) -> [u8; N] {
    choose|a: [u8; N]| a@ == s
}

proof fn lemma_arr_of<const N: usize>(a: [u8; N])
    ensures
        arr_of::<N>(a@) == a,
{
    let b = arr_of::<N>(a@);
    assert(exists|x: [u8; N]| x@ == a@);
    assert(b@ == a@);
    assert forall|i: int| 0 <= i < N implies b[i] == a[i] by {
        assert(b@[i] == a@[i]);
    }
    assert(b =~= a);
}

fn fixed<const N: usize>(v: &Vec<u8>) -> (r: Option<[u8; N]>)
    ensures
        r is Some <==> v@.len() == N,
        r is Some ==> r->0 == arr_of::<N>(v@),
{
    if v.len() != N {
        return None;
    }
    let mut a = [0u8; N];
    let mut i: usize = 0;
    while i < N
        invariant
            i <= N,
            v@.len() == N,
            a@.len() == N,
            forall|j: int| 0 <= j < i ==> a@[j] == v@[j],
        decreases N - i,
    {
        a[i] = v[i];
        i = i + 1;
    }
    proof {
        assert(a@ =~= v@);
        lemma_arr_of(a);
    }
    Some(a)
}

pub open spec fn leaf_bin(l: Leaf) -> Option<Seq<u8>> {
    match l {
        Leaf::Bin(v) => Some(v),
        _ => None,
    }
}

pub open spec fn leaf_fixed<const N: usize>(l: Leaf) -> Option<[u8; N]> {
    match l {
        Leaf::Bin(v) => if v.len() == N {
            Some(arr_of::<N>(v))
        } else {
            None
        },
        _ => None,
    }
}

pub open spec fn leaf_u64(l: Leaf) -> Option<u64> {
    match l {
        Leaf::U64(n) => Some(n),
        _ => None,
    }
}

pub open spec fn leaf_bool(l: Leaf) -> Option<bool> {
    match l {
        Leaf::Bool(b) => Some(b),
        _ => None,
    }
}

pub open spec fn field_leaf(f: Field) -> Leaf {
    match f {
        Field::Leaf(l) => l,
        _ => Leaf::Bool(false),
    }
}

pub open spec fn field_items(f: Field) -> Option<Seq<Seq<Leaf>>> {
    match f {
        Field::Arr(items) => Some(items),
        _ => None,
    }
}

pub open spec fn fbin(v: Seq<u8>) -> Field {
    Field::Leaf(Leaf::Bin(v))
}

pub open spec fn fu64(n: u64) -> Field {
    Field::Leaf(Leaf::U64(n))
}

pub open spec fn coin_spend_schema() -> FlatSchema {
    seq![
        (key_of(Key::CoinParent), LeafKind::Bin),
        (key_of(Key::CoinPuzzleHash), LeafKind::Bin),
        (key_of(Key::CoinAmount), LeafKind::U64),
        (key_of(Key::Puzzle), LeafKind::Bin),
        (key_of(Key::Solution), LeafKind::Bin),
        (key_of(Key::Signature), LeafKind::Bin),
    ]
}

pub open spec fn coin_spend_leaves(c: CoinSpendView) -> Seq<Leaf> {
    seq![
        Leaf::Bin(c.coin.parent.0@),
        Leaf::Bin(c.coin.puzzle_hash.0@),
        Leaf::U64(c.coin.amount),
        Leaf::Bin(c.puzzle),
        Leaf::Bin(c.solution),
        Leaf::Bin(c.signature.0@),
    ]
}

pub open spec fn coin_spend_from(ls: Seq<Leaf>) -> Option<CoinSpendView> {
    if ls.len() != 6 {
        None
    } else {
        match (
            leaf_fixed::<32>(ls[0]),
            leaf_fixed::<32>(ls[1]),
            leaf_u64(ls[2]),
            leaf_bin(ls[3]),
            leaf_bin(ls[4]),
            leaf_fixed::<96>(ls[5]),
        ) {
            (Some(p), Some(ph), Some(amount), Some(puzzle), Some(solution), Some(sig)) => Some(
                CoinSpendView {
                    coin: CoinString { parent: CoinID(p), puzzle_hash: PuzzleHash(ph), amount },
                    puzzle,
                    solution,
                    signature: Aggsig(sig),
                },
            ),
            _ => None,
        }
    }
}

pub open spec fn game_start_schema() -> FlatSchema {
    seq![
        (key_of(Key::GameType), LeafKind::Bin),
        (key_of(Key::MyTurn), LeafKind::Bool),
        (key_of(Key::Parameters), LeafKind::Bin),
    ]
}

pub open spec fn game_start_leaves(g: GameStartView) -> Seq<Leaf> {
    seq![Leaf::Bin(g.game_type), Leaf::Bool(g.my_turn), Leaf::Bin(g.parameters)]
}

pub open spec fn game_start_from(ls: Seq<Leaf>) -> Option<GameStartView> {
    if ls.len() != 3 {
        None
    } else {
        match (leaf_bin(ls[0]), leaf_bool(ls[1]), leaf_bin(ls[2])) {
            (Some(game_type), Some(my_turn), Some(parameters)) => Some(
                GameStartView { game_type, my_turn, parameters },
            ),
            _ => None,
        }
    }
}

pub open spec fn bundle_from(items: Seq<Seq<Leaf>>) -> Option<Seq<CoinSpendView>> {
    if forall|j: int| 0 <= j < items.len() ==> (#[trigger] coin_spend_from(items[j])) is Some {
        Some(Seq::new(items.len(), |j: int| coin_spend_from(items[j])->0))
    } else {
        None
    }
}

pub open spec fn games_from(items: Seq<Seq<Leaf>>) -> Option<Seq<GameStartView>> {
    if forall|j: int| 0 <= j < items.len() ==> (#[trigger] game_start_from(items[j])) is Some {
        Some(Seq::new(items.len(), |j: int| game_start_from(items[j])->0))
    } else {
        None
    }
}

/// The number that names each kind of message on the wire.
pub open spec fn tag_of(m: MessageView) -> u64 {
    match m {
        MessageView::HandshakeA(_) => 0,
        MessageView::HandshakeB(_) => 1,
        MessageView::HandshakeE { .. } => 2,
        MessageView::HandshakeF { .. } => 3,
        MessageView::Nil(_) => 4,
        MessageView::StartGames(_) => 5,
        MessageView::Move(..) => 6,
        MessageView::Accept(..) => 7,
        MessageView::Shutdown(_) => 8,
        MessageView::RequestPotato => 9,
    }
}

pub open spec fn bin_field(k: Key) -> (Seq<u8>, Kind) {
    (key_of(k), Kind::Leaf(LeafKind::Bin))
}

/// The layout of the fields of each kind of message; the first is its tag.
#[verifier::opaque]
pub open spec fn schema_of(t: u64) -> Schema {
    let tag = (key_of(Key::Tag), Kind::Leaf(LeafKind::U64));
    if t == 0 {
        seq![
            tag,
            bin_field(Key::ParentCoin),
            bin_field(Key::ParentPuzzleHash),
            (key_of(Key::ParentAmount), Kind::Leaf(LeafKind::U64)),
            bin_field(Key::ChannelPublicKey),
            bin_field(Key::UnrollPublicKey),
            bin_field(Key::RewardPuzzleHash),
            bin_field(Key::RefereePuzzleHash),
        ]
    } else if t == 1 {
        seq![
            tag,
            bin_field(Key::ChannelPublicKey),
            bin_field(Key::UnrollPublicKey),
            bin_field(Key::RewardPuzzleHash),
            bin_field(Key::RefereePuzzleHash),
        ]
    } else if t == 2 || t == 3 {
        seq![tag, (key_of(Key::Bundle), Kind::Arr(coin_spend_schema()))]
    } else if t == 4 {
        seq![tag, bin_field(Key::ChannelSig), bin_field(Key::UnrollSig)]
    } else if t == 5 {
        seq![tag, (key_of(Key::Games), Kind::Arr(game_start_schema()))]
    } else if t == 6 {
        seq![
            tag,
            bin_field(Key::GameId),
            bin_field(Key::Readable),
            bin_field(Key::ChannelSig),
            bin_field(Key::UnrollSig),
        ]
    } else if t == 7 {
        seq![tag, bin_field(Key::GameId), bin_field(Key::ChannelSig), bin_field(Key::UnrollSig)]
    } else if t == 8 {
        seq![tag, bin_field(Key::Signature)]
    } else {
        seq![tag]
    }
}

/// The fields a message is written as.
#[verifier::opaque]
pub open spec fn fields_of(m: MessageView) -> Seq<Field> {
    let tag = fu64(tag_of(m));
    match m {
        MessageView::HandshakeA(a) => seq![
            tag,
            fbin(a.parent.parent.0@),
            fbin(a.parent.puzzle_hash.0@),
            fu64(a.parent.amount),
            fbin(a.channel_public_key.0@),
            fbin(a.unroll_public_key.0@),
            fbin(a.reward_puzzle_hash.0@),
            fbin(a.referee_puzzle_hash.0@),
        ],
        MessageView::HandshakeB(b) => seq![
            tag,
            fbin(b.channel_public_key.0@),
            fbin(b.unroll_public_key.0@),
            fbin(b.reward_puzzle_hash.0@),
            fbin(b.referee_puzzle_hash.0@),
        ],
        MessageView::HandshakeE { bundle } => seq![
            tag,
            Field::Arr(bundle.map_values(|c: CoinSpendView| coin_spend_leaves(c))),
        ],
        MessageView::HandshakeF { bundle } => seq![
            tag,
            Field::Arr(bundle.map_values(|c: CoinSpendView| coin_spend_leaves(c))),
        ],
        MessageView::Nil(s) => seq![
            tag,
            fbin(s.my_channel_half_signature_peer.0@),
            fbin(s.my_unroll_half_signature_peer.0@),
        ],
        MessageView::StartGames(g) => seq![
            tag,
            Field::Arr(g.map_values(|x: GameStartView| game_start_leaves(x))),
        ],
        MessageView::Move(id, r, s) => seq![
            tag,
            fbin(id.0@),
            fbin(r),
            fbin(s.my_channel_half_signature_peer.0@),
            fbin(s.my_unroll_half_signature_peer.0@),
        ],
        MessageView::Accept(id, s) => seq![
            tag,
            fbin(id.0@),
            fbin(s.my_channel_half_signature_peer.0@),
            fbin(s.my_unroll_half_signature_peer.0@),
        ],
        MessageView::Shutdown(s) => seq![tag, fbin(s.0@)],
        MessageView::RequestPotato => seq![tag],
    }
}

pub open spec fn sigs_from(a: Field, b: Field) -> Option<PotatoSignatures> {
    match (leaf_fixed::<96>(field_leaf(a)), leaf_fixed::<96>(field_leaf(b))) {
        (Some(x), Some(y)) => Some(
            PotatoSignatures {
                my_channel_half_signature_peer: Aggsig(x),
                my_unroll_half_signature_peer: Aggsig(y),
            },
        ),
        _ => None,
    }
}

/// The message that fields read under tag `t` stand for, if any.
#[verifier::opaque]
pub open spec fn from_fields(t: u64, fs: Seq<Field>) -> Option<MessageView> {
    if fs.len() != schema_of(t).len() {
        None
    } else if t == 0 {
        match (
            leaf_fixed::<32>(field_leaf(fs[1])),
            leaf_fixed::<32>(field_leaf(fs[2])),
            leaf_u64(field_leaf(fs[3])),
            leaf_fixed::<48>(field_leaf(fs[4])),
            leaf_fixed::<48>(field_leaf(fs[5])),
            leaf_fixed::<32>(field_leaf(fs[6])),
            leaf_fixed::<32>(field_leaf(fs[7])),
        ) {
            (Some(p), Some(ph), Some(amount), Some(ck), Some(uk), Some(rw), Some(rf)) => Some(
                MessageView::HandshakeA(
                    HandshakeA {
                        parent: CoinString {
                            parent: CoinID(p),
                            puzzle_hash: PuzzleHash(ph),
                            amount,
                        },
                        channel_public_key: PublicKey(ck),
                        unroll_public_key: PublicKey(uk),
                        reward_puzzle_hash: PuzzleHash(rw),
                        referee_puzzle_hash: PuzzleHash(rf),
                    },
                ),
            ),
            _ => None,
        }
    } else if t == 1 {
        match (
            leaf_fixed::<48>(field_leaf(fs[1])),
            leaf_fixed::<48>(field_leaf(fs[2])),
            leaf_fixed::<32>(field_leaf(fs[3])),
            leaf_fixed::<32>(field_leaf(fs[4])),
        ) {
            (Some(ck), Some(uk), Some(rw), Some(rf)) => Some(
                MessageView::HandshakeB(
                    HandshakeB {
                        channel_public_key: PublicKey(ck),
                        unroll_public_key: PublicKey(uk),
                        reward_puzzle_hash: PuzzleHash(rw),
                        referee_puzzle_hash: PuzzleHash(rf),
                    },
                ),
            ),
            _ => None,
        }
    } else if t == 2 || t == 3 {
        match field_items(fs[1]) {
            Some(items) => match bundle_from(items) {
                Some(bundle) => if t == 2 {
                    Some(MessageView::HandshakeE { bundle })
                } else {
                    Some(MessageView::HandshakeF { bundle })
                },
                None => None,
            },
            None => None,
        }
    } else if t == 4 {
        match sigs_from(fs[1], fs[2]) {
            Some(s) => Some(MessageView::Nil(s)),
            None => None,
        }
    } else if t == 5 {
        match field_items(fs[1]) {
            Some(items) => match games_from(items) {
                Some(g) => Some(MessageView::StartGames(g)),
                None => None,
            },
            None => None,
        }
    } else if t == 6 {
        match (leaf_fixed::<32>(field_leaf(fs[1])), leaf_bin(field_leaf(fs[2])), sigs_from(fs[3], fs[4])) {
            (Some(id), Some(r), Some(s)) => Some(MessageView::Move(GameID(id), r, s)),
            _ => None,
        }
    } else if t == 7 {
        match (leaf_fixed::<32>(field_leaf(fs[1])), sigs_from(fs[2], fs[3])) {
            (Some(id), Some(s)) => Some(MessageView::Accept(GameID(id), s)),
            _ => None,
        }
    } else if t == 8 {
        match leaf_fixed::<96>(field_leaf(fs[1])) {
            Some(s) => Some(MessageView::Shutdown(Aggsig(s))),
            None => None,
        }
    } else if t == 9 {
        Some(MessageView::RequestPotato)
    } else {
        None
    }
}

/// The bytes of a message on the wire.
pub open spec fn encode_spec(m: MessageView) -> Seq<u8> {
    enc_record(key_of(Key::Name), schema_of(tag_of(m)), fields_of(m))
}

/// Where the tag of a message stands in its bytes.
pub open spec fn tag_pos() -> int {
    4 + key_of(Key::Name).len() as int + 2 + 4
}

/// The message that some bytes spell, if any.
pub open spec fn decode_spec(s: Seq<u8>) -> Option<MessageView> {
    if s.len() >= MAX_DOC {
        None
    } else {
        match p_leaf(s, tag_pos(), key_of(Key::Tag), LeafKind::U64) {
            Some((Leaf::U64(t), _)) => if t < 10 {
                match p_record(s, key_of(Key::Name), schema_of(t)) {
                    Some(fs) => if fs[0] == fu64(t) {
                        from_fields(t, fs)
                    } else {
                        None
                    },
                    None => None,
                }
            } else {
                None
            },
            _ => None,
        }
    }
}

proof fn lemma_coin_spend(c: CoinSpendView)
    ensures
        coin_spend_from(coin_spend_leaves(c)) == Some(c),
        leaves_fit(coin_spend_leaves(c), coin_spend_schema()),
{
    lemma_arr_of(c.coin.parent.0);
    lemma_arr_of(c.coin.puzzle_hash.0);
    lemma_arr_of(c.signature.0);
}

proof fn lemma_game_start(g: GameStartView)
    ensures
        game_start_from(game_start_leaves(g)) == Some(g),
        leaves_fit(game_start_leaves(g), game_start_schema()),
{
}

proof fn lemma_bundle(bundle: Seq<CoinSpendView>)
    ensures
        bundle_from(bundle.map_values(|c: CoinSpendView| coin_spend_leaves(c))) == Some(bundle),
        items_fit(bundle.map_values(|c: CoinSpendView| coin_spend_leaves(c)), coin_spend_schema()),
{
    let items = bundle.map_values(|c: CoinSpendView| coin_spend_leaves(c));
    assert forall|j: int| 0 <= j < items.len() implies (#[trigger] coin_spend_from(items[j])) is Some
        && coin_spend_from(items[j])->0 == bundle[j] && leaves_fit(items[j], coin_spend_schema()) by {
        lemma_coin_spend(bundle[j]);
    }
    assert(Seq::new(items.len(), |j: int| coin_spend_from(items[j])->0) =~= bundle);
}

proof fn lemma_games(g: Seq<GameStartView>)
    ensures
        games_from(g.map_values(|x: GameStartView| game_start_leaves(x))) == Some(g),
        items_fit(g.map_values(|x: GameStartView| game_start_leaves(x)), game_start_schema()),
{
    let items = g.map_values(|x: GameStartView| game_start_leaves(x));
    assert forall|j: int| 0 <= j < items.len() implies (#[trigger] game_start_from(items[j])) is Some
        && game_start_from(items[j])->0 == g[j] && leaves_fit(items[j], game_start_schema()) by {
        lemma_game_start(g[j]);
    }
    assert(Seq::new(items.len(), |j: int| game_start_from(items[j])->0) =~= g);
}

proof fn lemma_sigs(s: PotatoSignatures)
    ensures
        sigs_from(fbin(s.my_channel_half_signature_peer.0@), fbin(s.my_unroll_half_signature_peer.0@))
            == Some(s),
{
    lemma_arr_of(s.my_channel_half_signature_peer.0);
    lemma_arr_of(s.my_unroll_half_signature_peer.0);
}

proof fn lemma_message_fields(m: MessageView)
    ensures
        fields_fit(fields_of(m), schema_of(tag_of(m))),
        from_fields(tag_of(m), fields_of(m)) == Some(m),
        fields_of(m).len() >= 1,
        fields_of(m)[0] == fu64(tag_of(m)),
        schema_of(tag_of(m))[0] == (key_of(Key::Tag), Kind::Leaf(LeafKind::U64)),
        tag_of(m) < 10,
{
    reveal(schema_of);
    reveal(fields_of);
    reveal(from_fields);
    let fs = fields_of(m);
    let sch = schema_of(tag_of(m));
    match m {
        MessageView::HandshakeA(a) => {
            lemma_arr_of(a.parent.parent.0);
            lemma_arr_of(a.parent.puzzle_hash.0);
            lemma_arr_of(a.channel_public_key.0);
            lemma_arr_of(a.unroll_public_key.0);
            lemma_arr_of(a.reward_puzzle_hash.0);
            lemma_arr_of(a.referee_puzzle_hash.0);
        },
        MessageView::HandshakeB(b) => {
            lemma_arr_of(b.channel_public_key.0);
            lemma_arr_of(b.unroll_public_key.0);
            lemma_arr_of(b.reward_puzzle_hash.0);
            lemma_arr_of(b.referee_puzzle_hash.0);
        },
        MessageView::HandshakeE { bundle } => {
            lemma_bundle(bundle);
        },
        MessageView::HandshakeF { bundle } => {
            lemma_bundle(bundle);
        },
        MessageView::Nil(s) => {
            lemma_sigs(s);
        },
        MessageView::StartGames(g) => {
            lemma_games(g);
        },
        MessageView::Move(id, r, s) => {
            lemma_arr_of(id.0);
            lemma_sigs(s);
        },
        MessageView::Accept(id, s) => {
            lemma_arr_of(id.0);
            lemma_sigs(s);
        },
        MessageView::Shutdown(s) => {
            lemma_arr_of(s.0);
        },
        MessageView::RequestPotato => {},
    }
    assert(fields_fit(fs, sch));
}

proof fn lemma_tag_read(m: MessageView)
    requires
        encode_spec(m).len() < MAX_DOC,
    ensures
        p_leaf(encode_spec(m), tag_pos(), key_of(Key::Tag), LeafKind::U64) matches Some(
            (Leaf::U64(x), _),
        ) && x == tag_of(m),
        p_record(encode_spec(m), key_of(Key::Name), schema_of(tag_of(m))) == Some(fields_of(m)),
{
    let t = tag_of(m);
    let sch = schema_of(t);
    let fs = fields_of(m);
    let s = encode_spec(m);
    lemma_message_fields(m);
    lemma_record_round_trip(key_of(Key::Name), sch, fs);
    let e0 = enc_field(sch[0].0, sch[0].1, fs[0]);
    assert(enc_fields(sch, fs, 0) == e0 + enc_fields(sch, fs, 1));
    assert(tag_pos() == 4 + key_of(Key::Name).len() as int + 2 + 4);
    lemma_at_split(s, tag_pos(), e0, enc_fields(sch, fs, 1));
    assert(e0 == enc_leaf(key_of(Key::Tag), Leaf::U64(t)));
    lemma_leaf(s, tag_pos(), key_of(Key::Tag), Leaf::U64(t), LeafKind::U64);
}

/// The wire envelope round-trips: reading back the bytes that a message is
/// written as gives that message, for every message whose encoding fits in a
/// document.
pub proof fn lemma_envelope_round_trip(m: MessageView)
    requires
        encode_spec(m).len() < MAX_DOC,
    ensures
        decode_spec(encode_spec(m)) == Some(m),
{
    lemma_message_fields(m);
    lemma_tag_read(m);
}

fn arr_bytes<const N: usize>(a: &[u8; N]) -> (r: Vec<u8>)
    ensures
        r@ == a@,
{
    let mut v: Vec<u8> = Vec::new();
    let mut i: usize = 0;
    while i < N
        invariant
            i <= N,
            a@.len() == N,
            v@ == a@.subrange(0, i as int),
        decreases N - i,
    {
        v.push(a[i]);
        i = i + 1;
        assert(v@ =~= a@.subrange(0, i as int));
    }
    assert(a@.subrange(0, N as int) =~= a@);
    v
}

fn bin_leaf<const N: usize>(a: &[u8; N]) -> (r: ELeaf)
    ensures
        r@ == Leaf::Bin(a@),
{
    ELeaf::Bin(arr_bytes(a))
}

fn bin<const N: usize>(a: &[u8; N]) -> (r: EField)
    ensures
        r@ == fbin(a@),
{
    EField::Leaf(bin_leaf(a))
}

fn flat_schema_exec(keys: Vec<(Key, LeafKind)>) -> (r: Vec<(Vec<u8>, LeafKind)>)
    ensures
        r@.len() == keys@.len(),
        forall|i: int|
            0 <= i < keys@.len() ==> (#[trigger] r@[i]).0@ == key_of(keys@[i].0) && r@[i].1
                == keys@[i].1,
{
    let mut out: Vec<(Vec<u8>, LeafKind)> = Vec::new();
    let mut i: usize = 0;
    while i < keys.len()
        invariant
            i <= keys.len(),
            out@.len() == i,
            forall|j: int|
                0 <= j < i ==> (#[trigger] out@[j]).0@ == key_of(keys@[j].0) && out@[j].1
                    == keys@[j].1,
        decreases keys.len() - i,
    {
        let (key, kind) = keys[i];
        let k = key_exec(key);
        out.push((k, kind));
        i = i + 1;
    }
    out
}

fn coin_spend_schema_exec() -> (r: Vec<(Vec<u8>, LeafKind)>)
    ensures
        crate::wire::flat_view(r@) == coin_spend_schema(),
{
    let r = flat_schema_exec(vec![
        (Key::CoinParent, LeafKind::Bin),
        (Key::CoinPuzzleHash, LeafKind::Bin),
        (Key::CoinAmount, LeafKind::U64),
        (Key::Puzzle, LeafKind::Bin),
        (Key::Solution, LeafKind::Bin),
        (Key::Signature, LeafKind::Bin),
    ]);
    assert(crate::wire::flat_view(r@) =~= coin_spend_schema());
    r
}

fn game_start_schema_exec() -> (r: Vec<(Vec<u8>, LeafKind)>)
    ensures
        crate::wire::flat_view(r@) == game_start_schema(),
{
    let r = flat_schema_exec(vec![
        (Key::GameType, LeafKind::Bin),
        (Key::MyTurn, LeafKind::Bool),
        (Key::Parameters, LeafKind::Bin),
    ]);
    assert(crate::wire::flat_view(r@) =~= game_start_schema());
    r
}

fn leaf_kind(k: Key, lk: LeafKind) -> (r: (Vec<u8>, EKind))
    ensures
        r.0@ == key_of(k),
        r.1@ == Kind::Leaf(lk),
{
    (key_exec(k), EKind::Leaf(lk))
}

/// The layout of the fields of a kind of message.
fn schema_exec(t: u64) -> (r: Vec<(Vec<u8>, EKind)>)
    ensures
        schema_view(r@) == schema_of(t),
{
    reveal(schema_of);
    let mut v: Vec<(Vec<u8>, EKind)> = Vec::new();
    v.push(leaf_kind(Key::Tag, LeafKind::U64));
    if t == 0 {
        v.push(leaf_kind(Key::ParentCoin, LeafKind::Bin));
        v.push(leaf_kind(Key::ParentPuzzleHash, LeafKind::Bin));
        v.push(leaf_kind(Key::ParentAmount, LeafKind::U64));
        v.push(leaf_kind(Key::ChannelPublicKey, LeafKind::Bin));
        v.push(leaf_kind(Key::UnrollPublicKey, LeafKind::Bin));
        v.push(leaf_kind(Key::RewardPuzzleHash, LeafKind::Bin));
        v.push(leaf_kind(Key::RefereePuzzleHash, LeafKind::Bin));
    } else if t == 1 {
        v.push(leaf_kind(Key::ChannelPublicKey, LeafKind::Bin));
        v.push(leaf_kind(Key::UnrollPublicKey, LeafKind::Bin));
        v.push(leaf_kind(Key::RewardPuzzleHash, LeafKind::Bin));
        v.push(leaf_kind(Key::RefereePuzzleHash, LeafKind::Bin));
    } else if t == 2 || t == 3 {
        v.push((key_exec(Key::Bundle), EKind::Arr(coin_spend_schema_exec())));
    } else if t == 4 {
        v.push(leaf_kind(Key::ChannelSig, LeafKind::Bin));
        v.push(leaf_kind(Key::UnrollSig, LeafKind::Bin));
    } else if t == 5 {
        v.push((key_exec(Key::Games), EKind::Arr(game_start_schema_exec())));
    } else if t == 6 {
        v.push(leaf_kind(Key::GameId, LeafKind::Bin));
        v.push(leaf_kind(Key::Readable, LeafKind::Bin));
        v.push(leaf_kind(Key::ChannelSig, LeafKind::Bin));
        v.push(leaf_kind(Key::UnrollSig, LeafKind::Bin));
    } else if t == 7 {
        v.push(leaf_kind(Key::GameId, LeafKind::Bin));
        v.push(leaf_kind(Key::ChannelSig, LeafKind::Bin));
        v.push(leaf_kind(Key::UnrollSig, LeafKind::Bin));
    } else if t == 8 {
        v.push(leaf_kind(Key::Signature, LeafKind::Bin));
    }
    assert(schema_view(v@) =~= schema_of(t));
    v
}

fn coin_spend_leaves_exec(c: &CoinSpend) -> (r: Vec<ELeaf>)
    ensures
        leaves_view(r@) == coin_spend_leaves(c@),
{
    let mut v: Vec<ELeaf> = Vec::new();
    v.push(bin_leaf(&c.coin.parent.0));
    v.push(bin_leaf(&c.coin.puzzle_hash.0));
    v.push(ELeaf::U64(c.coin.amount));
    v.push(ELeaf::Bin(c.puzzle.clone()));
    v.push(ELeaf::Bin(c.solution.clone()));
    v.push(bin_leaf(&c.signature.0));
    assert(leaves_view(v@) =~= coin_spend_leaves(c@));
    v
}

fn bundle_field(b: &SpendBundle) -> (r: EField)
    ensures
        r@ == Field::Arr(b@.map_values(|c: CoinSpendView| coin_spend_leaves(c))),
{
    let mut items: Vec<Vec<ELeaf>> = Vec::new();
    let mut i: usize = 0;
    while i < b.spends.len()
        invariant
            i <= b.spends.len(),
            items@.len() == i,
            forall|j: int| 0 <= j < i ==> #[trigger] leaves_view(items@[j]@) == coin_spend_leaves(
                b.spends@[j]@,
            ),
        decreases b.spends.len() - i,
    {
        items.push(coin_spend_leaves_exec(&b.spends[i]));
        i = i + 1;
    }
    assert(items_view(items@) =~= b@.map_values(|c: CoinSpendView| coin_spend_leaves(c)));
    EField::Arr(items)
}

fn games_field(g: &Vec<GameStart>) -> (r: EField)
    ensures
        r@ == Field::Arr(games_view(g@).map_values(|x: GameStartView| game_start_leaves(x))),
{
    let mut items: Vec<Vec<ELeaf>> = Vec::new();
    let mut i: usize = 0;
    while i < g.len()
        invariant
            i <= g.len(),
            items@.len() == i,
            forall|j: int| 0 <= j < i ==> #[trigger] leaves_view(items@[j]@) == game_start_leaves(
                g@[j]@,
            ),
        decreases g.len() - i,
    {
        let mut v: Vec<ELeaf> = Vec::new();
        v.push(ELeaf::Bin(g[i].game_type.0.clone()));
        v.push(ELeaf::Bool(g[i].my_turn));
        v.push(ELeaf::Bin(g[i].parameters.clone()));
        assert(leaves_view(v@) =~= game_start_leaves(g@[i as int]@));
        items.push(v);
        i = i + 1;
    }
    assert(items_view(items@) =~= games_view(g@).map_values(
        |x: GameStartView| game_start_leaves(x),
    ));
    EField::Arr(items)
}

fn message_fields(m: &PeerMessage) -> (r: (u64, Vec<EField>))
    ensures
        r.0 == tag_of(m@),
        fields_view(r.1@) == fields_of(m@),
{
    reveal(fields_of);
    let mut v: Vec<EField> = Vec::new();
    let t: u64 = match m {
        PeerMessage::HandshakeA(_) => 0,
        PeerMessage::HandshakeB(_) => 1,
        PeerMessage::HandshakeE { .. } => 2,
        PeerMessage::HandshakeF { .. } => 3,
        PeerMessage::Nil(_) => 4,
        PeerMessage::StartGames(_) => 5,
        PeerMessage::Move(..) => 6,
        PeerMessage::Accept(..) => 7,
        PeerMessage::Shutdown(_) => 8,
        PeerMessage::RequestPotato => 9,
    };
    v.push(EField::Leaf(ELeaf::U64(t)));
    match m {
        PeerMessage::HandshakeA(a) => {
            v.push(bin(&a.parent.parent.0));
            v.push(bin(&a.parent.puzzle_hash.0));
            v.push(EField::Leaf(ELeaf::U64(a.parent.amount)));
            v.push(bin(&a.channel_public_key.0));
            v.push(bin(&a.unroll_public_key.0));
            v.push(bin(&a.reward_puzzle_hash.0));
            v.push(bin(&a.referee_puzzle_hash.0));
        },
        PeerMessage::HandshakeB(b) => {
            v.push(bin(&b.channel_public_key.0));
            v.push(bin(&b.unroll_public_key.0));
            v.push(bin(&b.reward_puzzle_hash.0));
            v.push(bin(&b.referee_puzzle_hash.0));
        },
        PeerMessage::HandshakeE { bundle } => {
            v.push(bundle_field(bundle));
        },
        PeerMessage::HandshakeF { bundle } => {
            v.push(bundle_field(bundle));
        },
        PeerMessage::Nil(s) => {
            v.push(bin(&s.my_channel_half_signature_peer.0));
            v.push(bin(&s.my_unroll_half_signature_peer.0));
        },
        PeerMessage::StartGames(g) => {
            v.push(games_field(g));
        },
        PeerMessage::Move(id, r, s) => {
            v.push(bin(&id.0));
            v.push(EField::Leaf(ELeaf::Bin(r.clone())));
            v.push(bin(&s.my_channel_half_signature_peer.0));
            v.push(bin(&s.my_unroll_half_signature_peer.0));
        },
        PeerMessage::Accept(id, s) => {
            v.push(bin(&id.0));
            v.push(bin(&s.my_channel_half_signature_peer.0));
            v.push(bin(&s.my_unroll_half_signature_peer.0));
        },
        PeerMessage::Shutdown(s) => {
            v.push(bin(&s.0));
        },
        PeerMessage::RequestPotato => {},
    }
    assert(fields_view(v@) =~= fields_of(m@));
    (t, v)
}

/// Writes a message for the wire: `None` exactly when it is too long for one
/// document.
pub fn encode(m: &PeerMessage) -> (r: Option<Vec<u8>>)
    ensures
        r is Some <==> encode_spec(m@).len() < MAX_DOC,
        r is Some ==> r->0@ == encode_spec(m@),
{
    let (t, fs) = message_fields(m);
    let sch = schema_exec(t);
    let name = key_exec(Key::Name);
    proof {
        lemma_message_fields(m@);
    }
    encode_record(&name, &sch, &fs)
}

fn leaf_fixed_exec<const N: usize>(l: &ELeaf) -> (r: Option<[u8; N]>)
    ensures
        r == leaf_fixed::<N>(l@),
{
    match l {
        ELeaf::Bin(v) => fixed::<N>(v),
        _ => None,
    }
}

fn leaf_bin_exec(l: &ELeaf) -> (r: Option<Vec<u8>>)
    ensures
        match r {
            Some(v) => leaf_bin(l@) == Some(v@),
            None => leaf_bin(l@) is None,
        },
{
    match l {
        ELeaf::Bin(v) => Some(v.clone()),
        _ => None,
    }
}

fn leaf_u64_exec(l: &ELeaf) -> (r: Option<u64>)
    ensures
        r == leaf_u64(l@),
{
    match l {
        ELeaf::U64(n) => Some(*n),
        _ => None,
    }
}

fn leaf_bool_exec(l: &ELeaf) -> (r: Option<bool>)
    ensures
        r == leaf_bool(l@),
{
    match l {
        ELeaf::Bool(b) => Some(*b),
        _ => None,
    }
}

fn field_fixed<const N: usize>(f: &EField) -> (r: Option<[u8; N]>)
    ensures
        r == leaf_fixed::<N>(field_leaf(f@)),
{
    match f {
        EField::Leaf(l) => leaf_fixed_exec::<N>(l),
        _ => None,
    }
}

fn field_bin(f: &EField) -> (r: Option<Vec<u8>>)
    ensures
        match r {
            Some(v) => leaf_bin(field_leaf(f@)) == Some(v@),
            None => leaf_bin(field_leaf(f@)) is None,
        },
{
    match f {
        EField::Leaf(l) => leaf_bin_exec(l),
        _ => None,
    }
}

fn field_u64(f: &EField) -> (r: Option<u64>)
    ensures
        r == leaf_u64(field_leaf(f@)),
{
    match f {
        EField::Leaf(l) => leaf_u64_exec(l),
        _ => None,
    }
}

fn sigs_exec(a: &EField, b: &EField) -> (r: Option<PotatoSignatures>)
    ensures
        r == sigs_from(a@, b@),
{
    match (field_fixed::<96>(a), field_fixed::<96>(b)) {
        (Some(x), Some(y)) => Some(
            PotatoSignatures {
                my_channel_half_signature_peer: Aggsig(x),
                my_unroll_half_signature_peer: Aggsig(y),
            },
        ),
        _ => None,
    }
}

fn coin_spend_exec(ls: &Vec<ELeaf>) -> (r: Option<CoinSpend>)
    ensures
        match r {
            Some(c) => coin_spend_from(leaves_view(ls@)) == Some(c@),
            None => coin_spend_from(leaves_view(ls@)) is None,
        },
{
    if ls.len() != 6 {
        return None;
    }
    match (
        leaf_fixed_exec::<32>(&ls[0]),
        leaf_fixed_exec::<32>(&ls[1]),
        leaf_u64_exec(&ls[2]),
        leaf_bin_exec(&ls[3]),
        leaf_bin_exec(&ls[4]),
        leaf_fixed_exec::<96>(&ls[5]),
    ) {
        (Some(p), Some(ph), Some(amount), Some(puzzle), Some(solution), Some(sig)) => Some(
            CoinSpend {
                coin: CoinString { parent: CoinID(p), puzzle_hash: PuzzleHash(ph), amount },
                puzzle,
                solution,
                signature: Aggsig(sig),
            },
        ),
        _ => None,
    }
}

fn game_start_exec(ls: &Vec<ELeaf>) -> (r: Option<GameStart>)
    ensures
        match r {
            Some(g) => game_start_from(leaves_view(ls@)) == Some(g@),
            None => game_start_from(leaves_view(ls@)) is None,
        },
{
    if ls.len() != 3 {
        return None;
    }
    match (leaf_bin_exec(&ls[0]), leaf_bool_exec(&ls[1]), leaf_bin_exec(&ls[2])) {
        (Some(game_type), Some(my_turn), Some(parameters)) => Some(
            GameStart { game_type: GameType(game_type), my_turn, parameters },
        ),
        _ => None,
    }
}

fn bundle_exec(items: &Vec<Vec<ELeaf>>) -> (r: Option<SpendBundle>)
    ensures
        match r {
            Some(b) => bundle_from(items_view(items@)) == Some(b@),
            None => bundle_from(items_view(items@)) is None,
        },
{
    let ghost iv = items_view(items@);
    let mut spends: Vec<CoinSpend> = Vec::new();
    let mut i: usize = 0;
    while i < items.len()
        invariant
            i <= items.len(),
            iv == items_view(items@),
            spends@.len() == i,
            forall|j: int|
                0 <= j < i ==> (#[trigger] coin_spend_from(iv[j])) == Some(spends@[j]@),
        decreases items.len() - i,
    {
        match coin_spend_exec(&items[i]) {
            Some(c) => {
                spends.push(c);
            },
            None => {
                assert(coin_spend_from(iv[i as int]) is None);
                return None;
            },
        }
        i = i + 1;
    }
    let b = SpendBundle { spends };
    assert(Seq::new(iv.len(), |j: int| coin_spend_from(iv[j])->0) =~= b@);
    Some(b)
}

fn games_exec(items: &Vec<Vec<ELeaf>>) -> (r: Option<Vec<GameStart>>)
    ensures
        match r {
            Some(g) => games_from(items_view(items@)) == Some(games_view(g@)),
            None => games_from(items_view(items@)) is None,
        },
{
    let ghost iv = items_view(items@);
    let mut games: Vec<GameStart> = Vec::new();
    let mut i: usize = 0;
    while i < items.len()
        invariant
            i <= items.len(),
            iv == items_view(items@),
            games@.len() == i,
            forall|j: int|
                0 <= j < i ==> (#[trigger] game_start_from(iv[j])) == Some(games@[j]@),
        decreases items.len() - i,
    {
        match game_start_exec(&items[i]) {
            Some(g) => {
                games.push(g);
            },
            None => {
                assert(game_start_from(iv[i as int]) is None);
                return None;
            },
        }
        i = i + 1;
    }
    assert(Seq::new(iv.len(), |j: int| game_start_from(iv[j])->0) =~= games_view(games@));
    Some(games)
}

fn field_items_exec(f: &EField) -> (r: Option<&Vec<Vec<ELeaf>>>)
    ensures
        match r {
            Some(items) => field_items(f@) == Some(items_view(items@)),
            None => field_items(f@) is None,
        },
{
    match f {
        EField::Arr(items) => Some(items),
        _ => None,
    }
}

pub open spec fn message_result(r: Option<PeerMessage>) -> Option<MessageView> {
    match r {
        Some(m) => Some(m@),
        None => None,
    }
}

fn from_fields_exec(t: u64, fs: &Vec<EField>) -> (r: Option<PeerMessage>)
    ensures
        message_result(r) == from_fields(t, fields_view(fs@)),
{
    reveal(from_fields);
    reveal(schema_of);
    let ghost fv = fields_view(fs@);
    let n = fs.len();
    if t == 0 {
        if n != 8 {
            return None;
        }
        match (
            field_fixed::<32>(&fs[1]),
            field_fixed::<32>(&fs[2]),
            field_u64(&fs[3]),
            field_fixed::<48>(&fs[4]),
            field_fixed::<48>(&fs[5]),
            field_fixed::<32>(&fs[6]),
            field_fixed::<32>(&fs[7]),
        ) {
            (Some(p), Some(ph), Some(amount), Some(ck), Some(uk), Some(rw), Some(rf)) => Some(
                PeerMessage::HandshakeA(
                    HandshakeA {
                        parent: CoinString {
                            parent: CoinID(p),
                            puzzle_hash: PuzzleHash(ph),
                            amount,
                        },
                        channel_public_key: PublicKey(ck),
                        unroll_public_key: PublicKey(uk),
                        reward_puzzle_hash: PuzzleHash(rw),
                        referee_puzzle_hash: PuzzleHash(rf),
                    },
                ),
            ),
            _ => None,
        }
    } else if t == 1 {
        if n != 5 {
            return None;
        }
        match (
            field_fixed::<48>(&fs[1]),
            field_fixed::<48>(&fs[2]),
            field_fixed::<32>(&fs[3]),
            field_fixed::<32>(&fs[4]),
        ) {
            (Some(ck), Some(uk), Some(rw), Some(rf)) => Some(
                PeerMessage::HandshakeB(
                    HandshakeB {
                        channel_public_key: PublicKey(ck),
                        unroll_public_key: PublicKey(uk),
                        reward_puzzle_hash: PuzzleHash(rw),
                        referee_puzzle_hash: PuzzleHash(rf),
                    },
                ),
            ),
            _ => None,
        }
    } else if t == 2 || t == 3 {
        if n != 2 {
            return None;
        }
        match field_items_exec(&fs[1]) {
            Some(items) => match bundle_exec(items) {
                Some(bundle) => if t == 2 {
                    Some(PeerMessage::HandshakeE { bundle })
                } else {
                    Some(PeerMessage::HandshakeF { bundle })
                },
                None => None,
            },
            None => None,
        }
    } else if t == 4 {
        if n != 3 {
            return None;
        }
        match sigs_exec(&fs[1], &fs[2]) {
            Some(s) => Some(PeerMessage::Nil(s)),
            None => None,
        }
    } else if t == 5 {
        if n != 2 {
            return None;
        }
        match field_items_exec(&fs[1]) {
            Some(items) => match games_exec(items) {
                Some(g) => Some(PeerMessage::StartGames(g)),
                None => None,
            },
            None => None,
        }
    } else if t == 6 {
        if n != 5 {
            return None;
        }
        match (field_fixed::<32>(&fs[1]), field_bin(&fs[2]), sigs_exec(&fs[3], &fs[4])) {
            (Some(id), Some(r), Some(s)) => Some(PeerMessage::Move(GameID(id), r, s)),
            _ => None,
        }
    } else if t == 7 {
        if n != 4 {
            return None;
        }
        match (field_fixed::<32>(&fs[1]), sigs_exec(&fs[2], &fs[3])) {
            (Some(id), Some(s)) => Some(PeerMessage::Accept(GameID(id), s)),
            _ => None,
        }
    } else if t == 8 {
        if n != 2 {
            return None;
        }
        match field_fixed::<96>(&fs[1]) {
            Some(s) => Some(PeerMessage::Shutdown(Aggsig(s))),
            None => None,
        }
    } else if t == 9 {
        if n != 1 {
            return None;
        }
        Some(PeerMessage::RequestPotato)
    } else {
        None
    }
}

/// Reads a message off the wire: the message that `decode_spec` gives, or
/// `WireDecode` when the bytes spell none.
pub fn decode(b: &[u8]) -> (r: Result<PeerMessage, Error>)
    ensures
        match r {
            Ok(m) => decode_spec(b@) == Some(m@),
            Err(e) => e == Error::WireDecode && decode_spec(b@) is None,
        },
{
    if b.len() >= MAX_DOC {
        return Err(Error::WireDecode);
    }
    let tag_key = key_exec(Key::Tag);
    assert(tag_pos() == 21);
    let t = match read_leaf(b, 4 + 11 + 2 + 4, &tag_key, LeafKind::U64) {
        Some((ELeaf::U64(t), _)) => t,
        _ => {
            return Err(Error::WireDecode);
        },
    };
    if t >= 10 {
        return Err(Error::WireDecode);
    }
    let sch = schema_exec(t);
    let name = key_exec(Key::Name);
    let fs = match decode_record(b, &name, &sch) {
        Some(fs) => fs,
        None => {
            return Err(Error::WireDecode);
        },
    };
    proof {
        lemma_record_len(b@, key_of(Key::Name), schema_of(t));
        reveal(schema_of);
    }
    assert(fs@.len() >= 1);
    let first_is_tag = match &fs[0] {
        EField::Leaf(ELeaf::U64(x)) => *x == t,
        _ => false,
    };
    if !first_is_tag {
        return Err(Error::WireDecode);
    }
    match from_fields_exec(t, &fs) {
        Some(m) => Ok(m),
        None => Err(Error::WireDecode),
    }
}

} // verus!
