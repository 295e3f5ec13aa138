use vstd::prelude::*;

use clvm_tools_rs::classic::clvm::__type_compatibility__::{sha256, Bytes, BytesFromType};

use crate::types::{ChannelHandlerPrivateKeys, CoinID, CoinString};

verus! {

/// The SHA-256 digest of a byte string.
pub uninterp spec fn sha256_of(data: Seq<u8>) -> Seq<u8>;

/// Relies on clvm_tools_rs's `sha256`, which returns the SHA-256 digest of the
/// bytes it is given: 32 bytes, a function of the input alone.
#[verifier::external_body]
fn sha256_digest(data: Vec<u8>) -> (r: [u8; 32])
    ensures
        r@ == sha256_of(data@),
{
    let digest = sha256(Bytes::new(Some(BytesFromType::Raw(data))));
    let mut out = [0u8; 32];
    out.copy_from_slice(digest.data());
    out
}

pub(crate) fn append_bytes(v: &mut Vec<u8>, s: &[u8])
    ensures
        final(v)@ == old(v)@ + s@,
{
    let mut i: usize = 0;
    while i < s.len()
        invariant
            i <= s.len(),
            v@ == old(v)@ + s@.subrange(0, i as int),
        decreases s.len() - i,
    {
        v.push(s[i]);
        i = i + 1;
        assert(s@.subrange(0, i as int) == s@.subrange(0, (i - 1) as int).push(s@[i - 1]));
    }
    assert(s@.subrange(0, s@.len() as int) == s@);
}

/// The seed of a peer's game identifiers: the digest of its channel, unroll
/// and referee secret keys, in that order.
pub open spec fn game_id_seed_spec(keys: ChannelHandlerPrivateKeys) -> Seq<u8> {
    sha256_of(
        keys.my_channel_coin_private_key.0@ + keys.my_unroll_coin_private_key.0@
            + keys.my_referee_private_key.0@,
    )
}

pub fn game_id_seed(keys: &ChannelHandlerPrivateKeys) -> (r: [u8; 32])
    ensures
        r@ == game_id_seed_spec(*keys),
{
    let mut data: Vec<u8> = Vec::new();
    append_bytes(&mut data, &keys.my_channel_coin_private_key.0);
    append_bytes(&mut data, &keys.my_unroll_coin_private_key.0);
    append_bytes(&mut data, &keys.my_referee_private_key.0);
    assert(data@ == keys.my_channel_coin_private_key.0@ + keys.my_unroll_coin_private_key.0@
        + keys.my_referee_private_key.0@);
    sha256_digest(data)
}

/// The shortest big-endian bytes of a number, without any sign byte.
pub open spec fn be_bytes(n: nat) -> Seq<u8>
    decreases n,
{
    if n == 0 {
        seq![]
    } else {
        be_bytes(n / 256).push((n % 256) as u8)
    }
}

/// An amount as a CLVM atom: its shortest big-endian bytes, behind a zero
/// byte when the top bit would otherwise read as a sign.
pub open spec fn amount_atom(n: u64) -> Seq<u8> {
    let b = be_bytes(n as nat);
    if b.len() > 0 && b[0] >= 128 {
        seq![0u8] + b
    } else {
        b
    }
}

fn be_bytes_exec(n: u64) -> (r: Vec<u8>)
    ensures
        r@ == be_bytes(n as nat),
    decreases n,
{
    if n == 0 {
        Vec::new()
    } else {
        let mut v = be_bytes_exec(n / 256);
        v.push((n % 256) as u8);
        v
    }
}

pub fn amount_atom_exec(n: u64) -> (r: Vec<u8>)
    ensures
        r@ == amount_atom(n),
{
    let b = be_bytes_exec(n);
    if b.len() > 0 && b[0] >= 128 {
        let mut r: Vec<u8> = Vec::new();
        r.push(0u8);
        append_bytes(&mut r, b.as_slice());
        assert(r@ == seq![0u8] + b@);
        r
    } else {
        b
    }
}

/// The identifier of a coin: the digest of its parent, its puzzle hash and its
/// amount as a CLVM atom.
pub open spec fn coin_id_spec(c: CoinString) -> Seq<u8> {
    sha256_of(c.parent.0@ + c.puzzle_hash.0@ + amount_atom(c.amount))
}

pub fn coin_id(c: &CoinString) -> (r: CoinID)
    ensures
        r.0@ == coin_id_spec(*c),
{
    let mut data: Vec<u8> = Vec::new();
    append_bytes(&mut data, &c.parent.0);
    append_bytes(&mut data, &c.puzzle_hash.0);
    let a = amount_atom_exec(c.amount);
    append_bytes(&mut data, a.as_slice());
    CoinID(sha256_digest(data))
}

} // verus!
