use vstd::prelude::*;

use crate::types::GameID;

verus! {

/// `256^n`.
pub open spec fn pow256(n: nat) -> nat
    decreases n,
{
    if n == 0 {
        1
    } else {
        256 * pow256((n - 1) as nat)
    }
}

/// The number of distinct 32-byte counters.
pub open spec fn id_space() -> nat {
    pow256(32)
}

/// The value of bytes read as a little-endian number.
pub open spec fn le_value(s: Seq<u8>) -> nat
    decreases s.len(),
{
    if s.len() == 0 {
        0
    } else {
        s[0] as nat + 256 * le_value(s.subrange(1, s.len() as int))
    }
}

proof fn lemma_pow256_positive(n: nat)
    ensures
        pow256(n) >= 1,
    decreases n,
{
    if n > 0 {
        lemma_pow256_positive((n - 1) as nat);
    }
}

proof fn lemma_le_value_bound(s: Seq<u8>)
    ensures
        le_value(s) < pow256(s.len()),
    decreases s.len(),
{
    if s.len() > 0 {
        let rest = s.subrange(1, s.len() as int);
        lemma_le_value_bound(rest);
        let r = le_value(rest);
        let p = pow256(rest.len());
        assert(s[0] as nat + 256 * r < 256 * p) by (nonlinear_arith)
            requires
                r < p,
                s[0] < 256,
        ;
    }
}

proof fn lemma_le_value_update(s: Seq<u8>, i: int, v: u8)
    requires
        0 <= i < s.len(),
    ensures
        le_value(s.update(i, v)) as int == le_value(s) as int + (v as int - s[i] as int) * pow256(
            i as nat,
        ) as int,
    decreases s.len(),
{
    let t = s.update(i, v);
    let rest = s.subrange(1, s.len() as int);
    let trest = t.subrange(1, t.len() as int);
    assert(le_value(t) == t[0] as nat + 256 * le_value(trest));
    assert(le_value(s) == s[0] as nat + 256 * le_value(rest));
    if i == 0 {
        assert(trest =~= rest);
        assert(pow256(0) == 1);
        let d = (v as int - s[i] as int);
        assert(d * pow256(0) as int == d) by (nonlinear_arith)
            requires
                pow256(0) == 1,
        ;
        assert(t[0] == v);
    } else {
        assert(trest =~= rest.update(i - 1, v));
        lemma_le_value_update(rest, i - 1, v);
        let d = (v as int - s[i] as int);
        let p = pow256((i - 1) as nat) as int;
        assert(rest[i - 1] == s[i]);
        assert(pow256(i as nat) == 256 * pow256((i - 1) as nat));
        assert(le_value(trest) == le_value(rest.update(i - 1, v)));
        assert(t[0] == s[0]);
        assert(256 * (le_value(rest) as int + d * p) == 256 * le_value(rest) as int + d * (256
            * p)) by (nonlinear_arith);
        assert(d * (256 * p) == d * pow256(i as nat) as int);
    }
}

/// Adds one to a little-endian 32-byte counter, wrapping to zero after the
/// largest value.
fn increment_le(c: &mut [u8; 32])
    ensures
        le_value(final(c)@) == (le_value(old(c)@) + 1) % id_space(),
{
    let ghost start = le_value(c@);
    let mut i: usize = 0;
    let mut carry = true;
    while carry && i < 32
        invariant
            i <= 32,
            c@.len() == 32,
            le_value(c@) + (if carry {
                pow256(i as nat)
            } else {
                0
            }) == start + 1,
        decreases 32 - i,
    {
        let b = c[i];
        let ghost before = c@;
        let ghost p = pow256(i as nat) as int;
        if b == 255 {
            c[i] = 0;
            proof {
                assert(c@ == before.update(i as int, 0u8));
                lemma_le_value_update(before, i as int, 0u8);
                assert((0u8 as int - before[i as int] as int) * p == -255 * p) by (nonlinear_arith)
                    requires
                        before[i as int] == 255,
                ;
                assert(pow256((i + 1) as nat) == 256 * pow256(i as nat));
            }
        } else {
            c[i] = b + 1;
            proof {
                assert(c@ == before.update(i as int, (b + 1) as u8));
                lemma_le_value_update(before, i as int, (b + 1) as u8);
                assert(((b + 1) as u8 as int - before[i as int] as int) * p == p) by (nonlinear_arith)
                    requires
                        before[i as int] == b,
                        b < 255,
                ;
            }
            carry = false;
        }
        i = i + 1;
    }
    proof {
        lemma_le_value_bound(c@);
        lemma_le_value_bound(old(c)@);
        vstd::arithmetic::div_mod::lemma_mod_self_0(id_space() as int);
        if carry {
            assert((le_value(c@) + id_space()) % id_space() == le_value(c@)) by {
                vstd::arithmetic::div_mod::lemma_mod_add_multiples_vanish(
                    le_value(c@) as int,
                    id_space() as int,
                );
                vstd::arithmetic::div_mod::lemma_small_mod(le_value(c@), id_space());
            }
        } else {
            vstd::arithmetic::div_mod::lemma_small_mod(le_value(c@), id_space());
        }
    }
}

/// Hands out game identifiers: a 32-byte counter read little-endian, which
/// starts at a seed and grows by one, modulo 2^256, per identifier.
#[derive(Clone, Copy)]
pub struct GameIdAllocator {
    next: Option<[u8; 32]>,
    seed: Ghost<nat>,
    issued: Ghost<nat>,
}

impl GameIdAllocator {
    pub closed spec fn is_seeded(&self) -> bool {
        self.next is Some
    }

    /// The value of the first identifier handed out.
    pub closed spec fn seed(&self) -> nat {
        self.seed@
    }

    /// How many identifiers have been handed out since seeding.
    pub closed spec fn issued(&self) -> nat {
        self.issued@
    }

    /// The bytes of the identifier that comes next.
    pub closed spec fn next_bytes(&self) -> Seq<u8> {
        self.next->0@
    }

    pub closed spec fn wf(&self) -> bool {
        &&& self.seed@ < id_space()
        &&& self.is_seeded() ==> le_value(self.next->0@) == (self.seed@ + self.issued@) % id_space()
        &&& !self.is_seeded() ==> self.issued@ == 0
    }

    pub fn unseeded() -> (r: GameIdAllocator)
        ensures
            r.wf(),
            !r.is_seeded(),
            r.issued() == 0,
    {
        proof {
            lemma_pow256_positive(32);
        }
        GameIdAllocator { next: None, seed: Ghost(0), issued: Ghost(0) }
    }

    pub fn seeded(seed: [u8; 32]) -> (r: GameIdAllocator)
        ensures
            r.wf(),
            r.is_seeded(),
            r.seed() == le_value(seed@),
            r.next_bytes() == seed@,
            r.issued() == 0,
    {
        proof {
            lemma_le_value_bound(seed@);
            vstd::arithmetic::div_mod::lemma_small_mod(le_value(seed@), id_space());
        }
        GameIdAllocator { next: Some(seed), seed: Ghost(le_value(seed@)), issued: Ghost(0) }
    }

    pub fn is_ready(&self) -> (r: bool)
        ensures
            r == self.is_seeded(),
    {
        self.next.is_some()
    }

    /// Returns the current identifier and advances the counter by one; fails
    /// while no seed has been given.
    pub fn next_game_id(&mut self) -> (r: Option<GameID>)
        requires
            old(self).wf(),
        ensures
            final(self).wf(),
            r is Some <==> old(self).is_seeded(),
            final(self).is_seeded() == old(self).is_seeded(),
            final(self).seed() == old(self).seed(),
            r is Some ==> {
                let id = r->0;
                &&& id.0@ == old(self).next_bytes()
                &&& le_value(id.0@) == (old(self).seed() + old(self).issued()) % id_space()
                &&& final(self).issued() == old(self).issued() + 1
                &&& le_value(final(self).next_bytes()) == (le_value(old(self).next_bytes()) + 1)
                    % id_space()
            },
            r is None ==> final(self).issued() == old(self).issued(),
    {
        match self.next {
            None => None,
            Some(current) => {
                let mut c = current;
                increment_le(&mut c);
                proof {
                    let s = self.seed@;
                    let k = self.issued@;
                    let p = id_space() as int;
                    lemma_pow256_positive(32);
                    vstd::arithmetic::div_mod::lemma_add_mod_noop((s + k) as int, 1, p);
                    vstd::arithmetic::div_mod::lemma_small_mod(1, id_space());
                    assert(pow256(32) > 1) by {
                        reveal_with_fuel(pow256, 2);
                        lemma_pow256_positive(31);
                    }
                    vstd::arithmetic::div_mod::lemma_add_mod_noop(
                        le_value(current@) as int,
                        1,
                        p,
                    );
                }
                self.next = Some(c);
                self.issued = Ghost(self.issued@ + 1);
                Some(GameID(current))
            },
        }
    }
}

impl GameIdAllocator {
    /// Hands out `n` identifiers in a row; fails while no seed has been given.
    pub fn next_game_ids(&mut self, n: usize) -> (r: Option<Vec<GameID>>)
        requires
            old(self).wf(),
        ensures
            final(self).wf(),
            r is Some <==> old(self).is_seeded(),
            final(self).is_seeded() == old(self).is_seeded(),
            final(self).seed() == old(self).seed(),
            r is None ==> final(self).issued() == old(self).issued(),
            r is Some ==> {
                let ids = r->0@;
                &&& final(self).issued() == old(self).issued() + n
                &&& ids.len() == n
                &&& forall|k: int|
                    0 <= k < n ==> le_value(#[trigger] ids[k].0@) == (old(self).seed()
                        + old(self).issued() + k) % (id_space() as int)
                &&& n > 0 ==> ids[0].0@ == old(self).next_bytes()
            },
    {
        if !self.is_ready() {
            return None;
        }
        let mut ids: Vec<GameID> = Vec::new();
        let mut i: usize = 0;
        while i < n
            invariant
                i <= n,
                ids@.len() == i,
                self.wf(),
                self.is_seeded(),
                self.seed() == old(self).seed(),
                self.issued() == old(self).issued() + i,
                forall|k: int|
                    0 <= k < i ==> le_value(#[trigger] ids@[k].0@) == (old(self).seed()
                        + old(self).issued() + k) % (id_space() as int),
                i > 0 ==> ids@[0].0@ == old(self).next_bytes(),
                i == 0 ==> self.next_bytes() == old(self).next_bytes(),
            decreases n - i,
        {
            match self.next_game_id() {
                Some(id) => {
                    ids.push(id);
                },
                None => {
                    return None;
                },
            }
            i = i + 1;
        }
        Some(ids)
    }
}

/// The counter's next identifier is the seed advanced by the number handed
/// out, modulo 2^256.
pub proof fn lemma_next_value(a: GameIdAllocator)
    requires
        a.wf(),
        a.is_seeded(),
    ensures
        le_value(a.next_bytes()) == (a.seed() + a.issued()) % id_space(),
{
}

/// Game identifiers are never repeated: the identifiers handed out at the
/// i-th and the j-th allocation after seeding differ whenever i and j differ,
/// for as long as fewer than 2^256 have been handed out.
pub proof fn lemma_game_ids_distinct(seed: nat, i: nat, j: nat)
    requires
        seed < id_space(),
        i < id_space(),
        j < id_space(),
        i != j,
    ensures
        (seed + i) % id_space() != (seed + j) % id_space(),
{
    lemma_pow256_positive(32);
    lemma_mod_below_twice(seed + i);
    lemma_mod_below_twice(seed + j);
}

/// For `x < 2 * id_space()`, `x % id_space()` is `x` or `x - id_space()`.
proof fn lemma_mod_below_twice(x: nat)
    requires
        x < 2 * id_space(),
    ensures
        x < id_space() ==> x % id_space() == x,
        x >= id_space() ==> x % id_space() == x - id_space(),
{
    let p = id_space();
    lemma_pow256_positive(32);
    if x < p {
        vstd::arithmetic::div_mod::lemma_small_mod(x, p);
    } else {
        let y = (x - p) as nat;
        vstd::arithmetic::div_mod::lemma_small_mod(y, p);
        vstd::arithmetic::div_mod::lemma_mod_add_multiples_vanish(y as int, p as int);
    }
}

} // verus!
