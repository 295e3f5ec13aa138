use vstd::prelude::*;

verus! {

/// The four little-endian bytes of a 32-bit number.
pub open spec fn le32(n: u32) -> Seq<u8> {
    seq![
        (n & 0xff) as u8,
        ((n >> 8u32) & 0xff) as u8,
        ((n >> 16u32) & 0xff) as u8,
        ((n >> 24u32) & 0xff) as u8,
    ]
}

/// The number that four little-endian bytes spell.
pub open spec fn le32_value(s: Seq<u8>, pos: int) -> u32 {
    (s[pos] as u32) | ((s[pos + 1] as u32) << 8u32) | ((s[pos + 2] as u32) << 16u32) | ((s[pos
        + 3] as u32) << 24u32)
}

/// The eight little-endian bytes of a 64-bit number.
pub open spec fn le64(n: u64) -> Seq<u8> {
    seq![
        (n & 0xff) as u8,
        ((n >> 8u64) & 0xff) as u8,
        ((n >> 16u64) & 0xff) as u8,
        ((n >> 24u64) & 0xff) as u8,
        ((n >> 32u64) & 0xff) as u8,
        ((n >> 40u64) & 0xff) as u8,
        ((n >> 48u64) & 0xff) as u8,
        ((n >> 56u64) & 0xff) as u8,
    ]
}

pub open spec fn le64_value(s: Seq<u8>, pos: int) -> u64 {
    (s[pos] as u64) | ((s[pos + 1] as u64) << 8u64) | ((s[pos + 2] as u64) << 16u64) | ((s[pos
        + 3] as u64) << 24u64) | ((s[pos + 4] as u64) << 32u64) | ((s[pos + 5] as u64) << 40u64)
        | ((s[pos + 6] as u64) << 48u64) | ((s[pos + 7] as u64) << 56u64)
}

proof fn lemma_le32(n: u32)
    ensures
        le32_value(le32(n), 0) == n,
{
    assert(((n & 0xff) as u8 as u32) | ((((n >> 8u32) & 0xff) as u8 as u32) << 8u32) | ((((n
        >> 16u32) & 0xff) as u8 as u32) << 16u32) | ((((n >> 24u32) & 0xff) as u8 as u32)
        << 24u32) == n) by (bit_vector);
}

proof fn lemma_le64(n: u64)
    ensures
        le64_value(le64(n), 0) == n,
{
    assert(((n & 0xff) as u8 as u64) | ((((n >> 8u64) & 0xff) as u8 as u64) << 8u64) | ((((n
        >> 16u64) & 0xff) as u8 as u64) << 16u64) | ((((n >> 24u64) & 0xff) as u8 as u64)
        << 24u64) | ((((n >> 32u64) & 0xff) as u8 as u64) << 32u64) | ((((n >> 40u64) & 0xff)
        as u8 as u64) << 40u64) | ((((n >> 48u64) & 0xff) as u8 as u64) << 48u64) | ((((n
        >> 56u64) & 0xff) as u8 as u64) << 56u64) == n) by (bit_vector);
}

/// The kind of a leaf value in a document.
#[derive(Clone, Copy, Debug, PartialEq, Eq, Structural)]
pub enum LeafKind {
    Bin,
    Bool,
    U64,
}

/// A leaf value: BSON binary (subtype 0), boolean or 64-bit integer.
pub enum Leaf {
    Bin(Seq<u8>),
    Bool(bool),
    U64(u64),
}

/// A field: a leaf, or an array of flat documents.
pub enum Field {
    Leaf(Leaf),
    Arr(Seq<Seq<Leaf>>),
}

/// The layout of a flat document: its keys and the kinds of their values.
pub type FlatSchema = Seq<(Seq<u8>, LeafKind)>;

/// The kind of a field: a leaf, or an array of flat documents of one layout.
pub enum Kind {
    Leaf(LeafKind),
    Arr(FlatSchema),
}

pub type Schema = Seq<(Seq<u8>, Kind)>;

pub open spec fn leaf_fits(l: Leaf, k: LeafKind) -> bool {
    match l {
        Leaf::Bin(_) => k == LeafKind::Bin,
        Leaf::Bool(_) => k == LeafKind::Bool,
        Leaf::U64(_) => k == LeafKind::U64,
    }
}

pub open spec fn leaves_fit(ls: Seq<Leaf>, sch: FlatSchema) -> bool {
    &&& ls.len() == sch.len()
    &&& forall|i: int| 0 <= i < ls.len() ==> leaf_fits(#[trigger] ls[i], sch[i].1)
}

pub open spec fn items_fit(items: Seq<Seq<Leaf>>, sch: FlatSchema) -> bool {
    forall|j: int| 0 <= j < items.len() ==> leaves_fit(#[trigger] items[j], sch)
}

pub open spec fn field_fits(f: Field, k: Kind) -> bool {
    match f {
        Field::Leaf(l) => match k {
            Kind::Leaf(lk) => leaf_fits(l, lk),
            _ => false,
        },
        Field::Arr(items) => match k {
            Kind::Arr(sch) => items_fit(items, sch),
            _ => false,
        },
    }
}

pub open spec fn fields_fit(fs: Seq<Field>, sch: Schema) -> bool {
    &&& fs.len() == sch.len()
    &&& forall|i: int| 0 <= i < fs.len() ==> field_fits(#[trigger] fs[i], sch[i].1)
}

/// A key as it stands in a document: its bytes and a zero.
pub open spec fn key(k: Seq<u8>) -> Seq<u8> {
    k.push(0u8)
}

/// A document around its elements: the total length, the elements, a zero.
pub open spec fn bson_doc(body: Seq<u8>) -> Seq<u8> {
    le32((body.len() + 5) as u32) + body + seq![0u8]
}

pub open spec fn enc_leaf(k: Seq<u8>, l: Leaf) -> Seq<u8> {
    match l {
        Leaf::Bin(v) => seq![5u8] + key(k) + le32(v.len() as u32) + seq![0u8] + v,
        Leaf::Bool(b) => seq![8u8] + key(k) + seq![
            if b {
                1u8
            } else {
                0u8
            },
        ],
        Leaf::U64(n) => seq![18u8] + key(k) + le64(n),
    }
}

/// The elements of a flat document, from the i-th on.
pub open spec fn enc_leaves(sch: FlatSchema, ls: Seq<Leaf>, i: int) -> Seq<u8>
    decreases ls.len() - i,
{
    if i < 0 || i >= ls.len() {
        seq![]
    } else {
        enc_leaf(sch[i].0, ls[i]) + enc_leaves(sch, ls, i + 1)
    }
}

/// The decimal digits of an array index.
pub open spec fn decimal(n: nat) -> Seq<u8>
    decreases n,
{
    if n < 10 {
        seq![(48 + n) as u8]
    } else {
        decimal(n / 10).push((48 + n % 10) as u8)
    }
}

/// The elements of an array of flat documents, from the j-th on.
pub open spec fn enc_items(sch: FlatSchema, items: Seq<Seq<Leaf>>, j: int) -> Seq<u8>
    decreases items.len() - j,
{
    if j < 0 || j >= items.len() {
        seq![]
    } else {
        seq![3u8] + key(decimal(j as nat)) + bson_doc(enc_leaves(sch, items[j], 0)) + enc_items(
            sch,
            items,
            j + 1,
        )
    }
}

pub open spec fn enc_field(k: Seq<u8>, kind: Kind, f: Field) -> Seq<u8> {
    match f {
        Field::Leaf(l) => enc_leaf(k, l),
        Field::Arr(items) => match kind {
            Kind::Arr(sch) => seq![4u8] + key(k) + bson_doc(enc_items(sch, items, 0)),
            _ => seq![],
        },
    }
}

/// The elements of a document of fields, from the i-th on.
pub open spec fn enc_fields(sch: Schema, fs: Seq<Field>, i: int) -> Seq<u8>
    decreases fs.len() - i,
{
    if i < 0 || i >= fs.len() {
        seq![]
    } else {
        enc_field(sch[i].0, sch[i].1, fs[i]) + enc_fields(sch, fs, i + 1)
    }
}

/// A record: a document whose one element, under the record's name, is the
/// document of its fields.
pub open spec fn enc_record(name: Seq<u8>, sch: Schema, fs: Seq<Field>) -> Seq<u8> {
    bson_doc(seq![3u8] + key(name) + bson_doc(enc_fields(sch, fs, 0)))
}

// Reading, from the position `pos` of `s`.

pub open spec fn p_key(s: Seq<u8>, pos: int, k: Seq<u8>) -> bool {
    &&& 0 <= pos
    &&& pos + k.len() + 1 <= s.len()
    &&& s.subrange(pos, pos + k.len()) == k
    &&& s[pos + k.len()] == 0
}

pub open spec fn p_head(s: Seq<u8>, pos: int, tag: u8, k: Seq<u8>) -> bool {
    &&& 0 <= pos < s.len()
    &&& s[pos] == tag
    &&& p_key(s, pos + 1, k)
}

pub open spec fn p_leaf(s: Seq<u8>, pos: int, k: Seq<u8>, kind: LeafKind) -> Option<(Leaf, int)> {
    let q = pos + k.len() + 2;
    match kind {
        LeafKind::Bin => {
            if p_head(s, pos, 5, k) && q + 5 <= s.len() && s[q + 4] == 0 && q + 5 + le32_value(
                s,
                q,
            ) <= s.len() {
                let n = le32_value(s, q) as int;
                Some((Leaf::Bin(s.subrange(q + 5, q + 5 + n)), q + 5 + n))
            } else {
                None
            }
        },
        LeafKind::Bool => {
            if p_head(s, pos, 8, k) && q < s.len() && (s[q] == 0 || s[q] == 1) {
                Some((Leaf::Bool(s[q] == 1), q + 1))
            } else {
                None
            }
        },
        LeafKind::U64 => {
            if p_head(s, pos, 18, k) && q + 8 <= s.len() {
                Some((Leaf::U64(le64_value(s, q)), q + 8))
            } else {
                None
            }
        },
    }
}

pub open spec fn p_leaves(s: Seq<u8>, pos: int, sch: FlatSchema, i: int) -> Option<(Seq<Leaf>, int)>
    decreases sch.len() - i,
{
    if i < 0 || i >= sch.len() {
        Some((seq![], pos))
    } else {
        match p_leaf(s, pos, sch[i].0, sch[i].1) {
            None => None,
            Some((l, p)) => match p_leaves(s, p, sch, i + 1) {
                None => None,
                Some((ls, after)) => Some((seq![l] + ls, after)),
            },
        }
    }
}

/// Where a document that starts at `pos` ends.
pub open spec fn p_doc_end(s: Seq<u8>, pos: int) -> Option<int> {
    if 0 <= pos && pos + 4 <= s.len() {
        let n = le32_value(s, pos) as int;
        if n >= 5 && pos + n <= s.len() && s[pos + n - 1] == 0 {
            Some(pos + n)
        } else {
            None
        }
    } else {
        None
    }
}

pub open spec fn p_flat_doc(s: Seq<u8>, pos: int, sch: FlatSchema) -> Option<(Seq<Leaf>, int)> {
    match p_doc_end(s, pos) {
        None => None,
        Some(end) => match p_leaves(s, pos + 4, sch, 0) {
            Some((ls, p)) => if p == end - 1 {
                Some((ls, end))
            } else {
                None
            },
            None => None,
        },
    }
}

pub open spec fn p_items(s: Seq<u8>, pos: int, end: int, sch: FlatSchema, j: int) -> Option<
    (Seq<Seq<Leaf>>, int),
>
    decreases end - pos,
{
    if pos < 0 || pos >= end || end > s.len() || j < 0 {
        None
    } else if s[pos] == 0 {
        if pos + 1 == end {
            Some((seq![], end))
        } else {
            None
        }
    } else if p_head(s, pos, 3, decimal(j as nat)) {
        match p_flat_doc(s, pos + decimal(j as nat).len() + 2, sch) {
            Some((ls, p)) => if pos < p <= end {
                match p_items(s, p, end, sch, j + 1) {
                    Some((rest, after)) => Some((seq![ls] + rest, after)),
                    None => None,
                }
            } else {
                None
            },
            None => None,
        }
    } else {
        None
    }
}

pub open spec fn p_field(s: Seq<u8>, pos: int, k: Seq<u8>, kind: Kind) -> Option<(Field, int)> {
    match kind {
        Kind::Leaf(lk) => match p_leaf(s, pos, k, lk) {
            Some((l, p)) => Some((Field::Leaf(l), p)),
            None => None,
        },
        Kind::Arr(sch) => {
            let q = pos + k.len() + 2;
            if p_head(s, pos, 4, k) {
                match p_doc_end(s, q) {
                    Some(end) => match p_items(s, q + 4, end, sch, 0) {
                        Some((items, p)) => if p == end {
                            Some((Field::Arr(items), end))
                        } else {
                            None
                        },
                        None => None,
                    },
                    None => None,
                }
            } else {
                None
            }
        },
    }
}

pub open spec fn p_fields(s: Seq<u8>, pos: int, sch: Schema, i: int) -> Option<(Seq<Field>, int)>
    decreases sch.len() - i,
{
    if i < 0 || i >= sch.len() {
        Some((seq![], pos))
    } else {
        match p_field(s, pos, sch[i].0, sch[i].1) {
            None => None,
            Some((f, p)) => match p_fields(s, p, sch, i + 1) {
                None => None,
                Some((fs, after)) => Some((seq![f] + fs, after)),
            },
        }
    }
}

/// The fields of a record named `name` with layout `sch`, if `s` is one.
pub open spec fn p_record(s: Seq<u8>, name: Seq<u8>, sch: Schema) -> Option<Seq<Field>> {
    let q = 4 + name.len() as int + 2;
    if p_doc_end(s, 0) == Some(s.len() as int) && p_head(s, 4, 3, name) {
        match p_doc_end(s, q) {
            Some(end) => if end == s.len() - 1 {
                match p_fields(s, q + 4, sch, 0) {
                    Some((fs, p)) => if p == end - 1 {
                        Some(fs)
                    } else {
                        None
                    },
                    None => None,
                }
            } else {
                None
            },
            None => None,
        }
    } else {
        None
    }
}

/// `e` stands in `s` at `pos`.
pub open spec fn at(s: Seq<u8>, pos: int, e: Seq<u8>) -> bool {
    &&& 0 <= pos
    &&& pos + e.len() <= s.len()
    &&& s.subrange(pos, pos + e.len()) == e
}

pub proof fn lemma_at_split(s: Seq<u8>, pos: int, a: Seq<u8>, b: Seq<u8>)
    requires
        at(s, pos, a + b),
    ensures
        at(s, pos, a),
        at(s, pos + a.len(), b),
{
    let t = s.subrange(pos, pos + (a + b).len());
    assert(s.subrange(pos, pos + a.len()) =~= t.subrange(0, a.len() as int));
    assert(t.subrange(0, a.len() as int) =~= a);
    assert(s.subrange(pos + a.len(), pos + a.len() + b.len()) =~= t.subrange(
        a.len() as int,
        (a + b).len() as int,
    ));
    assert(t.subrange(a.len() as int, (a + b).len() as int) =~= b);
}

proof fn lemma_at_index(s: Seq<u8>, pos: int, e: Seq<u8>, t: int)
    requires
        at(s, pos, e),
        0 <= t < e.len(),
    ensures
        s[pos + t] == e[t],
{
    assert(s.subrange(pos, pos + e.len())[t] == s[pos + t]);
}

proof fn lemma_at_key(s: Seq<u8>, pos: int, tag: u8, k: Seq<u8>)
    requires
        at(s, pos, seq![tag] + key(k)),
    ensures
        p_head(s, pos, tag, k),
{
    lemma_at_split(s, pos, seq![tag], key(k));
    lemma_at_index(s, pos, seq![tag], 0);
    assert(key(k) =~= k + seq![0u8]);
    lemma_at_split(s, pos + 1, k, seq![0u8]);
    lemma_at_index(s, pos + 1 + k.len(), seq![0u8], 0);
}

proof fn lemma_at_le32(s: Seq<u8>, pos: int, n: u32)
    requires
        at(s, pos, le32(n)),
    ensures
        le32_value(s, pos) == n,
{
    lemma_le32(n);
    lemma_at_index(s, pos, le32(n), 0);
    lemma_at_index(s, pos, le32(n), 1);
    lemma_at_index(s, pos, le32(n), 2);
    lemma_at_index(s, pos, le32(n), 3);
}

proof fn lemma_at_le64(s: Seq<u8>, pos: int, n: u64)
    requires
        at(s, pos, le64(n)),
    ensures
        le64_value(s, pos) == n,
{
    lemma_le64(n);
    let e = le64(n);
    lemma_at_index(s, pos, e, 0);
    lemma_at_index(s, pos, e, 1);
    lemma_at_index(s, pos, e, 2);
    lemma_at_index(s, pos, e, 3);
    lemma_at_index(s, pos, e, 4);
    lemma_at_index(s, pos, e, 5);
    lemma_at_index(s, pos, e, 6);
    lemma_at_index(s, pos, e, 7);
}

pub proof fn lemma_leaf(s: Seq<u8>, pos: int, k: Seq<u8>, l: Leaf, kind: LeafKind)
    requires
        leaf_fits(l, kind),
        s.len() < 0x7000_0000,
        at(s, pos, enc_leaf(k, l)),
    ensures
        p_leaf(s, pos, k, kind) == Some((l, pos + enc_leaf(k, l).len())),
{
    let q = pos + k.len() + 2;
    let h = seq![
        match l {
            Leaf::Bin(_) => 5u8,
            Leaf::Bool(_) => 8u8,
            Leaf::U64(_) => 18u8,
        },
    ] + key(k);
    match l {
        Leaf::Bin(v) => {
            let n = v.len() as u32;
            lemma_at_split(s, pos, h + le32(n) + seq![0u8], v);
            lemma_at_split(s, pos, h + le32(n), seq![0u8]);
            lemma_at_split(s, pos, h, le32(n));
            lemma_at_key(s, pos, 5u8, k);
            lemma_at_le32(s, q, n);
            lemma_at_index(s, q + 4, seq![0u8], 0);
        },
        Leaf::Bool(b) => {
            let x = seq![
                if b {
                    1u8
                } else {
                    0u8
                },
            ];
            lemma_at_split(s, pos, h, x);
            lemma_at_key(s, pos, 8u8, k);
            lemma_at_index(s, q, x, 0);
        },
        Leaf::U64(n) => {
            lemma_at_split(s, pos, h, le64(n));
            lemma_at_key(s, pos, 18u8, k);
            lemma_at_le64(s, q, n);
        },
    }
}

proof fn lemma_leaves(s: Seq<u8>, pos: int, sch: FlatSchema, ls: Seq<Leaf>, i: int)
    requires
        leaves_fit(ls, sch),
        s.len() < 0x7000_0000,
        0 <= i <= ls.len(),
        at(s, pos, enc_leaves(sch, ls, i)),
    ensures
        p_leaves(s, pos, sch, i) == Some((ls.subrange(i, ls.len() as int), pos + enc_leaves(sch, ls, i).len())),
    decreases ls.len() - i,
{
    if i == ls.len() {
        assert(ls.subrange(i, ls.len() as int) =~= Seq::<Leaf>::empty());
    } else {
        let e = enc_leaf(sch[i].0, ls[i]);
        let r = enc_leaves(sch, ls, i + 1);
        lemma_at_split(s, pos, e, r);
        assert(leaf_fits(ls[i], sch[i].1));
        lemma_leaf(s, pos, sch[i].0, ls[i], sch[i].1);
        lemma_leaves(s, pos + e.len(), sch, ls, i + 1);
        assert(seq![ls[i]] + ls.subrange(i + 1, ls.len() as int) =~= ls.subrange(i, ls.len() as int));
    }
}

proof fn lemma_doc_end(s: Seq<u8>, pos: int, body: Seq<u8>)
    requires
        at(s, pos, bson_doc(body)),
        s.len() < 0x7000_0000,
    ensures
        p_doc_end(s, pos) == Some(pos + body.len() + 5),
        at(s, pos + 4, body + seq![0u8]),
        at(s, pos + 4, body),
{
    let n = (body.len() + 5) as u32;
    assert(bson_doc(body) =~= le32(n) + (body + seq![0u8]));
    lemma_at_split(s, pos, le32(n), body + seq![0u8]);
    lemma_at_le32(s, pos, n);
    lemma_at_split(s, pos + 4, body, seq![0u8]);
    lemma_at_index(s, pos + 4 + body.len(), seq![0u8], 0);
}

proof fn lemma_flat_doc(s: Seq<u8>, pos: int, sch: FlatSchema, ls: Seq<Leaf>)
    requires
        leaves_fit(ls, sch),
        at(s, pos, bson_doc(enc_leaves(sch, ls, 0))),
        s.len() < 0x7000_0000,
    ensures
        p_flat_doc(s, pos, sch) == Some((ls, pos + bson_doc(enc_leaves(sch, ls, 0)).len())),
{
    let body = enc_leaves(sch, ls, 0);
    lemma_doc_end(s, pos, body);
    lemma_leaves(s, pos + 4, sch, ls, 0);
    assert(ls.subrange(0, ls.len() as int) =~= ls);
}

proof fn lemma_items(s: Seq<u8>, pos: int, end: int, sch: FlatSchema, items: Seq<Seq<Leaf>>, j: int)
    requires
        items_fit(items, sch),
        0 <= j <= items.len(),
        at(s, pos, enc_items(sch, items, j) + seq![0u8]),
        end == pos + enc_items(sch, items, j).len() + 1,
        s.len() < 0x7000_0000,
    ensures
        p_items(s, pos, end, sch, j) == Some((items.subrange(j, items.len() as int), end)),
    decreases items.len() - j,
{
    if j == items.len() {
        assert(enc_items(sch, items, j) + seq![0u8] =~= seq![0u8]);
        lemma_at_index(s, pos, seq![0u8], 0);
        assert(items.subrange(j, items.len() as int) =~= Seq::<Seq<Leaf>>::empty());
    } else {
        let h = seq![3u8] + key(decimal(j as nat));
        let d = bson_doc(enc_leaves(sch, items[j], 0));
        let r = enc_items(sch, items, j + 1);
        assert(enc_items(sch, items, j) + seq![0u8] =~= (h + d) + (r + seq![0u8]));
        lemma_at_split(s, pos, h + d, r + seq![0u8]);
        lemma_at_split(s, pos, h, d);
        lemma_at_key(s, pos, 3u8, decimal(j as nat));
        assert(leaves_fit(items[j], sch));
        lemma_flat_doc(s, pos + h.len(), sch, items[j]);
        lemma_items(s, pos + h.len() + d.len(), end, sch, items, j + 1);
        assert(seq![items[j]] + items.subrange(j + 1, items.len() as int) =~= items.subrange(
            j,
            items.len() as int,
        ));
    }
}

pub proof fn lemma_field(s: Seq<u8>, pos: int, k: Seq<u8>, kind: Kind, f: Field)
    requires
        field_fits(f, kind),
        at(s, pos, enc_field(k, kind, f)),
        s.len() < 0x7000_0000,
    ensures
        p_field(s, pos, k, kind) == Some((f, pos + enc_field(k, kind, f).len())),
{
    match f {
        Field::Leaf(l) => {
            let lk = kind->Leaf_0;
            lemma_leaf(s, pos, k, l, lk);
        },
        Field::Arr(items) => {
            let sch = kind->Arr_0;
            let h = seq![4u8] + key(k);
            let body = enc_items(sch, items, 0);
            lemma_at_split(s, pos, h, bson_doc(body));
            lemma_at_key(s, pos, 4u8, k);
            let q = pos + h.len();
            lemma_doc_end(s, q, body);
            lemma_items(s, q + 4, q + body.len() + 5, sch, items, 0);
            assert(items.subrange(0, items.len() as int) =~= items);
        },
    }
}

proof fn lemma_fields(s: Seq<u8>, pos: int, sch: Schema, fs: Seq<Field>, i: int)
    requires
        fields_fit(fs, sch),
        0 <= i <= fs.len(),
        at(s, pos, enc_fields(sch, fs, i)),
        s.len() < 0x7000_0000,
    ensures
        p_fields(s, pos, sch, i) == Some((fs.subrange(i, fs.len() as int), pos + enc_fields(sch, fs, i).len())),
    decreases fs.len() - i,
{
    if i == fs.len() {
        assert(fs.subrange(i, fs.len() as int) =~= Seq::<Field>::empty());
    } else {
        let e = enc_field(sch[i].0, sch[i].1, fs[i]);
        let r = enc_fields(sch, fs, i + 1);
        lemma_at_split(s, pos, e, r);
        assert(field_fits(fs[i], sch[i].1));
        lemma_field(s, pos, sch[i].0, sch[i].1, fs[i]);
        lemma_fields(s, pos + e.len(), sch, fs, i + 1);
        assert(seq![fs[i]] + fs.subrange(i + 1, fs.len() as int) =~= fs.subrange(i, fs.len() as int));
    }
}

/// Reading back a record gives the fields it was written from.
#[verifier::rlimit(50)]
pub proof fn lemma_record_round_trip(name: Seq<u8>, sch: Schema, fs: Seq<Field>)
    requires
        fields_fit(fs, sch),
        enc_record(name, sch, fs).len() < 0x7000_0000,
    ensures
        p_record(enc_record(name, sch, fs), name, sch) == Some(fs),
        at(enc_record(name, sch, fs), 4 + name.len() as int + 2 + 4, enc_fields(sch, fs, 0)),
{
    let s = enc_record(name, sch, fs);
    let inner = enc_fields(sch, fs, 0);
    let h = seq![3u8] + key(name);
    let body = h + bson_doc(inner);
    assert(s == bson_doc(body));
    assert(s.subrange(0, s.len() as int) =~= s);
    assert(s.len() == body.len() + 5);
    assert(body.len() == h.len() + inner.len() + 5);
    assert(h.len() == name.len() + 2);
    lemma_doc_end(s, 0, body);
    assert(p_doc_end(s, 0) == Some(s.len() as int));
    lemma_at_split(s, 4, h, bson_doc(inner));
    lemma_at_key(s, 4, 3u8, name);
    let q = 4 + h.len() as int;
    lemma_doc_end(s, q, inner);
    assert(p_doc_end(s, q) == Some(s.len() - 1));
    lemma_fields(s, q + 4, sch, fs, 0);
    assert(fs.subrange(0, fs.len() as int) =~= fs);
    assert(p_fields(s, q + 4, sch, 0) == Some((fs, s.len() - 2)));
}

/// A record read back has one field per entry of its layout.
pub proof fn lemma_fields_len(s: Seq<u8>, pos: int, sch: Schema, i: int)
    requires
        0 <= i <= sch.len(),
        p_fields(s, pos, sch, i) is Some,
    ensures
        ({
            let (fs, p) = p_fields(s, pos, sch, i)->0;
            fs.len() == sch.len() - i
        }),
    decreases sch.len() - i,
{
    if i < sch.len() {
        let (f, p) = p_field(s, pos, sch[i].0, sch[i].1)->0;
        lemma_fields_len(s, p, sch, i + 1);
    }
}

pub proof fn lemma_record_len(s: Seq<u8>, name: Seq<u8>, sch: Schema)
    requires
        p_record(s, name, sch) is Some,
    ensures
        p_record(s, name, sch)->0.len() == sch.len(),
{
    let q = 4 + name.len() as int + 2;
    lemma_fields_len(s, q + 4, sch, 0);
}

} // verus!
