use vstd::prelude::*;

use crate::codec::{
    bson_doc, decimal, enc_field, enc_fields, enc_items, enc_leaf, enc_leaves, enc_record,
    field_fits, fields_fit, items_fit, key, le32, le32_value, le64, le64_value, leaves_fit, p_doc_end,
    p_field, p_fields, p_flat_doc, p_head, p_items, p_key, p_leaf, p_leaves, p_record, Field,
    FlatSchema, Kind, Leaf, LeafKind, Schema,
};
use crate::hashing::append_bytes;

verus! {

/// The largest document this codec writes or reads, in bytes.
pub const MAX_DOC: usize = 0x7000_0000;

/// A leaf value as the program holds it.
#[derive(Debug)]
pub enum ELeaf {
    Bin(Vec<u8>),
    Bool(bool),
    U64(u64),
}

impl View for ELeaf {
    type V = Leaf;

    open spec fn view(&self) -> Leaf {
        match self {
            ELeaf::Bin(v) => Leaf::Bin(v@),
            ELeaf::Bool(b) => Leaf::Bool(*b),
            ELeaf::U64(n) => Leaf::U64(*n),
        }
    }
}

pub open spec fn leaves_view(ls: Seq<ELeaf>) -> Seq<Leaf> {
    ls.map_values(|l: ELeaf| l@)
}

pub open spec fn items_view(items: Seq<Vec<ELeaf>>) -> Seq<Seq<Leaf>> {
    items.map_values(|v: Vec<ELeaf>| leaves_view(v@))
}

/// A field as the program holds it.
#[derive(Debug)]
pub enum EField {
    Leaf(ELeaf),
    Arr(Vec<Vec<ELeaf>>),
}

impl View for EField {
    type V = Field;

    open spec fn view(&self) -> Field {
        match self {
            EField::Leaf(l) => Field::Leaf(l@),
            EField::Arr(items) => Field::Arr(items_view(items@)),
        }
    }
}

pub open spec fn fields_view(fs: Seq<EField>) -> Seq<Field> {
    fs.map_values(|f: EField| f@)
}

/// The kind of a field as the program holds it.
pub enum EKind {
    Leaf(LeafKind),
    Arr(Vec<(Vec<u8>, LeafKind)>),
}

pub open spec fn flat_view(s: Seq<(Vec<u8>, LeafKind)>) -> FlatSchema {
    s.map_values(|e: (Vec<u8>, LeafKind)| (e.0@, e.1))
}

impl View for EKind {
    type V = Kind;

    open spec fn view(&self) -> Kind {
        match self {
            EKind::Leaf(k) => Kind::Leaf(*k),
            EKind::Arr(s) => Kind::Arr(flat_view(s@)),
        }
    }
}

pub open spec fn schema_view(s: Seq<(Vec<u8>, EKind)>) -> Schema {
    s.map_values(|e: (Vec<u8>, EKind)| (e.0@, e.1@))
}

fn push_le32(out: &mut Vec<u8>, n: u32)
    ensures
        final(out)@ == old(out)@ + le32(n),
{
    out.push((n & 0xff) as u8);
    out.push(((n >> 8u32) & 0xff) as u8);
    out.push(((n >> 16u32) & 0xff) as u8);
    out.push(((n >> 24u32) & 0xff) as u8);
    assert(out@ =~= old(out)@ + le32(n));
}

fn push_le64(out: &mut Vec<u8>, n: u64)
    ensures
        final(out)@ == old(out)@ + le64(n),
{
    out.push((n & 0xff) as u8);
    out.push(((n >> 8u64) & 0xff) as u8);
    out.push(((n >> 16u64) & 0xff) as u8);
    out.push(((n >> 24u64) & 0xff) as u8);
    out.push(((n >> 32u64) & 0xff) as u8);
    out.push(((n >> 40u64) & 0xff) as u8);
    out.push(((n >> 48u64) & 0xff) as u8);
    out.push(((n >> 56u64) & 0xff) as u8);
    assert(out@ =~= old(out)@ + le64(n));
}

fn push_head(out: &mut Vec<u8>, tag: u8, k: &Vec<u8>)
    ensures
        final(out)@ == old(out)@ + seq![tag] + key(k@),
{
    out.push(tag);
    append_bytes(out, k.as_slice());
    out.push(0u8);
    assert(out@ =~= old(out)@ + seq![tag] + key(k@));
}

/// Appends a document around `body`; fails when it would be too long.
fn push_doc(out: &mut Vec<u8>, body: &Vec<u8>) -> (ok: bool)
    ensures
        ok ==> final(out)@ == old(out)@ + bson_doc(body@),
        !ok ==> bson_doc(body@).len() >= MAX_DOC,
{
    if body.len() >= MAX_DOC - 5 {
        return false;
    }
    push_le32(out, (body.len() + 5) as u32);
    append_bytes(out, body.as_slice());
    out.push(0u8);
    assert(out@ =~= old(out)@ + bson_doc(body@));
    true
}

fn push_leaf(out: &mut Vec<u8>, k: &Vec<u8>, l: &ELeaf) -> (ok: bool)
    ensures
        ok ==> final(out)@ == old(out)@ + enc_leaf(k@, l@),
        !ok ==> enc_leaf(k@, l@).len() >= MAX_DOC,
{
    match l {
        ELeaf::Bin(v) => {
            if v.len() >= MAX_DOC {
                return false;
            }
            push_head(out, 5u8, k);
            push_le32(out, v.len() as u32);
            out.push(0u8);
            append_bytes(out, v.as_slice());
        },
        ELeaf::Bool(b) => {
            push_head(out, 8u8, k);
            out.push(if *b { 1u8 } else { 0u8 });
        },
        ELeaf::U64(n) => {
            push_head(out, 18u8, k);
            push_le64(out, *n);
        },
    }
    assert(out@ =~= old(out)@ + enc_leaf(k@, l@));
    true
}

fn push_leaves(out: &mut Vec<u8>, sch: &Vec<(Vec<u8>, LeafKind)>, ls: &Vec<ELeaf>) -> (ok: bool)
    requires
        leaves_fit(leaves_view(ls@), flat_view(sch@)),
    ensures
        ok ==> final(out)@ == old(out)@ + enc_leaves(flat_view(sch@), leaves_view(ls@), 0),
        !ok ==> enc_leaves(flat_view(sch@), leaves_view(ls@), 0).len() >= MAX_DOC,
{
    let ghost s = flat_view(sch@);
    let ghost lv = leaves_view(ls@);
    let mut i: usize = 0;
    while i < ls.len()
        invariant
            i <= ls.len(),
            ls.len() == sch.len(),
            s == flat_view(sch@),
            lv == leaves_view(ls@),
            out@.len() >= old(out)@.len(),
            old(out)@ + enc_leaves(s, lv, 0) == out@ + enc_leaves(s, lv, i as int),
        decreases ls.len() - i,
    {
        let ghost before = out@;
        assert(enc_leaves(s, lv, i as int) == enc_leaf(s[i as int].0, lv[i as int]) + enc_leaves(
            s,
            lv,
            i + 1,
        ));
        assert((old(out)@ + enc_leaves(s, lv, 0)).len() == (before + enc_leaves(s, lv, i as int)).len());
        assert(enc_leaves(s, lv, 0).len() >= enc_leaves(s, lv, i as int).len());
        if !push_leaf(out, &sch[i].0, &ls[i]) {
            return false;
        }
        assert(out@ + enc_leaves(s, lv, i + 1) =~= before + enc_leaves(s, lv, i as int));
        i = i + 1;
    }
    assert(out@ + enc_leaves(s, lv, i as int) =~= out@);
    true
}

/// The decimal digits of an array index.
pub fn decimal_exec(n: usize) -> (r: Vec<u8>)
    ensures
        r@ == decimal(n as nat),
    decreases n,
{
    if n < 10 {
        let mut v: Vec<u8> = Vec::new();
        v.push((48 + n) as u8);
        assert(v@ =~= decimal(n as nat));
        v
    } else {
        let mut v = decimal_exec(n / 10);
        v.push((48 + n % 10) as u8);
        v
    }
}

fn push_items(out: &mut Vec<u8>, sch: &Vec<(Vec<u8>, LeafKind)>, items: &Vec<Vec<ELeaf>>) -> (ok:
    bool)
    requires
        items_fit(items_view(items@), flat_view(sch@)),
    ensures
        ok ==> final(out)@ == old(out)@ + enc_items(flat_view(sch@), items_view(items@), 0),
        !ok ==> enc_items(flat_view(sch@), items_view(items@), 0).len() >= MAX_DOC,
{
    let ghost s = flat_view(sch@);
    let ghost iv = items_view(items@);
    let mut j: usize = 0;
    while j < items.len()
        invariant
            j <= items.len(),
            s == flat_view(sch@),
            iv == items_view(items@),
            items_fit(iv, s),
            out@.len() >= old(out)@.len(),
            old(out)@ + enc_items(s, iv, 0) == out@ + enc_items(s, iv, j as int),
        decreases items.len() - j,
    {
        let ghost before = out@;
        let ghost d = bson_doc(enc_leaves(s, iv[j as int], 0));
        assert(enc_items(s, iv, j as int) == seq![3u8] + key(decimal(j as nat)) + d + enc_items(
            s,
            iv,
            j + 1,
        ));
        assert((old(out)@ + enc_items(s, iv, 0)).len() == (before + enc_items(s, iv, j as int)).len());
        assert(enc_items(s, iv, 0).len() >= enc_items(s, iv, j as int).len());
        assert(enc_items(s, iv, j as int).len() >= d.len());
        let k = decimal_exec(j);
        let mut body: Vec<u8> = Vec::new();
        assert(leaves_fit(iv[j as int], s));
        if !push_leaves(&mut body, sch, &items[j]) {
            return false;
        }
        assert(body@ =~= enc_leaves(s, iv[j as int], 0));
        push_head(out, 3u8, &k);
        if !push_doc(out, &body) {
            return false;
        }
        assert(out@ + enc_items(s, iv, j + 1) =~= before + enc_items(s, iv, j as int));
        j = j + 1;
    }
    assert(out@ + enc_items(s, iv, j as int) =~= out@);
    true
}

proof fn lemma_arr_fits(iv: Seq<Seq<Leaf>>, fs: FlatSchema)
    requires
        field_fits(Field::Arr(iv), Kind::Arr(fs)),
    ensures
        items_fit(iv, fs),
{
}

fn push_field(out: &mut Vec<u8>, k: &Vec<u8>, kind: &EKind, f: &EField) -> (ok: bool)
    requires
        field_fits(f@, kind@),
    ensures
        ok ==> final(out)@ == old(out)@ + enc_field(k@, kind@, f@),
        !ok ==> enc_field(k@, kind@, f@).len() >= MAX_DOC,
{
    match f {
        EField::Leaf(l) => push_leaf(out, k, l),
        EField::Arr(items) => {
            let sch = match kind {
                EKind::Arr(sch) => sch,
                EKind::Leaf(_) => {
                    return false;
                },
            };
            assert(kind@ == Kind::Arr(flat_view(sch@)));
            proof {
                lemma_arr_fits(items_view(items@), flat_view(sch@));
            }
            let mut body: Vec<u8> = Vec::new();
            if !push_items(&mut body, sch, items) {
                return false;
            }
            assert(body@ =~= enc_items(flat_view(sch@), items_view(items@), 0));
            push_head(out, 4u8, k);
            if !push_doc(out, &body) {
                return false;
            }
            assert(out@ =~= old(out)@ + enc_field(k@, kind@, f@));
            true
        },
    }
}

fn push_fields(out: &mut Vec<u8>, sch: &Vec<(Vec<u8>, EKind)>, fs: &Vec<EField>) -> (ok: bool)
    requires
        fields_fit(fields_view(fs@), schema_view(sch@)),
    ensures
        ok ==> final(out)@ == old(out)@ + enc_fields(schema_view(sch@), fields_view(fs@), 0),
        !ok ==> enc_fields(schema_view(sch@), fields_view(fs@), 0).len() >= MAX_DOC,
{
    let ghost s = schema_view(sch@);
    let ghost fv = fields_view(fs@);
    let mut i: usize = 0;
    while i < fs.len()
        invariant
            i <= fs.len(),
            fs.len() == sch.len(),
            s == schema_view(sch@),
            fv == fields_view(fs@),
            fields_fit(fv, s),
            out@.len() >= old(out)@.len(),
            old(out)@ + enc_fields(s, fv, 0) == out@ + enc_fields(s, fv, i as int),
        decreases fs.len() - i,
    {
        let ghost before = out@;
        assert(enc_fields(s, fv, i as int) == enc_field(s[i as int].0, s[i as int].1, fv[i as int])
            + enc_fields(s, fv, i + 1));
        assert((old(out)@ + enc_fields(s, fv, 0)).len() == (before + enc_fields(s, fv, i as int)).len());
        assert(field_fits(fv[i as int], s[i as int].1));
        if !push_field(out, &sch[i].0, &sch[i].1, &fs[i]) {
            return false;
        }
        assert(out@ + enc_fields(s, fv, i + 1) =~= before + enc_fields(s, fv, i as int));
        i = i + 1;
    }
    assert(out@ + enc_fields(s, fv, i as int) =~= out@);
    true
}

/// Writes a record: `None` exactly when it would not fit in a document.
pub fn encode_record(name: &Vec<u8>, sch: &Vec<(Vec<u8>, EKind)>, fs: &Vec<EField>) -> (r: Option<
    Vec<u8>,
>)
    requires
        fields_fit(fields_view(fs@), schema_view(sch@)),
    ensures
        r is Some <==> enc_record(name@, schema_view(sch@), fields_view(fs@)).len() < MAX_DOC,
        r is Some ==> r->0@ == enc_record(name@, schema_view(sch@), fields_view(fs@)),
{
    let ghost whole = enc_record(name@, schema_view(sch@), fields_view(fs@));
    let mut inner: Vec<u8> = Vec::new();
    if !push_fields(&mut inner, sch, fs) {
        return None;
    }
    assert(inner@ =~= enc_fields(schema_view(sch@), fields_view(fs@), 0));
    let mut body: Vec<u8> = Vec::new();
    push_head(&mut body, 3u8, name);
    if !push_doc(&mut body, &inner) {
        return None;
    }
    let mut out: Vec<u8> = Vec::new();
    if !push_doc(&mut out, &body) {
        return None;
    }
    assert(out@ =~= whole);
    if out.len() >= MAX_DOC {
        return None;
    }
    Some(out)
}

// Reading.

fn read_key(b: &[u8], pos: usize, k: &Vec<u8>) -> (r: bool)
    ensures
        r == p_key(b@, pos as int, k@),
{
    if pos >= b.len() || k.len() >= b.len() - pos {
        return false;
    }
    let mut i: usize = 0;
    while i < k.len()
        invariant
            i <= k.len(),
            pos + k.len() < b.len(),
            forall|j: int| 0 <= j < i ==> b@[pos + j] == k@[j],
        decreases k.len() - i,
    {
        if b[pos + i] != k[i] {
            assert(b@.subrange(pos as int, pos + k.len())[i as int] != k@[i as int]);
            return false;
        }
        i = i + 1;
    }
    assert(b@.subrange(pos as int, pos + k.len()) =~= k@);
    b[pos + k.len()] == 0
}

fn read_head(b: &[u8], pos: usize, tag: u8, k: &Vec<u8>) -> (r: bool)
    ensures
        r == p_head(b@, pos as int, tag, k@),
{
    pos < b.len() && b[pos] == tag && pos + 1 <= b.len() && read_key(b, pos + 1, k)
}

fn read_le32(b: &[u8], pos: usize) -> (r: u32)
    requires
        pos + 4 <= b.len(),
    ensures
        r == le32_value(b@, pos as int),
{
    (b[pos] as u32) | ((b[pos + 1] as u32) << 8u32) | ((b[pos + 2] as u32) << 16u32) | ((b[pos
        + 3] as u32) << 24u32)
}

fn read_le64(b: &[u8], pos: usize) -> (r: u64)
    requires
        pos + 8 <= b.len(),
    ensures
        r == le64_value(b@, pos as int),
{
    (b[pos] as u64) | ((b[pos + 1] as u64) << 8u64) | ((b[pos + 2] as u64) << 16u64) | ((b[pos
        + 3] as u64) << 24u64) | ((b[pos + 4] as u64) << 32u64) | ((b[pos + 5] as u64) << 40u64)
        | ((b[pos + 6] as u64) << 48u64) | ((b[pos + 7] as u64) << 56u64)
}

fn copy_range(b: &[u8], start: usize, end: usize) -> (r: Vec<u8>)
    requires
        start <= end <= b.len(),
    ensures
        r@ == b@.subrange(start as int, end as int),
{
    let mut v: Vec<u8> = Vec::new();
    let mut i: usize = start;
    while i < end
        invariant
            start <= i <= end,
            end <= b.len(),
            v@ == b@.subrange(start as int, i as int),
        decreases end - i,
    {
        v.push(b[i]);
        i = i + 1;
        assert(v@ =~= b@.subrange(start as int, i as int));
    }
    v
}

pub open spec fn leaf_result(r: Option<(ELeaf, usize)>) -> Option<(Leaf, int)> {
    match r {
        Some((l, p)) => Some((l@, p as int)),
        None => None,
    }
}

pub(crate) fn read_leaf(b: &[u8], pos: usize, k: &Vec<u8>, kind: LeafKind) -> (r: Option<(ELeaf, usize)>)
    requires
        b.len() < MAX_DOC,
    ensures
        leaf_result(r) == p_leaf(b@, pos as int, k@, kind),
{
    let tag: u8 = match kind {
        LeafKind::Bin => 5,
        LeafKind::Bool => 8,
        LeafKind::U64 => 18,
    };
    if !read_head(b, pos, tag, k) {
        return None;
    }
    let q = pos + k.len() + 2;
    match kind {
        LeafKind::Bin => {
            if q + 5 > b.len() || b[q + 4] != 0 {
                return None;
            }
            let n = read_le32(b, q) as usize;
            if n > b.len() - (q + 5) {
                return None;
            }
            let v = copy_range(b, q + 5, q + 5 + n);
            Some((ELeaf::Bin(v), q + 5 + n))
        },
        LeafKind::Bool => {
            if q >= b.len() || (b[q] != 0 && b[q] != 1) {
                return None;
            }
            Some((ELeaf::Bool(b[q] == 1), q + 1))
        },
        LeafKind::U64 => {
            if q + 8 > b.len() {
                return None;
            }
            Some((ELeaf::U64(read_le64(b, q)), q + 8))
        },
    }
}

pub open spec fn leaves_result(r: Option<(Vec<ELeaf>, usize)>) -> Option<(Seq<Leaf>, int)> {
    match r {
        Some((ls, p)) => Some((leaves_view(ls@), p as int)),
        None => None,
    }
}

fn read_leaves(b: &[u8], pos: usize, sch: &Vec<(Vec<u8>, LeafKind)>) -> (r: Option<
    (Vec<ELeaf>, usize),
>)
    requires
        b.len() < MAX_DOC,
    ensures
        leaves_result(r) == p_leaves(b@, pos as int, flat_view(sch@), 0),
{
    let ghost s = flat_view(sch@);
    let ghost whole = p_leaves(b@, pos as int, s, 0);
    let mut acc: Vec<ELeaf> = Vec::new();
    let mut p = pos;
    let mut i: usize = 0;
    assert(leaves_view(acc@) =~= Seq::<Leaf>::empty());
    while i < sch.len()
        invariant
            i <= sch.len(),
            b.len() < MAX_DOC,
            s == flat_view(sch@),
            whole == p_leaves(b@, pos as int, s, 0),
            whole == match p_leaves(b@, p as int, s, i as int) {
                Some((ls, after)) => Some((leaves_view(acc@) + ls, after)),
                None => None,
            },
        decreases sch.len() - i,
    {
        match read_leaf(b, p, &sch[i].0, sch[i].1) {
            None => {
                return None;
            },
            Some((l, np)) => {
                let ghost lv = l@;
                let ghost old_acc = leaves_view(acc@);
                acc.push(l);
                assert(leaves_view(acc@) =~= old_acc.push(lv));
                proof {
                    match p_leaves(b@, np as int, s, i + 1) {
                        Some((ls, after)) => {
                            assert(old_acc + (seq![lv] + ls) =~= leaves_view(acc@) + ls);
                        },
                        None => {},
                    }
                }
                p = np;
                i = i + 1;
            },
        }
    }
    assert(leaves_view(acc@) + Seq::<Leaf>::empty() =~= leaves_view(acc@));
    Some((acc, p))
}

fn read_doc_end(b: &[u8], pos: usize) -> (r: Option<usize>)
    ensures
        match r {
            Some(e) => p_doc_end(b@, pos as int) == Some(e as int),
            None => p_doc_end(b@, pos as int) is None,
        },
{
    if pos > b.len() || b.len() - pos < 4 {
        return None;
    }
    let n = read_le32(b, pos) as usize;
    if n < 5 || n > b.len() - pos || b[pos + n - 1] != 0 {
        return None;
    }
    Some(pos + n)
}

fn read_flat_doc(b: &[u8], pos: usize, sch: &Vec<(Vec<u8>, LeafKind)>) -> (r: Option<
    (Vec<ELeaf>, usize),
>)
    requires
        b.len() < MAX_DOC,
    ensures
        leaves_result(r) == p_flat_doc(b@, pos as int, flat_view(sch@)),
{
    let end = match read_doc_end(b, pos) {
        Some(e) => e,
        None => {
            return None;
        },
    };
    match read_leaves(b, pos + 4, sch) {
        Some((ls, p)) => if p == end - 1 {
            Some((ls, end))
        } else {
            None
        },
        None => None,
    }
}

pub open spec fn items_result(r: Option<(Vec<Vec<ELeaf>>, usize)>) -> Option<
    (Seq<Seq<Leaf>>, int),
> {
    match r {
        Some((items, p)) => Some((items_view(items@), p as int)),
        None => None,
    }
}

fn read_items(b: &[u8], pos: usize, end: usize, sch: &Vec<(Vec<u8>, LeafKind)>) -> (r: Option<
    (Vec<Vec<ELeaf>>, usize),
>)
    requires
        b.len() < MAX_DOC,
    ensures
        items_result(r) == p_items(b@, pos as int, end as int, flat_view(sch@), 0),
{
    let ghost s = flat_view(sch@);
    let ghost whole = p_items(b@, pos as int, end as int, s, 0);
    let mut acc: Vec<Vec<ELeaf>> = Vec::new();
    let mut p = pos;
    let mut j: usize = 0;
    assert(items_view(acc@) =~= Seq::<Seq<Leaf>>::empty());
    loop
        invariant
            b.len() < MAX_DOC,
            s == flat_view(sch@),
            j <= p,
            whole == p_items(b@, pos as int, end as int, s, 0),
            whole == match p_items(b@, p as int, end as int, s, j as int) {
                Some((rest, after)) => Some((items_view(acc@) + rest, after)),
                None => None,
            },
        decreases end - p,
    {
        if p >= end || end > b.len() {
            return None;
        }
        if b[p] == 0 {
            if p + 1 == end {
                assert(items_view(acc@) + Seq::<Seq<Leaf>>::empty() =~= items_view(acc@));
                return Some((acc, end));
            } else {
                return None;
            }
        }
        let k = decimal_exec(j);
        if !read_head(b, p, 3u8, &k) {
            return None;
        }
        match read_flat_doc(b, p + k.len() + 2, sch) {
            Some((ls, np)) => {
                if !(p < np && np <= end) {
                    return None;
                }
                let ghost lv = leaves_view(ls@);
                let ghost old_acc = items_view(acc@);
                acc.push(ls);
                assert(items_view(acc@) =~= old_acc.push(lv));
                proof {
                    match p_items(b@, np as int, end as int, s, j + 1) {
                        Some((rest, after)) => {
                            assert(old_acc + (seq![lv] + rest) =~= items_view(acc@) + rest);
                        },
                        None => {},
                    }
                }
                p = np;
                j = j + 1;
            },
            None => {
                return None;
            },
        }
    }
}

pub open spec fn field_result(r: Option<(EField, usize)>) -> Option<(Field, int)> {
    match r {
        Some((f, p)) => Some((f@, p as int)),
        None => None,
    }
}

fn read_field(b: &[u8], pos: usize, k: &Vec<u8>, kind: &EKind) -> (r: Option<(EField, usize)>)
    requires
        b.len() < MAX_DOC,
    ensures
        field_result(r) == p_field(b@, pos as int, k@, kind@),
{
    match kind {
        EKind::Leaf(lk) => match read_leaf(b, pos, k, *lk) {
            Some((l, p)) => Some((EField::Leaf(l), p)),
            None => None,
        },
        EKind::Arr(sch) => {
            if !read_head(b, pos, 4u8, k) {
                return None;
            }
            let q = pos + k.len() + 2;
            match read_doc_end(b, q) {
                Some(end) => match read_items(b, q + 4, end, sch) {
                    Some((items, p)) => if p == end {
                        Some((EField::Arr(items), end))
                    } else {
                        None
                    },
                    None => None,
                },
                None => None,
            }
        },
    }
}

pub open spec fn fields_result(r: Option<(Vec<EField>, usize)>) -> Option<(Seq<Field>, int)> {
    match r {
        Some((fs, p)) => Some((fields_view(fs@), p as int)),
        None => None,
    }
}

fn read_fields(b: &[u8], pos: usize, sch: &Vec<(Vec<u8>, EKind)>) -> (r: Option<
    (Vec<EField>, usize),
>)
    requires
        b.len() < MAX_DOC,
    ensures
        fields_result(r) == p_fields(b@, pos as int, schema_view(sch@), 0),
{
    let ghost s = schema_view(sch@);
    let ghost whole = p_fields(b@, pos as int, s, 0);
    let mut acc: Vec<EField> = Vec::new();
    let mut p = pos;
    let mut i: usize = 0;
    assert(fields_view(acc@) =~= Seq::<Field>::empty());
    while i < sch.len()
        invariant
            i <= sch.len(),
            b.len() < MAX_DOC,
            s == schema_view(sch@),
            whole == p_fields(b@, pos as int, s, 0),
            whole == match p_fields(b@, p as int, s, i as int) {
                Some((fs, after)) => Some((fields_view(acc@) + fs, after)),
                None => None,
            },
        decreases sch.len() - i,
    {
        match read_field(b, p, &sch[i].0, &sch[i].1) {
            None => {
                return None;
            },
            Some((f, np)) => {
                let ghost fv = f@;
                let ghost old_acc = fields_view(acc@);
                acc.push(f);
                assert(fields_view(acc@) =~= old_acc.push(fv));
                proof {
                    match p_fields(b@, np as int, s, i + 1) {
                        Some((fs, after)) => {
                            assert(old_acc + (seq![fv] + fs) =~= fields_view(acc@) + fs);
                        },
                        None => {},
                    }
                }
                p = np;
                i = i + 1;
            },
        }
    }
    assert(fields_view(acc@) + Seq::<Field>::empty() =~= fields_view(acc@));
    Some((acc, p))
}

/// Reads a record named `name` with layout `sch`.
pub fn decode_record(b: &[u8], name: &Vec<u8>, sch: &Vec<(Vec<u8>, EKind)>) -> (r: Option<
    Vec<EField>,
>)
    requires
        b.len() < MAX_DOC,
    ensures
        match r {
            Some(fs) => p_record(b@, name@, schema_view(sch@)) == Some(fields_view(fs@)),
            None => p_record(b@, name@, schema_view(sch@)) is None,
        },
{
    match read_doc_end(b, 0) {
        Some(e) => if e != b.len() {
            return None;
        },
        None => {
            return None;
        },
    }
    if !read_head(b, 4, 3u8, name) {
        return None;
    }
    let q = 4 + name.len() + 2;
    let end = match read_doc_end(b, q) {
        Some(e) => e,
        None => {
            return None;
        },
    };
    if end != b.len() - 1 {
        return None;
    }
    match read_fields(b, q + 4, sch) {
        Some((fs, p)) => if p == end - 1 {
            Some(fs)
        } else {
            None
        },
        None => None,
    }
}

} // verus!
