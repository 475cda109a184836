//! Message bodies as sequences of fixed-width fields, laid out back to back in
//! little-endian order. A schema (a sequence of kinds) fixes each body's layout,
//! so one routine encodes and one decodes every message shape.

use vstd::prelude::*;
use crate::bytes::{le16, le32, get16, get32, halves_le, words_le, get_halves as halves_at, get_words as words_at, lemma_halves_le_len, lemma_words_le_len, lemma_get16, lemma_get32, lemma_get_halves, lemma_get_words, push16, push32, push_halves, push_words, read16, read32, read_halves, read_words};

verus! {

/// The shape of one field.
#[derive(Clone, Copy, Debug, PartialEq, Eq, Structural)]
pub enum Kind {
    Byte,
    Half,
    Word,
    Long,
    /// A fixed number of bytes.
    Bytes(usize),
    /// A fixed number of 16-bit values.
    Halves(usize),
    /// A fixed number of 32-bit values.
    Words(usize),
    /// As the last field of a body: a variable number of elements of `per`
    /// units each, their count given by the earlier field `count_at` plus `less`.
    /// Anywhere else it stands for no bytes.
    Tail { unit: Unit, per: usize, count_at: usize, less: u8 },
}

/// The unit of a variable-length tail.
#[derive(Clone, Copy, Debug, PartialEq, Eq, Structural)]
pub enum Unit {
    Byte,
    Half,
    Word,
}

/// One field's value.
#[derive(Clone, Debug)]
pub enum Field {
    Byte(u8),
    Half(u16),
    Word(u32),
    Long(u64),
    Bytes(Vec<u8>),
    Halves(Vec<u16>),
    Words(Vec<u32>),
}

/// The mathematical value of a field.
pub enum FieldV {
    Byte(u8),
    Half(u16),
    Word(u32),
    Long(u64),
    Bytes(Seq<u8>),
    Halves(Seq<u16>),
    Words(Seq<u32>),
}

impl View for Field {
    type V = FieldV;

    open spec fn view(&self) -> FieldV {
        match self {
            Field::Byte(x) => FieldV::Byte(*x),
            Field::Half(x) => FieldV::Half(*x),
            Field::Word(x) => FieldV::Word(*x),
            Field::Long(x) => FieldV::Long(*x),
            Field::Bytes(v) => FieldV::Bytes(v@),
            Field::Halves(v) => FieldV::Halves(v@),
            Field::Words(v) => FieldV::Words(v@),
        }
    }
}

/// Whether a field holds units of kind `unit`.
pub open spec fn unit_field(f: FieldV, unit: Unit) -> bool {
    match (f, unit) {
        (FieldV::Bytes(_), Unit::Byte) => true,
        (FieldV::Halves(_), Unit::Half) => true,
        (FieldV::Words(_), Unit::Word) => true,
        _ => false,
    }
}

/// The number of units an array field holds.
pub open spec fn tail_units(f: FieldV) -> int {
    match f {
        FieldV::Bytes(s) => s.len() as int,
        FieldV::Halves(s) => s.len() as int,
        FieldV::Words(s) => s.len() as int,
        _ => 0,
    }
}

/// The bytes one unit takes.
pub open spec fn unit_size(unit: Unit) -> int {
    match unit {
        Unit::Byte => 1,
        Unit::Half => 2,
        Unit::Word => 4,
    }
}

/// The `n` units of kind `unit` stored from byte `i` of `s`.
pub open spec fn read_units(unit: Unit, s: Seq<u8>, i: int, n: int) -> FieldV {
    match unit {
        Unit::Byte => FieldV::Bytes(s.subrange(i, i + n)),
        Unit::Half => FieldV::Halves(halves_at(s, i, n as nat)),
        Unit::Word => FieldV::Words(words_at(s, i, n as nat)),
    }
}

/// The value of a count field, read as a signed (two's complement) number.
pub open spec fn count_value(f: FieldV) -> int {
    match f {
        FieldV::Byte(b) => if b < 0x80 { b as int } else { b - 0x100 },
        FieldV::Half(h) => if h < 0x8000 { h as int } else { h - 0x1_0000 },
        FieldV::Word(w) => if w < 0x8000_0000 { w as int } else { w - 0x1_0000_0000 },
        _ => -1,
    }
}

/// The views of a list of fields.
pub open spec fn fields_view(fs: Seq<Field>) -> Seq<FieldV> {
    Seq::new(fs.len(), |i: int| fs[i]@)
}

/// The number of bytes a field of kind `k` takes.
pub open spec fn kind_size(k: Kind) -> nat {
    match k {
        Kind::Byte => 1,
        Kind::Half => 2,
        Kind::Word => 4,
        Kind::Long => 8,
        Kind::Bytes(n) => n as nat,
        Kind::Halves(n) => (2 * n) as nat,
        Kind::Words(n) => (4 * n) as nat,
        Kind::Tail { .. } => 0,
    }
}

/// The kind of a field value.
pub open spec fn kind_of(f: FieldV) -> Kind {
    match f {
        FieldV::Byte(_) => Kind::Byte,
        FieldV::Half(_) => Kind::Half,
        FieldV::Word(_) => Kind::Word,
        FieldV::Long(_) => Kind::Long,
        FieldV::Bytes(s) => Kind::Bytes(s.len() as usize),
        FieldV::Halves(s) => Kind::Halves(s.len() as usize),
        FieldV::Words(s) => Kind::Words(s.len() as usize),
    }
}

/// Whether the field values have, one by one, the kinds of the schema.
pub open spec fn fields_match(sc: Seq<Kind>, fs: Seq<FieldV>) -> bool {
    &&& fs.len() == sc.len()
    &&& forall|j: int| 0 <= j < sc.len() ==> field_has_kind(#[trigger] fs[j], sc[j])
}

/// Whether a field value has kind `k`, array lengths included.
pub open spec fn field_has_kind(f: FieldV, k: Kind) -> bool {
    match (f, k) {
        (FieldV::Byte(_), Kind::Byte) => true,
        (FieldV::Half(_), Kind::Half) => true,
        (FieldV::Word(_), Kind::Word) => true,
        (FieldV::Long(_), Kind::Long) => true,
        (FieldV::Bytes(s), Kind::Bytes(n)) => s.len() == n,
        (FieldV::Halves(s), Kind::Halves(n)) => s.len() == n,
        (FieldV::Words(s), Kind::Words(n)) => s.len() == n,
        (f, Kind::Tail { unit, .. }) => unit_field(f, unit) && tail_units(f) == 0,
        _ => false,
    }
}

/// The wire bytes of a field.
pub open spec fn field_bytes(f: FieldV) -> Seq<u8> {
    match f {
        FieldV::Byte(x) => seq![x],
        FieldV::Half(x) => le16(x),
        FieldV::Word(x) => le32(x),
        FieldV::Long(x) => le32((x & 0xffff_ffff) as u32) + le32((x >> 32) as u32),
        FieldV::Bytes(s) => s,
        FieldV::Halves(s) => halves_le(s),
        FieldV::Words(s) => words_le(s),
    }
}

/// The wire bytes of a list of fields: each field's bytes, in order.
pub open spec fn fields_bytes(fs: Seq<FieldV>) -> Seq<u8>
    decreases fs.len(),
{
    if fs.len() == 0 {
        Seq::empty()
    } else {
        fields_bytes(fs.drop_last()) + field_bytes(fs.last())
    }
}

/// The number of bytes a body of schema `sc` takes.
pub open spec fn schema_size(sc: Seq<Kind>) -> nat
    decreases sc.len(),
{
    if sc.len() == 0 {
        0
    } else {
        schema_size(sc.drop_last()) + kind_size(sc.last())
    }
}

/// Where field `j` of schema `sc` starts.
pub open spec fn field_offset(sc: Seq<Kind>, j: int) -> nat {
    schema_size(sc.take(j))
}

/// The field of kind `k` stored at `s[i..]`.
pub open spec fn read_field(k: Kind, s: Seq<u8>, i: int) -> FieldV {
    match k {
        Kind::Byte => FieldV::Byte(s[i]),
        Kind::Half => FieldV::Half(get16(s, i)),
        Kind::Word => FieldV::Word(get32(s, i)),
        Kind::Long => FieldV::Long(((get32(s, i) as u64) | ((get32(s, i + 4) as u64) << 32)) as u64),
        Kind::Bytes(n) => FieldV::Bytes(s.subrange(i, i + n)),
        Kind::Halves(n) => FieldV::Halves(halves_at(s, i, n as nat)),
        Kind::Words(n) => FieldV::Words(words_at(s, i, n as nat)),
        Kind::Tail { unit, .. } => read_units(unit, s, i, 0),
    }
}

/// The body of schema `sc` at the start of `s`; none when `s` is too short.
/// Bytes past the body are ignored.
pub open spec fn parse_fields(sc: Seq<Kind>, s: Seq<u8>) -> Option<Seq<FieldV>> {
    if schema_size(sc) <= s.len() {
        Some(Seq::new(sc.len(), |j: int| read_field(sc[j], s, field_offset(sc, j) as int)))
    } else {
        None
    }
}

proof fn lemma_field_bytes_len(f: FieldV, k: Kind)
    requires
        field_has_kind(f, k),
    ensures
        field_bytes(f).len() == kind_size(k),
{
    match f {
        FieldV::Halves(s) => lemma_halves_le_len(s),
        FieldV::Words(s) => lemma_words_le_len(s),
        _ => {},
    }
}

proof fn lemma_fields_bytes_len(sc: Seq<Kind>, fs: Seq<FieldV>)
    requires
        fields_match(sc, fs),
    ensures
        fields_bytes(fs).len() == schema_size(sc),
    decreases fs.len(),
{
    if fs.len() > 0 {
        let n = fs.len() - 1;
        assert(field_has_kind(fs[n], sc[n]));
        assert(fields_match(sc.drop_last(), fs.drop_last())) by {
            assert forall|j: int| 0 <= j < sc.drop_last().len() implies field_has_kind(
                #[trigger] fs.drop_last()[j],
                sc.drop_last()[j],
            ) by {
                assert(field_has_kind(fs[j], sc[j]));
            }
        }
        lemma_fields_bytes_len(sc.drop_last(), fs.drop_last());
        lemma_field_bytes_len(fs.last(), sc[n]);
    }
}

proof fn lemma_fields_bytes_append(a: Seq<FieldV>, b: Seq<FieldV>)
    ensures
        fields_bytes(a + b) == fields_bytes(a) + fields_bytes(b),
    decreases b.len(),
{
    if b.len() == 0 {
        assert(a + b == a);
        assert(fields_bytes(a) + fields_bytes(b) == fields_bytes(a));
    } else {
        assert((a + b).drop_last() == a + b.drop_last());
        lemma_fields_bytes_append(a, b.drop_last());
        assert(fields_bytes(a + b) == fields_bytes(a) + fields_bytes(b.drop_last()) + field_bytes(
            b.last(),
        ));
    }
}

proof fn lemma_long_join(x: u64)
    ensures
        ((((x & 0xffff_ffff) as u32) as u64) | ((((x >> 32) as u32) as u64) << 32)) == x,
{
    assert(((((x & 0xffff_ffff) as u32) as u64) | ((((x >> 32) as u32) as u64) << 32)) == x)
        by (bit_vector);
}

/// A field reads back from its place in a byte sequence.
proof fn lemma_read_field(pre: Seq<u8>, f: FieldV, k: Kind, post: Seq<u8>)
    requires
        field_has_kind(f, k),
    ensures
        read_field(k, pre + field_bytes(f) + post, pre.len() as int) == f,
{
    if k is Tail {
        match f {
            FieldV::Bytes(b) => {
                assert(b =~= Seq::<u8>::empty());
                assert((pre + field_bytes(f) + post).subrange(pre.len() as int, pre.len() as int) =~= b);
            },
            FieldV::Halves(h) => {
                assert(h =~= Seq::<u16>::empty());
                assert(halves_at(pre + field_bytes(f) + post, pre.len() as int, 0) =~= h);
            },
            FieldV::Words(w) => {
                assert(w =~= Seq::<u32>::empty());
                assert(words_at(pre + field_bytes(f) + post, pre.len() as int, 0) =~= w);
            },
            _ => {},
        }
        return;
    }
    lemma_field_has_own_kind(f, k);
    let s = pre + field_bytes(f) + post;
    let i = pre.len() as int;
    match f {
        FieldV::Byte(x) => {
            assert(s[i] == x);
        },
        FieldV::Half(x) => {
            lemma_get16(pre, x, post);
        },
        FieldV::Word(x) => {
            lemma_get32(pre, x, post);
        },
        FieldV::Long(x) => {
            let lo = (x & 0xffff_ffff) as u32;
            let hi = (x >> 32) as u32;
            lemma_get32(pre, lo, le32(hi) + post);
            assert(s == pre + le32(lo) + (le32(hi) + post));
            lemma_get32(pre + le32(lo), hi, post);
            assert(s == (pre + le32(lo)) + le32(hi) + post);
            lemma_long_join(x);
        },
        FieldV::Bytes(b) => {
            assert(s.subrange(i, i + b.len()) == b);
        },
        FieldV::Halves(h) => {
            lemma_get_halves(pre, h, post);
        },
        FieldV::Words(w) => {
            lemma_get_words(pre, w, post);
        },
    }
}

proof fn lemma_field_has_own_kind(f: FieldV, k: Kind)
    requires
        field_has_kind(f, k),
        !(k is Tail),
    ensures
        kind_of(f) == k,
        field_has_kind(f, kind_of(f)),
{
}

/// Decoding the encoding of fields that match a schema gives the same fields back,
/// whatever follows them.
pub proof fn lemma_fields_round_trip(sc: Seq<Kind>, fs: Seq<FieldV>, post: Seq<u8>)
    requires
        fields_match(sc, fs),
    ensures
        fields_bytes(fs).len() == schema_size(sc),
        parse_fields(sc, fields_bytes(fs) + post) == Some(fs),
{
    lemma_fields_bytes_len(sc, fs);
    let s = fields_bytes(fs) + post;
    assert forall|j: int| 0 <= j < sc.len() implies read_field(
        sc[j],
        s,
        field_offset(sc, j) as int,
    ) == fs[j] by {
        let a = fs.take(j);
        let b = fs.skip(j + 1);
        assert(fs == a + seq![fs[j]] + b);
        lemma_fields_bytes_append(a + seq![fs[j]], b);
        lemma_fields_bytes_append(a, seq![fs[j]]);
        assert(seq![fs[j]].drop_last() == Seq::<FieldV>::empty());
        assert(seq![fs[j]].last() == fs[j]);
        assert(fields_bytes(Seq::<FieldV>::empty()) == Seq::<u8>::empty());
        assert(fields_bytes(seq![fs[j]]) == Seq::<u8>::empty() + field_bytes(fs[j]));
        assert(fields_bytes(seq![fs[j]]) == field_bytes(fs[j]));
        assert(fields_match(sc.take(j), a)) by {
            assert forall|m: int| 0 <= m < j implies field_has_kind(#[trigger] a[m], sc.take(j)[m]) by {
                assert(field_has_kind(fs[m], sc[m]));
            }
        }
        lemma_fields_bytes_len(sc.take(j), a);
        assert(field_has_kind(fs[j], sc[j]));
        assert(s == fields_bytes(a) + field_bytes(fs[j]) + (fields_bytes(b) + post));
        lemma_read_field(fields_bytes(a), fs[j], sc[j], fields_bytes(b) + post);
    }
    assert(parse_fields(sc, s).unwrap() =~= fs);
}

/// Appends the wire bytes of each field.
pub fn encode_fields(out: &mut Vec<u8>, fs: &Vec<Field>)
    ensures
        final(out)@ == old(out)@ + fields_bytes(fields_view(fs@)),
{
    let mut i: usize = 0;
    while i < fs.len()
        invariant
            i <= fs@.len(),
            out@ == old(out)@ + fields_bytes(fields_view(fs@.subrange(0, i as int))),
        decreases fs@.len() - i,
    {
        let ghost before = out@;
        match &fs[i] {
            Field::Byte(x) => {
                out.push(*x);
                assert(out@ == before + seq![*x]);
            },
            Field::Half(x) => push16(out, *x),
            Field::Word(x) => push32(out, *x),
            Field::Long(x) => {
                push32(out, (*x & 0xffff_ffff) as u32);
                push32(out, (*x >> 32) as u32);
                assert(out@ == before + field_bytes(fs@[i as int]@));
            },
            Field::Bytes(v) => {
                let mut k: usize = 0;
                while k < v.len()
                    invariant
                        k <= v@.len(),
                        out@ == before + v@.subrange(0, k as int),
                    decreases v@.len() - k,
                {
                    out.push(v[k]);
                    k += 1;
                    assert(out@ =~= before + v@.subrange(0, k as int));
                }
                assert(v@.subrange(0, v@.len() as int) == v@);
            },
            Field::Halves(v) => push_halves(out, v.as_slice()),
            Field::Words(v) => push_words(out, v.as_slice()),
        }
        proof {
            let pre = fields_view(fs@.subrange(0, i as int));
            let nxt = fields_view(fs@.subrange(0, i + 1));
            assert(nxt.drop_last() =~= pre);
            assert(nxt.last() == fs@[i as int]@);
        }
        i += 1;
    }
    assert(fs@.subrange(0, fs@.len() as int) == fs@);
}

proof fn lemma_offset_step(sc: Seq<Kind>, j: int)
    requires
        0 <= j < sc.len(),
    ensures
        field_offset(sc, j + 1) == field_offset(sc, j) + kind_size(sc[j]),
        field_offset(sc, j) + kind_size(sc[j]) <= schema_size(sc),
    decreases sc.len() - j,
{
    assert(sc.take(j + 1).drop_last() == sc.take(j));
    if j + 1 == sc.len() {
        assert(sc.take(j + 1) == sc);
    } else {
        lemma_offset_step(sc, j + 1);
        lemma_offset_mono(sc, j + 2);
    }
}

proof fn lemma_offset_mono(sc: Seq<Kind>, j: int)
    requires
        0 <= j <= sc.len(),
    ensures
        field_offset(sc, j) <= schema_size(sc),
    decreases sc.len() - j,
{
    if j == sc.len() {
        assert(sc.take(j) == sc);
    } else {
        assert(sc.take(j + 1).drop_last() == sc.take(j));
        lemma_offset_mono(sc, j + 1);
    }
}

/// The size of a schema, or none when it exceeds `limit`.
pub fn schema_size_within(sc: &Vec<Kind>, limit: usize) -> (r: Option<usize>)
    ensures
        r is Some <==> schema_size(sc@) <= limit,
        r is Some ==> r.unwrap() == schema_size(sc@),
{
    let mut total: usize = 0;
    let mut j: usize = 0;
    while j < sc.len()
        invariant
            j <= sc@.len(),
            total == field_offset(sc@, j as int),
            total <= limit,
        decreases sc@.len() - j,
    {
        proof {
            lemma_offset_step(sc@, j as int);
        }
        let size: usize = match sc[j] {
            Kind::Byte => 1,
            Kind::Half => 2,
            Kind::Word => 4,
            Kind::Long => 8,
            Kind::Bytes(n) => n,
            Kind::Halves(n) => {
                if n > (limit - total) / 2 {
                    proof {
                        lemma_offset_mono(sc@, j + 1);
                    }
                    return None;
                }
                2 * n
            },
            Kind::Words(n) => {
                if n > (limit - total) / 4 {
                    proof {
                        lemma_offset_mono(sc@, j + 1);
                    }
                    return None;
                }
                4 * n
            },
            Kind::Tail { .. } => 0,
        };
        if size > limit - total {
            proof {
                lemma_offset_mono(sc@, j + 1);
            }
            return None;
        }
        total = total + size;
        j += 1;
    }
    assert(sc@.take(sc@.len() as int) == sc@);
    Some(total)
}

/// Decodes a body of schema `sc` from the start of `b`; none when `b` is too short.
pub fn decode_fields(sc: &Vec<Kind>, b: &[u8]) -> (r: Option<Vec<Field>>)
    ensures
        r is Some <==> parse_fields(sc@, b@) is Some,
        r is Some ==> fields_view(r.unwrap()@) == parse_fields(sc@, b@).unwrap(),
{
    let total = match schema_size_within(sc, b.len()) {
        Some(t) => t,
        None => return None,
    };
    let mut out: Vec<Field> = Vec::new();
    let mut pos: usize = 0;
    let mut j: usize = 0;
    while j < sc.len()
        invariant
            j <= sc@.len(),
            total == schema_size(sc@),
            total <= b@.len(),
            pos == field_offset(sc@, j as int),
            out@.len() == j,
            forall|m: int|
                0 <= m < j ==> (#[trigger] out@[m])@ == read_field(
                    sc@[m],
                    b@,
                    field_offset(sc@, m) as int,
                ),
        decreases sc@.len() - j,
    {
        proof {
            lemma_offset_step(sc@, j as int);
        }
        let f = match sc[j] {
            Kind::Byte => Field::Byte(b[pos]),
            Kind::Half => Field::Half(read16(b, pos)),
            Kind::Word => Field::Word(read32(b, pos)),
            Kind::Long => {
                let lo = read32(b, pos);
                let hi = read32(b, pos + 4);
                Field::Long((lo as u64) | ((hi as u64) << 32))
            },
            Kind::Bytes(n) => {
                let mut v: Vec<u8> = Vec::new();
                let mut k: usize = 0;
                let len = b.len();
                while k < n
                    invariant
                        k <= n,
                        len == b@.len(),
                        pos + n <= b@.len(),
                        v@ == b@.subrange(pos as int, pos + k),
                    decreases n - k,
                {
                    v.push(b[pos + k]);
                    k += 1;
                    assert(v@ =~= b@.subrange(pos as int, pos + k));
                }
                Field::Bytes(v)
            },
            Kind::Halves(n) => Field::Halves(read_halves(b, pos, n)),
            Kind::Words(n) => Field::Words(read_words(b, pos, n)),
            Kind::Tail { unit, .. } => read_unit_field(b, pos, 0, unit),
        };
        pos = pos + match sc[j] {
            Kind::Byte => 1,
            Kind::Half => 2,
            Kind::Word => 4,
            Kind::Long => 8,
            Kind::Bytes(n) => n,
            Kind::Halves(n) => 2 * n,
            Kind::Words(n) => 4 * n,
            Kind::Tail { .. } => 0,
        };
        out.push(f);
        j += 1;
    }
    assert(fields_view(out@) =~= parse_fields(sc@, b@).unwrap());
    Some(out)
}

/// Reads `n` units of kind `unit` from byte `pos` on.
fn read_unit_field(b: &[u8], pos: usize, n: usize, unit: Unit) -> (r: Field)
    requires
        pos + n * unit_size(unit) <= b@.len(),
    ensures
        r@ == read_units(unit, b@, pos as int, n as int),
{
    match unit {
        Unit::Byte => {
            let mut v: Vec<u8> = Vec::new();
            let mut k: usize = 0;
            let len = b.len();
            while k < n
                invariant
                    k <= n,
                    len == b@.len(),
                    pos + n <= b@.len(),
                    v@ == b@.subrange(pos as int, pos + k),
                decreases n - k,
            {
                v.push(b[pos + k]);
                k += 1;
                assert(v@ =~= b@.subrange(pos as int, pos + k));
            }
            Field::Bytes(v)
        },
        Unit::Half => Field::Halves(read_halves(b, pos, n)),
        Unit::Word => Field::Words(read_words(b, pos, n)),
    }
}

} // verus!

verus! {

/// A signed byte as a field.
pub open spec fn fb(x: i8) -> FieldV {
    FieldV::Byte(x as u8)
}

/// A signed 16-bit value as a field.
pub open spec fn fh(x: i16) -> FieldV {
    FieldV::Half(x as u16)
}

/// A signed 32-bit value as a field.
pub open spec fn fw(x: i32) -> FieldV {
    FieldV::Word(x as u32)
}

/// Appends the fields of `b` to `a`.
pub fn append_fields(a: &mut Vec<Field>, b: Vec<Field>)
    ensures
        fields_view(final(a)@) == fields_view(old(a)@) + fields_view(b@),
{
    let ghost b0 = b@;
    let mut b = b;
    a.append(&mut b);
    assert(fields_view(a@) =~= fields_view(old(a)@) + fields_view(b0));
}

/// A copy of a vector of plain values.
pub fn copy_vec<T: Copy>(v: &Vec<T>) -> (r: Vec<T>)
    ensures
        r@ == v@,
{
    let mut r: Vec<T> = Vec::new();
    let mut i: usize = 0;
    while i < v.len()
        invariant
            i <= v@.len(),
            r@ == v@.subrange(0, i as int),
        decreases v@.len() - i,
    {
        r.push(v[i]);
        i += 1;
        assert(r@ =~= v@.subrange(0, i as int));
    }
    assert(v@.subrange(0, v@.len() as int) == v@);
    r
}

/// The signed byte held by field `i`.
pub fn get_i8(fs: &[Field], i: usize) -> (r: i8)
    requires
        i < fs@.len(),
        fs@[i as int]@ is Byte,
    ensures
        fs@[i as int]@ == fb(r),
{
    match &fs[i] {
        Field::Byte(v) => {
            let v = *v;
            assert((v as i8) as u8 == v) by (bit_vector);
            v as i8
        },
        _ => 0,
    }
}

/// The byte held by field `i`.
pub fn get_u8(fs: &[Field], i: usize) -> (r: u8)
    requires
        i < fs@.len(),
        fs@[i as int]@ is Byte,
    ensures
        fs@[i as int]@ == FieldV::Byte(r),
{
    match &fs[i] {
        Field::Byte(v) => *v,
        _ => 0,
    }
}

/// The signed 16-bit value held by field `i`.
pub fn get_i16(fs: &[Field], i: usize) -> (r: i16)
    requires
        i < fs@.len(),
        fs@[i as int]@ is Half,
    ensures
        fs@[i as int]@ == fh(r),
{
    match &fs[i] {
        Field::Half(v) => {
            let v = *v;
            assert((v as i16) as u16 == v) by (bit_vector);
            v as i16
        },
        _ => 0,
    }
}

/// The 16-bit value held by field `i`.
pub fn get_u16(fs: &[Field], i: usize) -> (r: u16)
    requires
        i < fs@.len(),
        fs@[i as int]@ is Half,
    ensures
        fs@[i as int]@ == FieldV::Half(r),
{
    match &fs[i] {
        Field::Half(v) => *v,
        _ => 0,
    }
}

/// The signed 32-bit value held by field `i`.
pub fn get_i32(fs: &[Field], i: usize) -> (r: i32)
    requires
        i < fs@.len(),
        fs@[i as int]@ is Word,
    ensures
        fs@[i as int]@ == fw(r),
{
    match &fs[i] {
        Field::Word(v) => {
            let v = *v;
            assert((v as i32) as u32 == v) by (bit_vector);
            v as i32
        },
        _ => 0,
    }
}

/// The 32-bit value held by field `i`.
pub fn get_u32(fs: &[Field], i: usize) -> (r: u32)
    requires
        i < fs@.len(),
        fs@[i as int]@ is Word,
    ensures
        fs@[i as int]@ == FieldV::Word(r),
{
    match &fs[i] {
        Field::Word(v) => *v,
        _ => 0,
    }
}

/// The 64-bit value held by field `i`.
pub fn get_u64(fs: &[Field], i: usize) -> (r: u64)
    requires
        i < fs@.len(),
        fs@[i as int]@ is Long,
    ensures
        fs@[i as int]@ == FieldV::Long(r),
{
    match &fs[i] {
        Field::Long(v) => *v,
        _ => 0,
    }
}

/// The bytes held by field `i`.
pub fn get_bytes(fs: &[Field], i: usize) -> (r: Vec<u8>)
    requires
        i < fs@.len(),
        fs@[i as int]@ is Bytes,
    ensures
        fs@[i as int]@ == FieldV::Bytes(r@),
{
    match &fs[i] {
        Field::Bytes(v) => copy_vec(v),
        _ => Vec::new(),
    }
}

/// The 16-bit values held by field `i`.
pub fn get_halves(fs: &[Field], i: usize) -> (r: Vec<u16>)
    requires
        i < fs@.len(),
        fs@[i as int]@ is Halves,
    ensures
        fs@[i as int]@ == FieldV::Halves(r@),
{
    match &fs[i] {
        Field::Halves(v) => copy_vec(v),
        _ => Vec::new(),
    }
}

/// The 32-bit values held by field `i`.
pub fn get_words(fs: &[Field], i: usize) -> (r: Vec<u32>)
    requires
        i < fs@.len(),
        fs@[i as int]@ is Words,
    ensures
        fs@[i as int]@ == FieldV::Words(r@),
{
    match &fs[i] {
        Field::Words(v) => copy_vec(v),
        _ => Vec::new(),
    }
}

} // verus!

verus! {

/// What `parse_fields` gives has, field by field, the kinds of the schema.
pub proof fn lemma_parse_matches(sc: Seq<Kind>, s: Seq<u8>)
    requires
        parse_fields(sc, s) is Some,
    ensures
        fields_match(sc, parse_fields(sc, s).unwrap()),
{
    let fs = parse_fields(sc, s).unwrap();
    assert forall|j: int| 0 <= j < sc.len() implies field_has_kind(#[trigger] fs[j], sc[j]) by {
        let i = field_offset(sc, j) as int;
        lemma_offset_step(sc, j);
        match sc[j] {
            Kind::Bytes(n) => {
                assert(s.subrange(i, i + n).len() == n);
            },
            _ => {},
        }
    }
}

} // verus!

verus! {

/// Whether the last kind of `sc` is a variable-length tail.
pub open spec fn has_tail(sc: Seq<Kind>) -> bool {
    sc.len() > 0 && sc.last() is Tail
}

/// Whether the body fields `fs` have the layout `sc`: the fixed fields match,
/// and a tail holds as many elements as its count field says.
pub open spec fn body_match(sc: Seq<Kind>, fs: Seq<FieldV>) -> bool {
    if has_tail(sc) {
        match sc.last() {
            Kind::Tail { unit, per, count_at, less } => {
                &&& fs.len() == sc.len()
                &&& fields_match(sc.drop_last(), fs.drop_last())
                &&& count_at < sc.len() - 1
                &&& per > 0
                &&& unit_field(fs.last(), unit)
                &&& tail_units(fs.last()) == (count_value(fs[count_at as int]) - less) * per
            },
            _ => false,
        }
    } else {
        fields_match(sc, fs)
    }
}

/// The body of layout `sc` at the start of `s`: the fixed fields, then for a
/// tail as many elements as its count field says (none for a negative count,
/// or when `s` is too short).
pub open spec fn parse_body(sc: Seq<Kind>, s: Seq<u8>) -> Option<Seq<FieldV>> {
    if has_tail(sc) {
        match sc.last() {
            Kind::Tail { unit, per, count_at, less } => match parse_fields(sc.drop_last(), s) {
                None => None,
                Some(pf) => {
                    let n = count_value(pf[count_at as int]) - less;
                    let off = schema_size(sc.drop_last()) as int;
                    if count_at < pf.len() && per > 0 && n >= 0 && off + n * per * unit_size(unit) <= s.len() {
                        Some(pf.push(read_units(unit, s, off, n * per)))
                    } else {
                        None
                    }
                },
            },
            _ => None,
        }
    } else {
        parse_fields(sc, s)
    }
}

proof fn lemma_read_units(pre: Seq<u8>, f: FieldV, unit: Unit, post: Seq<u8>)
    requires
        unit_field(f, unit),
    ensures
        read_units(unit, pre + field_bytes(f) + post, pre.len() as int, tail_units(f)) == f,
        field_bytes(f).len() == tail_units(f) * unit_size(unit),
{
    let s = pre + field_bytes(f) + post;
    match f {
        FieldV::Bytes(b) => {
            assert(s.subrange(pre.len() as int, (pre.len() + b.len()) as int) =~= b);
        },
        FieldV::Halves(h) => {
            lemma_get_halves(pre, h, post);
            lemma_halves_le_len(h);
        },
        FieldV::Words(w) => {
            lemma_get_words(pre, w, post);
            lemma_words_le_len(w);
        },
        _ => {},
    }
}

/// Decoding the encoding of body fields that have a layout gives the same
/// fields back, whatever follows them.
pub proof fn lemma_body_round_trip(sc: Seq<Kind>, fs: Seq<FieldV>, post: Seq<u8>)
    requires
        body_match(sc, fs),
    ensures
        parse_body(sc, fields_bytes(fs) + post) == Some(fs),
{
    if has_tail(sc) {
        if let Kind::Tail { unit, per, count_at, less } = sc.last() {
            let pre = fs.drop_last();
            let t = fs.last();
            assert(fields_bytes(fs) == fields_bytes(pre) + field_bytes(t));
            let s = fields_bytes(fs) + post;
            assert(s == fields_bytes(pre) + (field_bytes(t) + post));
            lemma_fields_round_trip(sc.drop_last(), pre, field_bytes(t) + post);
            let pf = parse_fields(sc.drop_last(), s).unwrap();
            assert(pf == pre);
            assert(pf[count_at as int] == fs[count_at as int]);
            lemma_read_units(fields_bytes(pre), t, unit, post);
            assert(s == fields_bytes(pre) + field_bytes(t) + post);
            let n = count_value(pf[count_at as int]) - less;
            assert(n * per == tail_units(t));
            assert(n >= 0) by (nonlinear_arith)
                requires
                    n * per == tail_units(t),
                    per > 0,
                    tail_units(t) >= 0,
            ;
            assert(n * per * unit_size(unit) == tail_units(t) * unit_size(unit));
            assert(pf.push(t) =~= fs);
        }
    } else {
        lemma_fields_round_trip(sc, fs, post);
    }
}

/// What `parse_body` gives has the layout.
pub proof fn lemma_parse_body_matches(sc: Seq<Kind>, s: Seq<u8>)
    requires
        parse_body(sc, s) is Some,
    ensures
        body_match(sc, parse_body(sc, s).unwrap()),
{
    if has_tail(sc) {
        if let Kind::Tail { unit, per, count_at, less } = sc.last() {
            lemma_parse_matches(sc.drop_last(), s);
            let pf = parse_fields(sc.drop_last(), s).unwrap();
            let fs = parse_body(sc, s).unwrap();
            assert(fs.drop_last() =~= pf);
            let n = count_value(pf[count_at as int]) - less;
            let t = read_units(unit, s, schema_size(sc.drop_last()) as int, n * per);
            assert(fs.last() == t);
            assert(n * per >= 0) by (nonlinear_arith)
                requires
                    n >= 0,
                    per >= 0,
            ;
            assert(tail_units(t) == n * per);
            assert(fs[count_at as int] == pf[count_at as int]);
        }
    } else {
        lemma_parse_matches(sc, s);
    }
}

/// Decodes a body of layout `sc` from the start of `b`.
pub fn decode_body(sc: &Vec<Kind>, b: &[u8]) -> (r: Option<Vec<Field>>)
    ensures
        r is Some <==> parse_body(sc@, b@) is Some,
        r is Some ==> fields_view(r.unwrap()@) == parse_body(sc@, b@).unwrap(),
{
    let n = sc.len();
    if n == 0 {
        return decode_fields(sc, b);
    }
    let (unit, per, count_at, less) = match sc[n - 1] {
        Kind::Tail { unit, per, count_at, less } => (unit, per, count_at, less),
        _ => {
            return decode_fields(sc, b);
        },
    };
    let mut pre = copy_vec(sc);
    pre.pop();
    assert(pre@ == sc@.drop_last());
    let mut fs = match decode_fields(&pre, b) {
        Some(fs) => fs,
        None => return None,
    };
    let off = match schema_size_within(&pre, b.len()) {
        Some(o) => o,
        None => return None,
    };
    if count_at >= fs.len() {
        return None;
    }
    let count: i64 = match &fs[count_at] {
        Field::Byte(x) => if *x < 0x80 { *x as i64 } else { *x as i64 - 0x100 },
        Field::Half(x) => if *x < 0x8000 { *x as i64 } else { *x as i64 - 0x1_0000 },
        Field::Word(x) => if *x < 0x8000_0000 { *x as i64 } else { *x as i64 - 0x1_0000_0000 },
        _ => -1,
    };
    proof {
        assert(fields_view(fs@)[count_at as int] == parse_fields(sc@.drop_last(), b@).unwrap()[count_at as int]);
    }
    let k: i64 = count - less as i64;
    if k < 0 || per == 0 {
        return None;
    }
    let size: u64 = match unit {
        Unit::Byte => 1,
        Unit::Half => 2,
        Unit::Word => 4,
    };
    assert(k <= 0x8000_0000);
    assert(k as u128 * per as u128 <= 0x8000_0000u128 * 0xFFFF_FFFF_FFFF_FFFFu128) by (nonlinear_arith)
        requires
            0 <= k <= 0x8000_0000,
            per <= 0xFFFF_FFFF_FFFF_FFFF,
    ;
    let units: u128 = k as u128 * per as u128;
    assert(units * size as u128 <= 4 * (0x8000_0000u128 * 0xFFFF_FFFF_FFFF_FFFFu128)) by (nonlinear_arith)
        requires
            units <= 0x8000_0000u128 * 0xFFFF_FFFF_FFFF_FFFFu128,
            size <= 4,
    ;
    let bytes: u128 = units * size as u128;
    if bytes > (b.len() - off) as u128 {
        return None;
    }
    assert(units <= bytes);
    let t = read_unit_field(b, off, units as usize, unit);
    let ghost before = fields_view(fs@);
    fs.push(t);
    assert(fields_view(fs@) =~= before.push(t@));
    Some(fs)
}

} // verus!

verus! {

/// `body_match` for a layout that ends in the tail `Tail { unit, per, count_at, less }`.
pub proof fn lemma_body_match_tail(sc: Seq<Kind>, fs: Seq<FieldV>, unit: Unit, per: usize, count_at: usize, less: u8)
    requires
        sc.len() > 0,
        sc.last() == (Kind::Tail { unit, per, count_at, less }),
    ensures
        body_match(sc, fs) == (fs.len() == sc.len() && fields_match(sc.drop_last(), fs.drop_last())
            && count_at < sc.len() - 1 && per > 0 && unit_field(fs.last(), unit) && tail_units(fs.last())
            == (count_value(fs[count_at as int]) - less) * per),
{
}

} // verus!
