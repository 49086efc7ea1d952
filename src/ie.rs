//! The tagged-field codec: a field is a type code, a two-byte length that
//! counts the payload only, an instance byte, and the payload.

use vstd::prelude::*;
use crate::bytes::{be16, be16_bytes, lemma_be16_bytes_round_trip, lemma_be16_round_trip, push_be16, push_bytes, read_be16, write_be16};
use crate::error::GTPV2Error;

verus! {

/// Size of a field's header: type, length (two bytes) and instance.
pub const MIN_IE_SIZE: usize = 4;

/// A field as it stands on the wire, its payload kept as bytes.
#[derive(Debug, Clone, PartialEq, Eq)]
pub struct Ie {
    pub t: u8,
    pub ins: u8,
    pub value: Vec<u8>,
}

/// The mathematical value of an [`Ie`].
pub struct FieldModel {
    pub t: u8,
    pub ins: u8,
    pub value: Seq<u8>,
}

impl View for Ie {
    type V = FieldModel;

    open spec fn view(&self) -> FieldModel {
        FieldModel { t: self.t, ins: self.ins, value: self.value@ }
    }
}

/// The models of a sequence of fields.
pub open spec fn field_views(v: Seq<Ie>) -> Seq<FieldModel> {
    v.map_values(|f: Ie| f@)
}

/// A decoding result with its value replaced by the value's model.
pub open spec fn result_view<T: View>(r: Result<T, GTPV2Error>) -> Result<T::V, GTPV2Error> {
    match r {
        Ok(x) => Ok(x@),
        Err(e) => Err(e),
    }
}

/// The model of an optional field.
pub open spec fn opt_field_view(o: Option<Ie>) -> Option<FieldModel> {
    match o {
        Some(f) => Some(f@),
        None => None,
    }
}

/// A field whose payload size fits the length field.
pub open spec fn field_wf(f: FieldModel) -> bool {
    f.value.len() <= 0xffff
}

pub open spec fn fields_wf(fs: Seq<FieldModel>) -> bool {
    forall|i: int| 0 <= i < fs.len() ==> #[trigger] field_wf(fs[i])
}

/// The bytes of one field.
pub open spec fn field_bytes(f: FieldModel) -> Seq<u8> {
    seq![f.t] + be16_bytes(f.value.len() as u16) + seq![f.ins] + f.value
}

/// The bytes of a sequence of fields, one after the other.
pub open spec fn fields_bytes(fs: Seq<FieldModel>) -> Seq<u8>
    decreases fs.len(),
{
    if fs.len() == 0 {
        Seq::empty()
    } else {
        field_bytes(fs[0]) + fields_bytes(fs.drop_first())
    }
}

/// Whether a whole field stands at the front of `s`.
pub open spec fn front_fits(s: Seq<u8>) -> bool {
    s.len() >= 4 && 4 + be16(s[1], s[2]) <= s.len()
}

/// The number of bytes of the field at the front of `s`.
pub open spec fn front_len(s: Seq<u8>) -> int {
    4 + be16(s[1], s[2])
}

/// The field at the front of `s`.
pub open spec fn front_field(s: Seq<u8>) -> FieldModel {
    FieldModel { t: s[0], ins: s[3], value: s.subrange(4, front_len(s)) }
}

impl Ie {
    /// A copy of the field.
    pub fn duplicate(&self) -> (r: Ie)
        ensures
            r@ == self@,
    {
        Ie { t: self.t, ins: self.ins, value: crate::bytes::copy_bytes(self.value.as_slice()) }
    }
}

/// A copy of each field, in order.
pub fn duplicate_fields(v: &Vec<Ie>) -> (r: Vec<Ie>)
    ensures
        field_views(r@) == field_views(v@),
{
    let mut r: Vec<Ie> = Vec::new();
    let mut i: usize = 0;
    while i < v.len()
        invariant
            i <= v@.len(),
            field_views(r@) == field_views(v@.take(i as int)),
        decreases v@.len() - i,
    {
        let ghost before = field_views(r@);
        let d = v[i].duplicate();
        r.push(d);
        assert(field_views(r@) =~= before.push(d@));
        assert(field_views(v@.take(i + 1)) =~= field_views(v@.take(i as int)).push(v@[i as int]@));
        i = i + 1;
    }
    assert(v@.take(i as int) =~= v@);
    r
}

/// The fields that fill `s` exactly, or the error for the first field that
/// runs past the end.
pub open spec fn parse_fields(s: Seq<u8>) -> Result<Seq<FieldModel>, GTPV2Error>
    decreases s.len(),
{
    if s.len() == 0 {
        Ok(Seq::empty())
    } else if !front_fits(s) {
        Err(GTPV2Error::IEInvalidLength(s[0]))
    } else {
        match parse_fields(s.subrange(front_len(s), s.len() as int)) {
            Ok(rest) => Ok(seq![front_field(s)] + rest),
            Err(e) => Err(e),
        }
    }
}

/// `r` with `p` put before the fields it holds.
pub open spec fn prepend(
    p: Seq<FieldModel>,
    r: Result<Seq<FieldModel>, GTPV2Error>,
) -> Result<Seq<FieldModel>, GTPV2Error> {
    match r {
        Ok(x) => Ok(p + x),
        Err(e) => Err(e),
    }
}

/// Reads the field at the front of `buffer`; bytes after it are left alone.
pub fn decode_field(buffer: &[u8]) -> (r: Option<Ie>)
    ensures
        r is Some <==> front_fits(buffer@),
        r matches Some(f) ==> f@ == front_field(buffer@),
{
    if buffer.len() < MIN_IE_SIZE {
        return None;
    }
    let n = read_be16(buffer, 1) as usize;
    if buffer.len() - MIN_IE_SIZE < n {
        return None;
    }
    let mut value: Vec<u8> = Vec::new();
    push_bytes(&mut value, &buffer[MIN_IE_SIZE..MIN_IE_SIZE + n]);
    assert(value@ =~= front_field(buffer@).value);
    Some(Ie { t: buffer[0], ins: buffer[3], value })
}

/// The field at the front of `buffer`, or `IEInvalidLength(t)` where none
/// fits: what a field of type `t` reports when its bytes run short.
pub fn front_or(buffer: &[u8], t: u8) -> (r: Result<Ie, GTPV2Error>)
    ensures
        front_fits(buffer@) ==> (r matches Ok(f) && f@ == front_field(buffer@)),
        !front_fits(buffer@) ==> r == Err::<Ie, GTPV2Error>(GTPV2Error::IEInvalidLength(t)),
{
    match decode_field(buffer) {
        Some(f) => Ok(f),
        None => Err(GTPV2Error::IEInvalidLength(t)),
    }
}

/// Reads the fields that fill `buffer`, in order.
pub fn decode_fields(buffer: &[u8]) -> (r: Result<Vec<Ie>, GTPV2Error>)
    ensures
        match r {
            Ok(v) => parse_fields(buffer@) == Ok::<Seq<FieldModel>, GTPV2Error>(field_views(v@)),
            Err(e) => parse_fields(buffer@) == Err::<Seq<FieldModel>, GTPV2Error>(e),
        },
{
    let mut out: Vec<Ie> = Vec::new();
    let mut cursor: usize = 0;
    assert(buffer@.subrange(0, buffer@.len() as int) =~= buffer@);
    assert(field_views(out@) + Seq::empty() =~= Seq::empty());
    while cursor < buffer.len()
        invariant
            cursor <= buffer@.len(),
            parse_fields(buffer@) == prepend(
                field_views(out@),
                parse_fields(buffer@.subrange(cursor as int, buffer@.len() as int)),
            ),
        decreases buffer@.len() - cursor,
    {
        let rest = &buffer[cursor..buffer.len()];
        let ghost views = field_views(out@);
        let ghost tail = parse_fields(rest@.subrange(front_len(rest@), rest@.len() as int));
        match decode_field(rest) {
            None => {
                return Err(GTPV2Error::IEInvalidLength(buffer[cursor]));
            },
            Some(f) => {
                let n: usize = f.value.len() + MIN_IE_SIZE;
                assert(rest@.subrange(n as int, rest@.len() as int) =~= buffer@.subrange(
                    cursor + n,
                    buffer@.len() as int,
                ));
                out.push(f);
                cursor = cursor + n;
                assert(field_views(out@) =~= views + seq![f@]);
                proof {
                    if let Ok(x) = tail {
                        assert(views + (seq![f@] + x) =~= field_views(out@) + x);
                    }
                }
            },
        }
    }
    assert(buffer@.subrange(cursor as int, buffer@.len() as int) =~= Seq::<u8>::empty());
    assert(field_views(out@) + Seq::<FieldModel>::empty() =~= field_views(out@));
    Ok(out)
}

/// Overwrites the length of the field that starts at `start` with the number
/// of bytes that follow its header.
pub fn set_ie_length(buf: &mut Vec<u8>, start: usize)
    requires
        start + MIN_IE_SIZE <= old(buf)@.len(),
        old(buf)@.len() - start - MIN_IE_SIZE <= 0xffff,
    ensures
        final(buf)@ == old(buf)@.update(start + 1, be16_bytes((old(buf)@.len() - start - 4) as u16)[0])
            .update(start + 2, be16_bytes((old(buf)@.len() - start - 4) as u16)[1]),
{
    let n = (buf.len() - start - MIN_IE_SIZE) as u16;
    write_be16(buf, start + 1, n);
}

/// Appends one field: its header with a zero length, its payload, and then the
/// true length in place of the zero.
pub fn encode_field(f: &Ie, buf: &mut Vec<u8>)
    requires
        field_wf(f@),
    ensures
        final(buf)@ == old(buf)@ + field_bytes(f@),
{
    let start = buf.len();
    buf.push(f.t);
    push_be16(buf, 0);
    buf.push(f.ins);
    push_bytes(buf, f.value.as_slice());
    set_ie_length(buf, start);
    assert(buf@ =~= old(buf)@ + field_bytes(f@));
}

/// Appends the fields of `fs` one after the other.
pub fn encode_fields(fs: &Vec<Ie>, buf: &mut Vec<u8>)
    requires
        fields_wf(field_views(fs@)),
    ensures
        final(buf)@ == old(buf)@ + fields_bytes(field_views(fs@)),
{
    let ghost views = field_views(fs@);
    let mut i: usize = 0;
    assert(views.skip(0) =~= views);
    assert(old(buf)@ + Seq::empty() =~= old(buf)@);
    while i < fs.len()
        invariant
            i <= fs@.len(),
            views == field_views(fs@),
            fields_wf(views),
            old(buf)@ + fields_bytes(views) == buf@ + fields_bytes(views.skip(i as int)),
        decreases fs@.len() - i,
    {
        let ghost before = buf@;
        assert(views.skip(i as int).drop_first() =~= views.skip(i + 1));
        assert(views[i as int] == fs@[i as int]@);
        encode_field(&fs[i], buf);
        assert(before + fields_bytes(views.skip(i as int)) =~= buf@ + fields_bytes(
            views.skip(i + 1),
        ));
        i = i + 1;
    }
    assert(views.skip(i as int) =~= Seq::empty());
    assert(buf@ + Seq::<u8>::empty() =~= buf@);
}

/// The bytes of two sequences of fields are the bytes of the first followed
/// by those of the second.
pub proof fn lemma_fields_bytes_concat(a: Seq<FieldModel>, b: Seq<FieldModel>)
    ensures
        fields_bytes(a + b) == fields_bytes(a) + fields_bytes(b),
    decreases a.len(),
{
    if a.len() == 0 {
        assert(a + b =~= b);
        assert(fields_bytes(a) + fields_bytes(b) =~= fields_bytes(b));
    } else {
        lemma_fields_bytes_concat(a.drop_first(), b);
        assert((a + b).drop_first() =~= a.drop_first() + b);
        assert((a + b)[0] == a[0]);
        assert(fields_bytes(a + b) =~= fields_bytes(a) + fields_bytes(b));
    }
}

pub proof fn lemma_fields_bytes_one(x: FieldModel)
    ensures
        fields_bytes(seq![x]) == field_bytes(x),
{
    assert(seq![x].drop_first() == Seq::<FieldModel>::empty());
    assert(fields_bytes(Seq::<FieldModel>::empty()) == Seq::<u8>::empty());
    assert(fields_bytes(seq![x]) =~= field_bytes(x));
}

/// Leaving one field out shortens the bytes by that field's bytes.
pub proof fn lemma_fields_bytes_remove(fs: Seq<FieldModel>, k: int)
    requires
        0 <= k < fs.len(),
    ensures
        fields_bytes(fs.remove(k)).len() + field_bytes(fs[k]).len() == fields_bytes(fs).len(),
{
    let a = fs.take(k);
    let b = fs.skip(k + 1);
    assert(fs =~= a + (seq![fs[k]] + b));
    assert(fs.remove(k) =~= a + b);
    lemma_fields_bytes_concat(a, seq![fs[k]] + b);
    lemma_fields_bytes_concat(seq![fs[k]], b);
    lemma_fields_bytes_concat(a, b);
    lemma_fields_bytes_one(fs[k]);
}

/// Encoding well-formed fields and decoding the bytes gives the same fields back.
pub proof fn lemma_fields_round_trip(fs: Seq<FieldModel>)
    requires
        fields_wf(fs),
    ensures
        parse_fields(fields_bytes(fs)) == Ok::<Seq<FieldModel>, GTPV2Error>(fs),
    decreases fs.len(),
{
    if fs.len() == 0 {
        assert(fields_bytes(fs) =~= Seq::<u8>::empty());
        assert(fs =~= Seq::<FieldModel>::empty());
    } else {
        let f = fs[0];
        let s = fields_bytes(fs);
        assert(field_wf(f));
        lemma_be16_round_trip(f.value.len() as u16);
        lemma_fields_round_trip(fs.drop_first());
        assert(s[1] == be16_bytes(f.value.len() as u16)[0]);
        assert(s[2] == be16_bytes(f.value.len() as u16)[1]);
        assert(front_len(s) == 4 + f.value.len());
        assert(front_fits(s));
        assert(s.subrange(front_len(s), s.len() as int) =~= fields_bytes(fs.drop_first()));
        assert(front_field(s).value =~= f.value);
        assert(front_field(s) == f);
        assert(s.len() > 0);
        assert(parse_fields(s) == prepend(seq![f], parse_fields(fields_bytes(fs.drop_first()))));
        assert(seq![f] + fs.drop_first() =~= fs);
    }
}

/// Decoding bytes into fields and encoding them again gives the same bytes:
/// nothing is dropped or rewritten, whatever the type codes.
pub proof fn lemma_bytes_round_trip(s: Seq<u8>)
    requires
        parse_fields(s) is Ok,
    ensures
        fields_wf(parse_fields(s)->Ok_0),
        fields_bytes(parse_fields(s)->Ok_0) == s,
    decreases s.len(),
{
    if s.len() > 0 {
        let rest = s.subrange(front_len(s), s.len() as int);
        lemma_bytes_round_trip(rest);
        let fs = parse_fields(s)->Ok_0;
        let f = front_field(s);
        assert(fs[0] == f);
        assert(fs.drop_first() =~= parse_fields(rest)->Ok_0);
        lemma_be16_bytes_round_trip(s[1], s[2]);
        assert(fields_bytes(fs) =~= s);
    } else {
        assert(fields_bytes(parse_fields(s)->Ok_0) =~= s);
    }
}

/// Decoding `a + b`, where `a` decodes alone, gives the fields of `a`
/// followed by the result for `b`.
pub proof fn lemma_parse_fields_concat(a: Seq<u8>, b: Seq<u8>)
    requires
        parse_fields(a) is Ok,
    ensures
        parse_fields(a + b) == prepend(parse_fields(a)->Ok_0, parse_fields(b)),
    decreases a.len(),
{
    if a.len() == 0 {
        assert(a + b =~= b);
        assert(parse_fields(a)->Ok_0 =~= Seq::<FieldModel>::empty());
        if let Ok(x) = parse_fields(b) {
            assert(Seq::<FieldModel>::empty() + x =~= x);
        }
    } else {
        let n = front_len(a);
        let rest = a.subrange(n, a.len() as int);
        lemma_parse_fields_concat(rest, b);
        let ab = a + b;
        assert(ab.subrange(n, ab.len() as int) =~= rest + b);
        assert(ab[1] == a[1] && ab[2] == a[2]);
        assert(front_field(ab).value =~= front_field(a).value);
        assert(front_field(ab) == front_field(a));
        let pa = parse_fields(a)->Ok_0;
        let prest = parse_fields(rest)->Ok_0;
        assert(pa == seq![front_field(a)] + prest);
        if let Ok(x) = parse_fields(b) {
            assert(seq![front_field(a)] + (prest + x) =~= pa + x);
        }
    }
}

/// A field of any type code, unknown ones included, put between two buffers
/// that decode is decoded in its place, and encoding the result gives back the
/// same bytes.
pub proof fn lemma_field_injection(a: Seq<u8>, u: FieldModel, b: Seq<u8>)
    requires
        parse_fields(a) is Ok,
        parse_fields(b) is Ok,
        field_wf(u),
    ensures
        parse_fields(a + field_bytes(u) + b) == Ok::<Seq<FieldModel>, GTPV2Error>(
            parse_fields(a)->Ok_0 + seq![u] + parse_fields(b)->Ok_0,
        ),
        fields_bytes(parse_fields(a + field_bytes(u) + b)->Ok_0) == a + field_bytes(u) + b,
{
    let ub = field_bytes(u);
    assert(fields_wf(seq![u]));
    lemma_fields_round_trip(seq![u]);
    assert(fields_bytes(seq![u]) =~= ub) by {
        assert(fields_bytes(seq![u].drop_first()) =~= Seq::<u8>::empty());
    }
    lemma_parse_fields_concat(ub, b);
    lemma_parse_fields_concat(a, ub + b);
    assert(a + ub + b =~= a + (ub + b));
    let pa = parse_fields(a)->Ok_0;
    let pb = parse_fields(b)->Ok_0;
    assert(pa + (seq![u] + pb) =~= pa + seq![u] + pb);
    lemma_bytes_round_trip(a + ub + b);
}

} // verus!
