use crate::bytes::{
    align4, align_up_4, le16, le_byte, lemma_align4_bounds, lemma_le16_bytes,
    lemma_le16_roundtrip, push_bytes, read_u16_le, split_u16_le, zeros,
};
use crate::error::CodecError;
use vstd::prelude::*;
use vstd::slice::{slice_index_get, slice_subrange, slice_to_vec};

verus! {

/// One typed attribute carried after the option body. The source link-layer
/// address is the only variant this message is known to carry; any other
/// attribute type is kept as its raw type code and value bytes, so that
/// newer kernels do not break the codec.
#[derive(Debug, Clone, PartialEq, Eq)]
#[non_exhaustive]
pub enum Nla {
    SourceLinkLocalAddress(Vec<u8>),
    Other { kind: u16, value: Vec<u8> },
}

/// The mathematical shape of one attribute: its value bytes as a sequence.
#[verifier::ext_equal]
pub enum NlaModel {
    SourceLinkLocalAddress(Seq<u8>),
    Other { kind: u16, value: Seq<u8> },
}

impl View for Nla {
    type V = NlaModel;

    open spec fn view(&self) -> NlaModel {
        match self {
            Nla::SourceLinkLocalAddress(value) => NlaModel::SourceLinkLocalAddress(value@),
            Nla::Other { kind, value } => NlaModel::Other { kind: *kind, value: value@ },
        }
    }
}

/// The sequence of attribute models a vector of attributes stands for.
pub open spec fn nlas_view(s: Seq<Nla>) -> Seq<NlaModel> {
    s.map_values(|a: Nla| a@)
}

/// The type code an attribute serializes under.
pub open spec fn nla_kind(a: NlaModel) -> u16 {
    match a {
        NlaModel::SourceLinkLocalAddress(_) => 1,
        NlaModel::Other { kind, .. } => kind,
    }
}

/// The value bytes an attribute serializes.
pub open spec fn nla_value(a: NlaModel) -> Seq<u8> {
    match a {
        NlaModel::SourceLinkLocalAddress(value) => value,
        NlaModel::Other { value, .. } => value,
    }
}

/// The attribute a record with this type code and value decodes to.
pub open spec fn nla_of(kind: u16, value: Seq<u8>) -> NlaModel {
    if kind == 1 {
        NlaModel::SourceLinkLocalAddress(value)
    } else {
        NlaModel::Other { kind, value }
    }
}

/// The record length field (four header bytes plus the value) must fit in
/// sixteen bits.
pub open spec fn nla_encodable(a: NlaModel) -> bool {
    4 + nla_value(a).len() <= 65535
}

/// An attribute is canonical when an `Other` variant does not shadow the
/// type code of a named variant; every decoded attribute is canonical.
pub open spec fn nla_canonical(a: NlaModel) -> bool {
    match a {
        NlaModel::Other { kind, .. } => kind != 1,
        _ => true,
    }
}

pub open spec fn all_nlas_encodable(s: Seq<NlaModel>) -> bool {
    forall|i: int| 0 <= i < s.len() ==> nla_encodable(#[trigger] s[i])
}

pub open spec fn all_nlas_canonical(s: Seq<NlaModel>) -> bool {
    forall|i: int| 0 <= i < s.len() ==> nla_canonical(#[trigger] s[i])
}

/// The encoding of one attribute: a 16-bit length (header included), a
/// 16-bit type code, the value bytes, and zero padding up to a multiple of
/// four bytes.
pub open spec fn encode_nla(a: NlaModel) -> Seq<u8> {
    let len = 4 + nla_value(a).len() as int;
    seq![
        le_byte(len, 0),
        le_byte(len, 1),
        le_byte(nla_kind(a) as int, 0),
        le_byte(nla_kind(a) as int, 1),
    ] + nla_value(a) + zeros(align4(len) - len)
}

/// The encoding of an attribute run: each attribute in order, each starting
/// on a four-byte boundary.
pub open spec fn encode_nlas(s: Seq<NlaModel>) -> Seq<u8>
    decreases s.len(),
{
    if s.len() == 0 {
        Seq::empty()
    } else {
        encode_nlas(s.drop_last()) + encode_nla(s.last())
    }
}

/// Walks an attribute run: reads each record's length and type code, takes
/// its value, and steps over the padding. Fails on a record shorter than
/// its own header or whose padded extent overruns the run.
pub open spec fn parse_nlas(b: Seq<u8>) -> Result<Seq<NlaModel>, CodecError>
    decreases b.len(),
{
    if b.len() == 0 {
        Ok(Seq::empty())
    } else if b.len() < 4 {
        Err(CodecError::MalformedAttribute)
    } else {
        let len = le16(b[0], b[1]);
        let padded = align4(len);
        if len < 4 || padded > b.len() {
            Err(CodecError::MalformedAttribute)
        } else {
            let head = nla_of(le16(b[2], b[3]) as u16, b.subrange(4, len));
            match parse_nlas(b.skip(padded)) {
                Ok(rest) => Ok(seq![head] + rest),
                Err(e) => Err(e),
            }
        }
    }
}

/// An attribute run is zero-padded when every record's padding bytes are
/// zero. A run produced by `encode_nlas` has this shape; decoding ignores
/// the padding bytes, so only such runs re-encode to themselves.
pub open spec fn run_zero_padded(b: Seq<u8>) -> bool
    decreases b.len(),
{
    if b.len() == 0 {
        true
    } else if b.len() < 4 {
        false
    } else {
        let len = le16(b[0], b[1]);
        let padded = align4(len);
        if len < 4 || padded > b.len() {
            false
        } else {
            (forall|i: int| len <= i < padded ==> b[i] == 0) && run_zero_padded(b.skip(padded))
        }
    }
}

/// The encoding of a one-attribute run is the encoding of the attribute.
pub proof fn lemma_encode_nlas_singleton(a: NlaModel)
    ensures
        encode_nlas(seq![a]) == encode_nla(a),
{
    let s = seq![a];
    assert(s.drop_last() =~= Seq::<NlaModel>::empty());
    assert(encode_nlas(Seq::<NlaModel>::empty()) =~= Seq::<u8>::empty());
    assert(s.last() == a);
    assert(encode_nlas(s) == encode_nlas(s.drop_last()) + encode_nla(a));
    assert(Seq::<u8>::empty() + encode_nla(a) =~= encode_nla(a));
}

/// Encoding distributes over concatenation of attribute runs.
pub proof fn lemma_encode_nlas_append(s1: Seq<NlaModel>, s2: Seq<NlaModel>)
    ensures
        encode_nlas(s1 + s2) == encode_nlas(s1) + encode_nlas(s2),
    decreases s2.len(),
{
    if s2.len() == 0 {
        assert(s1 + s2 =~= s1);
        assert(encode_nlas(s1) + encode_nlas(s2) =~= encode_nlas(s1));
    } else {
        lemma_encode_nlas_append(s1, s2.drop_last());
        assert((s1 + s2).drop_last() =~= s1 + s2.drop_last());
        assert((s1 + s2).last() == s2.last());
        assert(encode_nlas(s1) + (encode_nlas(s2.drop_last()) + encode_nla(s2.last())) =~= (
        encode_nlas(s1) + encode_nlas(s2.drop_last())) + encode_nla(s2.last()));
    }
}

/// The encoding of one attribute is `align4` of its length field long, and
/// starts with the length and type code bytes.
pub proof fn lemma_encode_nla_shape(a: NlaModel)
    ensures
        encode_nla(a).len() == align4(4 + nla_value(a).len() as int),
{
    lemma_align4_bounds(4 + nla_value(a).len() as int);
}

/// A zero-padded run that parses re-encodes to exactly itself, and every
/// attribute it yields is canonical and fits its length field.
pub proof fn lemma_parse_nlas_exact(b: Seq<u8>)
    requires
        parse_nlas(b) is Ok,
        run_zero_padded(b),
    ensures
        all_nlas_canonical(parse_nlas(b)->Ok_0),
        all_nlas_encodable(parse_nlas(b)->Ok_0),
        encode_nlas(parse_nlas(b)->Ok_0) == b,
    decreases b.len(),
{
    let s = parse_nlas(b)->Ok_0;
    if b.len() == 0 {
        assert(encode_nlas(s) =~= b);
    } else {
        let len = le16(b[0], b[1]);
        let padded = align4(len);
        let kind = le16(b[2], b[3]) as u16;
        let value = b.subrange(4, len);
        let head = nla_of(kind, value);
        let tail = b.skip(padded);
        lemma_align4_bounds(len);
        lemma_parse_nlas_exact(tail);
        let rest = parse_nlas(tail)->Ok_0;
        assert(s =~= seq![head] + rest);
        lemma_encode_nlas_append(seq![head], rest);
        lemma_encode_nlas_singleton(head);
        // The head record re-encodes to the first `padded` bytes of the run.
        lemma_le16_bytes(b[0], b[1]);
        lemma_le16_bytes(b[2], b[3]);
        lemma_encode_nla_shape(head);
        assert(nla_kind(head) == kind && nla_value(head) == value);
        assert(encode_nla(head) =~= b.take(padded)) by {
            assert forall|i: int| 0 <= i < padded implies encode_nla(head)[i] == b[i] by {
                if 4 <= i < len {
                    assert(encode_nla(head)[i] == value[i - 4]);
                } else if len <= i {
                    assert(encode_nla(head)[i] == 0);
                }
            }
        }
        assert(b =~= b.take(padded) + b.skip(padded));
        assert(encode_nlas(s) == b.take(padded) + encode_nlas(rest));
        assert(encode_nlas(s) =~= b);
        assert forall|i: int| 0 <= i < s.len() implies nla_canonical(#[trigger] s[i])
            && nla_encodable(s[i]) by {
            if i > 0 {
                assert(s[i] == rest[i - 1]);
            }
        }
    }
}

/// Every attribute a successful parse yields is canonical and fits its
/// length field, whatever the padding bytes held.
pub proof fn lemma_parse_nlas_wf(b: Seq<u8>)
    requires
        parse_nlas(b) is Ok,
    ensures
        all_nlas_canonical(parse_nlas(b)->Ok_0),
        all_nlas_encodable(parse_nlas(b)->Ok_0),
    decreases b.len(),
{
    let s = parse_nlas(b)->Ok_0;
    if b.len() != 0 {
        let len = le16(b[0], b[1]);
        let padded = align4(len);
        let head = nla_of(le16(b[2], b[3]) as u16, b.subrange(4, len));
        lemma_align4_bounds(len);
        lemma_parse_nlas_wf(b.skip(padded));
        let rest = parse_nlas(b.skip(padded))->Ok_0;
        assert(s =~= seq![head] + rest);
        assert forall|i: int| 0 <= i < s.len() implies nla_canonical(#[trigger] s[i])
            && nla_encodable(s[i]) by {
            if i > 0 {
                assert(s[i] == rest[i - 1]);
            }
        }
    }
}

/// A run of canonical, encodable attributes parses back to exactly itself,
/// and its encoding is zero-padded.
pub proof fn lemma_encode_nlas_parse(s: Seq<NlaModel>)
    requires
        all_nlas_canonical(s),
        all_nlas_encodable(s),
    ensures
        parse_nlas(encode_nlas(s)) == Ok::<Seq<NlaModel>, CodecError>(s),
        run_zero_padded(encode_nlas(s)),
    decreases s.len(),
{
    if s.len() == 0 {
        assert(parse_nlas(encode_nlas(s)) == Ok::<Seq<NlaModel>, CodecError>(Seq::empty()));
        assert(Ok::<Seq<NlaModel>, CodecError>(Seq::empty()) == Ok::<Seq<NlaModel>, CodecError>(s))
            by {
            assert(Seq::<NlaModel>::empty() =~= s);
        }
    } else {
        let head = s[0];
        let rest = s.skip(1);
        assert(s =~= seq![head] + rest);
        lemma_encode_nlas_append(seq![head], rest);
        lemma_encode_nlas_singleton(head);
        assert forall|i: int| 0 <= i < rest.len() implies nla_canonical(#[trigger] rest[i])
            && nla_encodable(rest[i]) by {
            assert(rest[i] == s[i + 1]);
        }
        lemma_encode_nlas_parse(rest);
        let hb = encode_nla(head);
        let rb = encode_nlas(rest);
        let b = hb + rb;
        assert(encode_nlas(s) == b);
        let len = 4 + nla_value(head).len() as int;
        lemma_encode_nla_shape(head);
        lemma_align4_bounds(len);
        lemma_le16_roundtrip(len);
        lemma_le16_roundtrip(nla_kind(head) as int);
        assert(le16(b[0], b[1]) == len);
        assert(le16(b[2], b[3]) == nla_kind(head) as int);
        assert(b.subrange(4, len) =~= nla_value(head));
        assert(b.skip(align4(len)) =~= rb);
        assert(nla_of(nla_kind(head), nla_value(head)) == head);
        assert(parse_nlas(b) == Ok::<Seq<NlaModel>, CodecError>(seq![head] + rest));
        assert(forall|i: int| len <= i < align4(len) ==> b[i] == 0);
        assert(run_zero_padded(b));
    }
}

impl Nla {
    /// The type code this attribute serializes under.
    pub fn kind(&self) -> (r: u16)
        ensures
            r == nla_kind(self@),
    {
        match self {
            Nla::SourceLinkLocalAddress(_) => 1,
            Nla::Other { kind, .. } => *kind,
        }
    }

    /// The value bytes this attribute serializes.
    pub fn value(&self) -> (r: &Vec<u8>)
        ensures
            r@ == nla_value(self@),
    {
        match self {
            Nla::SourceLinkLocalAddress(value) => value,
            Nla::Other { value, .. } => value,
        }
    }
}

/// Appends the encoding of one attribute to `out`: its recomputed length
/// field, its type code, its value, and zero padding to a four-byte
/// boundary.
pub(crate) fn emit_nla(out: &mut Vec<u8>, a: &Nla)
    requires
        nla_encodable(a@),
    ensures
        final(out)@ == old(out)@ + encode_nla(a@),
{
    let vlen = a.value().len();
    let (l0, l1) = split_u16_le((vlen + 4) as u16);
    let (k0, k1) = split_u16_le(a.kind());
    out.push(l0);
    out.push(l1);
    out.push(k0);
    out.push(k1);
    push_bytes(out, a.value().as_slice());
    proof {
        lemma_align4_bounds(vlen as int + 4);
    }
    let padded = align_up_4(vlen + 4);
    let pad = padded - (vlen + 4);
    if pad > 0 {
        out.push(0);
    }
    if pad > 1 {
        out.push(0);
    }
    if pad > 2 {
        out.push(0);
    }
    proof {
        lemma_encode_nla_shape(a@);
        assert(out@ =~= old(out)@ + encode_nla(a@));
    }
}

/// How `parse_nlas` relates to the records already taken off the front of
/// a run: a parse failure stays a failure, a parsed tail is appended.
pub open spec fn parse_after(
    prefix: Seq<NlaModel>,
    r: Result<Seq<NlaModel>, CodecError>,
) -> Result<Seq<NlaModel>, CodecError> {
    match r {
        Ok(s) => Ok(prefix + s),
        Err(e) => Err(e),
    }
}

/// Walks a raw attribute run and yields the typed attributes, exactly as
/// [`parse_nlas`] describes.
pub(crate) fn parse_run(run: &[u8]) -> (r: Result<Vec<Nla>, CodecError>)
    ensures
        match r {
            Ok(attrs) => parse_nlas(run@) == Ok::<Seq<NlaModel>, CodecError>(nlas_view(attrs@)),
            Err(e) => parse_nlas(run@) == Err::<Seq<NlaModel>, CodecError>(e),
        },
{
    let mut pos: usize = 0;
    let mut attrs: Vec<Nla> = Vec::new();
    proof {
        assert(run@.skip(0) =~= run@);
        assert(nlas_view(attrs@) =~= Seq::<NlaModel>::empty());
        match parse_nlas(run@) {
            Ok(s) => {
                assert(Seq::<NlaModel>::empty() + s =~= s);
            },
            Err(_) => {},
        }
    }
    while pos < run.len()
        invariant
            pos <= run.len(),
            parse_nlas(run@) == parse_after(nlas_view(attrs@), parse_nlas(run@.skip(pos as int))),
        decreases run.len() - pos,
    {
        let ghost tail = run@.skip(pos as int);
        if run.len() - pos < 4 {
            return Err(CodecError::MalformedAttribute);
        }
        let len_field = read_u16_le(*slice_index_get(run, pos), *slice_index_get(run, pos + 1));
        let len = len_field as usize;
        proof {
            assert(le16(tail[0], tail[1]) == len);
        }
        if len < 4 {
            return Err(CodecError::MalformedAttribute);
        }
        proof {
            lemma_align4_bounds(len as int);
        }
        let padded = align_up_4(len);
        if padded > run.len() - pos {
            return Err(CodecError::MalformedAttribute);
        }
        let kind = read_u16_le(*slice_index_get(run, pos + 2), *slice_index_get(run, pos + 3));
        let value = slice_to_vec(slice_subrange(run, pos + 4, pos + len));
        let nla = if kind == 1 {
            Nla::SourceLinkLocalAddress(value)
        } else {
            Nla::Other { kind, value }
        };
        proof {
            assert(le16(tail[2], tail[3]) == kind);
            assert(value@ =~= tail.subrange(4, len as int));
            assert(nla@ == nla_of(kind, tail.subrange(4, len as int)));
        }
        let ghost old_attrs = attrs@;
        attrs.push(nla);
        pos = pos + padded;
        proof {
            assert(tail.skip(padded as int) =~= run@.skip(pos as int));
            assert(nlas_view(attrs@) =~= nlas_view(old_attrs) + seq![nla@]);
            match parse_nlas(run@.skip(pos as int)) {
                Ok(s) => {
                    assert(parse_nlas(tail) == Ok::<Seq<NlaModel>, CodecError>(seq![nla@] + s));
                    assert(nlas_view(old_attrs) + (seq![nla@] + s) =~= (nlas_view(old_attrs)
                        + seq![nla@]) + s);
                },
                Err(_) => {},
            }
        }
    }
    proof {
        assert(run@.skip(pos as int) =~= Seq::<u8>::empty());
        assert(nlas_view(attrs@) + Seq::<NlaModel>::empty() =~= nlas_view(attrs@));
    }
    Ok(attrs)
}

} // verus!
