use crate::buffer::buffer_wf;
use crate::bytes::{
    le16, lemma_le16_bytes, lemma_le16_roundtrip, lemma_le32_bytes, lemma_le32_roundtrip,
};
use crate::error::CodecError;
use crate::header::{
    header_from_bytes, lemma_family_byte_roundtrip, lemma_family_value_roundtrip,
    lemma_icmp_type_byte_roundtrip, lemma_icmp_type_value_roundtrip,
};
use crate::message::{
    decode_spec, encode_spec, header_bytes, msg_canonical, msg_encodable, MessageModel,
};
use crate::nla::{
    encode_nlas, lemma_encode_nlas_parse, lemma_parse_nlas_exact, lemma_parse_nlas_wf,
    parse_nlas, run_zero_padded,
};
use vstd::prelude::*;

verus! {

/// A raw buffer is canonical when every byte that encoding recomputes is
/// already in the form encoding writes: the reserved bytes and the ICMP
/// code byte are zero, and the attribute padding bytes are zero. A buffer
/// produced by encoding is canonical; decoding reads past these bytes, so
/// only canonical buffers re-encode to themselves byte for byte.
pub open spec fn canonical_bytes(b: Seq<u8>) -> bool {
    &&& buffer_wf(b)
    &&& b[1] == 0
    &&& b[9] == 0
    &&& forall|i: int| 10 <= i < 16 ==> b[i] == 0
    &&& run_zero_padded(b.subrange(16 + le16(b[2], b[3]), b.len() as int))
}

/// Law: every successfully decoded message is canonical and encodable, so
/// it can always be re-encoded.
pub proof fn lemma_decode_canonical(b: Seq<u8>)
    requires
        decode_spec(b) is Ok,
    ensures
        msg_canonical(decode_spec(b)->Ok_0),
        msg_encodable(decode_spec(b)->Ok_0),
{
    lemma_family_byte_roundtrip(b[0]);
    lemma_icmp_type_byte_roundtrip(b[8]);
    lemma_parse_nlas_wf(b.subrange(16 + le16(b[2], b[3]), b.len() as int));
}

/// Law: encoding then decoding returns the message unchanged, for every
/// canonical, encodable message. Every decoded message is such a message,
/// so a decoded message survives an encode–decode round trip.
pub proof fn lemma_encode_then_decode(m: MessageModel)
    requires
        msg_canonical(m),
        msg_encodable(m),
    ensures
        decode_spec(encode_spec(m)) == Ok::<MessageModel, CodecError>(m),
{
    let b = encode_spec(m);
    let olen = m.option_body.len() as int;
    assert(b.len() == 16 + olen + encode_nlas(m.attributes).len());
    lemma_le16_roundtrip(olen);
    assert(le16(b[2], b[3]) == olen);
    assert(buffer_wf(b));
    assert(b.subrange(16, 16 + olen) =~= m.option_body);
    assert(b.subrange(16 + olen, b.len() as int) =~= encode_nlas(m.attributes));
    lemma_encode_nlas_parse(m.attributes);
    lemma_family_value_roundtrip(m.header.family);
    lemma_icmp_type_value_roundtrip(m.header.icmp_type);
    lemma_le32_roundtrip(m.header.interface_index as int);
    assert(header_from_bytes(b) == m.header);
    assert(decode_spec(b)->Ok_0 =~= m);
}

/// Law: decoding then encoding reproduces the input buffer byte for byte,
/// for every canonical buffer that decodes.
pub proof fn lemma_decode_then_encode(b: Seq<u8>)
    requires
        decode_spec(b) is Ok,
        canonical_bytes(b),
    ensures
        encode_spec(decode_spec(b)->Ok_0) == b,
{
    let m = decode_spec(b)->Ok_0;
    let olen = le16(b[2], b[3]);
    let run = b.subrange(16 + olen, b.len() as int);
    lemma_parse_nlas_exact(run);
    lemma_family_byte_roundtrip(b[0]);
    lemma_icmp_type_byte_roundtrip(b[8]);
    lemma_le16_bytes(b[2], b[3]);
    lemma_le32_bytes(b[4], b[5], b[6], b[7]);
    assert(header_bytes(m) =~= b.subrange(0, 16));
    assert(encode_nlas(m.attributes) == run);
    assert(b =~= b.subrange(0, 16) + b.subrange(16, 16 + olen) + b.subrange(
        16 + olen,
        b.len() as int,
    ));
    assert(encode_spec(m) =~= b);
}

/// Law: the ICMP code byte of any encoded output is zero, whatever the
/// message holds.
pub proof fn lemma_encoded_icmp_code_zero(m: MessageModel)
    ensures
        encode_spec(m).len() >= 16,
        encode_spec(m)[9] == 0,
{
}

/// Law: a buffer that is shorter than the fixed header, or whose declared
/// option-body length overruns the buffer, decodes to `TruncatedBuffer`.
pub proof fn lemma_truncated_rejected(b: Seq<u8>)
    requires
        !buffer_wf(b),
    ensures
        decode_spec(b) == Err::<MessageModel, CodecError>(CodecError::TruncatedBuffer),
{
}

} // verus!
