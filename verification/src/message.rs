use crate::buffer::{buffer_wf, NeighbourDiscoveryUserOptionMessageBuffer};
use crate::bytes::{
    align_up_4, le16, le_byte, lemma_align4_bounds, push_bytes, split_u16_le, split_u32_le,
};
use crate::error::CodecError;
use crate::header::{
    family_to_byte, header_canonical, header_from_bytes, icmp_type_to_byte,
    NeighbourDiscoveryUserOptionHeader,
};
use crate::nla::{
    all_nlas_canonical, all_nlas_encodable, emit_nla, encode_nla, encode_nlas,
    lemma_encode_nla_shape, lemma_encode_nlas_append, nla_value, nlas_view, parse_nlas,
    parse_run, Nla, NlaModel,
};
use vstd::prelude::*;
use vstd::slice::slice_to_vec;

verus! {

/// One neighbour discovery user option notification: where the NDP option
/// arrived, its raw bytes, and the typed attributes that followed it. The
/// message owns all its bytes; nothing borrows from the buffer it was
/// decoded from.
#[derive(Debug, Clone, PartialEq, Eq)]
#[non_exhaustive]
pub struct NeighbourDiscoveryUserOptionMessage {
    /// The header of the message.
    pub header: NeighbourDiscoveryUserOptionHeader,
    /// The body of the NDP option as it was on the wire.
    pub option_body: Vec<u8>,
    /// The typed attributes that followed the option body, in wire order.
    pub attributes: Vec<Nla>,
}

/// The mathematical shape of a message: the header fields, the option-body
/// byte sequence, and the attribute models in order.
#[verifier::ext_equal]
pub struct MessageModel {
    pub header: NeighbourDiscoveryUserOptionHeader,
    pub option_body: Seq<u8>,
    pub attributes: Seq<NlaModel>,
}

impl View for NeighbourDiscoveryUserOptionMessage {
    type V = MessageModel;

    open spec fn view(&self) -> MessageModel {
        MessageModel {
            header: self.header,
            option_body: self.option_body@,
            attributes: nlas_view(self.attributes@),
        }
    }
}

/// What decoding a raw buffer yields: the header read from the fixed
/// sixteen bytes, the option body cut at the declared length, and the
/// parsed attribute run — or the first failure.
pub open spec fn decode_spec(b: Seq<u8>) -> Result<MessageModel, CodecError> {
    if !buffer_wf(b) {
        Err(CodecError::TruncatedBuffer)
    } else {
        let olen = le16(b[2], b[3]);
        match parse_nlas(b.subrange(16 + olen, b.len() as int)) {
            Ok(attrs) => Ok(
                MessageModel {
                    header: header_from_bytes(b),
                    option_body: b.subrange(16, 16 + olen),
                    attributes: attrs,
                },
            ),
            Err(e) => Err(e),
        }
    }
}

/// The sixteen header bytes a message encodes to. The reserved bytes and
/// the ICMP code byte are always written as zero.
pub open spec fn header_bytes(m: MessageModel) -> Seq<u8> {
    let olen = m.option_body.len() as int;
    let idx = m.header.interface_index as int;
    seq![
        family_to_byte(m.header.family),
        0u8,
        le_byte(olen, 0),
        le_byte(olen, 1),
        le_byte(idx, 0),
        le_byte(idx, 1),
        le_byte(idx, 2),
        le_byte(idx, 3),
        icmp_type_to_byte(m.header.icmp_type),
        0u8,
        0u8,
        0u8,
        0u8,
        0u8,
        0u8,
        0u8,
    ]
}

/// The exact byte sequence a message encodes to: the sixteen header bytes,
/// the option body, then the attribute run.
pub open spec fn encode_spec(m: MessageModel) -> Seq<u8> {
    header_bytes(m) + m.option_body + encode_nlas(m.attributes)
}

/// A message can be encoded when its option body fits the 16-bit length
/// field and each attribute fits its own 16-bit length field. Every
/// decoded message is encodable.
pub open spec fn msg_encodable(m: MessageModel) -> bool {
    m.option_body.len() <= 65535 && all_nlas_encodable(m.attributes)
}

/// A message is canonical when none of its catch-all variants shadows a
/// named variant's code. Every decoded message is canonical; encoding then
/// decoding a canonical message returns it unchanged.
pub open spec fn msg_canonical(m: MessageModel) -> bool {
    header_canonical(m.header) && all_nlas_canonical(m.attributes)
}

impl NeighbourDiscoveryUserOptionMessage {
    pub fn new(
        header: NeighbourDiscoveryUserOptionHeader,
        option_body: Vec<u8>,
        attributes: Vec<Nla>,
    ) -> (r: Self)
        ensures
            r == (NeighbourDiscoveryUserOptionMessage { header, option_body, attributes }),
    {
        Self { header, option_body, attributes }
    }

    /// Decodes a message out of a validated buffer view, copying the option
    /// body and parsing the attribute run.
    pub fn parse(buf: &NeighbourDiscoveryUserOptionMessageBuffer<'_>) -> (r: Result<
        Self,
        CodecError,
    >)
        ensures
            match r {
                Ok(m) => decode_spec(buf@) == Ok::<MessageModel, CodecError>(m@),
                Err(e) => decode_spec(buf@) == Err::<MessageModel, CodecError>(e),
            },
    {
        proof {
            use_type_invariant(buf);
        }
        let header = NeighbourDiscoveryUserOptionHeader::parse(buf);
        let option_body = slice_to_vec(buf.option_body());
        match parse_run(buf.attribute_run()) {
            Ok(attributes) => {
                let m = Self { header, option_body, attributes };
                proof {
                    assert(decode_spec(buf@)->Ok_0 =~= m@);
                }
                Ok(m)
            },
            Err(e) => Err(e),
        }
    }

    /// Decodes a message from a raw byte buffer: validates the lengths,
    /// then reads the header, the option body and the attribute run.
    pub fn decode(data: &[u8]) -> (r: Result<Self, CodecError>)
        ensures
            match r {
                Ok(m) => decode_spec(data@) == Ok::<MessageModel, CodecError>(m@),
                Err(e) => decode_spec(data@) == Err::<MessageModel, CodecError>(e),
            },
    {
        match NeighbourDiscoveryUserOptionMessageBuffer::new(data) {
            Ok(buf) => Self::parse(&buf),
            Err(e) => Err(e),
        }
    }

    /// Encodes the message into a freshly allocated buffer of exactly the
    /// required length: header, option body, then each attribute in order,
    /// with the length fields recomputed. Fails with `OptionBodyTooLarge`
    /// when the option body exceeds the 16-bit length field, and with
    /// `MalformedAttribute` when an attribute value exceeds its own.
    pub fn encode(&self) -> (r: Result<Vec<u8>, CodecError>)
        ensures
            match r {
                Ok(out) => msg_encodable(self@) && out@ == encode_spec(self@),
                Err(e) => !msg_encodable(self@) && e == (if self@.option_body.len() > 65535 {
                    CodecError::OptionBodyTooLarge
                } else {
                    CodecError::MalformedAttribute
                }),
            },
    {
        let ghost model = self@;
        if self.option_body.len() > 65535 {
            return Err(CodecError::OptionBodyTooLarge);
        }
        let mut out: Vec<u8> = Vec::new();
        let family_byte: u8 = self.header.family.into();
        let (len0, len1) = split_u16_le(self.option_body.len() as u16);
        let (idx0, idx1, idx2, idx3) = split_u32_le(self.header.interface_index);
        let icmp_byte: u8 = self.header.icmp_type.into();
        out.push(family_byte);
        out.push(0);
        out.push(len0);
        out.push(len1);
        out.push(idx0);
        out.push(idx1);
        out.push(idx2);
        out.push(idx3);
        out.push(icmp_byte);
        // All existing options use ICMP code zero, and the remaining header
        // bytes are reserved.
        out.push(0);
        out.push(0);
        out.push(0);
        out.push(0);
        out.push(0);
        out.push(0);
        out.push(0);
        proof {
            assert(out@ =~= header_bytes(model));
        }
        push_bytes(&mut out, self.option_body.as_slice());
        let mut i: usize = 0;
        while i < self.attributes.len()
            invariant
                i <= self.attributes.len(),
                model == self@,
                model.attributes == nlas_view(self.attributes@),
                model.option_body.len() <= 65535,
                forall|j: int|
                    0 <= j < i ==> crate::nla::nla_encodable(#[trigger] model.attributes[j]),
                out@ == header_bytes(model) + model.option_body + encode_nlas(
                    model.attributes.take(i as int),
                ),
            decreases self.attributes.len() - i,
        {
            let a = &self.attributes[i];
            proof {
                assert(a@ == model.attributes[i as int]);
            }
            let vlen = a.value().len();
            if vlen > 65531 {
                proof {
                    assert(!crate::nla::nla_encodable(model.attributes[i as int]));
                    assert(!all_nlas_encodable(model.attributes));
                }
                return Err(CodecError::MalformedAttribute);
            }
            let ghost prefix = out@;
            emit_nla(&mut out, a);
            proof {
                let taken = model.attributes.take(i as int + 1);
                assert(taken.drop_last() =~= model.attributes.take(i as int));
                assert(taken.last() == a@);
                assert(encode_nlas(taken) == encode_nlas(model.attributes.take(i as int))
                    + encode_nla(a@));
                assert(header_bytes(model) + model.option_body + encode_nlas(
                    model.attributes.take(i as int),
                ) + encode_nla(a@) =~= header_bytes(model) + model.option_body + encode_nlas(
                    taken,
                ));
            }
            i = i + 1;
        }
        proof {
            assert(model.attributes.take(self.attributes@.len() as int) =~= model.attributes);
        }
        Ok(out)
    }

    /// The number of bytes [`Self::encode`] produces for this message:
    /// sixteen for the header, the option body, and each attribute's padded
    /// record.
    pub fn buffer_len(&self) -> (r: usize)
        requires
            encode_spec(self@).len() <= usize::MAX,
        ensures
            r == encode_spec(self@).len(),
    {
        let ghost model = self@;
        let mut total: usize = 16 + self.option_body.len();
        let mut i: usize = 0;
        proof {
            assert(model.attributes.take(0) =~= Seq::<NlaModel>::empty());
        }
        while i < self.attributes.len()
            invariant
                i <= self.attributes.len(),
                model == self@,
                model.attributes == nlas_view(self.attributes@),
                encode_spec(model).len() <= usize::MAX,
                total == 16 + model.option_body.len() + encode_nlas(
                    model.attributes.take(i as int),
                ).len(),
            decreases self.attributes.len() - i,
        {
            let a = &self.attributes[i];
            proof {
                assert(a@ == model.attributes[i as int]);
            }
            let ghost taken = model.attributes.take(i as int + 1);
            proof {
                assert(taken.drop_last() =~= model.attributes.take(i as int));
                assert(taken.last() == a@);
                assert(taken + model.attributes.skip(i as int + 1) =~= model.attributes);
                lemma_encode_nlas_append(taken, model.attributes.skip(i as int + 1));
                lemma_encode_nla_shape(a@);
                lemma_align4_bounds(4 + nla_value(a@).len() as int);
            }
            let vlen = a.value().len();
            let padded = align_up_4(vlen + 4);
            total = total + padded;
            i = i + 1;
        }
        proof {
            assert(model.attributes.take(self.attributes@.len() as int) =~= model.attributes);
        }
        total
    }
}

} // verus!
