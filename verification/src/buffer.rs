use crate::bytes::{le16, le32, read_u16_le, read_u32_le};
use crate::error::CodecError;
use vstd::prelude::*;
use vstd::slice::{slice_index_get, slice_subrange};

verus! {

/// The number of bytes in the fixed message header.
pub const NEIGHBOUR_DISCOVERY_USER_OPTION_HEADER_LEN: usize = 16;

/// Whether a raw byte sequence can carry a message: the fixed header is
/// complete, and the option-body length it declares fits inside the
/// trailing payload.
pub open spec fn buffer_wf(b: Seq<u8>) -> bool {
    &&& b.len() >= 16
    &&& 16 + le16(b[2], b[3]) <= b.len()
}

/// A validated view over a raw message buffer. Constructing it checks the
/// two length conditions of [`buffer_wf`], so the field accessors can never
/// read out of bounds.
pub struct NeighbourDiscoveryUserOptionMessageBuffer<'a> {
    data: &'a [u8],
}

impl<'a> View for NeighbourDiscoveryUserOptionMessageBuffer<'a> {
    type V = Seq<u8>;

    closed spec fn view(&self) -> Seq<u8> {
        self.data@
    }
}

impl<'a> NeighbourDiscoveryUserOptionMessageBuffer<'a> {
    /// Every constructed buffer view satisfies [`buffer_wf`].
    #[verifier::type_invariant]
    pub open spec fn type_wf(self) -> bool {
        buffer_wf(self@)
    }

    /// Validates a raw buffer: it must hold the full sixteen-byte header,
    /// and the option-body length declared there must fit the trailing
    /// payload. A buffer failing either check is reported as truncated.
    pub fn new(data: &'a [u8]) -> (r: Result<Self, CodecError>)
        ensures
            match r {
                Ok(b) => buffer_wf(data@) && b@ == data@,
                Err(e) => !buffer_wf(data@) && e == CodecError::TruncatedBuffer,
            },
    {
        if data.len() < 16 {
            return Err(CodecError::TruncatedBuffer);
        }
        let options_length = read_u16_le(*slice_index_get(data, 2), *slice_index_get(data, 3));
        if data.len() - 16 < options_length as usize {
            return Err(CodecError::TruncatedBuffer);
        }
        Ok(Self { data })
    }

    pub fn address_family(&self) -> (r: u8)
        ensures
            r == self@[0],
    {
        proof {
            use_type_invariant(self);
        }
        *slice_index_get(self.data, 0)
    }

    pub fn options_length(&self) -> (r: u16)
        ensures
            r as int == le16(self@[2], self@[3]),
    {
        proof {
            use_type_invariant(self);
        }
        read_u16_le(*slice_index_get(self.data, 2), *slice_index_get(self.data, 3))
    }

    pub fn interface_index(&self) -> (r: u32)
        ensures
            r as int == le32(self@[4], self@[5], self@[6], self@[7]),
    {
        proof {
            use_type_invariant(self);
        }
        read_u32_le(
            *slice_index_get(self.data, 4),
            *slice_index_get(self.data, 5),
            *slice_index_get(self.data, 6),
            *slice_index_get(self.data, 7),
        )
    }

    pub fn icmp_type(&self) -> (r: u8)
        ensures
            r == self@[8],
    {
        proof {
            use_type_invariant(self);
        }
        *slice_index_get(self.data, 8)
    }

    pub fn icmp_code(&self) -> (r: u8)
        ensures
            r == self@[9],
    {
        proof {
            use_type_invariant(self);
        }
        *slice_index_get(self.data, 9)
    }

    /// The option body: the first `options_length` bytes of the trailing
    /// payload, holding one opaque NDP option as it was on the wire.
    pub fn option_body(&self) -> (r: &'a [u8])
        ensures
            r@ == self@.subrange(16, 16 + le16(self@[2], self@[3])),
    {
        proof {
            use_type_invariant(self);
        }
        let options_length = read_u16_le(*slice_index_get(self.data, 2), *slice_index_get(self.data, 3));
        slice_subrange(self.data, 16, 16 + options_length as usize)
    }

    /// The attribute run: whatever follows the option body, a sequence of
    /// length-prefixed typed attributes.
    pub fn attribute_run(&self) -> (r: &'a [u8])
        ensures
            r@ == self@.subrange(16 + le16(self@[2], self@[3]), self@.len() as int),
    {
        proof {
            use_type_invariant(self);
        }
        let options_length = read_u16_le(*slice_index_get(self.data, 2), *slice_index_get(self.data, 3));
        slice_subrange(self.data, 16 + options_length as usize, self.data.len())
    }
}

} // verus!
