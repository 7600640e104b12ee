//! Codec for the neighbour discovery "user option" notification message:
//! a 16-byte fixed header, an opaque NDP option body, and a trailing run of
//! length-prefixed typed attributes.

pub mod buffer;
pub mod bytes;
pub mod error;
pub mod header;
pub mod message;
pub mod nla;
pub mod roundtrip;

pub use buffer::{buffer_wf, NeighbourDiscoveryUserOptionMessageBuffer};
pub use buffer::NEIGHBOUR_DISCOVERY_USER_OPTION_HEADER_LEN;
pub use error::CodecError;
pub use header::{
    AddressFamily, NeighbourDiscoveryIcmpType, NeighbourDiscoveryUserOptionHeader,
};
pub use message::{MessageModel, NeighbourDiscoveryUserOptionMessage};
pub use nla::Nla;
