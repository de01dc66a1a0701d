//! Binary wire codec for fixed-width identifiers and length-prefixed byte buffers.
pub mod bytes;
pub mod compact_integer;
pub mod hash;
pub mod reader;
pub mod stream;

pub use bytes::Bytes;
pub use compact_integer::CompactInteger;
pub use hash::{FixedHash, H160, H256, H264, H512, H520};
pub use reader::{deserialize, Deserializable, Error, Reader};
pub use stream::{serialize, Serializable, Stream};
