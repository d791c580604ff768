//! A verified codec and packet-framing pipeline for a versioned,
//! length-prefixed, optionally compressed and encrypted binary protocol
//! carried over a byte-stream connection: variable-length integers, strings,
//! length-prefixed sequences, a stateful frame extractor with optional
//! deflate and stream-cipher stages, and the plain containers around them.

pub mod bytes_buf;
pub mod cipher;
pub mod codec;
pub mod compress;
pub mod containers;
pub mod log;
pub mod packet_handler;
pub mod primitives;
pub mod strings;
pub mod util;
pub mod varint;
pub mod world;

pub use cipher::{EncryptionHandler, EncryptionKey};
pub use codec::{Cursor, Error, ProtocolVersion, Readable, Writeable};
pub use containers::{GreedyVecU8, LengthPrefixedVec, ShortPrefixedVec, VarIntPrefixedVec, MAX_LENGTH};
pub use packet_handler::{CompressionThreshold, FrameError, NextState, PacketHandler, PROTOCOL};
pub use util::Identifier;
pub use varint::{VarInt, VarLong};
