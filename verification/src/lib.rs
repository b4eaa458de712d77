//! A codec for the Ethereum contract ABI's 32-byte-word encoding, as
//! consumed and produced by EVM precompiled contracts.
//!
//! The crate has five layers:
//! - [`words`]: big-endian word arithmetic shared by every other layer;
//! - [`reader`]: a bounds-checked cursor over an input byte slice;
//! - [`writer`]: an append-only output buffer with a deferred-pointer
//!   table, resolved when the output is built;
//! - [`codec`]: the type-directed dispatch that reads and writes each
//!   supported Solidity type through the reader and the writer;
//! - [`laws`]: proofs of the codec's round-trip and safety properties.

pub mod codec;
pub mod laws;
pub mod reader;
pub mod revert;
pub mod words;
pub mod writer;

pub use codec::encode_arguments;
pub use codec::encode_arguments as encode_return_value;
pub use codec::encode_arguments as encode_event_data;
pub use codec::{Address, BoundedVec, Bytes, EvmData, H256, U256};
pub use reader::{EvmDataReader, SelectorCodec};
pub use revert::{EvmResult, Revert};
pub use writer::EvmDataWriter;
