//! A self-describing binary envelope for byte payloads, with optional
//! compression, and codec-agnostic streaming adapters.

pub mod block_codec;
pub mod buffer;
pub mod envelope;
pub mod error;
pub mod profiles;
pub mod frame_codec;
pub mod stream;
pub mod stream_compress;
pub mod text;

pub use buffer::{
    copy_buffered, ChunkStream, MemoryReader, DEFAULT_BUFFER_SIZE, LARGE_BUFFER_SIZE,
    SMALL_BUFFER_SIZE,
};
pub use envelope::{
    unwrap_auto, wrap_or_legacy, BinaryWriteOptions, CompressionCodec, EnvelopeError,
    EnvelopeFailure, EnvelopeHeader, PayloadKind,
};
pub use error::StreamError;
pub use profiles::{all_profiles, CompressionProfile, CompressionProfiler, ProfileKind};
pub use stream::{StreamReader, StreamWriter};
pub use stream_compress::{
    stream_compress, stream_decompress, CompressionLevel, ReadState, StreamCompressor,
    StreamDecompressor,
};
