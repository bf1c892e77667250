//! Streaming compression and decompression behind one interface, whatever
//! codec was chosen when the adapter was made.

use vstd::prelude::*;
use vstd::slice::slice_subrange;
use crate::block_codec::{io_error_text, zstd_decoded};
use crate::buffer::{extend_bytes, min_len, MemoryReader, DEFAULT_BUFFER_SIZE};
use crate::envelope::CompressionCodec;
use crate::error::StreamError;
use crate::frame_codec::{lz4_decoder_data, lz4_decoder_input, lz4_decoder_output};
use crate::frame_codec::{lz4_decoder_into_inner, lz4_decoder_new, lz4_decoder_read};
use crate::frame_codec::{lz4_encoder_base, lz4_encoder_held, lz4_encoder_input};
use crate::frame_codec::{frame_error_text, lz4_frame_decoded};
use crate::frame_codec::{lz4_encoder_finish, lz4_encoder_flush, lz4_encoder_new, lz4_encoder_write};
use crate::frame_codec::{zstd_decoder_data, zstd_decoder_input, zstd_decoder_output};
use crate::frame_codec::{zstd_decoder_into_inner, zstd_decoder_new, zstd_decoder_read};
use crate::frame_codec::{zstd_encoder_base, zstd_encoder_held, zstd_encoder_input};
use crate::frame_codec::{lz4_decoder_open, zstd_decoder_open, zstd_decoder_starts, zstd_encoder_starts};
use crate::frame_codec::{zstd_encoder_finish, zstd_encoder_flush, zstd_encoder_new, zstd_encoder_write};
use crate::frame_codec::{Lz4Decoder, Lz4Encoder, ZstdDecoder, ZstdEncoder};

verus! {

/// How hard a streaming compressor should try.
#[derive(Clone, Copy, Debug)]
pub enum CompressionLevel {
    /// Fastest compression, larger output.
    Fast,
    /// A balance of speed and size.
    Default,
    /// Best compression, slower.
    Best,
    /// A codec-specific level.
    Custom(i32),
}

impl Default for CompressionLevel {
    fn default() -> (r: Self)
        ensures
            r == CompressionLevel::Default,
    {
        CompressionLevel::Default
    }
}

impl CompressionLevel {
    /// The zstd level that stands for this setting.
    pub open spec fn zstd_level(self) -> i32 {
        match self {
            CompressionLevel::Fast => 1,
            CompressionLevel::Default => 3,
            CompressionLevel::Best => 19,
            CompressionLevel::Custom(level) => level,
        }
    }

    /// The LZ4 level that stands for this setting: a custom level below zero
    /// counts as zero.
    pub open spec fn lz4_level(self) -> u32 {
        match self {
            CompressionLevel::Fast => 1,
            CompressionLevel::Default => 4,
            CompressionLevel::Best => 9,
            CompressionLevel::Custom(level) => if level < 0 {
                0
            } else {
                level as u32
            },
        }
    }

    /// The level to hand to zstd.
    pub fn to_zstd_level(self) -> (l: i32)
        ensures
            l == self.zstd_level(),
    {
        match self {
            CompressionLevel::Fast => 1,
            CompressionLevel::Default => 3,
            CompressionLevel::Best => 19,
            CompressionLevel::Custom(level) => level,
        }
    }

    /// The level to hand to an LZ4 encoder that takes one.
    pub fn to_lz4_level(self) -> (l: u32)
        ensures
            l == self.lz4_level(),
    {
        match self {
            CompressionLevel::Fast => 1,
            CompressionLevel::Default => 4,
            CompressionLevel::Best => 9,
            CompressionLevel::Custom(level) => if level < 0 {
                0
            } else {
                level as u32
            },
        }
    }
}

/// What a streaming decoder for `codec` recovers from `bytes`, or nothing
/// where it rejects them.
pub open spec fn stream_decoded(codec: CompressionCodec, bytes: Seq<u8>) -> Option<Seq<u8>> {
    match codec {
        CompressionCodec::Uncompressed => Some(bytes),
        CompressionCodec::Zstd => zstd_decoded(bytes),
        CompressionCodec::Lz4 => lz4_frame_decoded(bytes),
    }
}

/// Whether an encoder for `codec` can be set up at `level`. Only zstd can
/// refuse.
pub open spec fn encoder_starts(codec: CompressionCodec, level: CompressionLevel) -> bool {
    codec == CompressionCodec::Zstd ==> zstd_encoder_starts(level.zstd_level())
}

/// Whether a decoder for `codec` can be set up over a source that has
/// `input` ahead. Only zstd can refuse.
pub open spec fn decoder_starts(codec: CompressionCodec, input: Seq<u8>) -> bool {
    codec == CompressionCodec::Zstd ==> zstd_decoder_starts(input)
}

enum CompressorInner {
    Zstd(ZstdEncoder),
    Lz4(Lz4Encoder),
    /// The sink itself, and how much it held when the compressor was made.
    Plain(Vec<u8>, Ghost<nat>),
}

/// Compresses what is written to it and sends the result to a sink that it
/// owns until it is finished.
pub struct StreamCompressor {
    inner: CompressorInner,
    codec: CompressionCodec,
}

impl StreamCompressor {
    /// The codec chosen when the compressor was made.
    pub closed spec fn selected(self) -> CompressionCodec {
        self.codec
    }

    /// The bytes accepted so far, in order.
    pub closed spec fn input(self) -> Seq<u8> {
        match self.inner {
            CompressorInner::Zstd(e) => zstd_encoder_input(e),
            CompressorInner::Lz4(e) => lz4_encoder_input(e),
            CompressorInner::Plain(sink, base) => sink@.skip(base@ as int),
        }
    }

    /// What the sink held when the compressor was made.
    pub closed spec fn base(self) -> Seq<u8> {
        match self.inner {
            CompressorInner::Zstd(e) => zstd_encoder_base(e),
            CompressorInner::Lz4(e) => lz4_encoder_base(e),
            CompressorInner::Plain(sink, base) => sink@.take(base@ as int),
        }
    }

    /// How many of the accepted bytes the codec still holds back from the
    /// sink. Without a codec every byte is in the sink as soon as it is
    /// accepted.
    pub closed spec fn held_back(self) -> nat {
        match self.inner {
            CompressorInner::Zstd(e) => zstd_encoder_held(e),
            CompressorInner::Lz4(e) => lz4_encoder_held(e),
            CompressorInner::Plain(_, _) => 0,
        }
    }

    /// The encoder at work is the one for the chosen codec.
    pub closed spec fn wf(self) -> bool {
        match self.inner {
            CompressorInner::Zstd(_) => self.codec == CompressionCodec::Zstd,
            CompressorInner::Lz4(_) => self.codec == CompressionCodec::Lz4,
            CompressorInner::Plain(sink, base) => self.codec == CompressionCodec::Uncompressed
                && base@ <= sink@.len(),
        }
    }

    /// Whether `self` is a compressor for `codec` that has accepted nothing
    /// yet and whose sink holds `sink`.
    pub open spec fn fresh(self, codec: CompressionCodec, sink: Seq<u8>) -> bool {
        &&& self.wf()
        &&& self.selected() == codec
        &&& self.input() == Seq::<u8>::empty()
        &&& self.base() == sink
        &&& self.held_back() == 0
    }

    /// A zstd compressor over `writer`, wherever zstd sets up an encoder at
    /// `level`.
    pub fn zstd(writer: Vec<u8>, level: CompressionLevel) -> (r: Result<Self, StreamError>)
        ensures
            (r is Ok) == zstd_encoder_starts(level.zstd_level()),
            r matches Ok(c) ==> c.fresh(CompressionCodec::Zstd, writer@),
            r matches Err(e) ==> e is Codec,
    {
        match zstd_encoder_new(writer, level.to_zstd_level()) {
            Ok(encoder) => Ok(
                StreamCompressor {
                    inner: CompressorInner::Zstd(encoder),
                    codec: CompressionCodec::Zstd,
                },
            ),
            Err(e) => Err(StreamError::Codec(io_error_text(&e))),
        }
    }

    /// An LZ4 frame compressor over `writer`. The level has no effect: the
    /// frame encoder takes none.
    pub fn lz4(writer: Vec<u8>, level: CompressionLevel) -> (r: Result<Self, StreamError>)
        ensures
            r matches Ok(c) && c.fresh(CompressionCodec::Lz4, writer@),
    {
        let encoder = lz4_encoder_new(writer);
        Ok(StreamCompressor { inner: CompressorInner::Lz4(encoder), codec: CompressionCodec::Lz4 })
    }

    /// A compressor that passes bytes through to `writer` as they are.
    pub fn none(writer: Vec<u8>) -> (c: Self)
        ensures
            c.fresh(CompressionCodec::Uncompressed, writer@),
    {
        let ghost base = writer@.len();
        let c = StreamCompressor {
            inner: CompressorInner::Plain(writer, Ghost(base)),
            codec: CompressionCodec::Uncompressed,
        };
        proof {
            assert(writer@.skip(base as int) =~= Seq::<u8>::empty());
            assert(writer@.take(base as int) =~= writer@);
        }
        c
    }

    /// A compressor for `codec` over `writer`. The codec asked for is the
    /// codec at work: no other is ever put in its place.
    pub fn with_codec(writer: Vec<u8>, codec: CompressionCodec, level: CompressionLevel) -> (r:
        Result<Self, StreamError>)
        ensures
            (r is Ok) == encoder_starts(codec, level),
            r matches Ok(c) ==> c.fresh(codec, writer@),
            r matches Err(e) ==> e is Codec && codec == CompressionCodec::Zstd,
    {
        match codec {
            CompressionCodec::Uncompressed => Ok(Self::none(writer)),
            CompressionCodec::Zstd => Self::zstd(writer, level),
            CompressionCodec::Lz4 => Self::lz4(writer, level),
        }
    }

    /// The codec chosen when the compressor was made.
    pub fn codec(&self) -> (c: CompressionCodec)
        ensures
            c == self.selected(),
    {
        self.codec
    }

    /// Offers `buf` to the compressor, which accepts a front part of it and
    /// says how long that part is. Without a codec all of it is accepted and
    /// is in the sink at once.
    pub fn write(&mut self, buf: &[u8]) -> (r: Result<usize, StreamError>)
        requires
            old(self).wf(),
        ensures
            final(self).wf(),
            final(self).selected() == old(self).selected(),
            final(self).base() == old(self).base(),
            r matches Ok(n) ==> n <= buf@.len() && final(self).input() == old(self).input()
                + buf@.take(n as int),
            r matches Err(e) ==> e is Codec,
            old(self).selected() != CompressionCodec::Zstd ==> r == Ok::<usize, StreamError>(
                buf@.len() as usize,
            ),
            old(self).selected() == CompressionCodec::Uncompressed ==> final(self).held_back()
                == 0,
    {
        match &mut self.inner {
            CompressorInner::Zstd(encoder) => match zstd_encoder_write(encoder, buf) {
                Ok(n) => Ok(n),
                Err(e) => Err(StreamError::Codec(io_error_text(&e))),
            },
            CompressorInner::Lz4(encoder) => match lz4_encoder_write(encoder, buf) {
                Ok(n) => {
                    proof {
                        assert(buf@.take(buf@.len() as int) =~= buf@);
                    }
                    Ok(n)
                },
                Err(e) => Err(StreamError::Codec(io_error_text(&e))),
            },
            CompressorInner::Plain(sink, base) => {
                let ghost before = sink@;
                extend_bytes(sink, buf);
                proof {
                    assert(buf@.take(buf@.len() as int) =~= buf@);
                    assert((before + buf@).skip(base@ as int) =~= before.skip(base@ as int) + buf@);
                    assert((before + buf@).take(base@ as int) =~= before.take(base@ as int));
                }
                Ok(buf.len())
            },
        }
    }

    /// Writes all of `buf`, offering what is left until nothing is. A codec
    /// that accepts nothing of a part that is not empty ends the attempt.
    pub fn write_all(&mut self, buf: &[u8]) -> (r: Result<(), StreamError>)
        requires
            old(self).wf(),
        ensures
            final(self).wf(),
            final(self).selected() == old(self).selected(),
            final(self).base() == old(self).base(),
            r is Ok ==> final(self).input() == old(self).input() + buf@,
            r matches Err(e) ==> e is Codec || e is WriteZero,
            old(self).selected() != CompressionCodec::Zstd ==> r is Ok,
    {
        let mut done: usize = 0;
        proof {
            assert(buf@.take(0) =~= Seq::<u8>::empty());
            assert(self.input() + Seq::<u8>::empty() =~= self.input());
        }
        while done < buf.len()
            invariant
                done <= buf@.len(),
                self.wf(),
                self.selected() == old(self).selected(),
                self.base() == old(self).base(),
                self.input() == old(self).input() + buf@.take(done as int),
            decreases buf@.len() - done,
        {
            let rest = slice_subrange(buf, done, buf.len());
            let n = match self.write(rest) {
                Ok(n) => n,
                Err(e) => {
                    return Err(e);
                },
            };
            if n == 0 {
                return Err(StreamError::WriteZero);
            }
            proof {
                assert(buf@.take(done as int) + rest@.take(n as int) =~= buf@.take(done + n));
            }
            done = done + n;
        }
        proof {
            assert(buf@.take(done as int) =~= buf@);
        }
        Ok(())
    }

    /// Asks the codec to send on what it holds back. On success nothing
    /// that was accepted is held back from the sink any more. The stream
    /// stays open, and what it has accepted does not change.
    pub fn flush(&mut self) -> (r: Result<(), StreamError>)
        requires
            old(self).wf(),
        ensures
            final(self).wf(),
            final(self).selected() == old(self).selected(),
            final(self).base() == old(self).base(),
            final(self).input() == old(self).input(),
            r is Ok ==> final(self).held_back() == 0,
            r matches Err(e) ==> e is Codec,
            old(self).selected() != CompressionCodec::Zstd ==> r is Ok,
    {
        match &mut self.inner {
            CompressorInner::Zstd(encoder) => match zstd_encoder_flush(encoder) {
                Ok(_) => Ok(()),
                Err(e) => Err(StreamError::Codec(io_error_text(&e))),
            },
            CompressorInner::Lz4(encoder) => match lz4_encoder_flush(encoder) {
                Ok(_) => Ok(()),
                Err(e) => Err(StreamError::Codec(io_error_text(&e))),
            },
            CompressorInner::Plain(_, _) => Ok(()),
        }
    }

    /// Ends the stream and gives the sink back. It holds what it held
    /// before, followed by a stream from which a decoder for the same codec
    /// recovers everything that was accepted; without a codec that stream is
    /// the input itself.
    pub fn finish(self) -> (r: Result<Vec<u8>, StreamError>)
        requires
            self.wf(),
        ensures
            r matches Ok(sink) ==> {
                &&& sink@.len() >= self.base().len()
                &&& sink@.take(self.base().len() as int) == self.base()
                &&& stream_decoded(self.selected(), sink@.skip(self.base().len() as int)) == Some(
                    self.input(),
                )
            },
            r matches Err(e) ==> e is Codec,
            self.selected() != CompressionCodec::Zstd ==> r is Ok,
            self.selected() == CompressionCodec::Uncompressed ==> (r matches Ok(sink) && sink@
                == self.base() + self.input()),
    {
        match self.inner {
            CompressorInner::Zstd(encoder) => match zstd_encoder_finish(encoder) {
                Ok(sink) => Ok(sink),
                Err(e) => Err(StreamError::Codec(io_error_text(&e))),
            },
            CompressorInner::Lz4(encoder) => match lz4_encoder_finish(encoder) {
                Ok(sink) => Ok(sink),
                Err(e) => Err(StreamError::Codec(frame_error_text(&e))),
            },
            CompressorInner::Plain(sink, base) => {
                proof {
                    assert(sink@.take(base@ as int) + sink@.skip(base@ as int) =~= sink@);
                    assert(sink@.take(base@ as int).len() == base@);
                }
                Ok(sink)
            },
        }
    }
}

enum DecompressorInner {
    Zstd(ZstdDecoder),
    Lz4(Lz4Decoder),
    /// The source itself, and where it stood when the decompressor was made.
    Plain(MemoryReader, Ghost<nat>),
}

/// How far a decompressor has come with its stream.
#[derive(Clone, Copy, Debug, PartialEq, Eq, Structural)]
pub enum ReadState {
    /// The stream has neither ended nor failed.
    Open,
    /// A read found the end of the stream. Every later read gives no byte.
    Ended,
    /// A read failed. Every later read fails too.
    Failed,
}

/// Decompresses what it reads from a source that it owns until it is taken
/// apart.
pub struct StreamDecompressor {
    inner: DecompressorInner,
    codec: CompressionCodec,
    state: ReadState,
    /// The codec's account of the failure, once a read has failed.
    failure: String,
}

impl StreamDecompressor {
    /// The codec chosen when the decompressor was made.
    pub closed spec fn selected(self) -> CompressionCodec {
        self.codec
    }

    /// How far the decompressor has come.
    pub closed spec fn state(self) -> ReadState {
        self.state
    }

    /// The codec's account of the failure, once a read has failed.
    pub closed spec fn failure(self) -> Seq<char> {
        self.failure@
    }

    /// All the bytes of the source, read or not.
    pub closed spec fn source(self) -> Seq<u8> {
        match self.inner {
            DecompressorInner::Zstd(d) => zstd_decoder_data(d),
            DecompressorInner::Lz4(d) => lz4_decoder_data(d),
            DecompressorInner::Plain(reader, start) => reader.bytes(),
        }
    }

    /// The compressed bytes that lay ahead in the source when the
    /// decompressor was made.
    pub closed spec fn input(self) -> Seq<u8> {
        match self.inner {
            DecompressorInner::Zstd(d) => zstd_decoder_input(d),
            DecompressorInner::Lz4(d) => lz4_decoder_input(d),
            DecompressorInner::Plain(reader, start) => reader.bytes().skip(start@ as int),
        }
    }

    /// The decompressed bytes handed out so far, in order.
    pub closed spec fn output(self) -> Seq<u8> {
        match self.inner {
            DecompressorInner::Zstd(d) => zstd_decoder_output(d),
            DecompressorInner::Lz4(d) => lz4_decoder_output(d),
            DecompressorInner::Plain(reader, start) => reader.bytes().subrange(
                start@ as int,
                reader.offset() as int,
            ),
        }
    }

    /// What the state says of the stream: once it has ended, what was handed
    /// out is all that the codec recovers from the input; once it has
    /// failed, the codec recovers nothing from the input.
    pub open spec fn state_holds(self) -> bool {
        &&& self.state() == ReadState::Ended ==> stream_decoded(self.selected(), self.input())
            == Some(self.output())
        &&& self.state() == ReadState::Failed ==> stream_decoded(self.selected(), self.input())
            is None
    }

    /// The decoder at work is the one for the chosen codec, it is called
    /// only while the stream is open, and the state is true of the stream.
    pub closed spec fn wf(self) -> bool {
        &&& self.state_holds()
        &&& match self.inner {
            DecompressorInner::Zstd(d) => {
                &&& self.codec == CompressionCodec::Zstd
                &&& self.state == ReadState::Open ==> zstd_decoder_open(d)
            },
            DecompressorInner::Lz4(d) => {
                &&& self.codec == CompressionCodec::Lz4
                &&& self.state == ReadState::Open ==> lz4_decoder_open(d)
            },
            DecompressorInner::Plain(reader, start) => {
                &&& self.codec == CompressionCodec::Uncompressed
                &&& start@ <= reader.offset() <= reader.bytes().len()
            },
        }
    }

    /// Whether `self` is an open decompressor for `codec` that has handed
    /// out nothing yet and reads what is left of `reader`.
    pub open spec fn fresh(self, codec: CompressionCodec, reader: MemoryReader) -> bool {
        &&& self.wf()
        &&& self.selected() == codec
        &&& self.state() == ReadState::Open
        &&& self.source() == reader.bytes()
        &&& self.input() == reader.remaining()
        &&& self.output() == Seq::<u8>::empty()
    }

    /// A zstd decompressor over what is left of `reader`, wherever zstd sets
    /// up a decoder over it; it does wherever it can decode what is left.
    pub fn zstd(reader: MemoryReader) -> (r: Result<Self, StreamError>)
        ensures
            (r is Ok) == zstd_decoder_starts(reader.remaining()),
            zstd_decoded(reader.remaining()) is Some ==> r is Ok,
            r matches Ok(d) ==> d.fresh(CompressionCodec::Zstd, reader),
            r matches Err(e) ==> e is Codec,
    {
        let pos = reader.position();
        let data = reader.into_inner();
        match zstd_decoder_new(data, pos) {
            Ok(decoder) => Ok(
                StreamDecompressor {
                    inner: DecompressorInner::Zstd(decoder),
                    codec: CompressionCodec::Zstd,
                    state: ReadState::Open,
                    failure: String::new(),
                },
            ),
            Err(e) => Err(StreamError::Codec(io_error_text(&e))),
        }
    }

    /// An LZ4 frame decompressor over what is left of `reader`.
    pub fn lz4(reader: MemoryReader) -> (r: Result<Self, StreamError>)
        ensures
            r matches Ok(d) && d.fresh(CompressionCodec::Lz4, reader),
    {
        let pos = reader.position();
        let data = reader.into_inner();
        let decoder = lz4_decoder_new(data, pos);
        Ok(
            StreamDecompressor {
                inner: DecompressorInner::Lz4(decoder),
                codec: CompressionCodec::Lz4,
                state: ReadState::Open,
                failure: String::new(),
            },
        )
    }

    /// A decompressor that hands out what is left of `reader` as it is.
    pub fn none(reader: MemoryReader) -> (d: Self)
        ensures
            d.fresh(CompressionCodec::Uncompressed, reader),
    {
        let pos = reader.position();
        let d = StreamDecompressor {
            inner: DecompressorInner::Plain(reader, Ghost(pos as nat)),
            codec: CompressionCodec::Uncompressed,
            state: ReadState::Open,
            failure: String::new(),
        };
        proof {
            assert(reader.bytes().subrange(pos as int, pos as int) =~= Seq::<u8>::empty());
        }
        d
    }

    /// A decompressor for `codec` over what is left of `reader`. The codec
    /// asked for is the codec at work: no other is ever put in its place.
    pub fn with_codec(reader: MemoryReader, codec: CompressionCodec) -> (r: Result<
        Self,
        StreamError,
    >)
        ensures
            (r is Ok) == decoder_starts(codec, reader.remaining()),
            stream_decoded(codec, reader.remaining()) is Some ==> r is Ok,
            r matches Ok(d) ==> d.fresh(codec, reader),
            r matches Err(e) ==> e is Codec && codec == CompressionCodec::Zstd,
    {
        match codec {
            CompressionCodec::Uncompressed => Ok(Self::none(reader)),
            CompressionCodec::Zstd => Self::zstd(reader),
            CompressionCodec::Lz4 => Self::lz4(reader),
        }
    }

    /// The codec chosen when the decompressor was made.
    pub fn codec(&self) -> (c: CompressionCodec)
        ensures
            c == self.selected(),
    {
        self.codec
    }

    /// Gives the source back, with the bytes that it had. Without a codec it
    /// stands where the reads left it: as far past its first position as
    /// bytes were handed out. With a codec, how far the decoder has read
    /// ahead is left open.
    pub fn into_inner(self) -> (reader: MemoryReader)
        requires
            self.wf(),
        ensures
            reader.bytes() == self.source(),
            self.selected() == CompressionCodec::Uncompressed ==> reader.offset()
                == self.source().len() - self.input().len() + self.output().len(),
    {
        match self.inner {
            DecompressorInner::Zstd(decoder) => {
                let (data, pos) = zstd_decoder_into_inner(decoder);
                MemoryReader::with_position(data, pos)
            },
            DecompressorInner::Lz4(decoder) => {
                let (data, pos) = lz4_decoder_into_inner(decoder);
                MemoryReader::with_position(data, pos)
            },
            DecompressorInner::Plain(reader, _) => reader,
        }
    }

    /// Reads the next decompressed bytes into the front of `buf` and returns
    /// their number. An empty buffer gets none. The first read that puts no
    /// byte into a buffer that is not empty ends the stream: what was handed
    /// out in all is then what the codec recovers from the input, and every
    /// later read gives no byte. Once a read has failed, every later read
    /// fails, and the codec is not called again.
    pub fn read(&mut self, buf: &mut Vec<u8>) -> (r: Result<usize, StreamError>)
        requires
            old(self).wf(),
        ensures
            final(self).wf(),
            final(self).state_holds(),
            final(self).selected() == old(self).selected(),
            final(self).source() == old(self).source(),
            final(self).input() == old(self).input(),
            final(buf)@.len() == old(buf)@.len(),
            match r {
                Ok(n) => {
                    &&& n <= old(buf)@.len()
                    &&& final(self).output() == old(self).output() + final(buf)@.take(n as int)
                },
                Err(e) => e is Codec && e.text() == final(self).failure(),
            },
            final(self).state() == read_outcome(old(self).state(), old(buf)@.len(), r),
            old(self).state() == ReadState::Failed ==> r is Err && final(self).failure()
                == old(self).failure(),
            old(self).state() == ReadState::Ended ==> r == Ok::<usize, StreamError>(0),
            old(self).state() != ReadState::Open ==> final(self).output() == old(self).output()
                && final(buf)@ == old(buf)@,
            old(buf)@.len() == 0 && old(self).state() == ReadState::Open ==> r == Ok::<
                usize,
                StreamError,
            >(0),
            old(self).selected() == CompressionCodec::Uncompressed ==> {
                &&& r matches Ok(n)
                &&& old(self).output().len() <= old(self).input().len()
                &&& old(self).state() != ReadState::Ended ==> n == min_len(
                    (old(self).input().len() - old(self).output().len()) as nat,
                    old(buf)@.len(),
                )
                &&& final(self).output() == old(self).input().take(
                    old(self).output().len() + n,
                )
                &&& final(buf)@.skip(n as int) == old(buf)@.skip(n as int)
            },
    {
        match self.state {
            ReadState::Failed => {
                return Err(StreamError::Codec(self.failure.clone()));
            },
            ReadState::Ended => {
                proof {
                    assert(buf@.take(0) =~= Seq::<u8>::empty());
                    assert(self.output() + Seq::<u8>::empty() =~= self.output());
                    if self.codec == CompressionCodec::Uncompressed {
                        Self::lemma_plain_never_fails(*self);
                        Self::lemma_plain_output(*self);
                    }
                }
                return Ok(0);
            },
            ReadState::Open => {},
        }
        if buf.len() == 0 {
            proof {
                assert(buf@.take(0) =~= Seq::<u8>::empty());
                assert(self.output() + Seq::<u8>::empty() =~= self.output());
                if self.codec == CompressionCodec::Uncompressed {
                    Self::lemma_plain_never_fails(*self);
                    Self::lemma_plain_output(*self);
                }
            }
            return Ok(0);
        }
        let outcome = match &mut self.inner {
            DecompressorInner::Zstd(decoder) => match zstd_decoder_read(decoder, buf) {
                Ok(n) => Ok(n),
                Err(e) => Err(StreamError::Codec(io_error_text(&e))),
            },
            DecompressorInner::Lz4(decoder) => match lz4_decoder_read(decoder, buf) {
                Ok(n) => Ok(n),
                Err(e) => Err(StreamError::Codec(io_error_text(&e))),
            },
            DecompressorInner::Plain(reader, start) => {
                let ghost all = reader.bytes();
                let ghost at = reader.offset() as int;
                let n = reader.read(buf);
                proof {
                    assert(buf@.take(n as int) =~= all.subrange(at, at + n));
                    assert(all.subrange(start@ as int, at) + all.subrange(at, at + n)
                        =~= all.subrange(start@ as int, at + n));
                    if n == 0 {
                        assert(all.subrange(start@ as int, at) =~= all.skip(start@ as int));
                    }
                    assert(all.subrange(start@ as int, at + n) =~= all.skip(start@ as int).take(
                        at - start@ + n,
                    ));
                    assert(buf@.skip(n as int) =~= old(buf)@.skip(n as int));
                }
                Ok(n)
            },
        };
        match outcome {
            Ok(n) => {
                if n == 0 {
                    self.state = ReadState::Ended;
                }
                Ok(n)
            },
            Err(e) => {
                self.state = ReadState::Failed;
                self.failure = e.message();
                Err(e)
            },
        }
    }

    /// Without a codec a decompressor never fails.
    proof fn lemma_plain_never_fails(d: Self)
        requires
            d.wf(),
            d.selected() == CompressionCodec::Uncompressed,
        ensures
            d.state() != ReadState::Failed,
            d.output().len() <= d.input().len(),
    {
    }

    /// Without a codec what was handed out is the front of the input.
    proof fn lemma_plain_output(d: Self)
        requires
            d.wf(),
            d.selected() == CompressionCodec::Uncompressed,
        ensures
            d.output() == d.input().take(d.output().len() as int),
    {
        match d.inner {
            DecompressorInner::Plain(reader, start) => {
                assert(reader.bytes().subrange(start@ as int, reader.offset() as int)
                    =~= reader.bytes().skip(start@ as int).take(reader.offset() - start@));
            },
            _ => {},
        }
    }

    /// Reads the stream until it ends or fails, through a buffer of
    /// `buffer_size` bytes, and appends what it yields to `out`. Returns the
    /// number of bytes appended. An open stream read with a buffer that is
    /// not empty ends well exactly where the codec recovers something from
    /// the input. With an empty buffer nothing is read.
    pub fn read_all_into(&mut self, out: &mut Vec<u8>, buffer_size: usize) -> (r: Result<
        usize,
        StreamError,
    >)
        requires
            old(self).wf(),
        ensures
            final(self).wf(),
            final(self).state_holds(),
            final(self).selected() == old(self).selected(),
            final(self).source() == old(self).source(),
            final(self).input() == old(self).input(),
            final(out)@.len() >= old(out)@.len(),
            final(out)@.take(old(out)@.len() as int) == old(out)@,
            r matches Ok(n) ==> {
                &&& n == final(out)@.len() - old(out)@.len()
                &&& final(self).output() == old(self).output() + final(out)@.skip(
                    old(out)@.len() as int,
                )
            },
            r matches Err(e) ==> e is Codec,
            old(self).state() == ReadState::Failed ==> r is Err,
            old(self).state() == ReadState::Ended ==> r is Ok,
            old(self).state() != ReadState::Open ==> final(self).state() == old(self).state(),
            old(self).state() != ReadState::Open || buffer_size == 0 ==> final(out)@ == old(out)@,
            old(self).state() == ReadState::Open ==> {
                if buffer_size == 0 {
                    r is Ok && final(self).state() == ReadState::Open
                } else {
                    &&& (r is Ok) == (stream_decoded(old(self).selected(), old(self).input())
                        is Some)
                    &&& r is Ok ==> final(self).state() == ReadState::Ended
                    &&& r is Err ==> final(self).state() == ReadState::Failed
                }
            },
            old(self).selected() == CompressionCodec::Uncompressed ==> r is Ok,
    {
        let mut buffer: Vec<u8> = vec![0u8; buffer_size];
        let start: usize = out.len();
        proof {
            assert(out@.skip(start as int) =~= Seq::<u8>::empty());
            assert(self.output() + Seq::<u8>::empty() =~= self.output());
            assert(out@.take(start as int) =~= out@);
        }
        loop
            invariant
                buffer@.len() == buffer_size,
                start == old(out)@.len(),
                self.wf(),
                self.selected() == old(self).selected(),
                self.source() == old(self).source(),
                self.input() == old(self).input(),
                self.state() == old(self).state(),
                start <= out@.len() <= usize::MAX,
                out@.take(start as int) == old(out)@,
                self.output() == old(self).output() + out@.skip(start as int),
                old(self).state() != ReadState::Open || buffer_size == 0 ==> out@ == old(out)@,
            decreases usize::MAX - out@.len(),
        {
            let n = match self.read(&mut buffer) {
                Ok(n) => n,
                Err(e) => {
                    return Err(e);
                },
            };
            if n == 0 {
                return Ok(out.len() - start);
            }
            let ghost before = out@;
            extend_bytes(out, slice_subrange(buffer.as_slice(), 0, n));
            proof {
                let piece = buffer@.take(n as int);
                assert(buffer@.subrange(0, n as int) =~= piece);
                assert((before + piece).skip(start as int) =~= before.skip(start as int) + piece);
                assert((before + piece).take(start as int) =~= before.take(start as int));
            }
        }
    }

    /// Reads the stream to its end and appends what it yields to `out`.
    /// Returns the number of bytes appended. Afterwards everything handed out
    /// since the decompressor was made is what the codec recovers from the
    /// input.
    pub fn read_to_end(&mut self, out: &mut Vec<u8>) -> (r: Result<usize, StreamError>)
        requires
            old(self).wf(),
        ensures
            final(self).wf(),
            final(self).state_holds(),
            final(self).selected() == old(self).selected(),
            final(self).source() == old(self).source(),
            final(self).input() == old(self).input(),
            final(out)@.len() >= old(out)@.len(),
            final(out)@.take(old(out)@.len() as int) == old(out)@,
            r matches Ok(n) ==> {
                &&& n == final(out)@.len() - old(out)@.len()
                &&& final(self).output() == old(self).output() + final(out)@.skip(
                    old(out)@.len() as int,
                )
                &&& final(self).state() == ReadState::Ended
                &&& stream_decoded(old(self).selected(), old(self).input()) == Some(
                    final(self).output(),
                )
            },
            r matches Err(e) ==> e is Codec,
            old(self).state() == ReadState::Open ==> (r is Ok) == (stream_decoded(
                old(self).selected(),
                old(self).input(),
            ) is Some),
            old(self).selected() == CompressionCodec::Uncompressed ==> r is Ok,
    {
        self.read_all_into(out, DEFAULT_BUFFER_SIZE)
    }
}

/// The state that a read leaves behind: a closed stream stays as it is, an
/// empty buffer changes nothing, and otherwise the stream ends with a read
/// of no bytes, fails with a failed read, and stays open with any other.
pub open spec fn read_outcome(before: ReadState, room: nat, r: Result<usize, StreamError>) -> ReadState {
    if before != ReadState::Open || room == 0 {
        before
    } else {
        match r {
            Ok(n) => if n == 0 {
                ReadState::Ended
            } else {
                ReadState::Open
            },
            Err(_) => ReadState::Failed,
        }
    }
}

/// Compresses what is left of `reader` with `codec`, reading `buffer_size`
/// bytes at a time, and appends the compressed stream to `writer`. Returns
/// the number of bytes read. A decoder for the same codec recovers those
/// bytes from what was appended. With a buffer of no bytes nothing can be
/// read, and the stream written is that of an empty input. Where the codec
/// fails, `writer` is left as it was.
pub fn stream_compress(
    reader: MemoryReader,
    writer: &mut Vec<u8>,
    codec: CompressionCodec,
    level: CompressionLevel,
    buffer_size: usize,
) -> (r: Result<u64, StreamError>)
    ensures
        final(writer)@.len() >= old(writer)@.len(),
        final(writer)@.take(old(writer)@.len() as int) == old(writer)@,
        r matches Ok(n) ==> {
            &&& n == consumed(reader, buffer_size).len()
            &&& stream_decoded(codec, final(writer)@.skip(old(writer)@.len() as int)) == Some(
                consumed(reader, buffer_size),
            )
        },
        r matches Err(e) ==> {
            &&& e is Codec || e is WriteZero
            &&& final(writer)@ == old(writer)@
        },
        !encoder_starts(codec, level) ==> r is Err,
        codec != CompressionCodec::Zstd ==> r is Ok,
        codec == CompressionCodec::Uncompressed ==> final(writer)@ == old(writer)@ + consumed(
            reader,
            buffer_size,
        ),
{
    let mut rest = reader;
    let mut compressor = match StreamCompressor::with_codec(Vec::new(), codec, level) {
        Ok(c) => c,
        Err(e) => {
            proof {
                assert(writer@.take(writer@.len() as int) =~= writer@);
            }
            return Err(e);
        },
    };
    let mut buffer: Vec<u8> = vec![0u8; buffer_size];
    let mut total: u64 = 0;
    let ghost source = reader.remaining();
    let available = rest.remaining_len();
    proof {
        assert(source.take(0) =~= Seq::<u8>::empty());
        assert(source.skip(0) =~= source);
        assert(writer@.take(writer@.len() as int) =~= writer@);
    }
    loop
        invariant
            buffer@.len() == buffer_size,
            writer@ == old(writer)@,
            source == reader.remaining(),
            source.len() == available,
            total <= available,
            rest.remaining() == source.skip(total as int),
            compressor.wf(),
            compressor.selected() == codec,
            compressor.base() == Seq::<u8>::empty(),
            compressor.input() == source.take(total as int),
            buffer_size == 0 ==> total == 0,
        ensures
            buffer_size > 0 ==> total == available,
        decreases available - total,
    {
        let n = rest.read(&mut buffer);
        if n == 0 {
            break ;
        }
        let chunk = slice_subrange(buffer.as_slice(), 0, n);
        match compressor.write_all(chunk) {
            Ok(_) => {},
            Err(e) => {
                return Err(e);
            },
        }
        proof {
            let before = source.skip(total as int);
            assert(chunk@ =~= before.take(n as int));
            assert(source.take(total as int) + before.take(n as int) =~= source.take(total + n));
            assert(before.skip(n as int) =~= source.skip(total + n));
        }
        total = total + n as u64;
    }
    let out = match compressor.finish() {
        Ok(out) => out,
        Err(e) => {
            return Err(e);
        },
    };
    let ghost before = writer@;
    extend_bytes(writer, out.as_slice());
    proof {
        assert(out@.skip(0) =~= out@);
        assert(out@.take(0) =~= Seq::<u8>::empty());
        assert((before + out@).skip(before.len() as int) =~= out@);
        assert((before + out@).take(before.len() as int) =~= before);
        if buffer_size > 0 {
            assert(source.take(total as int) =~= source);
        }
        if codec == CompressionCodec::Uncompressed {
            assert(Seq::<u8>::empty() + compressor.input() =~= compressor.input());
        }
    }
    Ok(total)
}

/// What a streaming operation reads of `reader` with a buffer of
/// `buffer_size` bytes: all that is left, or nothing where the buffer is
/// empty.
pub open spec fn consumed(reader: MemoryReader, buffer_size: usize) -> Seq<u8> {
    if buffer_size > 0 {
        reader.remaining()
    } else {
        Seq::<u8>::empty()
    }
}

/// Decompresses what is left of `reader` with `codec`, `buffer_size` bytes
/// at a time, and appends what the stream yields to `writer`. Returns the
/// number of bytes appended. With a buffer that is not empty it succeeds
/// exactly where the codec recovers something from the input, and what is
/// appended is then what it recovers. With a buffer of no bytes nothing is
/// read. Where the codec fails, what it had yielded until then stays in
/// `writer`.
pub fn stream_decompress(
    reader: MemoryReader,
    writer: &mut Vec<u8>,
    codec: CompressionCodec,
    buffer_size: usize,
) -> (r: Result<u64, StreamError>)
    ensures
        final(writer)@.len() >= old(writer)@.len(),
        final(writer)@.take(old(writer)@.len() as int) == old(writer)@,
        (r is Ok) == (decoder_starts(codec, reader.remaining()) && (buffer_size > 0
            ==> stream_decoded(codec, reader.remaining()) is Some)),
        r matches Ok(n) ==> {
            &&& n == final(writer)@.len() - old(writer)@.len()
            &&& buffer_size == 0 ==> n == 0
            &&& buffer_size > 0 ==> stream_decoded(codec, reader.remaining()) == Some(
                final(writer)@.skip(old(writer)@.len() as int),
            )
        },
        buffer_size > 0 ==> (stream_decoded(codec, reader.remaining()) matches Some(b) ==> r
            == Ok::<u64, StreamError>(b.len() as u64) && final(writer)@ == old(writer)@ + b),
        r matches Err(e) ==> e is Codec && codec != CompressionCodec::Uncompressed,
        codec == CompressionCodec::Uncompressed ==> r is Ok && final(writer)@ == old(writer)@
            + consumed(reader, buffer_size),
{
    let ghost before = writer@;
    proof {
        assert(before.take(before.len() as int) =~= before);
    }
    let mut decompressor = match StreamDecompressor::with_codec(reader, codec) {
        Ok(d) => d,
        Err(e) => {
            return Err(e);
        },
    };
    let appended = match decompressor.read_all_into(writer, buffer_size) {
        Ok(n) => n,
        Err(e) => {
            return Err(e);
        },
    };
    proof {
        assert(Seq::<u8>::empty() + writer@.skip(before.len() as int) =~= writer@.skip(
            before.len() as int,
        ));
        assert(writer@ =~= before + writer@.skip(before.len() as int));
        if buffer_size == 0 {
            assert(writer@.skip(before.len() as int).len() == 0);
        }
    }
    Ok(appended as u64)
}

/// Streaming is lossless: where a compressed stream is one from which the
/// codec recovers `b`, as `stream_compress` leaves it, then whatever
/// `stream_decompress` yields from that stream with the same codec is `b`,
/// at any buffer size above zero on either side.
pub proof fn lemma_streaming_round_trip(
    codec: CompressionCodec,
    b: Seq<u8>,
    stream: Seq<u8>,
    yielded: Seq<u8>,
)
    requires
        stream_decoded(codec, stream) == Some(b),
        stream_decoded(codec, stream) == Some(yielded),
    ensures
        yielded == b,
{
}

} // verus!
