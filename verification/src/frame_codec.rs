//! The streaming codecs, over sinks and sources held in memory. Nothing here
//! is proved: each function makes one call into a compression library and
//! states what that library documents of it. An encoder is described by the
//! bytes it has accepted and by what its sink held before; a decoder by the
//! compressed bytes it was made over and by the bytes it has handed out.

use vstd::prelude::*;
use crate::block_codec::zstd_decoded;

verus! {

#[verifier::external_type_specification]
#[verifier::external_body]
pub struct ExFrameError(lz4_flex::frame::Error);

#[verifier::external_type_specification]
#[verifier::external_body]
#[verifier::reject_recursive_types(T)]
pub struct ExCursor<T>(std::io::Cursor<T>);

#[verifier::external_type_specification]
#[verifier::external_body]
#[verifier::reject_recursive_types(R)]
pub struct ExBufReader<R: ?Sized>(std::io::BufReader<R>);

#[verifier::external_type_specification]
#[verifier::external_body]
#[verifier::reject_recursive_types(R)]
pub struct ExZstdDecoder<'a, R>(zstd::stream::read::Decoder<'a, R>);

/// A zstd decoder that reads from bytes held in memory.
pub type ZstdDecoder = zstd::stream::read::Decoder<
    'static,
    std::io::BufReader<std::io::Cursor<Vec<u8>>>,
>;

/// A `zstd::stream::write::Encoder` that writes to a vector.
#[verifier::external_body]
pub struct ZstdEncoder {
    inner: zstd::stream::write::Encoder<'static, Vec<u8>>,
}

/// An `lz4_flex::frame::FrameEncoder` that writes to a vector.
#[verifier::external_body]
pub struct Lz4Encoder {
    inner: lz4_flex::frame::FrameEncoder<Vec<u8>>,
}

/// An `lz4_flex::frame::FrameDecoder` that reads from bytes held in memory.
#[verifier::external_body]
pub struct Lz4Decoder {
    inner: lz4_flex::frame::FrameDecoder<std::io::Cursor<Vec<u8>>>,
}

/// Calls `to_string` on an error of the LZ4 frame encoder.
#[verifier::external_body]
pub(crate) fn frame_error_text(e: &lz4_flex::frame::Error) -> (text: String) {
    e.to_string()
}

/// What an `lz4_flex::frame::FrameDecoder` over `bytes` hands out up to the
/// first read that ends the stream, or nothing where a read fails before
/// that. A read ends the stream when it puts no byte into a buffer that is
/// not empty; the decoder does so at the end of a frame.
pub uninterp spec fn lz4_frame_decoded(bytes: Seq<u8>) -> Option<Seq<u8>>;

/// The bytes that a zstd encoder has accepted since it was made.
pub uninterp spec fn zstd_encoder_input(e: ZstdEncoder) -> Seq<u8>;

/// What the sink of a zstd encoder held when the encoder was made.
pub uninterp spec fn zstd_encoder_base(e: ZstdEncoder) -> Seq<u8>;

/// How many of the bytes that a zstd encoder has accepted it still holds
/// back: they have not reached its sink in compressed form.
pub uninterp spec fn zstd_encoder_held(e: ZstdEncoder) -> nat;

/// The bytes that an LZ4 encoder has accepted since it was made.
pub uninterp spec fn lz4_encoder_input(e: Lz4Encoder) -> Seq<u8>;

/// What the sink of an LZ4 encoder held when the encoder was made.
pub uninterp spec fn lz4_encoder_base(e: Lz4Encoder) -> Seq<u8>;

/// How many of the bytes that an LZ4 encoder has accepted it still holds
/// back: they have not reached its sink in compressed form.
pub uninterp spec fn lz4_encoder_held(e: Lz4Encoder) -> nat;

/// Whether `zstd::stream::write::Encoder::new` gives an encoder at `level`.
pub uninterp spec fn zstd_encoder_starts(level: i32) -> bool;

/// Whether `zstd::stream::read::Decoder::new` gives a decoder over a source
/// that has `input` ahead.
pub uninterp spec fn zstd_decoder_starts(input: Seq<u8>) -> bool;

/// Whether a zstd decoder is still open: none of its reads has ended the
/// stream or failed.
pub uninterp spec fn zstd_decoder_open(d: ZstdDecoder) -> bool;

/// Whether an LZ4 decoder is still open: none of its reads has ended the
/// stream or failed.
pub uninterp spec fn lz4_decoder_open(d: Lz4Decoder) -> bool;

/// All the bytes of the source that a zstd decoder reads from.
pub uninterp spec fn zstd_decoder_data(d: ZstdDecoder) -> Seq<u8>;

/// The compressed bytes that lay ahead in the source when a zstd decoder was
/// made.
pub uninterp spec fn zstd_decoder_input(d: ZstdDecoder) -> Seq<u8>;

/// The bytes that a zstd decoder has handed out since it was made.
pub uninterp spec fn zstd_decoder_output(d: ZstdDecoder) -> Seq<u8>;

/// All the bytes of the source that an LZ4 decoder reads from.
pub uninterp spec fn lz4_decoder_data(d: Lz4Decoder) -> Seq<u8>;

/// The compressed bytes that lay ahead in the source when an LZ4 decoder was
/// made.
pub uninterp spec fn lz4_decoder_input(d: Lz4Decoder) -> Seq<u8>;

/// The bytes that an LZ4 decoder has handed out since it was made.
pub uninterp spec fn lz4_decoder_output(d: Lz4Decoder) -> Seq<u8>;

/// Calls `zstd::stream::write::Encoder::new` with `sink` as the writer.
/// Assumed: whether an encoder is made depends on the level alone; a new
/// encoder has accepted nothing, so holds nothing back, and leaves what the
/// sink holds in place.
#[verifier::external_body]
pub(crate) fn zstd_encoder_new(sink: Vec<u8>, level: i32) -> (r: Result<ZstdEncoder, std::io::Error>)
    ensures
        (r is Ok) == zstd_encoder_starts(level),
        r matches Ok(e) ==> {
            &&& zstd_encoder_input(e) == Seq::<u8>::empty()
            &&& zstd_encoder_base(e) == sink@
            &&& zstd_encoder_held(e) == 0
        },
{
    match zstd::stream::write::Encoder::new(sink, level) {
        Ok(inner) => Ok(ZstdEncoder { inner }),
        Err(e) => Err(e),
    }
}

/// Calls `Write::write` on the zstd encoder. Assumed, as `Write` documents:
/// on success the encoder has accepted the first `n` bytes of `buf`, with
/// `n` no more than their number.
#[verifier::external_body]
pub(crate) fn zstd_encoder_write(e: &mut ZstdEncoder, buf: &[u8]) -> (r: Result<
    usize,
    std::io::Error,
>)
    ensures
        zstd_encoder_base(*final(e)) == zstd_encoder_base(*old(e)),
        r matches Ok(n) ==> n <= buf@.len() && zstd_encoder_input(*final(e)) == zstd_encoder_input(
            *old(e),
        ) + buf@.take(n as int),
{
    std::io::Write::write(&mut e.inner, buf)
}

/// Calls `Write::flush` on the zstd encoder. Assumed: flushing accepts no
/// input, and, as `Write` documents of a flush and zstd of its own, on
/// success everything accepted so far has reached the sink in compressed
/// form.
#[verifier::external_body]
pub(crate) fn zstd_encoder_flush(e: &mut ZstdEncoder) -> (r: Result<(), std::io::Error>)
    ensures
        zstd_encoder_base(*final(e)) == zstd_encoder_base(*old(e)),
        zstd_encoder_input(*final(e)) == zstd_encoder_input(*old(e)),
        r is Ok ==> zstd_encoder_held(*final(e)) == 0,
{
    std::io::Write::flush(&mut e.inner)
}

/// Calls `zstd::stream::write::Encoder::finish`. Assumed: on success the
/// sink holds what it held before, followed by a zstd stream from which
/// `zstd::stream::decode_all` recovers the bytes that the encoder accepted.
#[verifier::external_body]
pub(crate) fn zstd_encoder_finish(e: ZstdEncoder) -> (r: Result<Vec<u8>, std::io::Error>)
    ensures
        r matches Ok(sink) ==> {
            &&& sink@.len() >= zstd_encoder_base(e).len()
            &&& sink@.take(zstd_encoder_base(e).len() as int) == zstd_encoder_base(e)
            &&& zstd_decoded(sink@.skip(zstd_encoder_base(e).len() as int)) == Some(
                zstd_encoder_input(e),
            )
        },
{
    e.inner.finish()
}

/// Calls `lz4_flex::frame::FrameEncoder::new` with `sink` as the writer.
/// Assumed: a new encoder has accepted nothing, so holds nothing back, and
/// leaves what the sink holds in place.
#[verifier::external_body]
pub(crate) fn lz4_encoder_new(sink: Vec<u8>) -> (e: Lz4Encoder)
    ensures
        lz4_encoder_input(e) == Seq::<u8>::empty(),
        lz4_encoder_base(e) == sink@,
        lz4_encoder_held(e) == 0,
{
    Lz4Encoder { inner: lz4_flex::frame::FrameEncoder::new(sink) }
}

/// Calls `Write::write` on the LZ4 encoder. Assumed: over a vector, which
/// takes every byte, the encoder accepts all of `buf` and says so.
#[verifier::external_body]
pub(crate) fn lz4_encoder_write(e: &mut Lz4Encoder, buf: &[u8]) -> (r: Result<usize, std::io::Error>)
    ensures
        lz4_encoder_base(*final(e)) == lz4_encoder_base(*old(e)),
        r is Ok,
        r matches Ok(n) ==> n == buf@.len(),
        lz4_encoder_input(*final(e)) == lz4_encoder_input(*old(e)) + buf@,
{
    std::io::Write::write(&mut e.inner, buf)
}

/// Calls `Write::flush` on the LZ4 encoder. Assumed: flushing accepts no
/// input and, over a vector, succeeds; and, as `Write` documents of a
/// flush, everything accepted so far has then reached the sink in
/// compressed form: the encoder writes the block that it was filling.
#[verifier::external_body]
pub(crate) fn lz4_encoder_flush(e: &mut Lz4Encoder) -> (r: Result<(), std::io::Error>)
    ensures
        lz4_encoder_base(*final(e)) == lz4_encoder_base(*old(e)),
        lz4_encoder_input(*final(e)) == lz4_encoder_input(*old(e)),
        r is Ok,
        lz4_encoder_held(*final(e)) == 0,
{
    std::io::Write::flush(&mut e.inner)
}

/// Calls `lz4_flex::frame::FrameEncoder::finish`. Assumed: over a vector
/// it succeeds, and the sink then holds what it held before, followed by an
/// LZ4 frame from which a frame decoder recovers the bytes that the encoder
/// accepted.
#[verifier::external_body]
pub(crate) fn lz4_encoder_finish(e: Lz4Encoder) -> (r: Result<Vec<u8>, lz4_flex::frame::Error>)
    ensures
        r is Ok,
        r matches Ok(sink) ==> {
            &&& sink@.len() >= lz4_encoder_base(e).len()
            &&& sink@.take(lz4_encoder_base(e).len() as int) == lz4_encoder_base(e)
            &&& lz4_frame_decoded(sink@.skip(lz4_encoder_base(e).len() as int)) == Some(
                lz4_encoder_input(e),
            )
        },
{
    e.inner.finish()
}

/// Calls `zstd::stream::read::Decoder::new` on a cursor over `data` that
/// stands at `pos`. Assumed: whether a decoder is made depends on the input
/// alone, and one is made wherever `zstd::stream::decode_all`, which begins
/// with the same call, succeeds on that input. A new decoder is open, has
/// handed out nothing, and has the bytes from `pos` on as its input.
#[verifier::external_body]
pub(crate) fn zstd_decoder_new(data: Vec<u8>, pos: usize) -> (r: Result<ZstdDecoder, std::io::Error>)
    requires
        pos <= data@.len(),
    ensures
        (r is Ok) == zstd_decoder_starts(data@.skip(pos as int)),
        zstd_decoded(data@.skip(pos as int)) is Some ==> r is Ok,
        r matches Ok(d) ==> {
            &&& zstd_decoder_open(d)
            &&& zstd_decoder_data(d) == data@
            &&& zstd_decoder_input(d) == data@.skip(pos as int)
            &&& zstd_decoder_output(d) == Seq::<u8>::empty()
        },
{
    let mut cursor = std::io::Cursor::new(data);
    cursor.set_position(pos as u64);
    zstd::stream::read::Decoder::new(cursor)
}

/// Calls `Read::read` on an open zstd decoder with all of `buf`, which is
/// not empty, as the buffer. Assumed, as `Read` documents: on success the
/// first `n` bytes of `buf` are the next bytes of the decompressed stream.
/// Assumed too: a read that gives no byte ends the stream, and what was
/// handed out in all is then what `zstd::stream::decode_all`, which reads a
/// decoder of this kind to its end, gives for the same input; and a read
/// fails only where `decode_all` fails on that input. After a read that gave
/// bytes the decoder is still open.
#[verifier::external_body]
pub(crate) fn zstd_decoder_read(d: &mut ZstdDecoder, buf: &mut Vec<u8>) -> (r: Result<
    usize,
    std::io::Error,
>)
    requires
        zstd_decoder_open(*old(d)),
        old(buf)@.len() > 0,
    ensures
        final(buf)@.len() == old(buf)@.len(),
        zstd_decoder_data(*final(d)) == zstd_decoder_data(*old(d)),
        zstd_decoder_input(*final(d)) == zstd_decoder_input(*old(d)),
        r matches Ok(n) ==> {
            &&& n <= old(buf)@.len()
            &&& zstd_decoder_output(*final(d)) == zstd_decoder_output(*old(d)) + final(buf)@.take(
                n as int,
            )
            &&& n > 0 ==> zstd_decoder_open(*final(d))
            &&& n == 0 ==> zstd_decoded(zstd_decoder_input(*old(d))) == Some(
                zstd_decoder_output(*old(d)),
            )
        },
        r is Err ==> zstd_decoded(zstd_decoder_input(*old(d))) is None,
{
    std::io::Read::read(d, buf.as_mut_slice())
}

/// Calls `zstd::stream::read::Decoder::finish` and takes the cursor apart.
/// Assumed: the source has the bytes that it had when the decoder was made.
/// Where the cursor stands is left open.
#[verifier::external_body]
pub(crate) fn zstd_decoder_into_inner(d: ZstdDecoder) -> (r: (Vec<u8>, usize))
    ensures
        r.0@ == zstd_decoder_data(d),
{
    let cursor = d.finish().into_inner();
    let pos = cursor.position() as usize;
    (cursor.into_inner(), pos)
}

/// Calls `lz4_flex::frame::FrameDecoder::new` on a cursor over `data` that
/// stands at `pos`. Assumed: a new decoder is open, has handed out nothing,
/// and has the bytes from `pos` on as its input.
#[verifier::external_body]
pub(crate) fn lz4_decoder_new(data: Vec<u8>, pos: usize) -> (d: Lz4Decoder)
    requires
        pos <= data@.len(),
    ensures
        lz4_decoder_open(d),
        lz4_decoder_data(d) == data@,
        lz4_decoder_input(d) == data@.skip(pos as int),
        lz4_decoder_output(d) == Seq::<u8>::empty(),
{
    let mut cursor = std::io::Cursor::new(data);
    cursor.set_position(pos as u64);
    Lz4Decoder { inner: lz4_flex::frame::FrameDecoder::new(cursor) }
}

/// Calls `Read::read` on an open LZ4 decoder with all of `buf`, which is
/// not empty, as the buffer. Assumed, as `Read` documents: on success the
/// first `n` bytes of `buf` are the next bytes of the decompressed stream.
/// The first read that gives no byte ends the stream, and what was handed
/// out until then is what `lz4_frame_decoded` names; where a read fails
/// before that, the name holds nothing. After a read that gave bytes the
/// decoder is still open.
#[verifier::external_body]
pub(crate) fn lz4_decoder_read(d: &mut Lz4Decoder, buf: &mut Vec<u8>) -> (r: Result<
    usize,
    std::io::Error,
>)
    requires
        lz4_decoder_open(*old(d)),
        old(buf)@.len() > 0,
    ensures
        final(buf)@.len() == old(buf)@.len(),
        lz4_decoder_data(*final(d)) == lz4_decoder_data(*old(d)),
        lz4_decoder_input(*final(d)) == lz4_decoder_input(*old(d)),
        r matches Ok(n) ==> {
            &&& n <= old(buf)@.len()
            &&& lz4_decoder_output(*final(d)) == lz4_decoder_output(*old(d)) + final(buf)@.take(
                n as int,
            )
            &&& n > 0 ==> lz4_decoder_open(*final(d))
            &&& n == 0 ==> lz4_frame_decoded(lz4_decoder_input(*old(d))) == Some(
                lz4_decoder_output(*old(d)),
            )
        },
        r is Err ==> lz4_frame_decoded(lz4_decoder_input(*old(d))) is None,
{
    std::io::Read::read(&mut d.inner, buf.as_mut_slice())
}

/// Calls `lz4_flex::frame::FrameDecoder::into_inner` and takes the cursor
/// apart. Assumed: the source has the bytes that it had when the decoder was
/// made. Where the cursor stands is left open.
#[verifier::external_body]
pub(crate) fn lz4_decoder_into_inner(d: Lz4Decoder) -> (r: (Vec<u8>, usize))
    ensures
        r.0@ == lz4_decoder_data(d),
{
    let cursor = d.inner.into_inner();
    let pos = cursor.position() as usize;
    (cursor.into_inner(), pos)
}

} // verus!
