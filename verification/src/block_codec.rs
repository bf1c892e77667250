//! The whole-buffer codecs, as the envelope uses them. Nothing here is
//! proved: each function hands its arguments to a compression library and
//! states what that library documents of the answer.

use vstd::prelude::*;

verus! {

#[verifier::external_type_specification]
#[verifier::external_body]
pub struct ExIoError(std::io::Error);

#[verifier::external_type_specification]
#[verifier::external_body]
pub struct ExBlockDecompressError(lz4_flex::block::DecompressError);

/// Calls `to_string` on an I/O error, for the text that the codec gave it.
#[verifier::external_body]
pub(crate) fn io_error_text(e: &std::io::Error) -> (text: String) {
    e.to_string()
}

/// Calls `to_string` on an error of the LZ4 block decoder.
#[verifier::external_body]
pub(crate) fn block_error_text(e: &lz4_flex::block::DecompressError) -> (text: String) {
    e.to_string()
}

/// What `zstd::stream::encode_all` makes of `raw` at `level`: the zstd
/// frame, or nothing where it reports an error.
pub uninterp spec fn zstd_encoded(raw: Seq<u8>, level: i32) -> Option<Seq<u8>>;

/// What `zstd::stream::decode_all` makes of `payload`: the decompressed
/// bytes, or nothing where it reports an error.
pub uninterp spec fn zstd_decoded(payload: Seq<u8>) -> Option<Seq<u8>>;

/// The block that `lz4_flex::compress_prepend_size` produces from `raw`.
pub uninterp spec fn lz4_encoded(raw: Seq<u8>) -> Seq<u8>;

/// What `lz4_flex::decompress_size_prepended` makes of `payload`: the
/// decompressed bytes, or nothing where it reports an error.
pub uninterp spec fn lz4_decoded(payload: Seq<u8>) -> Option<Seq<u8>>;

/// The longest input that the LZ4 block encoder can size an output buffer
/// for: it reserves 110% of the input length plus a few bytes.
pub open spec fn lz4_input_limit() -> nat {
    (usize::MAX / 110) as nat
}

/// The longest input whose length fits the four-byte size prefix of an LZ4
/// block. A longer input is compressed with a truncated prefix and cannot be
/// read back.
pub open spec fn lz4_prefix_limit() -> nat {
    u32::MAX as nat
}

/// The length from which a run of `0xFF` bytes is refused in an LZ4 block:
/// the decoder adds up the bytes of a length field in 32 bits, and
/// 16,843,009 times 255 is the largest sum that fits.
pub open spec fn lz4_run_limit() -> nat {
    16_843_009
}

/// Whether the `len` bytes of `s` from `start` on are all `0xFF`.
pub open spec fn is_ff_run(s: Seq<u8>, start: int, len: int) -> bool {
    &&& 0 <= start
    &&& start + len <= s.len()
    &&& forall|k: int| start <= k < start + len ==> s[k] == 0xFFu8
}

/// Whether `s` holds `len` bytes `0xFF` in a row somewhere.
pub open spec fn has_ff_run(s: Seq<u8>, len: nat) -> bool {
    exists|start: int| is_ff_run(s, start, len as int)
}

/// Calls `zstd::stream::encode_all` on an in-memory reader over `raw`.
/// Assumed: the answer depends on the bytes and the level alone, so it is
/// the one named `zstd_encoded`; and, zstd being lossless, that
/// `zstd::stream::decode_all` gives `raw` back from a frame that it made.
#[verifier::external_body]
pub(crate) fn zstd_encode_all(raw: &[u8], level: i32) -> (r: Result<Vec<u8>, std::io::Error>)
    ensures
        r matches Ok(v) ==> zstd_encoded(raw@, level) == Some(v@) && zstd_decoded(v@) == Some(
            raw@,
        ),
        r is Err ==> zstd_encoded(raw@, level) is None,
{
    zstd::stream::encode_all(std::io::Cursor::new(raw), level)
}

/// Calls `zstd::stream::decode_all` on an in-memory reader over `payload`.
/// Assumed: the answer depends on the bytes alone, so it is the one named
/// `zstd_decoded`.
#[verifier::external_body]
pub(crate) fn zstd_decode_all(payload: &[u8]) -> (r: Result<Vec<u8>, std::io::Error>)
    ensures
        r matches Ok(v) ==> zstd_decoded(payload@) == Some(v@),
        r is Err ==> zstd_decoded(payload@) is None,
{
    zstd::stream::decode_all(std::io::Cursor::new(payload))
}

/// Calls `lz4_flex::compress_prepend_size`. Assumed: the answer is the block
/// named `lz4_encoded`, and, as the library documents the two functions as a
/// pair, that `lz4_flex::decompress_size_prepended` gives `raw` back from it
/// when the length of `raw` fits the four-byte prefix. Inputs too long for
/// the encoder to size its output buffer are left out.
#[verifier::external_body]
pub(crate) fn lz4_compress_prepend_size(raw: &[u8]) -> (v: Vec<u8>)
    requires
        raw@.len() <= lz4_input_limit(),
    ensures
        v@ == lz4_encoded(raw@),
        raw@.len() <= lz4_prefix_limit() ==> lz4_decoded(v@) == Some(raw@),
{
    lz4_flex::compress_prepend_size(raw)
}

/// Calls `lz4_flex::decompress_size_prepended`. Assumed: the answer depends
/// on the bytes alone, so it is the one named `lz4_decoded`. Payloads with a
/// run of `0xFF` bytes long enough to overflow the decoder's length sum are
/// left out.
#[verifier::external_body]
pub(crate) fn lz4_decompress_size_prepended(payload: &[u8]) -> (r: Result<
    Vec<u8>,
    lz4_flex::block::DecompressError,
>)
    requires
        !has_ff_run(payload@, lz4_run_limit()),
    ensures
        r matches Ok(v) ==> lz4_decoded(payload@) == Some(v@),
        r is Err ==> lz4_decoded(payload@) is None,
{
    lz4_flex::decompress_size_prepended(payload)
}

} // verus!
