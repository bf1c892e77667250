//! The envelope wire format: a fixed sixteen-byte header in front of an
//! optionally compressed payload, with headerless data accepted as it is.

use vstd::prelude::*;
use vstd::bytes::{spec_u64_from_le_bytes, spec_u64_to_le_bytes, u64_from_le_bytes, u64_to_le_bytes};
use vstd::bytes::lemma_auto_spec_u64_to_from_le_bytes;
use vstd::slice::{slice_subrange, slice_to_vec};
use crate::block_codec::{lz4_decoded, lz4_encoded, zstd_decoded, zstd_encoded};
use crate::block_codec::{has_ff_run, is_ff_run, lz4_input_limit, lz4_prefix_limit, lz4_run_limit};
use crate::block_codec::{lz4_compress_prepend_size, lz4_decompress_size_prepended};
use crate::block_codec::{block_error_text, io_error_text, zstd_decode_all, zstd_encode_all};
use crate::buffer::extend_bytes;

verus! {

/// Length of the fixed header in bytes.
pub const HEADER_LEN: usize = 16;

/// The four bytes that open every framed envelope.
pub open spec fn magic() -> Seq<u8> {
    seq![0x45u8, 0x44u8, 0x4eu8, 0x31u8]
}

/// The logical type of a wrapped payload.
#[derive(Clone, Copy, Debug, PartialEq, Eq, Structural)]
pub enum PayloadKind {
    /// An engram, serialized as bincode.
    EngramBincode,
    /// A sub-engram, serialized as bincode.
    SubEngramBincode,
}

impl PayloadKind {
    /// The byte that stands for this kind on the wire.
    pub open spec fn tag(self) -> u8 {
        match self {
            PayloadKind::EngramBincode => 1,
            PayloadKind::SubEngramBincode => 2,
        }
    }

    /// The kind that a wire byte stands for, if any.
    pub open spec fn of_tag(v: u8) -> Option<PayloadKind> {
        if v == 1 {
            Some(PayloadKind::EngramBincode)
        } else if v == 2 {
            Some(PayloadKind::SubEngramBincode)
        } else {
            None
        }
    }

    /// Writes the kind as its wire byte.
    pub fn to_u8(self) -> (v: u8)
        ensures
            v == self.tag(),
    {
        match self {
            PayloadKind::EngramBincode => 1,
            PayloadKind::SubEngramBincode => 2,
        }
    }

    /// Reads a kind from its wire byte; a byte that stands for none gives
    /// nothing.
    pub fn from_u8(v: u8) -> (r: Option<PayloadKind>)
        ensures
            r == PayloadKind::of_tag(v),
    {
        match v {
            1 => Some(PayloadKind::EngramBincode),
            2 => Some(PayloadKind::SubEngramBincode),
            _ => None,
        }
    }
}

/// The codec applied to a payload.
#[derive(Clone, Copy, Debug, PartialEq, Eq, Structural)]
pub enum CompressionCodec {
    /// No codec: the bytes stand as they are.
    Uncompressed,
    /// Zstandard, the high-ratio codec.
    Zstd,
    /// LZ4, the fast codec.
    Lz4,
}

impl CompressionCodec {
    /// The byte that stands for this codec on the wire.
    pub open spec fn tag(self) -> u8 {
        match self {
            CompressionCodec::Uncompressed => 0,
            CompressionCodec::Zstd => 1,
            CompressionCodec::Lz4 => 2,
        }
    }

    /// The codec that a wire byte stands for, if any.
    pub open spec fn of_tag(v: u8) -> Option<CompressionCodec> {
        if v == 0 {
            Some(CompressionCodec::Uncompressed)
        } else if v == 1 {
            Some(CompressionCodec::Zstd)
        } else if v == 2 {
            Some(CompressionCodec::Lz4)
        } else {
            None
        }
    }

    /// Writes the codec as its wire byte.
    pub fn to_u8(self) -> (v: u8)
        ensures
            v == self.tag(),
    {
        match self {
            CompressionCodec::Uncompressed => 0,
            CompressionCodec::Zstd => 1,
            CompressionCodec::Lz4 => 2,
        }
    }

    /// Reads a codec from its wire byte; a byte that stands for none gives
    /// nothing.
    pub fn from_u8(v: u8) -> (r: Option<CompressionCodec>)
        ensures
            r == CompressionCodec::of_tag(v),
    {
        match v {
            0 => Some(CompressionCodec::Uncompressed),
            1 => Some(CompressionCodec::Zstd),
            2 => Some(CompressionCodec::Lz4),
            _ => None,
        }
    }
}

/// Tags survive a trip over the wire: reading back the byte written for a
/// kind or a codec gives that kind or codec, and every byte that reads as one
/// is the byte written for it.
pub proof fn lemma_tags_round_trip(kind: PayloadKind, codec: CompressionCodec, v: u8)
    ensures
        PayloadKind::of_tag(kind.tag()) == Some(kind),
        CompressionCodec::of_tag(codec.tag()) == Some(codec),
        PayloadKind::of_tag(v) matches Some(k) ==> k.tag() == v,
        CompressionCodec::of_tag(v) matches Some(c) ==> c.tag() == v,
{
}

/// How a payload is to be written: the codec, and a codec-specific level that
/// is ignored when nothing is compressed.
#[derive(Clone, Copy, Debug)]
pub struct BinaryWriteOptions {
    pub codec: CompressionCodec,
    pub level: Option<i32>,
}

impl Default for BinaryWriteOptions {
    fn default() -> (r: Self)
        ensures
            r.codec == CompressionCodec::Uncompressed,
            r.level.is_none(),
    {
        BinaryWriteOptions { codec: CompressionCodec::Uncompressed, level: None }
    }
}

/// The ways in which writing or reading an envelope can fail.
#[derive(Clone, Copy, Debug, PartialEq, Eq, Structural)]
pub enum EnvelopeFailure {
    /// The header names a payload kind that this format does not define.
    UnknownPayloadKind,
    /// The header names a payload kind other than the one asked for.
    UnexpectedPayloadKind,
    /// The header names a codec that this format does not define.
    UnknownCodec,
    /// The payload does not decompress to the length that the header declares.
    SizeMismatch,
    /// The codec could not compress the payload.
    Compression,
    /// The codec could not decompress the payload.
    Decompression,
}

impl EnvelopeFailure {
    /// The description that stands for this failure where no codec gave
    /// one.
    pub open spec fn text(self) -> Seq<char> {
        match self {
            EnvelopeFailure::UnknownPayloadKind => "unknown envelope payload kind"@,
            EnvelopeFailure::UnexpectedPayloadKind => "unexpected envelope payload kind"@,
            EnvelopeFailure::UnknownCodec => "unknown envelope compression codec"@,
            EnvelopeFailure::SizeMismatch => "envelope size mismatch"@,
            EnvelopeFailure::Compression => "envelope payload could not be compressed"@,
            EnvelopeFailure::Decompression => "envelope payload could not be decompressed"@,
        }
    }
}

/// Why an envelope could not be written or read. Where a codec failed, its
/// own account of the failure comes along.
#[derive(Clone, Debug, PartialEq, Eq)]
pub enum EnvelopeError {
    /// The header names a payload kind that this format does not define.
    UnknownPayloadKind,
    /// The header names a payload kind other than the one asked for.
    UnexpectedPayloadKind,
    /// The header names a codec that this format does not define.
    UnknownCodec,
    /// The payload does not decompress to the length that the header declares.
    SizeMismatch,
    /// The codec could not compress the payload.
    Compression(String),
    /// The codec could not decompress the payload.
    Decompression(String),
}

impl EnvelopeError {
    /// The way in which the envelope failed.
    pub open spec fn failure(self) -> EnvelopeFailure {
        match self {
            EnvelopeError::UnknownPayloadKind => EnvelopeFailure::UnknownPayloadKind,
            EnvelopeError::UnexpectedPayloadKind => EnvelopeFailure::UnexpectedPayloadKind,
            EnvelopeError::UnknownCodec => EnvelopeFailure::UnknownCodec,
            EnvelopeError::SizeMismatch => EnvelopeFailure::SizeMismatch,
            EnvelopeError::Compression(_) => EnvelopeFailure::Compression,
            EnvelopeError::Decompression(_) => EnvelopeFailure::Decompression,
        }
    }

    /// A description of the failure: the codec's own where a codec failed.
    pub open spec fn text(self) -> Seq<char> {
        match self {
            EnvelopeError::Compression(text) => text@,
            EnvelopeError::Decompression(text) => text@,
            _ => self.failure().text(),
        }
    }

    /// The way in which the envelope failed.
    pub fn kind(&self) -> (k: EnvelopeFailure)
        ensures
            k == self.failure(),
    {
        match self {
            EnvelopeError::UnknownPayloadKind => EnvelopeFailure::UnknownPayloadKind,
            EnvelopeError::UnexpectedPayloadKind => EnvelopeFailure::UnexpectedPayloadKind,
            EnvelopeError::UnknownCodec => EnvelopeFailure::UnknownCodec,
            EnvelopeError::SizeMismatch => EnvelopeFailure::SizeMismatch,
            EnvelopeError::Compression(_) => EnvelopeFailure::Compression,
            EnvelopeError::Decompression(_) => EnvelopeFailure::Decompression,
        }
    }

    /// A description of the failure: the codec's own where a codec failed.
    pub fn message(&self) -> (s: String)
        ensures
            s@ == self.text(),
    {
        match self {
            EnvelopeError::UnknownPayloadKind => "unknown envelope payload kind".to_owned(),
            EnvelopeError::UnexpectedPayloadKind => "unexpected envelope payload kind".to_owned(),
            EnvelopeError::UnknownCodec => "unknown envelope compression codec".to_owned(),
            EnvelopeError::SizeMismatch => "envelope size mismatch".to_owned(),
            EnvelopeError::Compression(text) => text.clone(),
            EnvelopeError::Decompression(text) => text.clone(),
        }
    }
}

/// The parsed fields of a header.
#[derive(Clone, Copy, Debug)]
pub struct EnvelopeHeader {
    pub kind: PayloadKind,
    pub codec: CompressionCodec,
    /// Length of the payload before compression.
    pub uncompressed_len: u64,
}

/// The sixteen header bytes for a payload of `uncompressed_len` bytes: the
/// magic, the two tags, two zero bytes, and the length in little-endian order.
pub open spec fn header_bytes(kind: PayloadKind, codec: CompressionCodec, uncompressed_len: u64) -> Seq<u8> {
    magic() + seq![kind.tag(), codec.tag(), 0u8, 0u8] + spec_u64_to_le_bytes(uncompressed_len)
}

/// Whether `data` has the shape of a framed envelope: long enough for a
/// header, and opening with the magic. Anything else is a legacy payload.
pub open spec fn is_framed(data: Seq<u8>) -> bool {
    data.len() >= HEADER_LEN && data.subrange(0, 4) == magic()
}

/// The length that the header of a framed envelope declares.
pub open spec fn declared_len(data: Seq<u8>) -> u64
    recommends
        data.len() >= HEADER_LEN,
{
    spec_u64_from_le_bytes(data.subrange(8, 16))
}

/// The bytes that follow the header of a framed envelope.
pub open spec fn payload_of(data: Seq<u8>) -> Seq<u8>
    recommends
        data.len() >= HEADER_LEN,
{
    data.subrange(HEADER_LEN as int, data.len() as int)
}

/// The level handed to the block codec when the options give `level`.
pub open spec fn effective_level(level: Option<i32>) -> i32 {
    match level {
        Some(l) => l,
        None => 0,
    }
}

/// The compressed form of `raw` under `codec`, or nothing where the codec
/// refuses: zstd where it reports an error, LZ4 where the input is too long
/// for it to size a buffer.
pub open spec fn compressed(codec: CompressionCodec, level: Option<i32>, raw: Seq<u8>) -> Option<
    Seq<u8>,
> {
    match codec {
        CompressionCodec::Uncompressed => Some(raw),
        CompressionCodec::Zstd => zstd_encoded(raw, effective_level(level)),
        CompressionCodec::Lz4 => if raw.len() <= lz4_input_limit() {
            Some(lz4_encoded(raw))
        } else {
            None
        },
    }
}

/// What `codec` recovers from `payload`, or nothing where it rejects it. An
/// LZ4 payload with an overlong run of `0xFF` bytes is rejected unread.
pub open spec fn decompressed(codec: CompressionCodec, payload: Seq<u8>) -> Option<Seq<u8>> {
    match codec {
        CompressionCodec::Uncompressed => Some(payload),
        CompressionCodec::Zstd => zstd_decoded(payload),
        CompressionCodec::Lz4 => if has_ff_run(payload, lz4_run_limit()) {
            None
        } else {
            lz4_decoded(payload)
        },
    }
}

/// The envelope written for `raw`: the payload itself when nothing is
/// compressed, else the header followed by the compressed payload; or
/// nothing where the codec refuses the payload.
pub open spec fn wrapped(kind: PayloadKind, opts: BinaryWriteOptions, raw: Seq<u8>) -> Option<
    Seq<u8>,
> {
    if opts.codec == CompressionCodec::Uncompressed {
        Some(raw)
    } else {
        match compressed(opts.codec, opts.level, raw) {
            Some(body) => Some(header_bytes(kind, opts.codec, raw.len() as u64) + body),
            None => None,
        }
    }
}

/// What the header of a framed envelope says, read in wire order: the kind
/// must be known, then equal to `expected`, then the codec must be known.
pub open spec fn header_of(expected: PayloadKind, data: Seq<u8>) -> Result<EnvelopeHeader, EnvelopeFailure>
    recommends
        data.len() >= HEADER_LEN,
{
    match PayloadKind::of_tag(data[4]) {
        None => Err(EnvelopeFailure::UnknownPayloadKind),
        Some(kind) => if kind != expected {
            Err(EnvelopeFailure::UnexpectedPayloadKind)
        } else {
            match CompressionCodec::of_tag(data[5]) {
                None => Err(EnvelopeFailure::UnknownCodec),
                Some(codec) => Ok(
                    (EnvelopeHeader { kind, codec, uncompressed_len: declared_len(data) }),
                ),
            }
        },
    }
}

/// The outcome of holding a decompressed payload against the declared length.
pub open spec fn length_checked(declared: u64, decoded: Option<Seq<u8>>) -> Result<Seq<u8>, EnvelopeFailure> {
    match decoded {
        None => Err(EnvelopeFailure::Decompression),
        Some(bytes) => if bytes.len() == declared as nat {
            Ok(bytes)
        } else {
            Err(EnvelopeFailure::SizeMismatch)
        },
    }
}

/// What reading `data` as a payload of kind `expected` gives: legacy data as
/// it is, a framed envelope's payload after every check, or the first check
/// that fails.
pub open spec fn unwrapped(expected: PayloadKind, data: Seq<u8>) -> Result<Seq<u8>, EnvelopeFailure> {
    if !is_framed(data) {
        Ok(data)
    } else {
        match header_of(expected, data) {
            Err(e) => Err(e),
            Ok(header) => length_checked(
                header.uncompressed_len,
                decompressed(header.codec, payload_of(data)),
            ),
        }
    }
}

/// The inputs that come back unchanged from writing and then reading,
/// wherever writing succeeds. Without a codec: those that are not themselves
/// shaped like a framed envelope. With zstd: all. With LZ4: those whose
/// length fits the size prefix and whose block holds no run of `0xFF` bytes
/// that reading refuses.
pub open spec fn round_trips(codec: CompressionCodec, raw: Seq<u8>) -> bool {
    match codec {
        CompressionCodec::Uncompressed => !is_framed(raw),
        CompressionCodec::Zstd => true,
        CompressionCodec::Lz4 => raw.len() <= lz4_prefix_limit() && !has_ff_run(
            lz4_encoded(raw),
            lz4_run_limit(),
        ),
    }
}

/// Whether `data` opens with the four magic bytes.
pub fn starts_with_magic(data: &[u8]) -> (b: bool)
    ensures
        b == (data@.len() >= 4 && data@.subrange(0, 4) == magic()),
{
    if data.len() < 4 {
        return false;
    }
    let b = data[0] == 0x45u8 && data[1] == 0x44u8 && data[2] == 0x4eu8 && data[3] == 0x31u8;
    proof {
        let head = data@.subrange(0, 4);
        if b {
            assert(head =~= magic());
        } else {
            assert(head[0] == data@[0] && head[1] == data@[1] && head[2] == data@[2] && head[3]
                == data@[3]);
            assert(magic()[0] == 0x45u8 && magic()[1] == 0x44u8 && magic()[2] == 0x4eu8
                && magic()[3] == 0x31u8);
        }
    }
    b
}

/// Compresses `raw` with `codec`: the compressed form, or a compression
/// error exactly where the codec refuses. Without a codec the bytes are
/// copied. What comes back decompresses to `raw` for every input that
/// `round_trips` admits under a codec.
pub fn compress(codec: CompressionCodec, raw: &[u8], level: Option<i32>) -> (r: Result<
    Vec<u8>,
    EnvelopeError,
>)
    ensures
        match r {
            Ok(v) => compressed(codec, level, raw@) == Some(v@),
            Err(e) => e is Compression && compressed(codec, level, raw@) is None,
        },
        r matches Ok(v) ==> (codec == CompressionCodec::Lz4 ==> round_trips(codec, raw@))
            ==> decompressed(codec, v@) == Some(raw@),
{
    match codec {
        CompressionCodec::Uncompressed => Ok(slice_to_vec(raw)),
        CompressionCodec::Zstd => {
            let lvl: i32 = match level {
                Some(l) => l,
                None => 0,
            };
            match zstd_encode_all(raw, lvl) {
                Ok(v) => Ok(v),
                Err(e) => Err(EnvelopeError::Compression(io_error_text(&e))),
            }
        },
        CompressionCodec::Lz4 => {
            if raw.len() > usize::MAX / 110 {
                Err(EnvelopeError::Compression("input too long for the LZ4 block encoder".to_owned()))
            } else {
                Ok(lz4_compress_prepend_size(raw))
            }
        },
    }
}

/// Decompresses `payload` with `codec`: the bytes that the codec recovers,
/// or a decompression error exactly where it rejects the payload.
pub fn decompress(codec: CompressionCodec, payload: &[u8]) -> (r: Result<Vec<u8>, EnvelopeError>)
    ensures
        match r {
            Ok(v) => decompressed(codec, payload@) == Some(v@),
            Err(e) => e is Decompression && decompressed(codec, payload@) is None,
        },
{
    match codec {
        CompressionCodec::Uncompressed => Ok(slice_to_vec(payload)),
        CompressionCodec::Zstd => match zstd_decode_all(payload) {
            Ok(v) => Ok(v),
            Err(e) => Err(EnvelopeError::Decompression(io_error_text(&e))),
        },
        CompressionCodec::Lz4 => {
            if has_long_ff_run(payload, LZ4_RUN_LIMIT) {
                return Err(
                    EnvelopeError::Decompression(
                        "overlong run of 0xFF bytes in an LZ4 block".to_owned(),
                    ),
                );
            }
            match lz4_decompress_size_prepended(payload) {
                Ok(v) => Ok(v),
                Err(e) => Err(EnvelopeError::Decompression(block_error_text(&e))),
            }
        },
    }
}

/// The length from which a run of `0xFF` bytes is refused in an LZ4 block.
pub const LZ4_RUN_LIMIT: usize = 16_843_009;

/// Whether `data` holds `limit` bytes `0xFF` in a row somewhere.
pub fn has_long_ff_run(data: &[u8], limit: usize) -> (b: bool)
    requires
        limit > 0,
    ensures
        b == has_ff_run(data@, limit as nat),
{
    let mut run: usize = 0;
    let mut i: usize = 0;
    while i < data.len()
        invariant
            i <= data@.len(),
            run <= i,
            run < limit,
            is_ff_run(data@, i - run, run as int),
            run < i ==> data@[i - run - 1] != 0xFFu8,
            forall|s: int| 0 <= s && s + limit <= i ==> !is_ff_run(data@, s, limit as int),
        decreases data@.len() - i,
    {
        if data[i] == 0xFFu8 {
            run = run + 1;
            if run >= limit {
                assert(is_ff_run(data@, i + 1 - limit, limit as int));
                return true;
            }
        } else {
            run = 0;
        }
        proof {
            assert forall|s: int| 0 <= s && s + limit <= i + 1 implies !is_ff_run(
                data@,
                s,
                limit as int,
            ) by {
                if s + limit == i + 1 {
                    if data@[i as int] == 0xFFu8 {
                        // The run that ends here is shorter than the limit,
                        // and the byte before it is not `0xFF`.
                        let gap = i + 1 - run - 1;
                        assert(s <= gap < s + limit);
                        assert(data@[gap] != 0xFFu8);
                    } else {
                        assert(s <= i < s + limit);
                    }
                }
            }
        }
        i = i + 1;
    }
    assert(!has_ff_run(data@, limit as nat)) by {
        assert forall|s: int| !is_ff_run(data@, s, limit as int) by {
            if 0 <= s && s + limit <= data@.len() {
            }
        }
    }
    false
}

/// Writes the header for a payload of `uncompressed_len` bytes, followed by
/// `body`, the payload as the codec left it.
pub fn frame(kind: PayloadKind, codec: CompressionCodec, uncompressed_len: u64, body: &[u8]) -> (out:
    Vec<u8>)
    ensures
        out@ == header_bytes(kind, codec, uncompressed_len) + body@,
        is_framed(out@),
        out@[4] == kind.tag(),
        out@[5] == codec.tag(),
        out@[6] == 0 && out@[7] == 0,
        declared_len(out@) == uncompressed_len,
        payload_of(out@) == body@,
{
    let mut out: Vec<u8> = Vec::new();
    out.push(0x45u8);
    out.push(0x44u8);
    out.push(0x4eu8);
    out.push(0x31u8);
    out.push(kind.to_u8());
    out.push(codec.to_u8());
    out.push(0u8);
    out.push(0u8);
    let len_bytes = u64_to_le_bytes(uncompressed_len);
    extend_bytes(&mut out, len_bytes.as_slice());
    extend_bytes(&mut out, body);
    proof {
        lemma_framed_fields(kind, codec, uncompressed_len, body@);
        assert(out@ =~= header_bytes(kind, codec, uncompressed_len) + body@);
    }
    out
}

/// Reads the header of a framed envelope, in wire order, and gives the first
/// failure where a field is not acceptable.
pub fn read_header(expected_kind: PayloadKind, data: &[u8]) -> (r: Result<
    EnvelopeHeader,
    EnvelopeError,
>)
    requires
        data@.len() >= HEADER_LEN,
    ensures
        match r {
            Ok(header) => header_of(expected_kind, data@) == Ok::<EnvelopeHeader, EnvelopeFailure>(
                header,
            ),
            Err(e) => header_of(expected_kind, data@) == Err::<EnvelopeHeader, EnvelopeFailure>(
                e.failure(),
            ) && e.text() == e.failure().text(),
        },
{
    let kind = match PayloadKind::from_u8(data[4]) {
        Some(k) => k,
        None => {
            return Err(EnvelopeError::UnknownPayloadKind);
        },
    };
    if kind != expected_kind {
        return Err(EnvelopeError::UnexpectedPayloadKind);
    }
    let codec = match CompressionCodec::from_u8(data[5]) {
        Some(c) => c,
        None => {
            return Err(EnvelopeError::UnknownCodec);
        },
    };
    let uncompressed_len = u64_from_le_bytes(slice_subrange(data, 8, 16));
    Ok(EnvelopeHeader { kind, codec, uncompressed_len })
}

/// Holds what the codec made of a payload against the length that the header
/// declares: the bytes where the lengths agree, a size mismatch where they do
/// not, and the codec's failure passed on.
pub fn check_length(declared: u64, decoded: Result<Vec<u8>, EnvelopeError>) -> (r: Result<
    Vec<u8>,
    EnvelopeError,
>)
    ensures
        match decoded {
            Ok(bytes) => if bytes@.len() == declared as nat {
                r == Ok::<Vec<u8>, EnvelopeError>(bytes)
            } else {
                r == Err::<Vec<u8>, EnvelopeError>(EnvelopeError::SizeMismatch)
            },
            Err(e) => r == Err::<Vec<u8>, EnvelopeError>(e),
        },
{
    match decoded {
        Ok(bytes) => {
            if bytes.len() as u64 != declared {
                Err(EnvelopeError::SizeMismatch)
            } else {
                Ok(bytes)
            }
        },
        Err(e) => Err(e),
    }
}

/// Wraps `raw` as a payload of `kind`. Without a codec the bytes come back
/// as they are; with one, the header is followed by the compressed payload.
/// The envelope reads back as `raw` for every input that `round_trips`
/// admits.
pub fn wrap_or_legacy(kind: PayloadKind, opts: BinaryWriteOptions, raw: &[u8]) -> (r: Result<
    Vec<u8>,
    EnvelopeError,
>)
    ensures
        match r {
            Ok(v) => wrapped(kind, opts, raw@) == Some(v@),
            Err(e) => e is Compression && wrapped(kind, opts, raw@) is None,
        },
        r matches Ok(v) ==> round_trips(opts.codec, raw@) ==> unwrapped(kind, v@) == Ok::<
            Seq<u8>,
            EnvelopeFailure,
        >(raw@),
        r matches Ok(v) ==> opts.codec != CompressionCodec::Uncompressed ==> is_framed(v@),
{
    if opts.codec == CompressionCodec::Uncompressed {
        return Ok(slice_to_vec(raw));
    }
    let body = match compress(opts.codec, raw, opts.level) {
        Ok(b) => b,
        Err(e) => {
            return Err(e);
        },
    };
    let out = frame(kind, opts.codec, raw.len() as u64, body.as_slice());
    proof {
        if round_trips(opts.codec, raw@) {
            lemma_framed_round_trip(kind, opts, raw@, body@);
        }
    }
    Ok(out)
}

/// Reads `data` as a payload of `expected_kind`. Data without a header is
/// returned as it is. A framed envelope is checked field by field, its
/// payload decompressed and held against the declared length.
pub fn unwrap_auto(expected_kind: PayloadKind, data: &[u8]) -> (r: Result<Vec<u8>, EnvelopeError>)
    ensures
        match r {
            Ok(v) => unwrapped(expected_kind, data@) == Ok::<Seq<u8>, EnvelopeFailure>(v@),
            Err(e) => unwrapped(expected_kind, data@) == Err::<Seq<u8>, EnvelopeFailure>(
                e.failure(),
            ) && (!(e is Decompression) ==> e.text() == e.failure().text()),
        },
{
    if data.len() < HEADER_LEN || !starts_with_magic(data) {
        return Ok(slice_to_vec(data));
    }
    let header = match read_header(expected_kind, data) {
        Ok(h) => h,
        Err(e) => {
            return Err(e);
        },
    };
    let payload = slice_subrange(data, HEADER_LEN, data.len());
    let decoded = decompress(header.codec, payload);
    check_length(header.uncompressed_len, decoded)
}

/// A header followed by a body is a framed envelope whose fields read back
/// as they were written.
pub proof fn lemma_framed_fields(kind: PayloadKind, codec: CompressionCodec, uncompressed_len: u64, body: Seq<u8>)
    ensures
        ({
            let e = header_bytes(kind, codec, uncompressed_len) + body;
            &&& e.len() == HEADER_LEN + body.len()
            &&& is_framed(e)
            &&& e[4] == kind.tag()
            &&& e[5] == codec.tag()
            &&& e[6] == 0 && e[7] == 0
            &&& declared_len(e) == uncompressed_len
            &&& payload_of(e) == body
        }),
{
    let h = header_bytes(kind, codec, uncompressed_len);
    let e = h + body;
    lemma_auto_spec_u64_to_from_le_bytes();
    assert(spec_u64_to_le_bytes(uncompressed_len).len() == 8);
    assert(h.len() == 16);
    assert(e.subrange(0, 4) =~= magic());
    assert(e.subrange(8, 16) =~= spec_u64_to_le_bytes(uncompressed_len));
    assert(e.subrange(HEADER_LEN as int, e.len() as int) =~= body);
}

/// Written without a codec, a payload is its own envelope, whatever the
/// level; and it reads back as itself unless it is shaped like a framed
/// envelope.
pub proof fn lemma_uncompressed_round_trip(kind: PayloadKind, level: Option<i32>, b: Seq<u8>)
    ensures
        ({
            let opts = BinaryWriteOptions { codec: CompressionCodec::Uncompressed, level };
            &&& wrapped(kind, opts, b) == Some(b)
            &&& !is_framed(b) ==> unwrapped(kind, b) == Ok::<Seq<u8>, EnvelopeFailure>(b)
        }),
{
}

/// Data shorter than a header, or not opening with the magic, reads back as
/// it is, whatever kind is expected.
pub proof fn lemma_legacy_passthrough(kind: PayloadKind, b: Seq<u8>)
    requires
        b.len() < HEADER_LEN || !(b.subrange(0, 4) == magic()),
    ensures
        unwrapped(kind, b) == Ok::<Seq<u8>, EnvelopeFailure>(b),
{
}

/// Where the codec compresses a payload and recovers it from its compressed
/// form, the framed envelope written for it reads back as that payload.
pub proof fn lemma_framed_round_trip(
    kind: PayloadKind,
    opts: BinaryWriteOptions,
    b: Seq<u8>,
    body: Seq<u8>,
)
    requires
        opts.codec != CompressionCodec::Uncompressed,
        b.len() <= usize::MAX,
        compressed(opts.codec, opts.level, b) == Some(body),
        decompressed(opts.codec, body) == Some(b),
    ensures
        wrapped(kind, opts, b) matches Some(envelope) && unwrapped(kind, envelope) == Ok::<
            Seq<u8>,
            EnvelopeFailure,
        >(b),
{
    lemma_framed_fields(kind, opts.codec, b.len() as u64, body);
    lemma_tags_round_trip(kind, opts.codec, 0);
}

/// A framed envelope written for one kind is refused when another kind is
/// expected, whatever its payload holds.
pub proof fn lemma_kind_mismatch_rejected(
    written: PayloadKind,
    expected: PayloadKind,
    opts: BinaryWriteOptions,
    b: Seq<u8>,
)
    requires
        written != expected,
        opts.codec != CompressionCodec::Uncompressed,
    ensures
        wrapped(written, opts, b) matches Some(envelope) ==> unwrapped(expected, envelope)
            == Err::<Seq<u8>, EnvelopeFailure>(EnvelopeFailure::UnexpectedPayloadKind),
{
    if let Some(body) = compressed(opts.codec, opts.level, b) {
        lemma_framed_fields(written, opts.codec, b.len() as u64, body);
        lemma_tags_round_trip(written, opts.codec, 0);
    }
}

/// A framed envelope whose header declares a length other than that of its
/// decompressed payload is refused with a size mismatch; so whatever is read
/// from a framed envelope has the declared length.
pub proof fn lemma_wrong_length_rejected(
    kind: PayloadKind,
    codec: CompressionCodec,
    declared: u64,
    body: Seq<u8>,
    payload: Seq<u8>,
)
    requires
        decompressed(codec, body) == Some(payload),
    ensures
        payload.len() != declared as nat ==> unwrapped(
            kind,
            header_bytes(kind, codec, declared) + body,
        ) == Err::<Seq<u8>, EnvelopeFailure>(EnvelopeFailure::SizeMismatch),
        payload.len() == declared as nat ==> unwrapped(
            kind,
            header_bytes(kind, codec, declared) + body,
        ) == Ok::<Seq<u8>, EnvelopeFailure>(payload),
{
    lemma_framed_fields(kind, codec, declared, body);
    lemma_tags_round_trip(kind, codec, 0);
}

/// Reading never gives wrong data for a framed envelope: what comes back is
/// what the codec recovers from the bytes after the header, and it has the
/// declared length.
pub proof fn lemma_unwrapped_is_checked(kind: PayloadKind, data: Seq<u8>, out: Seq<u8>)
    requires
        is_framed(data),
        unwrapped(kind, data) == Ok::<Seq<u8>, EnvelopeFailure>(out),
    ensures
        PayloadKind::of_tag(data[4]) == Some(kind),
        out.len() == declared_len(data) as nat,
        exists|codec: CompressionCodec|
            CompressionCodec::of_tag(data[5]) == Some(codec) && decompressed(
                codec,
                payload_of(data),
            ) == Some(out),
{
    let header = header_of(kind, data).unwrap();
    assert(CompressionCodec::of_tag(data[5]) == Some(header.codec));
}

} // verus!
