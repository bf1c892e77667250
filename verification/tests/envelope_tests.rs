//! The envelope format, with and without compression.

use embeddenator_io::envelope::{
    has_long_ff_run, unwrap_auto, wrap_or_legacy, BinaryWriteOptions, CompressionCodec,
    EnvelopeError, EnvelopeFailure, PayloadKind, LZ4_RUN_LIMIT,
};

#[test]
fn test_legacy_unwrap() {
    let raw = b"hello world";
    let wrapped = wrap_or_legacy(
        PayloadKind::EngramBincode,
        BinaryWriteOptions::default(),
        raw,
    )
    .unwrap();

    // With no compression, should be identical
    assert_eq!(wrapped, raw);

    let unwrapped = unwrap_auto(PayloadKind::EngramBincode, &wrapped).unwrap();
    assert_eq!(unwrapped, raw);
}

#[test]
fn test_envelope_header() {
    let raw = b"test payload";

    let opts = BinaryWriteOptions {
        codec: CompressionCodec::Zstd,
        level: Some(3),
    };
    let wrapped = wrap_or_legacy(PayloadKind::EngramBincode, opts, raw).unwrap();

    // Check magic number
    assert_eq!(&wrapped[0..4], b"EDN1");
    assert_eq!(wrapped[4], PayloadKind::EngramBincode.to_u8());
    assert_eq!(wrapped[4], 1);
    assert_eq!(wrapped[5], CompressionCodec::Zstd.to_u8());
    assert_eq!(wrapped[5], 1);

    let unwrapped = unwrap_auto(PayloadKind::EngramBincode, &wrapped).unwrap();
    assert_eq!(unwrapped, raw);
}

#[test]
fn test_roundtrip_no_compression() {
    let data = b"this is test data without compression";

    let opts = BinaryWriteOptions {
        codec: CompressionCodec::Uncompressed,
        level: None,
    };

    let wrapped = wrap_or_legacy(PayloadKind::SubEngramBincode, opts, data).unwrap();
    let unwrapped = unwrap_auto(PayloadKind::SubEngramBincode, &wrapped).unwrap();

    assert_eq!(unwrapped, data);
}

#[test]
fn test_zstd_compression() {
    let data = b"zstd compression test data that should compress well: ".repeat(20);

    let opts = BinaryWriteOptions {
        codec: CompressionCodec::Zstd,
        level: Some(10),
    };

    let wrapped = wrap_or_legacy(PayloadKind::EngramBincode, opts, &data).unwrap();

    // Wrapped should be smaller than original for repetitive data
    assert!(wrapped.len() < data.len(), "Compression should reduce size");

    let unwrapped = unwrap_auto(PayloadKind::EngramBincode, &wrapped).unwrap();
    assert_eq!(unwrapped, data);
}

#[test]
fn test_lz4_compression() {
    let data = b"lz4 compression test data: ".repeat(30);

    let opts = BinaryWriteOptions {
        codec: CompressionCodec::Lz4,
        level: None,
    };

    let wrapped = wrap_or_legacy(PayloadKind::SubEngramBincode, opts, &data).unwrap();

    // Check LZ4 compressed size
    assert!(wrapped.len() < data.len());

    let unwrapped = unwrap_auto(PayloadKind::SubEngramBincode, &wrapped).unwrap();
    assert_eq!(unwrapped, data);
}

#[test]
fn test_payload_kind_mismatch() {
    let data = b"test data";

    let opts = BinaryWriteOptions {
        codec: CompressionCodec::Zstd,
        level: Some(3),
    };

    let wrapped = wrap_or_legacy(PayloadKind::EngramBincode, opts, data).unwrap();

    // Try to unwrap with wrong kind - should error
    let result = unwrap_auto(PayloadKind::SubEngramBincode, &wrapped);
    assert!(result.is_err(), "Should error on payload kind mismatch");
    assert_eq!(result, Err(EnvelopeError::UnexpectedPayloadKind));
}

#[test]
fn test_large_payload() {
    let data = vec![0xAB; 10_000_000]; // 10 MB

    let opts = BinaryWriteOptions {
        codec: CompressionCodec::Zstd,
        level: Some(3),
    };

    let wrapped = wrap_or_legacy(PayloadKind::EngramBincode, opts, &data).unwrap();

    // Highly compressible data (all same byte)
    assert!(
        wrapped.len() < data.len() / 100,
        "Should achieve >99% compression"
    );

    let unwrapped = unwrap_auto(PayloadKind::EngramBincode, &wrapped).unwrap();
    assert_eq!(unwrapped.len(), data.len());
    assert_eq!(unwrapped, data);
}

#[test]
fn test_zstd_levels() {
    let data = b"compression level test".repeat(100);

    for level in [-7, 0, 3, 10, 19] {
        let opts = BinaryWriteOptions {
            codec: CompressionCodec::Zstd,
            level: Some(level),
        };

        let wrapped = wrap_or_legacy(PayloadKind::EngramBincode, opts, &data).unwrap();
        let unwrapped = unwrap_auto(PayloadKind::EngramBincode, &wrapped).unwrap();

        assert_eq!(unwrapped, data, "Level {} should roundtrip", level);
    }
}

#[test]
fn test_empty_payload() {
    let data = b"";

    let opts = BinaryWriteOptions::default();
    let wrapped = wrap_or_legacy(PayloadKind::EngramBincode, opts, data).unwrap();
    let unwrapped = unwrap_auto(PayloadKind::EngramBincode, &wrapped).unwrap();

    assert_eq!(unwrapped, data);
}

#[test]
fn test_binary_data() {
    let data: Vec<u8> = (0..=255).cycle().take(10_000).collect();

    let opts = BinaryWriteOptions {
        codec: CompressionCodec::Lz4,
        level: None,
    };

    let wrapped = wrap_or_legacy(PayloadKind::SubEngramBincode, opts, &data).unwrap();
    let unwrapped = unwrap_auto(PayloadKind::SubEngramBincode, &wrapped).unwrap();

    assert_eq!(unwrapped, data);
}

#[test]
fn test_codec_comparison() {
    let data = b"codec comparison test data with some repetition ".repeat(100);

    let zstd_opts = BinaryWriteOptions {
        codec: CompressionCodec::Zstd,
        level: Some(3),
    };

    let lz4_opts = BinaryWriteOptions {
        codec: CompressionCodec::Lz4,
        level: None,
    };

    let zstd_wrapped = wrap_or_legacy(PayloadKind::EngramBincode, zstd_opts, &data).unwrap();
    let lz4_wrapped = wrap_or_legacy(PayloadKind::EngramBincode, lz4_opts, &data).unwrap();

    println!("Original: {} bytes", data.len());
    println!("Zstd: {} bytes", zstd_wrapped.len());
    println!("LZ4: {} bytes", lz4_wrapped.len());

    // Both should compress
    assert!(zstd_wrapped.len() < data.len());
    assert!(lz4_wrapped.len() < data.len());

    // Verify both roundtrip
    let zstd_unwrapped = unwrap_auto(PayloadKind::EngramBincode, &zstd_wrapped).unwrap();
    let lz4_unwrapped = unwrap_auto(PayloadKind::EngramBincode, &lz4_wrapped).unwrap();

    assert_eq!(zstd_unwrapped, data);
    assert_eq!(lz4_unwrapped, data);
}

#[test]
fn test_uncompressed_envelope_has_no_header() {
    let raw = b"hello world";
    let wrapped = wrap_or_legacy(
        PayloadKind::EngramBincode,
        BinaryWriteOptions::default(),
        raw,
    )
    .unwrap();
    assert_eq!(wrapped, raw);
    assert_ne!(&wrapped[0..4], b"EDN1");

    // The level is ignored when nothing is compressed.
    let opts = BinaryWriteOptions {
        codec: CompressionCodec::Uncompressed,
        level: Some(19),
    };
    assert_eq!(wrap_or_legacy(PayloadKind::SubEngramBincode, opts, raw).unwrap(), raw);
}

#[test]
fn test_repeated_phrase_with_block_codec() {
    let phrase = b"the quick brown fox jumps over the lazy dog 0123";
    assert_eq!(phrase.len(), 48);
    let raw = phrase.repeat(2000);

    let opts = BinaryWriteOptions {
        codec: CompressionCodec::Zstd,
        level: Some(10),
    };
    let wrapped = wrap_or_legacy(PayloadKind::EngramBincode, opts, &raw).unwrap();

    assert!(wrapped.len() < raw.len());
    assert_eq!(&wrapped[0..4], b"EDN1");
    assert_eq!(wrapped[4], PayloadKind::EngramBincode.to_u8());
    assert_eq!(wrapped[5], CompressionCodec::Zstd.to_u8());
    assert_eq!(&wrapped[6..8], &[0u8, 0u8]);
    assert_eq!(&wrapped[8..16], &(raw.len() as u64).to_le_bytes());
    assert_eq!(unwrap_auto(PayloadKind::EngramBincode, &wrapped).unwrap(), raw);
}

#[test]
fn test_header_layout_with_frame_codec() {
    let raw = b"abcabcabcabcabcabcabcabcabcabc";
    let opts = BinaryWriteOptions {
        codec: CompressionCodec::Lz4,
        level: None,
    };
    let wrapped = wrap_or_legacy(PayloadKind::SubEngramBincode, opts, raw).unwrap();
    assert_eq!(&wrapped[0..4], b"EDN1");
    assert_eq!(wrapped[4], 2);
    assert_eq!(wrapped[5], 2);
    assert_eq!(&wrapped[6..8], &[0u8, 0u8]);
    assert_eq!(&wrapped[8..16], &[30u8, 0, 0, 0, 0, 0, 0, 0]);
    assert_eq!(&wrapped[16..], lz4_flex::compress_prepend_size(raw).as_slice());
}

#[test]
fn test_tags() {
    assert_eq!(PayloadKind::EngramBincode.to_u8(), 1);
    assert_eq!(PayloadKind::SubEngramBincode.to_u8(), 2);
    assert_eq!(PayloadKind::from_u8(1), Some(PayloadKind::EngramBincode));
    assert_eq!(PayloadKind::from_u8(2), Some(PayloadKind::SubEngramBincode));
    assert_eq!(PayloadKind::from_u8(0), None);
    assert_eq!(PayloadKind::from_u8(3), None);
    assert_eq!(CompressionCodec::Uncompressed.to_u8(), 0);
    assert_eq!(CompressionCodec::Zstd.to_u8(), 1);
    assert_eq!(CompressionCodec::Lz4.to_u8(), 2);
    assert_eq!(CompressionCodec::from_u8(0), Some(CompressionCodec::Uncompressed));
    assert_eq!(CompressionCodec::from_u8(1), Some(CompressionCodec::Zstd));
    assert_eq!(CompressionCodec::from_u8(2), Some(CompressionCodec::Lz4));
    assert_eq!(CompressionCodec::from_u8(3), None);
    assert_eq!(CompressionCodec::from_u8(255), None);
}

fn framed(kind: u8, codec: u8, declared: u64, payload: &[u8]) -> Vec<u8> {
    let mut data = b"EDN1".to_vec();
    data.push(kind);
    data.push(codec);
    data.extend_from_slice(&[0, 0]);
    data.extend_from_slice(&declared.to_le_bytes());
    data.extend_from_slice(payload);
    data
}

#[test]
fn test_framed_without_codec_is_unwrapped() {
    let data = framed(1, 0, 5, b"hello");
    assert_eq!(unwrap_auto(PayloadKind::EngramBincode, &data), Ok(b"hello".to_vec()));
    let empty = framed(2, 0, 0, b"");
    assert_eq!(empty.len(), 16);
    assert_eq!(unwrap_auto(PayloadKind::SubEngramBincode, &empty), Ok(Vec::new()));
}

#[test]
fn test_header_errors_in_wire_order() {
    assert_eq!(
        unwrap_auto(PayloadKind::EngramBincode, &framed(9, 0, 5, b"hello")),
        Err(EnvelopeError::UnknownPayloadKind)
    );
    assert_eq!(
        unwrap_auto(PayloadKind::EngramBincode, &framed(0, 7, 5, b"hello")),
        Err(EnvelopeError::UnknownPayloadKind)
    );
    assert_eq!(
        unwrap_auto(PayloadKind::EngramBincode, &framed(2, 0, 5, b"hello")),
        Err(EnvelopeError::UnexpectedPayloadKind)
    );
    // A wrong kind is reported before an unknown codec.
    assert_eq!(
        unwrap_auto(PayloadKind::EngramBincode, &framed(2, 7, 5, b"hello")),
        Err(EnvelopeError::UnexpectedPayloadKind)
    );
    assert_eq!(
        unwrap_auto(PayloadKind::EngramBincode, &framed(1, 7, 5, b"hello")),
        Err(EnvelopeError::UnknownCodec)
    );
    assert!(matches!(
        unwrap_auto(PayloadKind::EngramBincode, &framed(1, 1, 5, b"not zstd")),
        Err(EnvelopeError::Decompression(_))
    ));
    assert!(matches!(
        unwrap_auto(PayloadKind::EngramBincode, &framed(1, 2, 5, b"\xff")),
        Err(EnvelopeError::Decompression(_))
    ));
}

#[test]
fn test_size_mismatch_is_detected() {
    assert_eq!(
        unwrap_auto(PayloadKind::EngramBincode, &framed(1, 0, 4, b"hello")),
        Err(EnvelopeError::SizeMismatch)
    );
    assert_eq!(
        unwrap_auto(PayloadKind::EngramBincode, &framed(1, 0, 1 << 40, b"hello")),
        Err(EnvelopeError::SizeMismatch)
    );

    let raw = b"size mismatch detection ".repeat(50);
    for codec in [CompressionCodec::Zstd, CompressionCodec::Lz4] {
        let opts = BinaryWriteOptions { codec, level: None };
        let mut wrapped = wrap_or_legacy(PayloadKind::EngramBincode, opts, &raw).unwrap();
        assert_eq!(&wrapped[8..16], &(raw.len() as u64).to_le_bytes());
        wrapped[8..16].copy_from_slice(&(raw.len() as u64 + 1).to_le_bytes());
        assert_eq!(
            unwrap_auto(PayloadKind::EngramBincode, &wrapped),
            Err(EnvelopeError::SizeMismatch)
        );
        wrapped[8..16].copy_from_slice(&0u64.to_le_bytes());
        assert_eq!(
            unwrap_auto(PayloadKind::EngramBincode, &wrapped),
            Err(EnvelopeError::SizeMismatch)
        );
    }
}

#[test]
fn test_legacy_passthrough() {
    // Shorter than a header, even when it opens with the magic.
    let short = b"EDN1\x01\x00\x00\x00abcdefg";
    assert_eq!(short.len(), 15);
    assert_eq!(unwrap_auto(PayloadKind::EngramBincode, short), Ok(short.to_vec()));
    assert_eq!(unwrap_auto(PayloadKind::SubEngramBincode, b"EDN"), Ok(b"EDN".to_vec()));
    // Long enough, but the magic is off by one byte.
    let long = b"EDN2\x09\x09\x00\x00\x00\x00\x00\x00\x00\x00\x00\x00tail";
    assert_eq!(unwrap_auto(PayloadKind::EngramBincode, long), Ok(long.to_vec()));
}

#[test]
fn test_payload_shaped_like_an_envelope_is_read_as_one() {
    // Written without a codec, such a payload does not come back as it was.
    let raw = framed(1, 0, 3, b"abc");
    let wrapped = wrap_or_legacy(PayloadKind::EngramBincode, BinaryWriteOptions::default(), &raw)
        .unwrap();
    assert_eq!(wrapped, raw);
    assert_eq!(unwrap_auto(PayloadKind::EngramBincode, &wrapped), Ok(b"abc".to_vec()));
    // Written with one, it does.
    let opts = BinaryWriteOptions { codec: CompressionCodec::Zstd, level: None };
    let wrapped = wrap_or_legacy(PayloadKind::EngramBincode, opts, &raw).unwrap();
    assert_eq!(unwrap_auto(PayloadKind::EngramBincode, &wrapped), Ok(raw));
}

#[test]
fn test_error_messages() {
    assert_eq!(EnvelopeError::UnknownPayloadKind.message(), "unknown envelope payload kind");
    assert_eq!(EnvelopeError::UnexpectedPayloadKind.message(), "unexpected envelope payload kind");
    assert_eq!(EnvelopeError::UnknownCodec.message(), "unknown envelope compression codec");
    assert_eq!(EnvelopeError::SizeMismatch.message(), "envelope size mismatch");
}

#[test]
fn test_overlong_run_in_a_block_is_refused() {
    assert_eq!(LZ4_RUN_LIMIT, 16_843_009);
    assert!(!has_long_ff_run(b"", 1));
    assert!(has_long_ff_run(b"\xff", 1));
    assert!(!has_long_ff_run(b"\xfe", 1));
    assert!(has_long_ff_run(b"a\xff\xff\xffb", 3));
    assert!(!has_long_ff_run(b"a\xff\xff\x00\xff\xffb", 3));
    assert!(has_long_ff_run(b"a\xff\xff\x00\xff\xff\xff", 3));
    assert!(!has_long_ff_run(b"\xff\xff", 3));

    // A length field that would run past thirty-two bits.
    let mut block = vec![0u8, 0, 0, 1, 0xF0];
    block.extend(std::iter::repeat(0xFFu8).take(16_843_010));
    let data = framed(1, 2, 1 << 24, &block);
    assert!(matches!(
        unwrap_auto(PayloadKind::EngramBincode, &data),
        Err(EnvelopeError::Decompression(_))
    ));

    // One byte short of the limit is handed to the codec, which refuses it.
    let mut block = vec![0u8, 0, 0, 1, 0xF0];
    block.extend(std::iter::repeat(0xFFu8).take(16_843_008));
    let data = framed(1, 2, 1 << 24, &block);
    assert!(matches!(
        unwrap_auto(PayloadKind::EngramBincode, &data),
        Err(EnvelopeError::Decompression(_))
    ));
}

#[test]
fn test_codec_errors_keep_their_text() {
    let source = std::io::Cursor::new(b"not zstd".to_vec());
    let expected = zstd::stream::decode_all(source).unwrap_err().to_string();
    let error = unwrap_auto(PayloadKind::EngramBincode, &framed(1, 1, 5, b"not zstd")).unwrap_err();
    assert_eq!(error, EnvelopeError::Decompression(expected.clone()));
    assert_eq!(error.message(), expected);
    assert_eq!(error.kind(), EnvelopeFailure::Decompression);

    let expected = lz4_flex::decompress_size_prepended(b"\xff").unwrap_err().to_string();
    let error = unwrap_auto(PayloadKind::EngramBincode, &framed(1, 2, 5, b"\xff")).unwrap_err();
    assert_eq!(error, EnvelopeError::Decompression(expected));

    assert_eq!(EnvelopeError::SizeMismatch.kind(), EnvelopeFailure::SizeMismatch);
    assert_eq!(EnvelopeError::UnknownCodec.kind(), EnvelopeFailure::UnknownCodec);
    assert_eq!(
        EnvelopeError::Compression("out of memory".to_string()).kind(),
        EnvelopeFailure::Compression
    );
    assert_eq!(EnvelopeError::Compression("out of memory".to_string()).message(), "out of memory");
}
