//! Streaming compression and decompression with every codec.

use embeddenator_io::{
    stream_compress, stream_decompress, CompressionCodec, CompressionLevel, MemoryReader,
    StreamCompressor, StreamDecompressor, StreamError,
};

#[test]
fn test_passthrough_compressor() {
    let data = b"Hello, streaming compression!";
    let output = Vec::new();

    let mut compressor = StreamCompressor::none(output);
    compressor.write_all(data).unwrap();
    let output = compressor.finish().unwrap();

    assert_eq!(output, data);
}

#[test]
fn test_passthrough_decompressor() {
    let data = b"Hello, streaming decompression!";
    let cursor = MemoryReader::new(data.to_vec());

    let mut decompressor = StreamDecompressor::none(cursor);
    let mut output = Vec::new();
    decompressor.read_to_end(&mut output).unwrap();

    assert_eq!(output, data);
}

#[test]
fn test_stream_compress_decompress_none() {
    let data = b"Test data for streaming compression roundtrip";
    let input = MemoryReader::new(data.to_vec());
    let mut compressed = Vec::new();

    stream_compress(
        input,
        &mut compressed,
        CompressionCodec::Uncompressed,
        CompressionLevel::Default,
        1024,
    )
    .unwrap();

    let compressed_reader = MemoryReader::new(compressed);
    let mut decompressed = Vec::new();

    stream_decompress(
        compressed_reader,
        &mut decompressed,
        CompressionCodec::Uncompressed,
        1024,
    )
    .unwrap();

    assert_eq!(decompressed, data);
}

#[test]
fn test_zstd_streaming_roundtrip() {
    let data = b"Hello, zstd streaming compression! This is a test of streaming compression with zstd.";
    let input = MemoryReader::new(data.to_vec());
    let mut compressed = Vec::new();

    // Compress
    stream_compress(
        input,
        &mut compressed,
        CompressionCodec::Zstd,
        CompressionLevel::Default,
        1024,
    )
    .unwrap();

    // Verify compression happened
    assert!(compressed.len() < data.len() || !compressed.is_empty());

    // Decompress
    let compressed_reader = MemoryReader::new(compressed);
    let mut decompressed = Vec::new();

    stream_decompress(
        compressed_reader,
        &mut decompressed,
        CompressionCodec::Zstd,
        1024,
    )
    .unwrap();

    assert_eq!(decompressed, data);
}

#[test]
fn test_zstd_large_data_streaming() {
    // Create 1MB of test data
    let data: Vec<u8> = (0..1024 * 1024).map(|i| (i % 256) as u8).collect();
    let input = MemoryReader::new(data.clone());
    let mut compressed = Vec::new();

    // Compress with small buffer to test chunking
    stream_compress(
        input,
        &mut compressed,
        CompressionCodec::Zstd,
        CompressionLevel::Fast,
        4096,
    )
    .unwrap();

    // Decompress
    let compressed_reader = MemoryReader::new(compressed);
    let mut decompressed = Vec::new();

    stream_decompress(
        compressed_reader,
        &mut decompressed,
        CompressionCodec::Zstd,
        4096,
    )
    .unwrap();

    assert_eq!(decompressed.len(), data.len());
    assert_eq!(decompressed, data);
}

#[test]
fn test_lz4_streaming_roundtrip() {
    let data = b"Hello, LZ4 streaming compression! This is a test of streaming compression with LZ4 frame format.";
    let input = MemoryReader::new(data.to_vec());
    let mut compressed = Vec::new();

    // Compress
    stream_compress(
        input,
        &mut compressed,
        CompressionCodec::Lz4,
        CompressionLevel::Default,
        1024,
    )
    .unwrap();

    // Verify compression produced output
    assert!(!compressed.is_empty());

    // Decompress
    let compressed_reader = MemoryReader::new(compressed);
    let mut decompressed = Vec::new();

    stream_decompress(
        compressed_reader,
        &mut decompressed,
        CompressionCodec::Lz4,
        1024,
    )
    .unwrap();

    assert_eq!(decompressed, data);
}

#[test]
fn test_compression_level_conversion() {
    assert_eq!(CompressionLevel::Fast.to_zstd_level(), 1);
    assert_eq!(CompressionLevel::Default.to_zstd_level(), 3);
    assert_eq!(CompressionLevel::Best.to_zstd_level(), 19);
    assert_eq!(CompressionLevel::Custom(10).to_zstd_level(), 10);

    assert_eq!(CompressionLevel::Fast.to_lz4_level(), 1);
    assert_eq!(CompressionLevel::Default.to_lz4_level(), 4);
    assert_eq!(CompressionLevel::Best.to_lz4_level(), 9);
}

#[test]
fn test_custom_lz4_level_is_clamped_at_zero() {
    assert_eq!(CompressionLevel::Custom(7).to_lz4_level(), 7);
    assert_eq!(CompressionLevel::Custom(0).to_lz4_level(), 0);
    assert_eq!(CompressionLevel::Custom(-3).to_lz4_level(), 0);
    assert_eq!(CompressionLevel::Custom(-3).to_zstd_level(), -3);
    assert!(matches!(CompressionLevel::default(), CompressionLevel::Default));
}

fn round_trip(codec: CompressionCodec, data: &[u8], chunk: usize) -> Vec<u8> {
    let mut compressed = Vec::new();
    let read = stream_compress(
        MemoryReader::new(data.to_vec()),
        &mut compressed,
        codec,
        CompressionLevel::Default,
        chunk,
    )
    .unwrap();
    assert_eq!(read, data.len() as u64);

    let mut out = Vec::new();
    let written = stream_decompress(MemoryReader::new(compressed), &mut out, codec, chunk).unwrap();
    assert_eq!(written, out.len() as u64);
    out
}

#[test]
fn test_streaming_equivalence_across_chunk_sizes() {
    let data: Vec<u8> = (0..20_000u32).map(|i| (i * 7 % 251) as u8).collect();
    for codec in [CompressionCodec::Uncompressed, CompressionCodec::Zstd, CompressionCodec::Lz4] {
        for chunk in [1usize, 8, 4096, 65536] {
            assert_eq!(round_trip(codec, &data, chunk), data);
        }
        assert_eq!(round_trip(codec, b"", 8), b"");
    }
}

#[test]
fn test_codecs_really_compress() {
    let data = vec![0x42u8; 100_000];
    for codec in [CompressionCodec::Zstd, CompressionCodec::Lz4] {
        let mut compressed = Vec::new();
        stream_compress(
            MemoryReader::new(data.clone()),
            &mut compressed,
            codec,
            CompressionLevel::Default,
            4096,
        )
        .unwrap();
        assert!(compressed.len() < data.len() / 10);
        assert_ne!(compressed, data);
    }
}

#[test]
fn test_stream_compress_appends_to_the_writer() {
    let mut sink = b"prefix".to_vec();
    let n = stream_compress(
        MemoryReader::new(b"payload".to_vec()),
        &mut sink,
        CompressionCodec::Uncompressed,
        CompressionLevel::Fast,
        3,
    )
    .unwrap();
    assert_eq!(n, 7);
    assert_eq!(sink, b"prefixpayload");
}

#[test]
fn test_zero_sized_buffer_moves_nothing() {
    let mut sink = Vec::new();
    let n = stream_compress(
        MemoryReader::new(b"payload".to_vec()),
        &mut sink,
        CompressionCodec::Uncompressed,
        CompressionLevel::Default,
        0,
    )
    .unwrap();
    assert_eq!(n, 0);
    assert!(sink.is_empty());

    let mut out = Vec::new();
    let m = stream_decompress(
        MemoryReader::new(b"payload".to_vec()),
        &mut out,
        CompressionCodec::Uncompressed,
        0,
    )
    .unwrap();
    assert_eq!(m, 0);
    assert!(out.is_empty());
}

#[test]
fn test_adapter_codec_selection() {
    let none = StreamCompressor::with_codec(
        Vec::new(),
        CompressionCodec::Uncompressed,
        CompressionLevel::Default,
    )
    .unwrap();
    assert_eq!(none.codec(), CompressionCodec::Uncompressed);

    let zstd = StreamCompressor::with_codec(Vec::new(), CompressionCodec::Zstd, CompressionLevel::Best)
        .unwrap();
    assert_eq!(zstd.codec(), CompressionCodec::Zstd);

    let lz4 = StreamCompressor::with_codec(Vec::new(), CompressionCodec::Lz4, CompressionLevel::Fast)
        .unwrap();
    assert_eq!(lz4.codec(), CompressionCodec::Lz4);

    for codec in [CompressionCodec::Uncompressed, CompressionCodec::Zstd, CompressionCodec::Lz4] {
        let d = StreamDecompressor::with_codec(MemoryReader::new(Vec::new()), codec).unwrap();
        assert_eq!(d.codec(), codec);
    }
}

#[test]
fn test_compressor_write_flush_finish() {
    for codec in [CompressionCodec::Uncompressed, CompressionCodec::Zstd, CompressionCodec::Lz4] {
        let mut c =
            StreamCompressor::with_codec(b"kept".to_vec(), codec, CompressionLevel::Default).unwrap();
        let first = c.write(b"one ").unwrap();
        assert_eq!(first, 4);
        c.flush().unwrap();
        c.write_all(b"two three").unwrap();
        let sink = c.finish().unwrap();
        assert_eq!(&sink[..4], b"kept");

        let mut d =
            StreamDecompressor::with_codec(MemoryReader::with_position(sink.clone(), 4), codec)
                .unwrap();
        let mut out = Vec::new();
        let n = d.read_to_end(&mut out).unwrap();
        assert_eq!(n, 13);
        assert_eq!(out, b"one two three");
        assert_eq!(d.into_inner().into_inner(), sink);
    }
}

#[test]
fn test_decompressor_read_in_small_steps() {
    let mut compressed = Vec::new();
    stream_compress(
        MemoryReader::new(b"abcdefghij".to_vec()),
        &mut compressed,
        CompressionCodec::Lz4,
        CompressionLevel::Default,
        4,
    )
    .unwrap();
    let mut d = StreamDecompressor::lz4(MemoryReader::new(compressed)).unwrap();
    let mut buf = vec![0u8; 4];
    let mut out = Vec::new();
    loop {
        let n = d.read(&mut buf).unwrap();
        if n == 0 {
            break;
        }
        out.extend_from_slice(&buf[..n]);
    }
    assert_eq!(out, b"abcdefghij");
    assert_eq!(d.read(&mut buf), Ok(0));
}

#[test]
fn test_corrupt_streams_are_refused() {
    for codec in [CompressionCodec::Zstd, CompressionCodec::Lz4] {
        let mut out = Vec::new();
        let result = stream_decompress(
            MemoryReader::new(b"this is not a compressed stream at all".to_vec()),
            &mut out,
            codec,
            16,
        );
        assert!(matches!(result, Err(StreamError::Codec(_))));
    }
}

fn compressed_with(codec: CompressionCodec, data: &[u8]) -> Vec<u8> {
    let mut out = Vec::new();
    stream_compress(
        MemoryReader::new(data.to_vec()),
        &mut out,
        codec,
        CompressionLevel::Default,
        4096,
    )
    .unwrap();
    out
}

#[test]
fn test_reads_after_the_end_give_nothing() {
    // Two LZ4 frames end to end: the stream ends with the first.
    let mut two = compressed_with(CompressionCodec::Lz4, b"first frame");
    two.extend_from_slice(&compressed_with(CompressionCodec::Lz4, b"second frame"));

    let mut d = StreamDecompressor::lz4(MemoryReader::new(two.clone())).unwrap();
    let mut buf = vec![0u8; 64];
    let mut out = Vec::new();
    loop {
        let n = d.read(&mut buf).unwrap();
        if n == 0 {
            break;
        }
        out.extend_from_slice(&buf[..n]);
    }
    assert_eq!(out, b"first frame");
    assert_eq!(d.read(&mut buf), Ok(0));
    assert_eq!(d.read(&mut buf), Ok(0));
    let mut more = Vec::new();
    assert_eq!(d.read_to_end(&mut more), Ok(0));
    assert!(more.is_empty());

    let mut all = Vec::new();
    assert_eq!(
        stream_decompress(MemoryReader::new(two), &mut all, CompressionCodec::Lz4, 7),
        Ok(11)
    );
    assert_eq!(all, b"first frame");

    for codec in [CompressionCodec::Uncompressed, CompressionCodec::Zstd] {
        let stream = compressed_with(codec, b"payload");
        let mut d = StreamDecompressor::with_codec(MemoryReader::new(stream), codec).unwrap();
        let mut out = Vec::new();
        assert_eq!(d.read_to_end(&mut out), Ok(7));
        assert_eq!(out, b"payload");
        assert_eq!(d.read(&mut buf), Ok(0));
        assert_eq!(d.read_to_end(&mut out), Ok(0));
        assert_eq!(out, b"payload");
    }
}

#[test]
fn test_reads_after_a_failure_fail() {
    for codec in [CompressionCodec::Zstd, CompressionCodec::Lz4] {
        let garbage = b"this is not a compressed stream at all".to_vec();
        let mut d = StreamDecompressor::with_codec(MemoryReader::new(garbage), codec).unwrap();
        let mut buf = vec![0u8; 16];
        let first = d.read(&mut buf).unwrap_err();
        assert!(matches!(first, StreamError::Codec(_)));
        // The codec's own account comes along, and stays the same.
        assert!(!first.message().is_empty());
        assert_eq!(d.read(&mut buf), Err(first.clone()));
        let mut out = Vec::new();
        assert_eq!(d.read_to_end(&mut out), Err(first));
        assert!(out.is_empty());
    }
}

#[test]
fn test_truncated_stream_fails_after_what_it_held() {
    let data: Vec<u8> = (0..50_000u32).map(|i| (i % 253) as u8).collect();
    let mut stream = compressed_with(CompressionCodec::Zstd, &data);
    stream.truncate(stream.len() - 5);
    let mut out = Vec::new();
    let result = stream_decompress(MemoryReader::new(stream), &mut out, CompressionCodec::Zstd, 512);
    assert!(matches!(result, Err(StreamError::Codec(_))));
    assert!(out.len() < data.len());
    assert_eq!(&data[..out.len()], out.as_slice());
}

#[test]
fn test_read_into_an_empty_buffer_reads_nothing() {
    for codec in [CompressionCodec::Uncompressed, CompressionCodec::Zstd, CompressionCodec::Lz4] {
        let stream = compressed_with(codec, b"still there");
        let mut d = StreamDecompressor::with_codec(MemoryReader::new(stream.clone()), codec).unwrap();
        let mut empty = Vec::new();
        for _ in 0..40 {
            assert_eq!(d.read(&mut empty), Ok(0));
        }
        let mut out = Vec::new();
        assert_eq!(d.read_to_end(&mut out), Ok(11));
        assert_eq!(out, b"still there");

        let mut none = Vec::new();
        assert_eq!(stream_decompress(MemoryReader::new(stream), &mut none, codec, 0), Ok(0));
        assert!(none.is_empty());
    }
}

#[test]
fn test_passthrough_gives_the_source_back_where_it_stands() {
    let untouched = StreamDecompressor::with_codec(
        MemoryReader::with_position(b"0123456789".to_vec(), 2),
        CompressionCodec::Uncompressed,
    )
    .unwrap();
    let back = untouched.into_inner();
    assert_eq!(back.position(), 2);
    assert_eq!(back.into_inner(), b"0123456789");

    let mut d = StreamDecompressor::none(MemoryReader::with_position(b"0123456789".to_vec(), 2));
    let mut buf = vec![0u8; 3];
    assert_eq!(d.read(&mut buf), Ok(3));
    assert_eq!(buf, b"234");
    let back = d.into_inner();
    assert_eq!(back.position(), 5);
    assert_eq!(back.remaining_len(), 5);
}

#[test]
fn test_stream_error_messages() {
    assert_eq!(StreamError::WriteZero.message(), "the codec accepted no bytes");
    assert_eq!(StreamError::Aborted.message(), "a callback stopped the stream");
    assert_eq!(StreamError::Codec("frame is corrupt".to_string()).message(), "frame is corrupt");

    let source = std::io::Cursor::new(b"this is not a compressed stream at all".to_vec());
    let expected = zstd::stream::decode_all(source).unwrap_err().to_string();
    let mut out = Vec::new();
    let result = stream_decompress(
        MemoryReader::new(b"this is not a compressed stream at all".to_vec()),
        &mut out,
        CompressionCodec::Zstd,
        64,
    );
    assert_eq!(result, Err(StreamError::Codec(expected)));
}
