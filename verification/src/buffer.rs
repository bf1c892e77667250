//! In-memory byte sources and chunked copying.

use vstd::prelude::*;
use vstd::slice::slice_subrange;
use crate::error::StreamError;

verus! {

/// Default chunk size for streaming operations (64 KiB).
pub const DEFAULT_BUFFER_SIZE: usize = 65536;

/// Chunk size for high-throughput operations (1 MiB).
pub const LARGE_BUFFER_SIZE: usize = 1048576;

/// Chunk size for memory-constrained use (4 KiB).
pub const SMALL_BUFFER_SIZE: usize = 4096;

/// Appends `src` to `out`.
pub fn extend_bytes(out: &mut Vec<u8>, src: &[u8])
    ensures
        final(out)@ == old(out)@ + src@,
        final(out)@.len() <= usize::MAX,
{
    let mut i: usize = 0;
    while i < src.len()
        invariant
            i <= src@.len(),
            out@ == old(out)@ + src@.subrange(0, i as int),
        decreases src@.len() - i,
    {
        out.push(src[i]);
        i = i + 1;
    }
    assert(src@.subrange(0, src@.len() as int) == src@);
    assert(out@.len() == out.len());
}

/// The smaller of two lengths.
pub open spec fn min_len(a: nat, b: nat) -> nat {
    if a < b {
        a
    } else {
        b
    }
}

/// A byte source held in memory: the bytes, and how many of them have been
/// read.
pub struct MemoryReader {
    data: Vec<u8>,
    pos: usize,
}

impl MemoryReader {
    #[verifier::type_invariant]
    spec fn in_bounds(self) -> bool {
        self.pos <= self.data@.len()
    }

    /// All the bytes of the source, read or not.
    pub closed spec fn bytes(self) -> Seq<u8> {
        self.data@
    }

    /// How many bytes have been read.
    pub closed spec fn offset(self) -> nat {
        self.pos as nat
    }

    /// The bytes that are still to be read.
    pub open spec fn remaining(self) -> Seq<u8> {
        self.bytes().skip(self.offset() as int)
    }

    /// A source over `data`, positioned at its start.
    pub fn new(data: Vec<u8>) -> (r: Self)
        ensures
            r.bytes() == data@,
            r.offset() == 0,
            r.remaining() == data@,
    {
        let r = MemoryReader { data, pos: 0 };
        assert(r.data@.skip(0) =~= r.data@);
        r
    }

    /// A source over `data` of which the first `pos` bytes count as read; a
    /// position past the end counts as the end.
    pub fn with_position(data: Vec<u8>, pos: usize) -> (r: Self)
        ensures
            r.bytes() == data@,
            r.offset() == min_len(pos as nat, data@.len()),
    {
        let p: usize = if pos < data.len() { pos } else { data.len() };
        MemoryReader { data, pos: p }
    }

    /// How many bytes have been read.
    pub fn position(&self) -> (p: usize)
        ensures
            p == self.offset(),
            p <= self.bytes().len(),
    {
        proof {
            use_type_invariant(self);
        }
        self.pos
    }

    /// The source's bytes, read or not.
    pub fn into_inner(self) -> (data: Vec<u8>)
        ensures
            data@ == self.bytes(),
    {
        self.data
    }

    /// How many bytes are still to be read.
    pub fn remaining_len(&self) -> (n: usize)
        ensures
            n == self.remaining().len(),
            self.offset() + n == self.bytes().len(),
    {
        proof {
            use_type_invariant(self);
        }
        self.data.len() - self.pos
    }

    /// Reads into the front of `buf` as many bytes as are left and fit, and
    /// returns their number. Zero means that the source is exhausted or that
    /// `buf` is empty. The rest of `buf` is left as it was.
    pub fn read(&mut self, buf: &mut Vec<u8>) -> (n: usize)
        ensures
            n == min_len(old(self).remaining().len(), old(buf)@.len()),
            final(buf)@ == old(self).remaining().take(n as int) + old(buf)@.skip(n as int),
            final(self).bytes() == old(self).bytes(),
            final(self).offset() == old(self).offset() + n,
            final(self).remaining() == old(self).remaining().skip(n as int),
            final(self).offset() <= final(self).bytes().len(),
    {
        proof {
            use_type_invariant(&*self);
        }
        let left: usize = self.data.len() - self.pos;
        let n: usize = if left < buf.len() { left } else { buf.len() };
        let start: usize = self.pos;
        let mut i: usize = 0;
        while i < n
            invariant
                i <= n,
                n <= buf@.len(),
                start + n <= self.data@.len() <= usize::MAX,
                self.pos == start,
                self.data@ == old(self).data@,
                buf@.len() == old(buf)@.len(),
                buf@ == self.data@.subrange(start as int, start + i) + old(buf)@.skip(i as int),
            decreases n - i,
        {
            buf[i] = self.data[start + i];
            i = i + 1;
            assert(buf@ =~= self.data@.subrange(start as int, start + i) + old(buf)@.skip(
                i as int,
            ));
        }
        self.pos = start + n;
        assert(old(self).remaining().take(n as int) =~= self.data@.subrange(
            start as int,
            start + n,
        ));
        assert(self.data@.skip(start + n) =~= old(self).remaining().skip(n as int));
        n
    }
}

/// The pieces in which `data` is handed out when it is read `size` bytes at a
/// time: every piece but the last is full, and none is empty.
pub open spec fn chunks(data: Seq<u8>, size: nat) -> Seq<Seq<u8>>
    decreases data.len(),
{
    if size == 0 || data.len() == 0 {
        Seq::<Seq<u8>>::empty()
    } else {
        let n = min_len(data.len(), size);
        seq![data.take(n as int)] + chunks(data.skip(n as int), size)
    }
}

/// The pieces of a source, put end to end, are the source.
pub proof fn lemma_chunks_cover(data: Seq<u8>, size: nat)
    requires
        size > 0,
    ensures
        chunks(data, size).flatten() == data,
        forall|i: int|
            0 <= i < chunks(data, size).len() ==> 0 < (#[trigger] chunks(data, size)[i]).len()
                <= size,
    decreases data.len(),
{
    if data.len() == 0 {
        assert(chunks(data, size).flatten() =~= data);
    } else {
        let n = min_len(data.len(), size);
        let head = data.take(n as int);
        let rest = chunks(data.skip(n as int), size);
        lemma_chunks_cover(data.skip(n as int), size);
        assert(chunks(data, size) =~= seq![head] + rest);
        assert((seq![head] + rest).drop_first() =~= rest);
        assert((seq![head] + rest).flatten() =~= head + rest.flatten());
        assert(head + data.skip(n as int) =~= data);
        assert forall|i: int| 0 <= i < chunks(data, size).len() implies 0 < (#[trigger] chunks(
            data,
            size,
        )[i]).len() <= size by {
            if i > 0 {
                assert(chunks(data, size)[i] == rest[i - 1]);
            }
        }
    }
}

/// Copies what is left of `reader` to the end of `writer`, `buffer_size`
/// bytes at a time, and returns the number of bytes copied. With a buffer of
/// no bytes nothing can be read, so nothing is copied.
pub fn copy_buffered(reader: &mut MemoryReader, writer: &mut Vec<u8>, buffer_size: usize) -> (r:
    Result<u64, StreamError>)
    ensures
        final(reader).bytes() == old(reader).bytes(),
        buffer_size == 0 ==> r == Ok::<u64, StreamError>(0) && final(writer)@ == old(writer)@
            && final(reader).offset() == old(reader).offset(),
        buffer_size > 0 ==> r == Ok::<u64, StreamError>(old(reader).remaining().len() as u64)
            && final(writer)@ == old(writer)@ + old(reader).remaining()
            && final(reader).remaining().len() == 0,
{
    let mut buffer: Vec<u8> = vec![0u8; buffer_size];
    let mut total: u64 = 0;
    let ghost source = reader.remaining();
    let available = reader.remaining_len();
    proof {
        assert(source.take(0) =~= Seq::<u8>::empty());
        assert(old(writer)@ + Seq::<u8>::empty() =~= old(writer)@);
        assert(source.skip(0) =~= source);
    }
    loop
        invariant
            buffer@.len() == buffer_size,
            reader.bytes() == old(reader).bytes(),
            source == old(reader).remaining(),
            source.len() == available,
            total <= available,
            reader.offset() == old(reader).offset() + total,
            reader.remaining() == source.skip(total as int),
            writer@ == old(writer)@ + source.take(total as int),
            buffer_size == 0 ==> total == 0,
        ensures
            buffer_size > 0 ==> total == available,
        decreases available - total,
    {
        let n = reader.read(&mut buffer);
        if n == 0 {
            break ;
        }
        extend_bytes(writer, slice_subrange(buffer.as_slice(), 0, n));
        proof {
            let before = source.skip(total as int);
            assert(buffer@.subrange(0, n as int) =~= before.take(n as int));
            assert(source.take(total as int) + before.take(n as int) =~= source.take(total + n));
            assert(before.skip(n as int) =~= source.skip(total + n));
        }
        total = total + n as u64;
    }
    proof {
        if buffer_size > 0 {
            assert(source.take(total as int) =~= source);
            assert(reader.remaining().len() == 0);
        } else {
            assert(source.take(0) =~= Seq::<u8>::empty());
            assert(old(writer)@ + Seq::<u8>::empty() =~= old(writer)@);
        }
    }
    Ok(total)
}

/// Whether `f`, called on a slice that holds `chunk`, may return `out`.
pub open spec fn answers<T, F: Fn(&[u8]) -> Result<T, StreamError>>(
    f: F,
    chunk: Seq<u8>,
    out: Result<T, StreamError>,
) -> bool {
    exists|s: &[u8]| s@ == chunk && #[trigger] f.ensures((s,), out)
}

/// Whether `f` may return `results`, one after the other, for the first
/// `results.len()` of `pieces`.
pub open spec fn answers_each<T, F: Fn(&[u8]) -> Result<T, StreamError>>(
    f: F,
    pieces: Seq<Seq<u8>>,
    results: Seq<T>,
) -> bool {
    &&& results.len() <= pieces.len()
    &&& forall|i: int|
        0 <= i < results.len() ==> answers(f, pieces[i], Ok::<T, StreamError>(#[trigger] results[i]))
}

/// A source that is read one chunk at a time.
pub struct ChunkStream {
    reader: MemoryReader,
    chunk_size: usize,
}

impl ChunkStream {
    /// The bytes that are still to be handed out.
    pub closed spec fn remaining(self) -> Seq<u8> {
        self.reader.remaining()
    }

    /// The largest number of bytes in one chunk.
    pub closed spec fn chunk_len(self) -> nat {
        self.chunk_size as nat
    }

    /// A stream over `reader` with chunks of the default size.
    pub fn new(reader: MemoryReader) -> (r: Self)
        ensures
            r.remaining() == reader.remaining(),
            r.chunk_len() == DEFAULT_BUFFER_SIZE,
    {
        Self::with_chunk_size(reader, DEFAULT_BUFFER_SIZE)
    }

    /// A stream over `reader` with chunks of at most `chunk_size` bytes.
    pub fn with_chunk_size(reader: MemoryReader, chunk_size: usize) -> (r: Self)
        ensures
            r.remaining() == reader.remaining(),
            r.chunk_len() == chunk_size,
    {
        ChunkStream { reader, chunk_size }
    }

    /// Hands out the next chunk: the first of the pieces that are left, or
    /// nothing when none is left.
    pub fn next_chunk(&mut self) -> (r: Result<Option<Vec<u8>>, StreamError>)
        ensures
            final(self).chunk_len() == old(self).chunk_len(),
            ({
                let pieces = chunks(old(self).remaining(), old(self).chunk_len());
                if pieces.len() == 0 {
                    &&& r == Ok::<Option<Vec<u8>>, StreamError>(None)
                    &&& final(self).remaining() == old(self).remaining()
                } else {
                    &&& r matches Ok(Some(chunk))
                    &&& chunk@ == pieces[0]
                    &&& final(self).remaining() == old(self).remaining().skip(
                        pieces[0].len() as int,
                    )
                    &&& chunks(final(self).remaining(), final(self).chunk_len())
                        == pieces.drop_first()
                }
            }),
    {
        let mut buffer: Vec<u8> = vec![0u8; self.chunk_size];
        let ghost before = self.reader.remaining();
        let n = self.reader.read(&mut buffer);
        if n == 0 {
            assert(self.reader.remaining() =~= before);
            return Ok(None);
        }
        buffer.truncate(n);
        proof {
            let pieces = chunks(before, self.chunk_size as nat);
            assert(buffer@ =~= before.take(n as int));
            assert(pieces =~= seq![before.take(n as int)] + chunks(
                before.skip(n as int),
                self.chunk_size as nat,
            ));
            assert(pieces.drop_first() =~= chunks(before.skip(n as int), self.chunk_size as nat));
        }
        Ok(Some(buffer))
    }

    /// Hands every remaining chunk to `callback`, in order, and stops at the
    /// first one that it refuses, passing its error on.
    pub fn process_all<F: Fn(&[u8]) -> Result<(), StreamError>>(&mut self, callback: F) -> (r:
        Result<(), StreamError>)
        requires
            forall|s: &[u8]| callback.requires((s,)),
        ensures
            final(self).chunk_len() == old(self).chunk_len(),
            ({
                let pieces = chunks(old(self).remaining(), old(self).chunk_len());
                match r {
                    Ok(u) => {
                        &&& forall|i: int|
                            0 <= i < pieces.len() ==> answers(
                                callback,
                                #[trigger] pieces[i],
                                Ok::<(), StreamError>(()),
                            )
                        &&& chunks(final(self).remaining(), final(self).chunk_len()).len() == 0
                    },
                    Err(e) => exists|k: int|
                        {
                            &&& 0 <= k < pieces.len()
                            &&& answers(callback, #[trigger] pieces[k], Err::<(), StreamError>(e))
                            &&& forall|j: int|
                                0 <= j < k ==> answers(
                                    callback,
                                    #[trigger] pieces[j],
                                    Ok::<(), StreamError>(()),
                                )
                            &&& chunks(final(self).remaining(), final(self).chunk_len())
                                == pieces.skip(k + 1)
                        },
                }
            }),
    {
        let mut buffer: Vec<u8> = vec![0u8; self.chunk_size];
        let ghost pieces = chunks(self.reader.remaining(), self.chunk_size as nat);
        let ghost mut done: int = 0;
        loop
            invariant
                buffer@.len() == self.chunk_size == old(self).chunk_size,
                forall|s: &[u8]| callback.requires((s,)),
                pieces == chunks(old(self).remaining(), old(self).chunk_len()),
                0 <= done <= pieces.len(),
                chunks(self.reader.remaining(), self.chunk_size as nat) == pieces.skip(done),
                forall|j: int|
                    0 <= j < done ==> answers(
                        callback,
                        #[trigger] pieces[j],
                        Ok::<(), StreamError>(()),
                    ),
            decreases pieces.len() - done,
        {
            let ghost before = self.reader.remaining();
            let n = self.reader.read(&mut buffer);
            if n == 0 {
                proof {
                    assert(self.reader.remaining() =~= before);
                    assert(pieces.skip(done).len() == 0);
                }
                return Ok(());
            }
            let chunk = slice_subrange(buffer.as_slice(), 0, n);
            proof {
                assert(chunk@ =~= before.take(n as int));
                assert(chunks(before, self.chunk_size as nat) =~= seq![before.take(n as int)]
                    + chunks(before.skip(n as int), self.chunk_size as nat));
                assert(pieces.skip(done)[0] == pieces[done]);
                assert(pieces[done] == chunk@);
                assert(pieces.skip(done).drop_first() =~= pieces.skip(done + 1));
                assert(chunks(before.skip(n as int), self.chunk_size as nat) =~= pieces.skip(
                    done,
                ).drop_first());
            }
            match callback(chunk) {
                Ok(u) => {
                    proof {
                        assert(u == ());
                        assert(answers(callback, pieces[done], Ok::<(), StreamError>(())));
                        done = done + 1;
                    }
                },
                Err(e) => {
                    proof {
                        assert(answers(callback, pieces[done], Err::<(), StreamError>(e)));
                    }
                    return Err(e);
                },
            }
        }
    }
}

} // verus!
