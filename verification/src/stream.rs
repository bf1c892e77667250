//! Chunked reading from a source and buffered writing to a sink.

use vstd::prelude::*;
use vstd::slice::slice_subrange;
use crate::buffer::{answers, answers_each, chunks, extend_bytes, MemoryReader};
use crate::buffer::DEFAULT_BUFFER_SIZE;
use crate::error::StreamError;

verus! {

/// Whether `f`, called on `acc` and a slice that holds `chunk`, may return
/// `out`.
pub open spec fn folds<T, F: Fn(T, &[u8]) -> Result<T, StreamError>>(
    f: F,
    acc: T,
    chunk: Seq<u8>,
    out: Result<T, StreamError>,
) -> bool {
    exists|s: &[u8]| s@ == chunk && #[trigger] f.ensures((acc, s), out)
}

/// Whether `accs` lists the accumulators of a fold of `f` over the first
/// `accs.len() - 1` of `pieces`, starting from `init`.
pub open spec fn fold_trace<T, F: Fn(T, &[u8]) -> Result<T, StreamError>>(
    f: F,
    init: T,
    pieces: Seq<Seq<u8>>,
    accs: Seq<T>,
) -> bool {
    &&& 1 <= accs.len() <= pieces.len() + 1
    &&& accs[0] == init
    &&& forall|i: int|
        0 <= i < accs.len() - 1 ==> folds(f, accs[i], #[trigger] pieces[i], Ok::<T, StreamError>(accs[i + 1]))
}

/// Reads a source in chunks of a fixed size.
pub struct StreamReader {
    reader: MemoryReader,
    buffer_size: usize,
}

impl StreamReader {
    /// The bytes that are still to be read.
    pub closed spec fn remaining(self) -> Seq<u8> {
        self.reader.remaining()
    }

    /// The largest number of bytes read at once.
    pub closed spec fn chunk_len(self) -> nat {
        self.buffer_size as nat
    }

    /// The pieces in which the rest of the source will be read.
    pub open spec fn pieces(self) -> Seq<Seq<u8>> {
        chunks(self.remaining(), self.chunk_len())
    }

    /// A reader over `reader` with the default chunk size.
    pub fn new(reader: MemoryReader) -> (r: Self)
        ensures
            r.remaining() == reader.remaining(),
            r.chunk_len() == DEFAULT_BUFFER_SIZE,
    {
        Self::with_buffer_size(reader, DEFAULT_BUFFER_SIZE)
    }

    /// A reader over `reader` that reads `buffer_size` bytes at a time.
    pub fn with_buffer_size(reader: MemoryReader, buffer_size: usize) -> (r: Self)
        ensures
            r.remaining() == reader.remaining(),
            r.chunk_len() == buffer_size,
    {
        StreamReader { reader, buffer_size }
    }

    /// Applies `transform` to every remaining chunk, in order, and collects
    /// what it returns. Stops at the first chunk that it refuses, passing its
    /// error on.
    pub fn read_all<T, F: Fn(&[u8]) -> Result<T, StreamError>>(&mut self, transform: F) -> (r:
        Result<Vec<T>, StreamError>)
        requires
            forall|s: &[u8]| transform.requires((s,)),
        ensures
            final(self).chunk_len() == old(self).chunk_len(),
            match r {
                Ok(results) => {
                    &&& results@.len() == old(self).pieces().len()
                    &&& answers_each(transform, old(self).pieces(), results@)
                    &&& final(self).pieces().len() == 0
                },
                Err(e) => exists|earlier: Seq<T>|
                    {
                        &&& #[trigger] answers_each(transform, old(self).pieces(), earlier)
                        &&& earlier.len() < old(self).pieces().len()
                        &&& answers(
                            transform,
                            old(self).pieces()[earlier.len() as int],
                            Err::<T, StreamError>(e),
                        )
                        &&& final(self).pieces() == old(self).pieces().skip(earlier.len() as int + 1)
                    },
            },
    {
        let mut results: Vec<T> = Vec::new();
        let mut buffer: Vec<u8> = vec![0u8; self.buffer_size];
        let ghost pieces = self.pieces();
        loop
            invariant
                buffer@.len() == self.buffer_size == old(self).buffer_size,
                forall|s: &[u8]| transform.requires((s,)),
                pieces == old(self).pieces(),
                answers_each(transform, pieces, results@),
                self.pieces() == pieces.skip(results@.len() as int),
            decreases pieces.len() - results@.len(),
        {
            let ghost before = self.reader.remaining();
            let ghost done = results@.len() as int;
            let n = self.reader.read(&mut buffer);
            if n == 0 {
                proof {
                    assert(self.reader.remaining() =~= before);
                    assert(pieces.skip(done).len() == 0);
                }
                return Ok(results);
            }
            let chunk = slice_subrange(buffer.as_slice(), 0, n);
            proof {
                assert(chunk@ =~= before.take(n as int));
                assert(chunks(before, self.buffer_size as nat) =~= seq![before.take(n as int)]
                    + chunks(before.skip(n as int), self.buffer_size as nat));
                assert(pieces.skip(done)[0] == pieces[done]);
                assert(pieces.skip(done).drop_first() =~= pieces.skip(done + 1));
                assert(chunks(before.skip(n as int), self.buffer_size as nat) =~= pieces.skip(
                    done,
                ).drop_first());
            }
            let ghost earlier = results@;
            match transform(chunk) {
                Ok(value) => {
                    results.push(value);
                    proof {
                        assert(answers(transform, pieces[done], Ok::<T, StreamError>(value)));
                        assert forall|i: int| 0 <= i < results@.len() implies answers(
                            transform,
                            pieces[i],
                            Ok::<T, StreamError>(#[trigger] results@[i]),
                        ) by {
                            if i < done {
                                assert(results@[i] == earlier[i]);
                            }
                        }
                    }
                },
                Err(e) => {
                    proof {
                        assert(answers(transform, pieces[done], Err::<T, StreamError>(e)));
                        assert(answers_each(transform, pieces, earlier));
                    }
                    return Err(e);
                },
            }
        }
    }

    /// Folds the remaining chunks, in order, into an accumulator that starts
    /// as `init`. Stops at the first chunk that `fold_fn` refuses, passing
    /// its error on.
    pub fn fold<T, F: Fn(T, &[u8]) -> Result<T, StreamError>>(&mut self, init: T, fold_fn: F) -> (r:
        Result<T, StreamError>)
        requires
            forall|acc: T, s: &[u8]| fold_fn.requires((acc, s)),
        ensures
            final(self).chunk_len() == old(self).chunk_len(),
            match r {
                Ok(last) => {
                    &&& exists|accs: Seq<T>|
                        {
                            &&& #[trigger] fold_trace(fold_fn, init, old(self).pieces(), accs)
                            &&& accs.len() == old(self).pieces().len() + 1
                            &&& accs.last() == last
                        }
                    &&& final(self).pieces().len() == 0
                },
                Err(e) => exists|accs: Seq<T>|
                    {
                        &&& #[trigger] fold_trace(fold_fn, init, old(self).pieces(), accs)
                        &&& accs.len() <= old(self).pieces().len()
                        &&& folds(
                            fold_fn,
                            accs.last(),
                            old(self).pieces()[accs.len() - 1],
                            Err::<T, StreamError>(e),
                        )
                        &&& final(self).pieces() == old(self).pieces().skip(accs.len() as int)
                    },
            },
    {
        let mut acc = init;
        let mut buffer: Vec<u8> = vec![0u8; self.buffer_size];
        let ghost pieces = self.pieces();
        let ghost mut accs: Seq<T> = seq![init];
        loop
            invariant
                buffer@.len() == self.buffer_size == old(self).buffer_size,
                forall|a: T, s: &[u8]| fold_fn.requires((a, s)),
                pieces == old(self).pieces(),
                fold_trace(fold_fn, init, pieces, accs),
                accs.last() == acc,
                self.pieces() == pieces.skip(accs.len() - 1),
            decreases pieces.len() + 1 - accs.len(),
        {
            let ghost before = self.reader.remaining();
            let ghost done = accs.len() - 1;
            let n = self.reader.read(&mut buffer);
            if n == 0 {
                proof {
                    assert(self.reader.remaining() =~= before);
                    assert(pieces.skip(done).len() == 0);
                }
                return Ok(acc);
            }
            let chunk = slice_subrange(buffer.as_slice(), 0, n);
            proof {
                assert(chunk@ =~= before.take(n as int));
                assert(chunks(before, self.buffer_size as nat) =~= seq![before.take(n as int)]
                    + chunks(before.skip(n as int), self.buffer_size as nat));
                assert(pieces.skip(done)[0] == pieces[done]);
                assert(pieces.skip(done).drop_first() =~= pieces.skip(done + 1));
                assert(chunks(before.skip(n as int), self.buffer_size as nat) =~= pieces.skip(
                    done,
                ).drop_first());
            }
            let ghost prev = acc;
            match fold_fn(acc, chunk) {
                Ok(next) => {
                    acc = next;
                    proof {
                        assert(folds(fold_fn, prev, pieces[done], Ok::<T, StreamError>(next)));
                        let grown = accs.push(next);
                        assert forall|i: int| 0 <= i < grown.len() - 1 implies folds(
                            fold_fn,
                            grown[i],
                            #[trigger] pieces[i],
                            Ok::<T, StreamError>(grown[i + 1]),
                        ) by {
                            if i < accs.len() - 1 {
                                assert(grown[i] == accs[i] && grown[i + 1] == accs[i + 1]);
                            }
                        }
                        accs = grown;
                    }
                },
                Err(e) => {
                    proof {
                        assert(folds(fold_fn, prev, pieces[done], Err::<T, StreamError>(e)));
                    }
                    return Err(e);
                },
            }
        }
    }

    /// Counts the bytes that are left, reading them all. With a chunk size
    /// of zero nothing can be read, and the count is zero.
    pub fn count_bytes(&mut self) -> (r: Result<u64, StreamError>)
        ensures
            final(self).chunk_len() == old(self).chunk_len(),
            old(self).chunk_len() > 0 ==> r == Ok::<u64, StreamError>(
                old(self).remaining().len() as u64,
            ) && final(self).remaining().len() == 0,
            old(self).chunk_len() == 0 ==> r == Ok::<u64, StreamError>(0) && final(self).remaining()
                == old(self).remaining(),
    {
        let mut buffer: Vec<u8> = vec![0u8; self.buffer_size];
        let mut total: u64 = 0;
        let ghost source = self.reader.remaining();
        let available = self.reader.remaining_len();
        assert(source.skip(0) =~= source);
        loop
            invariant
                buffer@.len() == self.buffer_size == old(self).buffer_size,
                source == old(self).remaining(),
                source.len() == available,
                total <= available,
                self.reader.remaining() == source.skip(total as int),
                self.buffer_size == 0 ==> total == 0,
            ensures
                self.buffer_size > 0 ==> total == available,
            decreases available - total,
        {
            let n = self.reader.read(&mut buffer);
            if n == 0 {
                break ;
            }
            proof {
                assert(source.skip(total as int).skip(n as int) =~= source.skip(total + n));
            }
            total = total + n as u64;
        }
        Ok(total)
    }
}

/// Writes to a sink through a buffer, so that small chunks reach the sink
/// together.
pub struct StreamWriter {
    writer: Vec<u8>,
    buffer: Vec<u8>,
    buffer_size: usize,
}

impl StreamWriter {
    /// The bytes that have reached the sink.
    pub closed spec fn written(self) -> Seq<u8> {
        self.writer@
    }

    /// The bytes that are held back in the buffer.
    pub closed spec fn pending(self) -> Seq<u8> {
        self.buffer@
    }

    /// The most that the buffer holds back.
    pub closed spec fn capacity(self) -> nat {
        self.buffer_size as nat
    }

    /// The buffer never holds back more than its capacity.
    pub open spec fn wf(self) -> bool {
        self.pending().len() <= self.capacity()
    }

    /// Everything handed to the writer and not taken out, in order: what the
    /// sink holds, then what is held back.
    pub open spec fn stream(self) -> Seq<u8> {
        self.written() + self.pending()
    }

    /// A writer to `writer` with a buffer of the default size.
    pub fn new(writer: Vec<u8>) -> (r: Self)
        ensures
            r.written() == writer@,
            r.pending() == Seq::<u8>::empty(),
            r.capacity() == DEFAULT_BUFFER_SIZE,
            r.wf(),
    {
        Self::with_buffer_size(writer, DEFAULT_BUFFER_SIZE)
    }

    /// A writer to `writer` that holds back at most `buffer_size` bytes.
    pub fn with_buffer_size(writer: Vec<u8>, buffer_size: usize) -> (r: Self)
        ensures
            r.written() == writer@,
            r.pending() == Seq::<u8>::empty(),
            r.capacity() == buffer_size,
            r.wf(),
    {
        StreamWriter { writer, buffer: Vec::new(), buffer_size }
    }

    /// Takes `data` into the stream. It is held back if it fits the buffer
    /// beside what is already there. Otherwise what was held back goes to the
    /// sink, and `data` follows it there if it is larger than the buffer, or
    /// is held back in its turn.
    pub fn write_chunk(&mut self, data: &[u8]) -> (r: Result<(), StreamError>)
        requires
            old(self).wf(),
        ensures
            r is Ok,
            final(self).wf(),
            final(self).capacity() == old(self).capacity(),
            final(self).stream() == old(self).stream() + data@,
            if old(self).pending().len() + data@.len() <= old(self).capacity() {
                &&& final(self).written() == old(self).written()
                &&& final(self).pending() == old(self).pending() + data@
            } else if data@.len() > old(self).capacity() {
                &&& final(self).written() == old(self).stream() + data@
                &&& final(self).pending() == Seq::<u8>::empty()
            } else {
                &&& final(self).written() == old(self).stream()
                &&& final(self).pending() == data@
            },
    {
        if data.len() <= self.buffer_size - self.buffer.len() {
            extend_bytes(&mut self.buffer, data);
            assert(self.writer@ + (old(self).buffer@ + data@) =~= (old(self).writer@ + old(
                self,
            ).buffer@) + data@);
            return Ok(());
        }
        if self.buffer.len() > 0 {
            extend_bytes(&mut self.writer, self.buffer.as_slice());
            self.buffer.clear();
        }
        assert(self.writer@ =~= old(self).writer@ + old(self).buffer@);
        if data.len() > self.buffer_size {
            extend_bytes(&mut self.writer, data);
        } else {
            extend_bytes(&mut self.buffer, data);
        }
        assert(self.writer@ + self.buffer@ =~= (old(self).writer@ + old(self).buffer@) + data@);
        assert(self.buffer@ =~= if data@.len() > self.buffer_size {
            Seq::<u8>::empty()
        } else {
            data@
        });
        Ok(())
    }

    /// Sends what is held back to the sink.
    pub fn flush(&mut self) -> (r: Result<(), StreamError>)
        ensures
            r is Ok,
            final(self).wf(),
            final(self).capacity() == old(self).capacity(),
            final(self).written() == old(self).stream(),
            final(self).pending() == Seq::<u8>::empty(),
    {
        if self.buffer.len() > 0 {
            extend_bytes(&mut self.writer, self.buffer.as_slice());
            self.buffer.clear();
        }
        assert(self.writer@ =~= old(self).writer@ + old(self).buffer@);
        assert(self.buffer@ =~= Seq::<u8>::empty());
        Ok(())
    }

    /// Takes out of the sink what has reached it, and leaves it empty. What
    /// is held back stays held back.
    pub fn take_written(&mut self) -> (bytes: Vec<u8>)
        requires
            old(self).wf(),
        ensures
            final(self).wf(),
            bytes@ == old(self).written(),
            final(self).written() == Seq::<u8>::empty(),
            final(self).pending() == old(self).pending(),
            final(self).capacity() == old(self).capacity(),
    {
        let mut bytes: Vec<u8> = Vec::new();
        std::mem::swap(&mut self.writer, &mut bytes);
        bytes
    }

    /// Sends what is held back to the sink and gives the sink back: it holds
    /// everything handed to the writer and not taken out, in order.
    pub fn finish(self) -> (r: Result<Vec<u8>, StreamError>)
        ensures
            r matches Ok(sink) && sink@ == self.stream(),
    {
        let mut this = self;
        let _ = this.flush();
        Ok(this.writer)
    }
}

} // verus!
