//! Reading the log of a build as a stream of bytes that can be tailed.

use crate::cursor::{joined, resolved, tiling, Cursor, Seek, Span};
use crate::fault::Fault;
use crate::id::{Id, IdView};
use crate::lifecycle::Status;
use crate::outside::i64_to_u64;
use crate::store::{page, Entry, Store};
use vstd::prelude::*;

verus! {

/// What a reader of a log asks for. Every field may be left out.
#[derive(Clone, Copy, Debug, PartialEq, Eq, Structural)]
pub struct Arg {
    /// How many bytes to deliver at most, over the whole stream.
    pub length: Option<i64>,
    /// The byte offset to start at; the current end when left out.
    pub position: Option<Seek>,
    /// How many bytes a chunk holds at most; ten when left out.
    pub size: Option<u64>,
    /// After how many seconds the stream completes even if the build has not finished.
    pub timeout: Option<u64>,
}

/// A run of log bytes: `bytes` are the bytes at offset `position` and behind it.
#[derive(Clone, Debug, PartialEq, Eq)]
pub struct Chunk {
    pub position: u64,
    pub bytes: Vec<u8>,
}

/// What a reader delivers on one wake-up.
#[derive(Clone, Debug, PartialEq, Eq)]
pub struct Step {
    /// The chunks to deliver, in order. None of them is empty.
    pub chunks: Vec<Chunk>,
    /// Whether the stream has completed.
    pub done: bool,
}

/// A reader of the log of one build.
#[derive(Clone, Debug)]
pub struct Reader {
    pub id: Id,
    pub cursor: Cursor,
}

/// The bytes that each chunk holds.
pub open spec fn parts(chunks: Seq<Chunk>) -> Seq<Seq<u8>> {
    Seq::new(chunks.len(), |i: int| chunks[i].bytes@)
}

/// The stretch of the log that each chunk covers.
pub open spec fn spans(chunks: Seq<Chunk>) -> Seq<Span> {
    Seq::new(
        chunks.len(),
        |i: int| Span { position: chunks[i].position, length: chunks[i].bytes@.len() as u64 },
    )
}

/// The total length that a reader is opened with, or `None` when the
/// length asked for is negative.
pub open spec fn length_asked(length: Option<i64>) -> Option<Option<u64>> {
    match length {
        None => Some(None),
        Some(l) => if l >= 0 {
            Some(Some(l as u64))
        } else {
            None
        },
    }
}

/// What opening a reader on a store with value `m` gives: a reader's
/// state, `None` when the store does not know the build, or `Invalid` when
/// the length asked for is negative or the position asked for is not a
/// position.
pub open spec fn opened(m: Map<IdView, Entry>, k: IdView, arg: Arg) -> Result<Option<Cursor>, Fault> {
    if !m.dom().contains(k) {
        Ok(None)
    } else {
        match (length_asked(arg.length), resolved(m[k].log.len() as int, arg.position)) {
            (Some(length), Some(p)) => Ok(
                Some(
                    Cursor {
                        position: p as u64,
                        read: 0,
                        length,
                        size: match arg.size {
                            Some(s) => s,
                            None => crate::cursor::DEFAULT_SIZE,
                        },
                        done: arg.length == Some(0i64),
                    },
                ),
            ),
            _ => Err(Fault::Invalid),
        }
    }
}

impl Default for Arg {
    fn default() -> (arg: Arg)
        ensures
            arg.length is None,
            arg.position is None,
            arg.size is None,
            arg.timeout is None,
    {
        Arg { length: None, position: None, size: None, timeout: None }
    }
}

/// Opens a reader on the log of a build: `None` when the store does not
/// know the build, `Invalid` when the length asked for is negative or the
/// position asked for is not a position.
pub fn try_get_build_log_local(store: &Store, id: &Id, arg: &Arg) -> (r: Result<
    Option<Reader>,
    Fault,
>)
    requires
        store.wf(),
    ensures
        match opened(store@, id@, *arg) {
            Ok(Some(cursor)) => r matches Ok(Some(reader)) && reader.id == *id && reader.cursor
                == cursor && cursor.wf(),
            Ok(None) => r matches Ok(None),
            Err(e) => r matches Err(f) && f == e,
        },
{
    let count: u64 = match store.log_len(id) {
        Some(n) => n,
        None => {
            return Ok(None);
        },
    };
    let length: Option<u64> = match arg.length {
        None => None,
        Some(l) => match i64_to_u64(l) {
            Some(l) => Some(l),
            None => {
                return Err(Fault::Invalid);
            },
        },
    };
    match Cursor::open(count, arg.position, length, arg.size) {
        Ok(cursor) => Ok(Some(Reader { id: id.duplicate(), cursor })),
        Err(e) => Err(e),
    }
}

impl Reader {
    /// Delivers what the build's log holds from the reader's offset on, in
    /// chunks of the reader's size, up to the reader's total length, and
    /// moves the reader past it. The stream is complete afterwards when the
    /// total length is reached or the build is finished. `Internal`, with
    /// the reader unchanged, when the store does not know the build.
    pub fn on_event(&mut self, store: &Store) -> (r: Result<Step, Fault>)
        requires
            store.wf(),
            old(self).cursor.wf(),
        ensures
            final(self).cursor.wf(),
            final(self).id == old(self).id,
            match r {
                Ok(step) => {
                    let known = store@[old(self).id@];
                    let before = old(self).cursor;
                    let n = before.due(known.log.len() as int);
                    &&& store@.dom().contains(old(self).id@)
                    &&& final(self).cursor == before.after(
                        known.log.len() as int,
                        known.build.status == Status::Finished,
                    )
                    &&& step.done == final(self).cursor.done
                    &&& spans(step.chunks@) == tiling(before.position as int, n, before.size as int)
                    &&& joined(parts(step.chunks@)) == page(known.log, before.position as int, n)
                },
                Err(e) => e == Fault::Internal && !store@.dom().contains(old(self).id@)
                    && final(self).cursor == old(self).cursor,
            },
    {
        let count: u64 = match store.log_len(&self.id) {
            Some(n) => n,
            None => {
                return Err(Fault::Internal);
            },
        };
        let finished: bool = match store.try_get_build_status_local(&self.id) {
            Some(status) => status.is_finished(),
            None => {
                return Err(Fault::Internal);
            },
        };
        let n: u64 = self.cursor.due_now(count);
        let start: u64 = self.cursor.position;
        let size: u64 = self.cursor.size;
        let end: u64 = start + n;
        let ghost log = store@[self.id@].log;
        let mut chunks: Vec<Chunk> = Vec::new();
        let mut at: u64 = start;
        assert(parts(chunks@) =~= Seq::<Seq<u8>>::empty());
        assert(spans(chunks@) =~= Seq::<Span>::empty());
        assert(page(log, start as int, 0) =~= Seq::<u8>::empty());
        while at < end
            invariant
                store.wf(),
                store@.dom().contains(self.id@),
                log == store@[self.id@].log,
                start <= at <= end,
                end == start + n,
                n > 0 ==> size > 0 && end <= log.len(),
                spans(chunks@) + tiling(at as int, end - at, size as int) == tiling(
                    start as int,
                    n as int,
                    size as int,
                ),
                joined(parts(chunks@)) == page(log, start as int, at - start),
            decreases end - at,
        {
            let limit: u64 = if size <= end - at {
                size
            } else {
                end - at
            };
            let bytes: Vec<u8> = match store.log_page(&self.id, at, limit) {
                Some(bytes) => bytes,
                None => {
                    return Err(Fault::Internal);
                },
            };
            let ghost held = chunks@;
            let ghost rest = tiling(at + limit, end - at - limit, size as int);
            let chunk = Chunk { position: at, bytes };
            chunks.push(chunk);
            proof {
                let piece = Span { position: at, length: limit };
                assert(bytes@ =~= log.subrange(at as int, at + limit));
                assert(parts(chunks@).drop_last() =~= parts(held));
                assert(parts(chunks@).last() == bytes@);
                assert(joined(parts(chunks@)) =~= page(log, start as int, at + limit - start));
                assert(tiling(at as int, end - at, size as int) == seq![piece] + rest);
                assert(spans(chunks@) =~= spans(held).push(piece));
                assert(spans(chunks@) + rest =~= spans(held) + (seq![piece] + rest));
            }
            at = at + limit;
        }
        assert(spans(chunks@) =~= spans(chunks@) + tiling(at as int, 0, size as int));
        self.cursor.settle(count, finished);
        Ok(Step { chunks, done: self.cursor.done })
    }
}

/// The bytes that a sequence of chunks holds, in order.
pub fn collect(chunks: &Vec<Chunk>) -> (bytes: Vec<u8>)
    ensures
        bytes@ == joined(parts(chunks@)),
{
    let mut bytes: Vec<u8> = Vec::new();
    let mut i: usize = 0;
    assert(parts(chunks@).take(0) =~= Seq::<Seq<u8>>::empty());
    while i < chunks.len()
        invariant
            i <= chunks.len(),
            bytes@ == joined(parts(chunks@).take(i as int)),
        decreases chunks.len() - i,
    {
        let ghost before = bytes@;
        let chunk = &chunks[i];
        let mut j: usize = 0;
        while j < chunk.bytes.len()
            invariant
                j <= chunk.bytes.len(),
                bytes@ == before + chunk.bytes@.take(j as int),
            decreases chunk.bytes.len() - j,
        {
            bytes.push(chunk.bytes[j]);
            assert(bytes@ =~= before + chunk.bytes@.take(j + 1));
            j += 1;
        }
        proof {
            let next = parts(chunks@).take(i + 1);
            assert(chunk.bytes@.take(chunk.bytes.len() as int) =~= chunk.bytes@);
            assert(next.drop_last() =~= parts(chunks@).take(i as int));
            assert(next.last() == chunk.bytes@);
        }
        i += 1;
    }
    assert(parts(chunks@).take(chunks.len() as int) =~= parts(chunks@));
    bytes
}

/// What a reader delivers whose deadline has passed when it opens: the
/// bytes that the log holds at that moment, from the offset asked for, up
/// to the length asked for. `None` when the store does not know the build,
/// `Invalid` when the length asked for is negative or the position asked
/// for is not a position.
pub fn read_available(store: &Store, id: &Id, arg: &Arg) -> (r: Result<Option<Vec<Chunk>>, Fault>)
    requires
        store.wf(),
    ensures
        match opened(store@, id@, *arg) {
            Ok(Some(cursor)) => {
                let known = store@[id@].log;
                let n = cursor.due(known.len() as int);
                &&& r matches Ok(Some(chunks))
                &&& spans(chunks@) == tiling(cursor.position as int, n, cursor.size as int)
                &&& joined(parts(chunks@)) == page(known, cursor.position as int, n)
            },
            Ok(None) => r matches Ok(None),
            Err(e) => r matches Err(f) && f == e,
        },
{
    match try_get_build_log_local(store, id, arg) {
        Ok(Some(reader)) => {
            let mut reader = reader;
            match reader.on_event(store) {
                Ok(step) => Ok(Some(step.chunks)),
                Err(_) => Ok(None),
            }
        },
        Ok(None) => Ok(None),
        Err(e) => Err(e),
    }
}

} // verus!
