//! Where a reader stands in an append-only stream, and what it is due next.
//!
//! Children and log bytes are read the same way: a reader seeks to a
//! position, then on every wake-up takes what the stream holds from there,
//! in pieces of bounded size, until a total length is reached or the build
//! has finished.

use crate::fault::Fault;
use crate::outside::{i64_to_u64, u64_to_i64};
use vstd::prelude::*;

verus! {

/// A position to start reading from.
#[derive(Clone, Copy, Debug, PartialEq, Eq, Structural)]
pub enum Seek {
    /// Counted from the start of the stream.
    Start(u64),
    /// The end of the stream plus a signed offset.
    End(i64),
    /// The current end of the stream plus a signed offset.
    Current(i64),
}

/// The chunk size that a reader uses when it is given none.
pub const DEFAULT_SIZE: u64 = 10;

/// A stretch of a stream: `length` items from `position` on.
#[derive(Clone, Copy, Debug, PartialEq, Eq, Structural)]
pub struct Span {
    pub position: u64,
    pub length: u64,
}

/// The state of a reader.
#[derive(Clone, Copy, Debug, PartialEq, Eq, Structural)]
pub struct Cursor {
    /// The position of the next item to deliver.
    pub position: u64,
    /// How many items have been delivered.
    pub read: u64,
    /// How many items to deliver at most.
    pub length: Option<u64>,
    /// How many items a chunk holds at most.
    pub size: u64,
    /// Whether the stream has completed.
    pub done: bool,
}

/// The absolute position that a seek stands for in a stream of `count`
/// items, or `None` when it does not fit the range of positions. Without a
/// seek a reader starts at the end. Seeking past the end is in order.
pub open spec fn resolved(count: int, position: Option<Seek>) -> Option<int> {
    match position {
        None => Some(count),
        Some(Seek::Start(p)) => Some(p as int),
        Some(Seek::End(k)) | Some(Seek::Current(k)) => if 0 <= count + k <= u64::MAX {
            Some(count + k)
        } else {
            None
        },
    }
}

/// The pieces in which `total` items from `start` on are delivered: each
/// holds `size` items, but for the last, which holds what is left.
pub open spec fn tiling(start: int, total: int, size: int) -> Seq<Span>
    decreases total,
{
    if total <= 0 || size <= 0 {
        Seq::empty()
    } else {
        let n = if size <= total {
            size
        } else {
            total
        };
        seq![Span { position: start as u64, length: n as u64 }] + tiling(
            start + n,
            total - n,
            size,
        )
    }
}

/// The parts of a stream laid end to end.
pub open spec fn joined<T>(parts: Seq<Seq<T>>) -> Seq<T>
    decreases parts.len(),
{
    if parts.len() == 0 {
        Seq::empty()
    } else {
        joined(parts.drop_last()) + parts.last()
    }
}

/// The pieces of a tiling are not empty, hold at most `size` items, follow
/// one another without gap or overlap from `start`, and end at `start + total`.
pub proof fn lemma_tiling(start: int, total: int, size: int)
    requires
        0 <= start,
        0 <= total,
        0 < size,
        start + total <= u64::MAX,
    ensures
        ({
            let pieces = tiling(start, total, size);
            &&& forall|i: int|
                0 <= i < pieces.len() ==> 0 < (#[trigger] pieces[i]).length <= size
            &&& forall|i: int|
                0 <= i < pieces.len() ==> start <= (#[trigger] pieces[i]).position
                    && pieces[i].position + pieces[i].length <= start + total
            &&& forall|i: int|
                0 <= i < pieces.len() - 1 ==> (#[trigger] pieces[i]).position + pieces[i].length
                    == pieces[i + 1].position
            &&& total > 0 ==> pieces.len() > 0 && pieces.first().position == start
                && pieces.last().position + pieces.last().length == start + total
            &&& total == 0 ==> pieces.len() == 0
        }),
    decreases total,
{
    if total > 0 {
        let n = if size <= total {
            size
        } else {
            total
        };
        let head = seq![Span { position: start as u64, length: n as u64 }];
        let rest = tiling(start + n, total - n, size);
        let all = tiling(start, total, size);
        lemma_tiling(start + n, total - n, size);
        assert(all == head + rest);
        assert(all[0] == head[0]);
        assert forall|i: int| 0 <= i < all.len() implies 0 < (#[trigger] all[i]).length <= size
            && start <= all[i].position && all[i].position + all[i].length <= start + total by {
            if i > 0 {
                assert(all[i] == rest[i - 1]);
            }
        }
        assert forall|i: int| 0 <= i < all.len() - 1 implies (#[trigger] all[i]).position
            + all[i].length == all[i + 1].position by {
            assert(all[i + 1] == rest[i]);
            if i > 0 {
                assert(all[i] == rest[i - 1]);
            }
        }
        if total - n > 0 {
            assert(all.last() == rest.last());
        }
    }
}

impl Cursor {
    /// The invariant of a reader: it has not delivered more than lies
    /// before its position, nor more than its total length.
    pub open spec fn wf(self) -> bool {
        &&& self.read <= self.position
        &&& self.length matches Some(l) ==> self.read <= l
    }

    /// How many items the next wake-up delivers from a stream of `count` items.
    pub open spec fn due(self, count: int) -> int {
        if self.done || self.size == 0 || self.position >= count {
            0
        } else {
            let available = count - self.position;
            match self.length {
                Some(l) => if l - self.read <= available {
                    l - self.read
                } else {
                    available
                },
                None => available,
            }
        }
    }

    /// The reader after a wake-up on a stream of `count` items whose build
    /// is finished or not. The stream completes when the total length is
    /// reached or the build is finished.
    pub open spec fn after(self, count: int, finished: bool) -> Cursor {
        let n = self.due(count);
        Cursor {
            position: (self.position + n) as u64,
            read: (self.read + n) as u64,
            done: self.done || finished || (self.length matches Some(l) && self.read + n >= l),
            ..self
        }
    }

    /// A reader on a stream of `count` items. `Invalid` when the seek does
    /// not fit the range of positions. A reader with total length zero is
    /// complete from the start.
    pub fn open(count: u64, position: Option<Seek>, length: Option<u64>, size: Option<u64>) -> (r:
        Result<Cursor, Fault>)
        ensures
            match r {
                Ok(c) => {
                    &&& resolved(count as int, position) == Some(c.position as int)
                    &&& c.read == 0
                    &&& c.length == length
                    &&& c.size == (match size {
                        Some(s) => s,
                        None => DEFAULT_SIZE,
                    })
                    &&& c.done == (length == Some(0u64))
                    &&& c.wf()
                },
                Err(e) => e == Fault::Invalid && resolved(count as int, position) is None,
            },
    {
        let start: u64 = match resolve(count, position) {
            Ok(p) => p,
            Err(e) => {
                return Err(e);
            },
        };
        let done: bool = match length {
            Some(l) => l == 0,
            None => false,
        };
        let size: u64 = match size {
            Some(s) => s,
            None => DEFAULT_SIZE,
        };
        Ok(Cursor { position: start, read: 0, length, size, done })
    }

    /// How many items the next wake-up delivers from a stream of `count` items.
    pub fn due_now(&self, count: u64) -> (n: u64)
        requires
            self.wf(),
        ensures
            n == self.due(count as int),
            self.position + n <= u64::MAX,
            self.read + n <= u64::MAX,
    {
        if self.done || self.size == 0 || self.position >= count {
            0
        } else {
            let available: u64 = count - self.position;
            match self.length {
                Some(l) => if l - self.read <= available {
                    l - self.read
                } else {
                    available
                },
                None => available,
            }
        }
    }

    /// Completes the stream: the deadline has passed, or nothing will wake
    /// the reader any more.
    pub fn close(&mut self)
        ensures
            *final(self) == (Cursor { done: true, ..*old(self) }),
            old(self).wf() ==> final(self).wf(),
    {
        self.done = true;
    }

    /// Moves the reader past what a wake-up delivered.
    pub fn settle(&mut self, count: u64, finished: bool)
        requires
            old(self).wf(),
        ensures
            *final(self) == old(self).after(count as int, finished),
            final(self).wf(),
    {
        let n: u64 = self.due_now(count);
        self.position = self.position + n;
        self.read = self.read + n;
        let reached: bool = match self.length {
            Some(l) => self.read >= l,
            None => false,
        };
        self.done = self.done || finished || reached;
    }
}

/// The absolute position that a seek stands for in a stream of `count`
/// items; `Invalid` when it does not fit the range of positions.
pub fn resolve(count: u64, position: Option<Seek>) -> (r: Result<u64, Fault>)
    ensures
        match r {
            Ok(p) => resolved(count as int, position) == Some(p as int),
            Err(e) => e == Fault::Invalid && resolved(count as int, position) is None,
        },
{
    match position {
        None => Ok(count),
        Some(Seek::Start(p)) => Ok(p),
        Some(Seek::End(k)) | Some(Seek::Current(k)) => offset(count, k),
    }
}

/// `count + k`, or `Invalid` when the sum is not a position.
fn offset(count: u64, k: i64) -> (r: Result<u64, Fault>)
    ensures
        match r {
            Ok(p) => p == count + k,
            Err(e) => e == Fault::Invalid && !(0 <= count + k <= u64::MAX),
        },
{
    match u64_to_i64(count) {
        Some(c) => match c.checked_add(k) {
            Some(sum) => match i64_to_u64(sum) {
                Some(p) => Ok(p),
                None => Err(Fault::Invalid),
            },
            None => Ok(count + k as u64),
        },
        None => if k >= 0 {
            match count.checked_add(k as u64) {
                Some(p) => Ok(p),
                None => Err(Fault::Invalid),
            }
        } else {
            let back: u64 = (-(k + 1)) as u64;
            Ok(count - back - 1)
        },
    }
}

} // verus!
