//! What holds of the store, of readers and of servers whatever the order
//! of operations: statements that relate several functions, proved once.

use crate::cursor::{resolved, tiling, Cursor, Seek, Span};
use crate::fault::Fault;
use crate::id::IdView;
use crate::lifecycle::{BuildView, Instant, OutcomeView, Status};
use crate::server::{Origin, ServerView};
use crate::store::{
    advance_verdict, child_verdict, finish_verdict, lemma_with_children,
    lemma_with_children_known, page, put_verdict, succeeds, with_children, Entry, Store,
};
use vstd::prelude::*;

verus! {

/// Whether no build of a store value has a child twice.
pub open spec fn children_distinct(m: Map<IdView, Entry>) -> bool {
    forall|k: IdView| #[trigger] m.dom().contains(k) ==> m[k].children.no_duplicates()
}

/// A store value succeeds itself, and succeeding carries over a chain of
/// values: what holds from one operation to the next holds over any run of
/// operations.
pub proof fn law_history_composes(
    first: Map<IdView, Entry>,
    second: Map<IdView, Entry>,
    third: Map<IdView, Entry>,
)
    requires
        succeeds(second, first),
        succeeds(third, second),
    ensures
        succeeds(first, first),
        succeeds(third, first),
{
    assert forall|k: IdView| #[trigger] first.dom().contains(k) implies {
        &&& third.dom().contains(k)
        &&& first[k].build.status.rank() <= third[k].build.status.rank()
        &&& first[k].children.is_prefix_of(third[k].children)
        &&& first[k].log.is_prefix_of(third[k].log)
        &&& first[k].build.status == Status::Finished ==> third[k].children == first[k].children
            && third[k].log == first[k].log
    } by {
        assert(second.dom().contains(k));
    }
}

/// Children keep their places: the child at a position stays the child at
/// that position however the store goes on, so the order in which a reader
/// meets children is the order in which they were added.
pub proof fn law_children_keep_order(
    earlier: Map<IdView, Entry>,
    later: Map<IdView, Entry>,
    build: IdView,
    i: int,
    j: int,
)
    requires
        succeeds(later, earlier),
        earlier.dom().contains(build),
        0 <= i < j < earlier[build].children.len(),
    ensures
        later[build].children[i] == earlier[build].children[i],
        later[build].children[j] == earlier[build].children[j],
{
}

/// A page holds the items of the stream in stream order, from its position on.
pub proof fn law_page_in_order<T>(items: Seq<T>, position: int, limit: int, i: int)
    requires
        0 <= position,
        0 <= limit,
        0 <= i < page(items, position, limit).len(),
    ensures
        page(items, position, limit)[i] == items[position + i],
        page(items, position, limit).len() <= limit,
{
}

/// A status never moves backwards: not from one value of the store to a
/// later one, and not by a request, which is refused as invalid when it
/// asks for an earlier status.
pub proof fn law_status_only_advances(
    earlier: Map<IdView, Entry>,
    later: Map<IdView, Entry>,
    build: IdView,
    status: Status,
    outcome: OutcomeView,
    now: Instant,
)
    requires
        succeeds(later, earlier),
        earlier.dom().contains(build),
    ensures
        earlier[build].build.status.rank() <= later[build].build.status.rank(),
        status.rank() < earlier[build].build.status.rank() ==> advance_verdict(
            earlier[build].build,
            status,
            now,
        ) == Err::<BuildView, Fault>(Fault::Invalid),
        advance_verdict(earlier[build].build, status, now) matches Ok(b) ==> b.status == status
            && earlier[build].build.status.rank() <= b.status.rank(),
        finish_verdict(earlier[build].build, outcome, now) matches Ok(b) ==> b.status
            == Status::Finished,
{
}

/// In a well-formed store no build has a child twice.
pub proof fn law_children_are_distinct(store: Store)
    requires
        store.wf(),
    ensures
        children_distinct(store@),
{
    assert forall|k: IdView| #[trigger] store@.dom().contains(k) implies store@[k].children.no_duplicates() by {
        store.lemma_wf(k);
    }
}

/// Putting the same snapshot twice leaves the store as putting it once.
pub proof fn law_put_is_idempotent(m: Map<IdView, Entry>, build: BuildView, children: Seq<IdView>)
    requires
        children_distinct(m),
    ensures
        put_verdict(m, build, children) matches Ok(once) ==> put_verdict(once, build, children)
            == Ok::<Map<IdView, Entry>, Fault>(once),
{
    if let Ok(once) = put_verdict(m, build, children) {
        let before = if m.dom().contains(build.id) {
            m[build.id].children
        } else {
            Seq::empty()
        };
        if m.dom().contains(build.id) {
            assert(m[build.id].children.no_duplicates());
        }
        lemma_with_children(before, children);
        let held = with_children(before, children);
        lemma_with_children_known(held, children);
        assert(once[build.id].children == held);
        assert(put_verdict(once, build, children) matches Ok(twice) && twice =~= once);
    }
}

/// Adding a child any number of times leaves exactly one edge: the second
/// request changes nothing, and the child stands at one position only.
pub proof fn law_add_child_is_idempotent(m: Map<IdView, Entry>, build: IdView, child: IdView)
    requires
        children_distinct(m),
    ensures
        child_verdict(m, build, child) matches Ok(once) ==> {
            &&& child_verdict(once, build, child) == Ok::<Map<IdView, Entry>, Fault>(once)
            &&& once[build].children.no_duplicates()
            &&& exists|i: int|
                0 <= i < once[build].children.len() && once[build].children[i] == child && forall|
                    j: int,
                |
                    0 <= j < once[build].children.len() && once[build].children[j] == child ==> j
                        == i
        },
{
    if let Ok(once) = child_verdict(m, build, child) {
        assert(m.dom().contains(build));
        let before = m[build].children;
        assert(before.no_duplicates());
        crate::store::lemma_with_child(before, child);
        if !before.contains(child) {
            assert(once[build].children == before.push(child));
            assert(before.push(child)[before.len() as int] == child);
        }
        let after = once[build].children;
        assert(after.contains(child));
        let i = choose|i: int| 0 <= i < after.len() && after[i] == child;
        assert(0 <= i < after.len() && after[i] == child);
    }
}

/// A reader without a total length that wakes up on a finished build
/// delivers everything from its position to the end, and completes.
pub proof fn law_reader_reaches_the_end<T>(items: Seq<T>, c: Cursor)
    requires
        c.wf(),
        !c.done,
        c.length is None,
        c.size > 0,
        c.position <= items.len() <= u64::MAX,
    ensures
        page(items, c.position as int, c.due(items.len() as int)) == items.subrange(
            c.position as int,
            items.len() as int,
        ),
        c.after(items.len() as int, true).done,
        c.after(items.len() as int, true).position == items.len(),
{
    assert(page(items, c.position as int, c.due(items.len() as int)) =~= items.subrange(
        c.position as int,
        items.len() as int,
    ));
}

/// What a reader delivers on two wake-ups in a row is what it would have
/// delivered on one wake-up at the later moment: no gap and nothing twice.
pub proof fn law_wake_ups_compose<T>(earlier: Seq<T>, later: Seq<T>, c: Cursor, finished: bool)
    requires
        c.wf(),
        earlier.is_prefix_of(later),
        later.len() <= u64::MAX,
    ensures
        ({
            let first = c.due(earlier.len() as int);
            let next = c.after(earlier.len() as int, false);
            let second = next.due(later.len() as int);
            &&& first + second == c.due(later.len() as int)
            &&& page(earlier, c.position as int, first) + page(later, next.position as int, second)
                == page(later, c.position as int, first + second)
            &&& next.after(later.len() as int, finished).position == c.after(
                later.len() as int,
                finished,
            ).position
            &&& next.after(later.len() as int, finished).read == c.after(
                later.len() as int,
                finished,
            ).read
        }),
{
    let first = c.due(earlier.len() as int);
    let next = c.after(earlier.len() as int, false);
    let second = next.due(later.len() as int);
    assert(page(earlier, c.position as int, first) + page(later, next.position as int, second)
        =~= page(later, c.position as int, first + second));
}

/// The chunks of one wake-up are not empty, hold at most the reader's size,
/// and lie end to end from the reader's position.
pub proof fn law_chunks_are_contiguous(c: Cursor, count: int, i: int)
    requires
        c.wf(),
        0 <= count <= u64::MAX,
        0 <= i < tiling(c.position as int, c.due(count), c.size as int).len(),
    ensures
        ({
            let pieces = tiling(c.position as int, c.due(count), c.size as int);
            &&& 0 < pieces[i].length <= c.size
            &&& c.length matches Some(l) ==> pieces[i].length <= l - c.read
            &&& pieces[0].position == c.position
            &&& i + 1 < pieces.len() ==> pieces[i + 1].position == pieces[i].position
                + pieces[i].length
            &&& pieces.last().position + pieces.last().length == c.position + c.due(count)
        }),
{
    crate::cursor::lemma_tiling(c.position as int, c.due(count), c.size as int);
    let pieces = tiling(c.position as int, c.due(count), c.size as int);
    assert(pieces.first() == pieces[0]);
    assert(pieces[i].position + pieces[i].length <= c.position + c.due(count));
}

/// Reading a window from the start of a log gives the first bytes that
/// were written: a reader opened at offset zero with total length `n`
/// delivers `log[0..n]` and completes.
pub proof fn law_log_window(log: Seq<u8>, n: u64, size: u64)
    requires
        size > 0,
        n <= log.len() <= u64::MAX,
    ensures
        ({
            let c = Cursor { position: 0, read: 0, length: Some(n), size, done: n == 0 };
            &&& resolved(log.len() as int, Some(Seek::Start(0))) == Some(0int)
            &&& page(log, 0, c.due(log.len() as int)) == log.subrange(0, n as int)
            &&& c.after(log.len() as int, false).done
        }),
{
    let c = Cursor { position: 0, read: 0, length: Some(n), size, done: n == 0 };
    assert(page(log, 0, c.due(log.len() as int)) =~= log.subrange(0, n as int));
}

/// A reader that seeks to the end finds nothing there at first and then
/// delivers exactly what is added behind it.
pub proof fn law_seek_to_end_tails<T>(earlier: Seq<T>, later: Seq<T>, c: Cursor)
    requires
        c.wf(),
        !c.done,
        c.length is None,
        c.size > 0,
        earlier.is_prefix_of(later),
        later.len() <= u64::MAX,
        c.position == earlier.len(),
    ensures
        resolved(earlier.len() as int, Some(Seek::Start(earlier.len() as u64))) == Some(
            earlier.len() as int,
        ),
        resolved(earlier.len() as int, None) == Some(earlier.len() as int),
        c.due(earlier.len() as int) == 0,
        tiling(c.position as int, c.due(earlier.len() as int), c.size as int) == Seq::<
            Span,
        >::empty(),
        !c.after(earlier.len() as int, false).done,
        page(
            later,
            c.after(earlier.len() as int, false).position as int,
            c.after(earlier.len() as int, false).due(later.len() as int),
        ) == later.subrange(earlier.len() as int, later.len() as int),
{
    let next = c.after(earlier.len() as int, false);
    assert(page(later, next.position as int, next.due(later.len() as int)) =~= later.subrange(
        earlier.len() as int,
        later.len() as int,
    ));
}

/// A reader that seeks back from the end by no more than the stream
/// holds delivers the items from there to the end: the last `-back` items.
pub proof fn law_seek_from_end<T>(items: Seq<T>, back: i64, size: u64)
    requires
        size > 0,
        back <= 0,
        -back <= items.len() <= u64::MAX,
    ensures
        resolved(items.len() as int, Some(Seek::End(back))) == Some(items.len() + back),
        ({
            let c = Cursor {
                position: (items.len() + back) as u64,
                read: 0,
                length: None,
                size,
                done: false,
            };
            &&& c.due(items.len() as int) == -back
            &&& page(items, c.position as int, c.due(items.len() as int)) == items.subrange(
                items.len() + back,
                items.len() as int,
            )
        }),
{
    let c = Cursor {
        position: (items.len() + back) as u64,
        read: 0,
        length: None,
        size,
        done: false,
    };
    assert(page(items, c.position as int, c.due(items.len() as int)) =~= items.subrange(
        items.len() + back,
        items.len() as int,
    ));
}

/// A reader whose deadline has passed when it opens wakes up once: it
/// delivers what the stream holds at that moment, within its total length,
/// and nothing after that, whatever is added later.
pub proof fn law_passed_deadline_reads_once<T>(items: Seq<T>, later: Seq<T>, c: Cursor)
    requires
        c.wf(),
        !c.done,
        c.size > 0,
        c.read == 0,
        c.position <= items.len() <= u64::MAX,
    ensures
        ({
            let woken = c.after(items.len() as int, false);
            let closed = Cursor { done: true, ..woken };
            &&& c.due(items.len() as int) == (match c.length {
                Some(l) => if l <= items.len() - c.position {
                    l as int
                } else {
                    items.len() - c.position
                },
                None => items.len() - c.position,
            })
            &&& closed.due(later.len() as int) == 0
            &&& closed.after(later.len() as int, false) == closed
        }),
{
}

/// A reader with total length zero is complete when it opens and never
/// delivers a chunk.
pub proof fn law_zero_length_is_empty(c: Cursor, count: int, finished: bool)
    requires
        c.length == Some(0u64),
        c.done,
        c.read == 0,
    ensures
        c.due(count) == 0,
        tiling(c.position as int, c.due(count), c.size as int) == Seq::<Span>::empty(),
        c.after(count, finished) == c,
{
}

/// Once a finished build was read from a peer, the server holds it: the
/// next read finds the same record locally and changes nothing.
pub proof fn law_read_caches(v: ServerView, build: IdView, i: usize)
    requires
        v.located(build) == Some(Origin::Remote(i)),
        v.remotes[i as int][build].build.status == Status::Finished,
    ensures
        v.after_read(build).located(build) == Some(Origin::Local),
        v.after_read(build).build(build) == v.build(build),
        v.after_read(build).local[build].children == v.remotes[i as int][build].children,
        v.after_read(build).after_read(build) == v.after_read(build),
{
}

} // verus!
