//! Server-sent events: how a chunk is framed as an event, and how a
//! stream of text is cut into events again.

use crate::text::{optional_view, text_eq, text_views};
use vstd::prelude::*;
use vstd::string::*;

verus! {

/// How a chunk is framed as an event: `data: `, the JSON text, and an empty line.
pub open spec fn event_text(data: Seq<char>) -> Seq<char> {
    "data: "@ + data + "\n\n"@
}

/// The data that an event frames, or `None` when the text is not framed as an event.
pub open spec fn event_data(event: Seq<char>) -> Option<Seq<char>> {
    let head = "data: "@;
    let tail = "\n\n"@;
    if event.len() >= head.len() + tail.len() && event.subrange(0, head.len() as int) == head
        && event.subrange(event.len() - tail.len(), event.len() as int) == tail {
        Some(event.subrange(head.len() as int, event.len() - tail.len()))
    } else {
        None
    }
}

/// Where the first blank line of a text begins: the index of the first
/// line break that another line break follows, or the length of the text
/// when there is none.
pub open spec fn first_break(s: Seq<char>) -> int
    decreases s.len(),
{
    if s.len() < 2 {
        s.len() as int
    } else if s[0] == '\n' && s[1] == '\n' {
        0
    } else {
        1 + first_break(s.skip(1))
    }
}

/// The events that a text holds whole, each with the blank line that ends
/// it, and what is left of the text behind them.
pub open spec fn framed(s: Seq<char>) -> (Seq<Seq<char>>, Seq<char>)
    decreases s.len(),
{
    let i = first_break(s);
    if 0 <= i && i + 2 <= s.len() {
        let behind = framed(s.skip(i + 2));
        (seq![s.take(i + 2)] + behind.0, behind.1)
    } else {
        (Seq::empty(), s)
    }
}

/// The first blank line lies within the text, if there is one.
pub proof fn lemma_first_break(s: Seq<char>)
    ensures
        0 <= first_break(s) <= s.len(),
        first_break(s) < s.len() ==> first_break(s) + 2 <= s.len(),
    decreases s.len(),
{
    if s.len() >= 2 && !(s[0] == '\n' && s[1] == '\n') {
        lemma_first_break(s.skip(1));
    }
}

/// Framing data as an event and taking the data out of the event again
/// gives the data back.
pub proof fn lemma_event_round_trip(data: Seq<char>)
    ensures
        event_data(event_text(data)) == Some(data),
{
    reveal_strlit("data: ");
    reveal_strlit("\n\n");
    let event = event_text(data);
    assert(event.subrange(0, 6) =~= "data: "@);
    assert(event.subrange(event.len() - 2, event.len() as int) =~= "\n\n"@);
    assert(event.subrange(6, event.len() - 2) =~= data);
}

/// Frames data as an event.
pub fn sse_event(data: &str) -> (event: String)
    ensures
        event@ == event_text(data@),
{
    let mut event: String = "data: ".to_owned();
    event.append(data);
    event.append("\n\n");
    event
}

/// Takes the data out of an event; `None` when the text is not framed as an event.
pub fn sse_data(event: &str) -> (r: Option<String>)
    ensures
        optional_view(r) == event_data(event@),
{
    proof {
        reveal_strlit("data: ");
        reveal_strlit("\n\n");
    }
    let n: usize = event.unicode_len();
    if n < 8 {
        return None;
    }
    if text_eq(event.substring_char(0, 6), "data: ") && text_eq(
        event.substring_char(n - 2, n),
        "\n\n",
    ) {
        Some(event.substring_char(6, n - 2).to_owned())
    } else {
        None
    }
}

/// Cuts a text into the events that it holds whole, each with the blank
/// line that ends it, and what is left behind them.
pub fn take_events(buffer: &str) -> (r: (Vec<String>, String))
    ensures
        (text_views(r.0@), r.1@) == framed(buffer@),
{
    let n: usize = buffer.unicode_len();
    let ghost s = buffer@;
    let mut events: Vec<String> = Vec::new();
    let mut start: usize = 0;
    let mut i: usize = 0;
    assert(s.skip(0) =~= s);
    assert(text_views(events@) =~= Seq::<Seq<char>>::empty());
    while n - i >= 2
        invariant
            start <= i <= n,
            n == s.len(),
            s == buffer@,
            framed(s) == (text_views(events@) + framed(s.skip(start as int)).0, framed(
                s.skip(start as int),
            ).1),
            first_break(s.skip(start as int)) == (i - start) + first_break(s.skip(i as int)),
        decreases n - i,
    {
        let ghost here = s.skip(i as int);
        assert(here[0] == s[i as int] && here[1] == s[i + 1]);
        if buffer.get_char(i) == '\n' && buffer.get_char(i + 1) == '\n' {
            let ghost held = text_views(events@);
            let ghost from = s.skip(start as int);
            events.push(buffer.substring_char(start, i + 2).to_owned());
            proof {
                assert(first_break(from) == i - start);
                assert(from.take(i - start + 2) =~= s.subrange(start as int, i + 2));
                assert(from.skip(i - start + 2) =~= s.skip(i + 2));
                assert(text_views(events@) =~= held + seq![from.take(i - start + 2)]);
                assert(held + (seq![from.take(i - start + 2)] + framed(s.skip(i + 2)).0)
                    =~= text_views(events@) + framed(s.skip(i + 2)).0);
            }
            start = i + 2;
            i = i + 2;
        } else {
            assert(here.skip(1) =~= s.skip(i + 1));
            i = i + 1;
        }
    }
    let rest: String = buffer.substring_char(start, n).to_owned();
    proof {
        lemma_first_break(s.skip(i as int));
        assert(rest@ =~= s.skip(start as int));
        assert(text_views(events@) + Seq::<Seq<char>>::empty() =~= text_views(events@));
    }
    (events, rest)
}

} // verus!
