//! Printing an error and its causes, line by line.

use crate::error::{
    location_text, location_views, Error, ErrorView, Location, LocationView, Trace, TraceOptions,
};
use crate::text::pair_views;
use vstd::prelude::*;
use vstd::string::*;

verus! {

/// One line of a printed trace.
#[derive(Clone, Debug, PartialEq, Eq)]
pub enum Line {
    /// The message of an error.
    Message(String),
    /// A location, as it is written.
    Location(String),
    /// A named value: the name and the value.
    Value(String, String),
}

/// The mathematical value of a `Line`.
pub enum LineView {
    Message(Seq<char>),
    Location(Seq<char>),
    Value(Seq<char>, Seq<char>),
}

impl View for Line {
    type V = LineView;

    open spec fn view(&self) -> LineView {
        match *self {
            Line::Message(m) => LineView::Message(m@),
            Line::Location(l) => LineView::Location(l@),
            Line::Value(n, v) => LineView::Value(n@, v@),
        }
    }
}

/// The values of a sequence of lines, in order.
pub open spec fn line_views(lines: Seq<Line>) -> Seq<LineView> {
    Seq::new(lines.len(), |i: int| lines[i]@)
}

/// How a line is written: a message behind an arrow, anything else
/// indented, a value behind its name and an equals sign.
pub open spec fn line_text(line: LineView) -> Seq<char> {
    match line {
        LineView::Message(m) => "-> "@ + m + "\n"@,
        LineView::Location(l) => "   "@ + l + "\n"@,
        LineView::Value(n, v) => "   "@ + n + " = "@ + v + "\n"@,
    }
}

/// How a sequence of lines is written: one after the other.
pub open spec fn lines_text(lines: Seq<LineView>) -> Seq<char>
    decreases lines.len(),
{
    if lines.len() == 0 {
        Seq::empty()
    } else {
        lines_text(lines.drop_last()) + line_text(lines.last())
    }
}

/// Whether a trace shows a location: one inside the server only on request.
pub open spec fn location_shown(l: LocationView, options: TraceOptions) -> bool {
    !(l.source is Internal) || options.internal
}

/// The line of a trace that shows a location, or nothing when the
/// location is not shown.
pub open spec fn location_lines(l: LocationView, options: TraceOptions) -> Seq<LineView> {
    if location_shown(l, options) {
        seq![LineView::Location(location_text(l))]
    } else {
        Seq::empty()
    }
}

/// The lines of a trace that show named values, in the order given.
pub open spec fn value_lines(values: Seq<(Seq<char>, Seq<char>)>) -> Seq<LineView> {
    Seq::new(values.len(), |i: int| LineView::Value(values[i].0, values[i].1))
}

/// The lines of a trace that show locations, in the order given.
pub open spec fn stack_lines(stack: Seq<LocationView>, options: TraceOptions) -> Seq<LineView>
    decreases stack.len(),
{
    if stack.len() == 0 {
        Seq::empty()
    } else {
        stack_lines(stack.drop_last(), options) + location_lines(stack.last(), options)
    }
}

/// The order in which a trace shows a stack: innermost location first
/// unless the trace is reversed.
pub open spec fn stack_order(stack: Seq<LocationView>, options: TraceOptions) -> Seq<LocationView> {
    if options.reverse {
        stack
    } else {
        stack.reverse()
    }
}

/// The lines of a trace that show one error: its message, its location,
/// its named values, and its stack.
pub open spec fn block_lines(e: ErrorView, options: TraceOptions) -> Seq<LineView> {
    seq![LineView::Message(e.message)] + (match e.location {
        Some(l) => location_lines(l, options),
        None => Seq::empty(),
    }) + value_lines(e.values) + (match e.stack {
        Some(stack) => stack_lines(stack_order(stack, options), options),
        None => Seq::empty(),
    })
}

/// The lines of a trace: the innermost cause first and the error itself
/// last, or the other way round when the trace is reversed.
pub open spec fn trace_lines(e: ErrorView, options: TraceOptions) -> Seq<LineView>
    decreases e,
{
    match e.source {
        None => block_lines(e, options),
        Some(cause) => if options.reverse {
            block_lines(e, options) + trace_lines(*cause, options)
        } else {
            trace_lines(*cause, options) + block_lines(e, options)
        },
    }
}

/// The text of a trace: its lines, one after the other.
pub open spec fn trace_text(e: ErrorView, options: TraceOptions) -> Seq<char> {
    lines_text(trace_lines(e, options))
}

/// A trace begins or ends with the message of the error that it is the
/// trace of: it ends with it unless the trace is reversed. Every cause
/// comes on the other side of it.
pub proof fn lemma_trace_order(e: ErrorView, options: TraceOptions)
    ensures
        e.source matches Some(cause) ==> trace_lines(e, options) == (if options.reverse {
            block_lines(e, options) + trace_lines(*cause, options)
        } else {
            trace_lines(*cause, options) + block_lines(e, options)
        }),
        e.source is None ==> trace_lines(e, options) == block_lines(e, options),
        block_lines(e, options).len() > 0,
        block_lines(e, options)[0] == LineView::Message(e.message),
{
}

impl Line {
    /// Writes the line, with the line break that ends it.
    pub fn to_string(&self) -> (s: String)
        ensures
            s@ == line_text(self@),
    {
        match self {
            Line::Message(m) => {
                let mut s: String = "-> ".to_owned();
                s.append(m.as_str());
                s.append("\n");
                s
            },
            Line::Location(l) => {
                let mut s: String = "   ".to_owned();
                s.append(l.as_str());
                s.append("\n");
                s
            },
            Line::Value(n, v) => {
                let mut s: String = "   ".to_owned();
                s.append(n.as_str());
                s.append(" = ");
                s.append(v.as_str());
                s.append("\n");
                s
            },
        }
    }
}

fn push_location(location: &Location, options: &TraceOptions, out: &mut Vec<Line>)
    ensures
        line_views(final(out)@) == line_views(old(out)@) + location_lines(location@, *options),
{
    if !location.source.is_internal() || options.internal {
        out.push(Line::Location(location.to_string()));
    }
    assert(line_views(final(out)@) =~= line_views(old(out)@) + location_lines(
        location@,
        *options,
    ));
}

fn push_values(values: &Vec<(String, String)>, out: &mut Vec<Line>)
    ensures
        line_views(final(out)@) == line_views(old(out)@) + value_lines(pair_views(values@)),
{
    let ghost all = value_lines(pair_views(values@));
    let mut i: usize = 0;
    assert(line_views(out@) =~= line_views(old(out)@) + all.take(0));
    while i < values.len()
        invariant
            i <= values.len(),
            all == value_lines(pair_views(values@)),
            line_views(out@) == line_views(old(out)@) + all.take(i as int),
        decreases values.len() - i,
    {
        let ghost before = line_views(out@);
        out.push(Line::Value(values[i].0.clone(), values[i].1.clone()));
        assert(line_views(out@) =~= before.push(all[i as int]));
        assert(line_views(out@) =~= line_views(old(out)@) + all.take(i + 1));
        i += 1;
    }
    assert(all.take(values.len() as int) =~= all);
}

fn push_stack(stack: &Vec<Location>, options: &TraceOptions, out: &mut Vec<Line>)
    ensures
        line_views(final(out)@) == line_views(old(out)@) + stack_lines(
            stack_order(location_views(stack@), *options),
            *options,
        ),
{
    let n: usize = stack.len();
    let ghost order = stack_order(location_views(stack@), *options);
    let mut i: usize = 0;
    assert(order.take(0) =~= Seq::<LocationView>::empty());
    assert(line_views(out@) =~= line_views(old(out)@) + stack_lines(order.take(0), *options));
    while i < n
        invariant
            i <= n,
            n == stack.len(),
            order.len() == n,
            order == stack_order(location_views(stack@), *options),
            line_views(out@) == line_views(old(out)@) + stack_lines(
                order.take(i as int),
                *options,
            ),
        decreases n - i,
    {
        let at: usize = if options.reverse {
            i
        } else {
            n - 1 - i
        };
        let ghost before = line_views(out@);
        push_location(&stack[at], options, out);
        proof {
            let next = order.take(i + 1);
            assert(next.drop_last() =~= order.take(i as int));
            assert(next.last() == stack@[at as int]@);
            assert(line_views(out@) =~= line_views(old(out)@) + stack_lines(next, *options));
        }
        i += 1;
    }
    assert(order.take(n as int) =~= order);
}

fn push_block(e: &Error, options: &TraceOptions, out: &mut Vec<Line>)
    ensures
        line_views(final(out)@) == line_views(old(out)@) + block_lines(e@, *options),
{
    let ghost start = line_views(out@);
    let ghost head = seq![LineView::Message(e@.message)];
    let ghost place = match e@.location {
        Some(l) => location_lines(l, *options),
        None => Seq::empty(),
    };
    let ghost named = value_lines(e@.values);
    let ghost stacked = match e@.stack {
        Some(stack) => stack_lines(stack_order(stack, *options), *options),
        None => Seq::empty(),
    };
    out.push(Line::Message(e.message.clone()));
    assert(line_views(out@) =~= start + head);
    if let Some(location) = &e.location {
        push_location(location, options, out);
    }
    assert(line_views(out@) =~= start + head + place);
    push_values(&e.values, out);
    if let Some(stack) = &e.stack {
        push_stack(stack, options, out);
    }
    assert(line_views(out@) =~= start + head + place + named + stacked);
    assert(start + head + place + named + stacked =~= start + (head + place + named + stacked));
}

fn push_trace(e: &Error, options: &TraceOptions, out: &mut Vec<Line>)
    ensures
        line_views(final(out)@) == line_views(old(out)@) + trace_lines(e@, *options),
    decreases e,
{
    match &e.source {
        None => {
            push_block(e, options, out);
        },
        Some(cause) => {
            if options.reverse {
                push_block(e, options, out);
                push_trace(cause, options, out);
            } else {
                push_trace(cause, options, out);
                push_block(e, options, out);
            }
            assert(line_views(final(out)@) =~= line_views(old(out)@) + trace_lines(
                e@,
                *options,
            ));
        },
    }
}

/// Writes lines one after the other.
pub fn render(lines: &Vec<Line>) -> (s: String)
    ensures
        s@ == lines_text(line_views(lines@)),
{
    let ghost all = line_views(lines@);
    let mut s: String = String::new();
    let mut i: usize = 0;
    assert(all.take(0) =~= Seq::<LineView>::empty());
    while i < lines.len()
        invariant
            i <= lines.len(),
            all == line_views(lines@),
            s@ == lines_text(all.take(i as int)),
        decreases lines.len() - i,
    {
        s.append(lines[i].to_string().as_str());
        proof {
            let next = all.take(i + 1);
            assert(next.drop_last() =~= all.take(i as int));
            assert(next.last() == lines@[i as int]@);
        }
        i += 1;
    }
    assert(all.take(lines.len() as int) =~= all);
    s
}

impl<'a> Trace<'a> {
    /// The lines of the trace: for each error its message, its location,
    /// its named values and its stack; locations inside the server only
    /// on request; the innermost cause first unless the trace is reversed.
    pub fn lines(&self) -> (lines: Vec<Line>)
        ensures
            line_views(lines@) == trace_lines(self.error@, *self.options),
    {
        let mut lines: Vec<Line> = Vec::new();
        assert(line_views(lines@) =~= Seq::<LineView>::empty());
        push_trace(self.error, self.options, &mut lines);
        assert(line_views(lines@) =~= trace_lines(self.error@, *self.options));
        lines
    }

    /// Writes the trace: its lines, one after the other.
    pub fn to_string(&self) -> (s: String)
        ensures
            s@ == trace_text(self.error@, *self.options),
    {
        render(&self.lines())
    }
}

} // verus!
