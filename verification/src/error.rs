//! Structured errors: a message, where it arose, what caused it, and named values.

use crate::fault::Fault;
use crate::text::{
    decimal, optional_view, pair_views, push_decimal, strip_suffix, text_eq, text_less, text_lt,
    text_views, without_suffix,
};
use vstd::prelude::*;
use vstd::string::*;

verus! {

/// The file that a location lies in.
#[derive(Clone, Debug)]
pub enum Source {
    /// A file of the server itself.
    Internal { path: String },
    /// A file of a package.
    External { package: String, path: String },
}

/// A place in a source file. Lines and columns count from zero.
#[derive(Clone, Debug)]
pub struct Location {
    pub symbol: Option<String>,
    pub source: Source,
    pub line: u32,
    pub column: u32,
}

/// An error, with the error that caused it, if any.
#[derive(Debug)]
pub struct Error {
    pub message: String,
    pub location: Option<Location>,
    pub stack: Option<Vec<Location>>,
    pub source: Option<Box<Error>>,
    /// Named values, each name at most once.
    pub values: Vec<(String, String)>,
}

/// What a printed trace includes and in which order.
#[derive(Clone, Copy, Debug, PartialEq, Eq, Structural)]
pub struct TraceOptions {
    /// Whether locations inside the server itself are shown.
    pub internal: bool,
    /// Whether the outermost error comes first, rather than the innermost cause.
    pub reverse: bool,
}

/// An error together with the options under which it is printed.
pub struct Trace<'a> {
    pub error: &'a Error,
    pub options: &'a TraceOptions,
}

/// The mathematical value of a `Source`.
pub enum SourceView {
    Internal { path: Seq<char> },
    External { package: Seq<char>, path: Seq<char> },
}

/// The mathematical value of a `Location`.
pub struct LocationView {
    pub symbol: Option<Seq<char>>,
    pub source: SourceView,
    pub line: u32,
    pub column: u32,
}

/// The mathematical value of an `Error`.
pub struct ErrorView {
    pub message: Seq<char>,
    pub location: Option<LocationView>,
    pub stack: Option<Seq<LocationView>>,
    pub source: Option<Box<ErrorView>>,
    pub values: Seq<(Seq<char>, Seq<char>)>,
}

/// The values of a sequence of locations, in order.
pub open spec fn location_views(s: Seq<Location>) -> Seq<LocationView> {
    Seq::new(s.len(), |i: int| s[i]@)
}

impl View for Source {
    type V = SourceView;

    open spec fn view(&self) -> SourceView {
        match *self {
            Source::Internal { path } => SourceView::Internal { path: path@ },
            Source::External { package, path } => SourceView::External {
                package: package@,
                path: path@,
            },
        }
    }
}

impl View for Location {
    type V = LocationView;

    open spec fn view(&self) -> LocationView {
        LocationView {
            symbol: optional_view(self.symbol),
            source: self.source@,
            line: self.line,
            column: self.column,
        }
    }
}

impl View for Error {
    type V = ErrorView;

    open spec fn view(&self) -> ErrorView
        decreases self,
    {
        ErrorView {
            message: self.message@,
            location: match self.location {
                Some(l) => Some(l@),
                None => None,
            },
            stack: match self.stack {
                Some(s) => Some(location_views(s@)),
                None => None,
            },
            source: match self.source {
                Some(cause) => Some(Box::new((*cause)@)),
                None => None,
            },
            values: pair_views(self.values@),
        }
    }
}

impl Source {
    /// A copy of the source.
    pub fn duplicate(&self) -> (copy: Source)
        ensures
            copy@ == self@,
    {
        match self {
            Source::Internal { path } => Source::Internal { path: path.clone() },
            Source::External { package, path } => Source::External {
                package: package.clone(),
                path: path.clone(),
            },
        }
    }

    /// Whether the file belongs to the server itself.
    #[must_use]
    pub fn is_internal(&self) -> (r: bool)
        ensures
            r == (self@ is Internal),
    {
        match self {
            Source::Internal { .. } => true,
            Source::External { .. } => false,
        }
    }

    /// Whether the file belongs to a package.
    #[must_use]
    pub fn is_external(&self) -> (r: bool)
        ensures
            r == (self@ is External),
    {
        match self {
            Source::Internal { .. } => false,
            Source::External { .. } => true,
        }
    }
}

impl Location {
    /// A copy of the location.
    pub fn duplicate(&self) -> (copy: Location)
        ensures
            copy@ == self@,
    {
        Location {
            symbol: match &self.symbol {
                Some(s) => Some(s.clone()),
                None => None,
            },
            source: self.source.duplicate(),
            line: self.line,
            column: self.column,
        }
    }
}

fn copy_locations(stack: &Vec<Location>) -> (copy: Vec<Location>)
    ensures
        location_views(copy@) == location_views(stack@),
{
    let mut copy: Vec<Location> = Vec::new();
    let mut i: usize = 0;
    while i < stack.len()
        invariant
            i <= stack.len(),
            copy.len() == i,
            forall|j: int| 0 <= j < i ==> copy@[j]@ == stack@[j]@,
        decreases stack.len() - i,
    {
        copy.push(stack[i].duplicate());
        i += 1;
    }
    assert(location_views(copy@) =~= location_views(stack@));
    copy
}

fn copy_values(values: &Vec<(String, String)>) -> (copy: Vec<(String, String)>)
    ensures
        pair_views(copy@) == pair_views(values@),
{
    let mut copy: Vec<(String, String)> = Vec::new();
    let mut i: usize = 0;
    while i < values.len()
        invariant
            i <= values.len(),
            copy.len() == i,
            forall|j: int| 0 <= j < i ==> copy@[j].0@ == values@[j].0@ && copy@[j].1@ == values@[j].1@,
        decreases values.len() - i,
    {
        copy.push((values[i].0.clone(), values[i].1.clone()));
        i += 1;
    }
    assert(pair_views(copy@) =~= pair_views(values@));
    copy
}

impl Clone for Error {
    fn clone(&self) -> (copy: Error)
        ensures
            copy@ == self@,
    {
        self.duplicate()
    }
}

impl Error {
    /// A copy of the error and of the errors that caused it.
    pub fn duplicate(&self) -> (copy: Error)
        ensures
            copy@ == self@,
        decreases self,
    {
        Error {
            message: self.message.clone(),
            location: match &self.location {
                Some(l) => Some(l.duplicate()),
                None => None,
            },
            stack: match &self.stack {
                Some(s) => Some(copy_locations(s)),
                None => None,
            },
            source: match &self.source {
                Some(cause) => Some(Box::new(cause.duplicate())),
                None => None,
            },
            values: copy_values(&self.values),
        }
    }

    /// The error paired with the options to print it under.
    #[must_use]
    pub fn trace<'a>(&'a self, options: &'a TraceOptions) -> (t: Trace<'a>)
        ensures
            t.error == self,
            t.options == options,
    {
        Trace { error: self, options }
    }
}

/// How a source is written: the path, with the package and a colon
/// before it for a file of a package.
pub open spec fn source_text(s: SourceView) -> Seq<char> {
    match s {
        SourceView::Internal { path } => path,
        SourceView::External { package, path } => package + ":"@ + path,
    }
}

/// How a location is written: source, line and column, counted from
/// one, with colons between them, and then the symbol after a space.
pub open spec fn location_text(l: LocationView) -> Seq<char> {
    source_text(l.source) + ":"@ + decimal((l.line + 1) as nat) + ":"@ + decimal(
        (l.column + 1) as nat,
    ) + (match l.symbol {
        Some(symbol) => " "@ + symbol,
        None => Seq::empty(),
    })
}

/// The named values after `name` was set to `value`: the value replaced
/// where the name is there already, else the pair put in before the first
/// name that does not come before `name`.
pub open spec fn with_value(
    values: Seq<(Seq<char>, Seq<char>)>,
    name: Seq<char>,
    value: Seq<char>,
) -> Seq<(Seq<char>, Seq<char>)>
    decreases values.len(),
{
    if values.len() == 0 {
        seq![(name, value)]
    } else if values[0].0 == name {
        seq![(name, value)] + values.skip(1)
    } else if text_less(values[0].0, name) {
        seq![values[0]] + with_value(values.skip(1), name, value)
    } else {
        seq![(name, value)] + values
    }
}

/// The value of `name` among named values: that of the first pair of
/// that name, if there is one.
pub open spec fn value_of(values: Seq<(Seq<char>, Seq<char>)>, name: Seq<char>) -> Option<
    Seq<char>,
>
    decreases values.len(),
{
    if values.len() == 0 {
        None
    } else if values[0].0 == name {
        Some(values[0].1)
    } else {
        value_of(values.skip(1), name)
    }
}

/// The kind of failure that an error reports: the one that it names
/// under `fault`, and `Internal` when it names none.
pub open spec fn fault_of(e: ErrorView) -> Fault {
    match value_of(e.values, "fault"@) {
        Some(token) => Fault::of_token(token),
        None => Fault::Internal,
    }
}

/// The error that reports a failure of a kind and says no more.
pub open spec fn of_fault(fault: Fault) -> ErrorView {
    ErrorView {
        message: fault.message(),
        location: None,
        stack: None,
        source: None,
        values: seq![("fault"@, fault.token())],
    }
}

/// The error that reports a failure of a kind reports that kind.
pub proof fn lemma_fault_round_trip(fault: Fault)
    ensures
        fault_of(of_fault(fault)) == fault,
{
    fault.lemma_token_round_trip();
}

/// The error that a chain of messages stands for: the first message is the
/// error's, the next its cause's, and so on. `None` for an empty chain.
pub open spec fn chain(messages: Seq<Seq<char>>) -> Option<ErrorView>
    decreases messages.len(),
{
    if messages.len() == 0 {
        None
    } else {
        Some(
            ErrorView {
                message: messages[0],
                location: None,
                stack: None,
                source: match chain(messages.skip(1)) {
                    Some(cause) => Some(Box::new(cause)),
                    None => None,
                },
                values: Seq::empty(),
            },
        )
    }
}

impl Source {
    /// Writes the source.
    pub fn to_string(&self) -> (s: String)
        ensures
            s@ == source_text(self@),
    {
        match self {
            Source::Internal { path } => path.clone(),
            Source::External { package, path } => {
                let mut s: String = package.clone();
                s.append(":");
                s.append(path.as_str());
                s
            },
        }
    }
}

impl Location {
    /// The location of a line and column of a file of the server itself,
    /// where `line` and `column` count from one.
    pub fn internal(path: String, line: u32, column: u32) -> (l: Location)
        requires
            line >= 1,
            column >= 1,
        ensures
            l.symbol is None,
            l.source == (Source::Internal { path }),
            l.line == line - 1,
            l.column == column - 1,
    {
        Location { symbol: None, source: Source::Internal { path }, line: line - 1, column: column - 1 }
    }

    /// Writes the location.
    pub fn to_string(&self) -> (s: String)
        ensures
            s@ == location_text(self@),
    {
        let mut s: String = self.source.to_string();
        s.append(":");
        push_decimal(&mut s, self.line as u64 + 1);
        s.append(":");
        push_decimal(&mut s, self.column as u64 + 1);
        if let Some(symbol) = &self.symbol {
            s.append(" ");
            s.append(symbol.as_str());
        }
        assert(s@ =~= location_text(self@));
        s
    }
}

fn set_in(values: &mut Vec<(String, String)>, name: String, value: String)
    ensures
        pair_views(final(values)@) == with_value(pair_views(old(values)@), name@, value@),
{
    let ghost all = pair_views(values@);
    let mut i: usize = 0;
    assert(all.skip(0) =~= all);
    assert(all.take(0) + with_value(all.skip(0), name@, value@) =~= with_value(
        all,
        name@,
        value@,
    ));
    while i < values.len()
        invariant
            i <= values.len(),
            values@ == old(values)@,
            all == pair_views(values@),
            with_value(all, name@, value@) == all.take(i as int) + with_value(
                all.skip(i as int),
                name@,
                value@,
            ),
        decreases values.len() - i,
    {
        let ghost rest = all.skip(i as int);
        assert(rest[0] == all[i as int]);
        assert(rest.skip(1) =~= all.skip(i + 1));
        if text_eq(values[i].0.as_str(), name.as_str()) {
            values.set(i, (name, value));
            assert(pair_views(values@) =~= all.take(i as int) + (seq![(name@, value@)]
                + rest.skip(1)));
            return ;
        }
        if !text_lt(values[i].0.as_str(), name.as_str()) {
            values.insert(i, (name, value));
            assert(pair_views(values@) =~= all.take(i as int) + (seq![(name@, value@)] + rest));
            return ;
        }
        assert(all.take(i + 1) + with_value(all.skip(i + 1), name@, value@) =~= all.take(
            i as int,
        ) + (seq![rest[0]] + with_value(rest.skip(1), name@, value@)));
        i += 1;
    }
    values.push((name, value));
    assert(all.skip(all.len() as int) =~= Seq::<(Seq<char>, Seq<char>)>::empty());
    assert(pair_views(values@) =~= all.take(all.len() as int) + seq![(name@, value@)]);
}

impl Error {
    /// The error that reports a failure of a kind and says no more.
    pub fn from_fault(fault: Fault) -> (e: Error)
        ensures
            e@ == of_fault(fault),
    {
        let mut values: Vec<(String, String)> = Vec::new();
        values.push(("fault".to_owned(), fault.as_str().to_owned()));
        let e = Error {
            message: fault.describe().to_owned(),
            location: None,
            stack: None,
            source: None,
            values,
        };
        assert(e@.values =~= seq![("fault"@, fault.token())]);
        e
    }

    /// The kind of failure that the error reports: the one that it names
    /// under `fault` among its values, and `Internal` when it names none.
    pub fn fault(&self) -> (r: Fault)
        ensures
            r == fault_of(self@),
    {
        let ghost all = pair_views(self.values@);
        let mut i: usize = 0;
        assert(all.skip(0) =~= all);
        while i < self.values.len()
            invariant
                i <= self.values.len(),
                all == pair_views(self.values@),
                value_of(all, "fault"@) == value_of(all.skip(i as int), "fault"@),
            decreases self.values.len() - i,
        {
            let ghost rest = all.skip(i as int);
            assert(rest[0] == all[i as int]);
            assert(rest.skip(1) =~= all.skip(i + 1));
            if text_eq(self.values[i].0.as_str(), "fault") {
                return Fault::parse(self.values[i].1.as_str());
            }
            i += 1;
        }
        Fault::Internal
    }

    /// An error with a message and nothing else.
    pub fn new(message: String) -> (e: Error)
        ensures
            e.message == message,
            e.location is None,
            e.stack is None,
            e.source is None,
            e.values@.len() == 0,
    {
        Error { message, location: None, stack: None, source: None, values: Vec::new() }
    }

    /// An error with a message and nothing else, as a serializer reports it.
    pub fn custom(message: String) -> (e: Error)
        ensures
            e.message == message,
            e.location is None,
            e.stack is None,
            e.source is None,
            e.values@.len() == 0,
    {
        Error::new(message)
    }

    /// The error, said to have arisen at `location`.
    pub fn with_location(self, location: Location) -> (e: Error)
        ensures
            e == (Error { location: Some(location), ..self }),
    {
        let mut e = self;
        e.location = Some(location);
        e
    }

    /// The error, said to have been caused by `cause`.
    pub fn with_source(self, cause: Error) -> (e: Error)
        ensures
            e == (Error { source: Some(Box::new(cause)), ..self }),
    {
        let mut e = self;
        e.source = Some(Box::new(cause));
        e
    }

    /// The error, with `stack` as its stack.
    pub fn with_stack(self, stack: Vec<Location>) -> (e: Error)
        ensures
            e == (Error { stack: Some(stack), ..self }),
    {
        let mut e = self;
        e.stack = Some(stack);
        e
    }

    /// The error, with `name` set to `value` among its named values.
    pub fn with_value(self, name: String, value: String) -> (e: Error)
        ensures
            e@ == (ErrorView {
                values: with_value(self@.values, name@, value@),
                ..self@
            }),
    {
        let mut e = self;
        set_in(&mut e.values, name, value);
        e
    }

    /// The error that a chain of messages stands for: the first message is
    /// the error's own, the next its cause's, and so on. `None` for an
    /// empty chain.
    pub fn from_chain(messages: &Vec<String>) -> (r: Option<Error>)
        ensures
            (match r {
                Some(e) => Some(e@),
                None => None,
            }) == chain(text_views(messages@)),
    {
        let ghost all = text_views(messages@);
        let mut r: Option<Error> = None;
        let mut i: usize = messages.len();
        assert(all.skip(all.len() as int) =~= Seq::<Seq<char>>::empty());
        while i > 0
            invariant
                i <= messages.len(),
                all == text_views(messages@),
                (match r {
                    Some(e) => Some(e@),
                    None => None,
                }) == chain(all.skip(i as int)),
            decreases i,
        {
            i -= 1;
            let ghost rest = all.skip(i as int);
            assert(rest[0] == messages@[i as int]@);
            assert(rest.skip(1) =~= all.skip(i + 1));
            let e = Error {
                message: messages[i].clone(),
                location: None,
                stack: None,
                source: match r {
                    Some(cause) => Some(Box::new(cause)),
                    None => None,
                },
                values: Vec::new(),
            };
            assert(pair_views(e.values@) =~= Seq::<(Seq<char>, Seq<char>)>::empty());
            r = Some(e);
        }
        assert(all.skip(0) =~= all);
        r
    }
}

impl Default for TraceOptions {
    fn default() -> (o: TraceOptions)
        ensures
            !o.internal,
            !o.reverse,
    {
        TraceOptions { internal: false, reverse: false }
    }
}

/// The name of the function in which a marker type named `__Dummy` was
/// declared, given the full name of that type as `marker`. `None` when it is not
/// the name of such a type.
pub fn function_symbol(marker: &str) -> (r: Option<String>)
    ensures
        match r {
            Some(symbol) => without_suffix(marker@, "::__Dummy"@) == Some(symbol@),
            None => without_suffix(marker@, "::__Dummy"@) is None,
        },
{
    strip_suffix(marker, "::__Dummy")
}

} // verus!
