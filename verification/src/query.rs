//! How the arguments of a reader travel in the query of a request.

use crate::children;
use crate::cursor::Seek;
use crate::fault::Fault;
use crate::log;
use crate::outside::{query_decode, query_encode, query_pairs, query_text};
use crate::text::{
    decimal, digit_value, find_char, first_index, i64_of, lemma_decimal_round_trip,
    lemma_first_index_unique, optional_view, pair_views, parse_i64, parse_u64, push_decimal,
    text_eq, u64_of,
};
use vstd::prelude::*;
use vstd::string::*;

verus! {

/// The values that a query gives to the names that a reader knows, as they
/// were written.
#[derive(Clone, Debug, PartialEq, Eq)]
pub struct Fields {
    pub length: Option<String>,
    pub position: Option<String>,
    pub size: Option<String>,
    pub timeout: Option<String>,
}

/// The mathematical value of `Fields`.
pub struct FieldsView {
    pub length: Option<Seq<char>>,
    pub position: Option<Seq<char>>,
    pub size: Option<Seq<char>>,
    pub timeout: Option<Seq<char>>,
}

impl View for Fields {
    type V = FieldsView;

    open spec fn view(&self) -> FieldsView {
        FieldsView {
            length: optional_view(self.length),
            position: optional_view(self.position),
            size: optional_view(self.size),
            timeout: optional_view(self.timeout),
        }
    }
}

/// The fields after one more pair of a query was read: a name that a
/// reader knows takes the value, a name that it does not know is passed
/// over, and a name that has a value already makes the query invalid.
pub open spec fn with_pair(f: FieldsView, name: Seq<char>, value: Seq<char>) -> Option<FieldsView> {
    if name == "length"@ {
        if f.length is Some {
            None
        } else {
            Some(FieldsView { length: Some(value), ..f })
        }
    } else if name == "position"@ {
        if f.position is Some {
            None
        } else {
            Some(FieldsView { position: Some(value), ..f })
        }
    } else if name == "size"@ {
        if f.size is Some {
            None
        } else {
            Some(FieldsView { size: Some(value), ..f })
        }
    } else if name == "timeout"@ {
        if f.timeout is Some {
            None
        } else {
            Some(FieldsView { timeout: Some(value), ..f })
        }
    } else {
        Some(f)
    }
}

/// The fields that the pairs of a query give, or `None` when a name that
/// a reader knows comes twice.
pub open spec fn fields_of(pairs: Seq<(Seq<char>, Seq<char>)>) -> Option<FieldsView>
    decreases pairs.len(),
{
    if pairs.len() == 0 {
        Some(FieldsView { length: None, position: None, size: None, timeout: None })
    } else {
        match fields_of(pairs.drop_last()) {
            Some(f) => with_pair(f, pairs.last().0, pairs.last().1),
            None => None,
        }
    }
}

/// How a whole number is written: in decimal, with a minus sign before a
/// negative one.
pub open spec fn signed_decimal(k: int) -> Seq<char> {
    if k < 0 {
        "-"@ + decimal((-k) as nat)
    } else {
        decimal(k as nat)
    }
}

/// How a seek is written: where it counts from, a dot, and the number.
pub open spec fn seek_text(seek: Seek) -> Seq<char> {
    match seek {
        Seek::Start(p) => "start."@ + decimal(p as nat),
        Seek::End(k) => "end."@ + signed_decimal(k as int),
        Seek::Current(k) => "current."@ + signed_decimal(k as int),
    }
}

/// The seek that a text reads as: `start`, `end` or `current`, a dot, and
/// a number that must not be negative after `start`.
pub open spec fn seek_of(s: Seq<char>) -> Option<Seek> {
    let dot = first_index(s, '.');
    if dot < s.len() {
        let head = s.subrange(0, dot);
        let tail = s.subrange(dot + 1, s.len() as int);
        if head == "start"@ {
            match u64_of(tail) {
                Some(p) => Some(Seek::Start(p)),
                None => None,
            }
        } else if head == "end"@ {
            match i64_of(tail) {
                Some(k) => Some(Seek::End(k)),
                None => None,
            }
        } else if head == "current"@ {
            match i64_of(tail) {
                Some(k) => Some(Seek::Current(k)),
                None => None,
            }
        } else {
            None
        }
    } else {
        None
    }
}

/// The number that an optional text reads as: absent when the text is,
/// and `None` when the text is no number.
pub open spec fn optional_u64(t: Option<Seq<char>>) -> Option<Option<u64>> {
    match t {
        None => Some(None),
        Some(s) => match u64_of(s) {
            Some(n) => Some(Some(n)),
            None => None,
        },
    }
}

/// The number that an optional text reads as: absent when the text is,
/// and `None` when the text is no number.
pub open spec fn optional_i64(t: Option<Seq<char>>) -> Option<Option<i64>> {
    match t {
        None => Some(None),
        Some(s) => match i64_of(s) {
            Some(n) => Some(Some(n)),
            None => None,
        },
    }
}

/// The seek that an optional text reads as: absent when the text is, and
/// `None` when the text is no seek.
pub open spec fn optional_seek(t: Option<Seq<char>>) -> Option<Option<Seek>> {
    match t {
        None => Some(None),
        Some(s) => match seek_of(s) {
            Some(seek) => Some(Some(seek)),
            None => None,
        },
    }
}

/// What a reader of children asks for, as the fields of a query say it.
pub open spec fn children_arg_of(f: FieldsView) -> Option<children::Arg> {
    match (
        optional_u64(f.length),
        optional_seek(f.position),
        optional_u64(f.size),
        optional_u64(f.timeout),
    ) {
        (Some(length), Some(position), Some(size), Some(timeout)) => Some(
            children::Arg { length, position, size, timeout },
        ),
        _ => None,
    }
}

/// What a reader of a log asks for, as the fields of a query say it.
pub open spec fn log_arg_of(f: FieldsView) -> Option<log::Arg> {
    match (
        optional_i64(f.length),
        optional_seek(f.position),
        optional_u64(f.size),
        optional_u64(f.timeout),
    ) {
        (Some(length), Some(position), Some(size), Some(timeout)) => Some(
            log::Arg { length, position, size, timeout },
        ),
        _ => None,
    }
}

/// The pairs under which the parts of a reader's arguments are written:
/// those that are present, in the order length, position, size, timeout.
pub open spec fn pairs_of(
    length: Option<Seq<char>>,
    position: Option<Seq<char>>,
    size: Option<Seq<char>>,
    timeout: Option<Seq<char>>,
) -> Seq<(Seq<char>, Seq<char>)> {
    (match length {
        Some(v) => seq![("length"@, v)],
        None => Seq::empty(),
    }) + (match position {
        Some(v) => seq![("position"@, v)],
        None => Seq::empty(),
    }) + (match size {
        Some(v) => seq![("size"@, v)],
        None => Seq::empty(),
    }) + (match timeout {
        Some(v) => seq![("timeout"@, v)],
        None => Seq::empty(),
    })
}

/// The value of an optional number, written in decimal.
pub open spec fn optional_decimal(n: Option<u64>) -> Option<Seq<char>> {
    match n {
        Some(n) => Some(decimal(n as nat)),
        None => None,
    }
}

/// The pairs under which what a reader of children asks for is written.
pub open spec fn children_pairs(arg: children::Arg) -> Seq<(Seq<char>, Seq<char>)> {
    pairs_of(
        optional_decimal(arg.length),
        match arg.position {
            Some(seek) => Some(seek_text(seek)),
            None => None,
        },
        optional_decimal(arg.size),
        optional_decimal(arg.timeout),
    )
}

/// The pairs under which what a reader of a log asks for is written.
pub open spec fn log_pairs(arg: log::Arg) -> Seq<(Seq<char>, Seq<char>)> {
    pairs_of(
        match arg.length {
            Some(l) => Some(signed_decimal(l as int)),
            None => None,
        },
        match arg.position {
            Some(seek) => Some(seek_text(seek)),
            None => None,
        },
        optional_decimal(arg.size),
        optional_decimal(arg.timeout),
    )
}

fn push_signed(out: &mut String, k: i64)
    ensures
        final(out)@ == old(out)@ + signed_decimal(k as int),
{
    if k < 0 {
        out.append("-");
        let magnitude: u64 = (-(k + 1)) as u64 + 1;
        push_decimal(out, magnitude);
        assert(final(out)@ =~= old(out)@ + signed_decimal(k as int));
    } else {
        push_decimal(out, k as u64);
    }
}

fn decimal_text(n: u64) -> (s: String)
    ensures
        s@ == decimal(n as nat),
{
    let mut s: String = String::new();
    push_decimal(&mut s, n);
    assert(s@ =~= decimal(n as nat));
    s
}

fn signed_text(k: i64) -> (s: String)
    ensures
        s@ == signed_decimal(k as int),
{
    let mut s: String = String::new();
    push_signed(&mut s, k);
    assert(s@ =~= signed_decimal(k as int));
    s
}

impl Seek {
    /// Writes the seek.
    pub fn to_string(&self) -> (s: String)
        ensures
            s@ == seek_text(*self),
    {
        match self {
            Seek::Start(p) => {
                let mut s: String = "start.".to_owned();
                push_decimal(&mut s, *p);
                s
            },
            Seek::End(k) => {
                let mut s: String = "end.".to_owned();
                push_signed(&mut s, *k);
                s
            },
            Seek::Current(k) => {
                let mut s: String = "current.".to_owned();
                push_signed(&mut s, *k);
                s
            },
        }
    }

    /// Reads a seek; `Invalid` when the text is none.
    pub fn parse(text: &str) -> (r: Result<Seek, Fault>)
        ensures
            match r {
                Ok(seek) => seek_of(text@) == Some(seek),
                Err(e) => e == Fault::Invalid && seek_of(text@) is None,
            },
    {
        let n: usize = text.unicode_len();
        let dot: usize = match find_char(text, '.') {
            Some(i) => i,
            None => {
                return Err(Fault::Invalid);
            },
        };
        let head: &str = text.substring_char(0, dot);
        let tail: &str = text.substring_char(dot + 1, n);
        if text_eq(head, "start") {
            match parse_u64(tail) {
                Some(p) => Ok(Seek::Start(p)),
                None => Err(Fault::Invalid),
            }
        } else if text_eq(head, "end") {
            match parse_i64(tail) {
                Some(k) => Ok(Seek::End(k)),
                None => Err(Fault::Invalid),
            }
        } else if text_eq(head, "current") {
            match parse_i64(tail) {
                Some(k) => Ok(Seek::Current(k)),
                None => Err(Fault::Invalid),
            }
        } else {
            Err(Fault::Invalid)
        }
    }
}

fn read_u64(t: &Option<String>) -> (r: Option<Option<u64>>)
    ensures
        r == optional_u64(optional_view(*t)),
{
    match t {
        None => Some(None),
        Some(s) => match parse_u64(s.as_str()) {
            Some(n) => Some(Some(n)),
            None => None,
        },
    }
}

fn read_i64(t: &Option<String>) -> (r: Option<Option<i64>>)
    ensures
        r == optional_i64(optional_view(*t)),
{
    match t {
        None => Some(None),
        Some(s) => match parse_i64(s.as_str()) {
            Some(n) => Some(Some(n)),
            None => None,
        },
    }
}

fn read_seek(t: &Option<String>) -> (r: Option<Option<Seek>>)
    ensures
        r == optional_seek(optional_view(*t)),
{
    match t {
        None => Some(None),
        Some(s) => match Seek::parse(s.as_str()) {
            Ok(seek) => Some(Some(seek)),
            Err(_) => None,
        },
    }
}

impl Fields {
    /// The fields that the pairs of a query give; `Invalid` when a name
    /// that a reader knows comes twice.
    pub fn of_pairs(pairs: &Vec<(String, String)>) -> (r: Result<Fields, Fault>)
        ensures
            match r {
                Ok(f) => fields_of(pair_views(pairs@)) == Some(f@),
                Err(e) => e == Fault::Invalid && fields_of(pair_views(pairs@)) is None,
            },
    {
        let ghost all = pair_views(pairs@);
        let mut f = Fields { length: None, position: None, size: None, timeout: None };
        let mut i: usize = 0;
        assert(all.take(0) =~= Seq::<(Seq<char>, Seq<char>)>::empty());
        while i < pairs.len()
            invariant
                i <= pairs.len(),
                all == pair_views(pairs@),
                fields_of(all.take(i as int)) == Some(f@),
            decreases pairs.len() - i,
        {
            proof {
                let next = all.take(i + 1);
                assert(next.drop_last() =~= all.take(i as int));
                assert(next.last() == all[i as int]);
            }
            let name: &str = pairs[i].0.as_str();
            let slot: &mut Option<String> = if text_eq(name, "length") {
                &mut f.length
            } else if text_eq(name, "position") {
                &mut f.position
            } else if text_eq(name, "size") {
                &mut f.size
            } else if text_eq(name, "timeout") {
                &mut f.timeout
            } else {
                i += 1;
                continue ;
            };
            if slot.is_some() {
                proof {
                    lemma_fields_of_fails(all, i + 1);
                }
                return Err(Fault::Invalid);
            }
            *slot = Some(pairs[i].1.clone());
            i += 1;
        }
        assert(all.take(pairs.len() as int) =~= all);
        Ok(f)
    }
}

/// Once a name came twice, no later pair mends the query.
proof fn lemma_fields_of_fails(pairs: Seq<(Seq<char>, Seq<char>)>, n: int)
    requires
        0 <= n <= pairs.len(),
        fields_of(pairs.take(n)) is None,
    ensures
        fields_of(pairs) is None,
    decreases pairs.len() - n,
{
    if n < pairs.len() {
        assert(pairs.take(n + 1).drop_last() =~= pairs.take(n));
        lemma_fields_of_fails(pairs, n + 1);
    } else {
        assert(pairs.take(n) =~= pairs);
    }
}

fn push_pair(list: &mut Vec<(String, String)>, name: &str, value: Option<String>)
    ensures
        pair_views(final(list)@) == pair_views(old(list)@) + (match value {
            Some(v) => seq![(name@, v@)],
            None => Seq::empty(),
        }),
{
    if let Some(v) = value {
        list.push((name.to_owned(), v));
    }
    assert(pair_views(final(list)@) =~= pair_views(old(list)@) + (match value {
        Some(v) => seq![(name@, v@)],
        None => Seq::empty(),
    }));
}

fn pairs_from(
    length: Option<String>,
    position: Option<String>,
    size: Option<String>,
    timeout: Option<String>,
) -> (list: Vec<(String, String)>)
    ensures
        pair_views(list@) == pairs_of(
            optional_view(length),
            optional_view(position),
            optional_view(size),
            optional_view(timeout),
        ),
{
    let mut list: Vec<(String, String)> = Vec::new();
    assert(pair_views(list@) =~= Seq::<(Seq<char>, Seq<char>)>::empty());
    push_pair(&mut list, "length", length);
    push_pair(&mut list, "position", position);
    push_pair(&mut list, "size", size);
    push_pair(&mut list, "timeout", timeout);
    assert(pair_views(list@) =~= pairs_of(
        optional_view(length),
        optional_view(position),
        optional_view(size),
        optional_view(timeout),
    ));
    list
}

fn optional_decimal_text(n: Option<u64>) -> (r: Option<String>)
    ensures
        optional_view(r) == optional_decimal(n),
{
    match n {
        Some(n) => Some(decimal_text(n)),
        None => None,
    }
}

fn optional_seek_text(seek: Option<Seek>) -> (r: Option<String>)
    ensures
        optional_view(r) == (match seek {
            Some(seek) => Some(seek_text(seek)),
            None => None,
        }),
{
    match seek {
        Some(seek) => Some(seek.to_string()),
        None => None,
    }
}

/// What a reader of children asks for, as the fields of a query say it;
/// `Invalid` when a value is not what its name calls for.
pub fn children_arg_from_fields(f: &Fields) -> (r: Result<children::Arg, Fault>)
    ensures
        match r {
            Ok(arg) => children_arg_of(f@) == Some(arg),
            Err(e) => e == Fault::Invalid && children_arg_of(f@) is None,
        },
{
    match (read_u64(&f.length), read_seek(&f.position), read_u64(&f.size), read_u64(&f.timeout)) {
        (Some(length), Some(position), Some(size), Some(timeout)) => Ok(
            children::Arg { length, position, size, timeout },
        ),
        _ => Err(Fault::Invalid),
    }
}

/// What a reader of a log asks for, as the fields of a query say it;
/// `Invalid` when a value is not what its name calls for.
pub fn log_arg_from_fields(f: &Fields) -> (r: Result<log::Arg, Fault>)
    ensures
        match r {
            Ok(arg) => log_arg_of(f@) == Some(arg),
            Err(e) => e == Fault::Invalid && log_arg_of(f@) is None,
        },
{
    match (read_i64(&f.length), read_seek(&f.position), read_u64(&f.size), read_u64(&f.timeout)) {
        (Some(length), Some(position), Some(size), Some(timeout)) => Ok(
            log::Arg { length, position, size, timeout },
        ),
        _ => Err(Fault::Invalid),
    }
}

/// What the query of a request asks of a reader of children: nothing
/// when there is no query; `Invalid` when the query cannot be read.
pub open spec fn children_arg_of_query(query: Option<Seq<char>>) -> Option<children::Arg> {
    match query {
        None => Some(children::Arg { length: None, position: None, size: None, timeout: None }),
        Some(q) => match query_pairs(q) {
            Some(pairs) => match fields_of(pairs) {
                Some(f) => children_arg_of(f),
                None => None,
            },
            None => None,
        },
    }
}

/// What the query of a request asks of a reader of a log: nothing when
/// there is no query; `Invalid` when the query cannot be read.
pub open spec fn log_arg_of_query(query: Option<Seq<char>>) -> Option<log::Arg> {
    match query {
        None => Some(log::Arg { length: None, position: None, size: None, timeout: None }),
        Some(q) => match query_pairs(q) {
            Some(pairs) => match fields_of(pairs) {
                Some(f) => log_arg_of(f),
                None => None,
            },
            None => None,
        },
    }
}

/// Reads what a request asks of a reader of children from its query.
pub fn children_arg_from_query(query: Option<&str>) -> (r: Result<children::Arg, Fault>)
    ensures
        match r {
            Ok(arg) => children_arg_of_query(
                match query {
                    Some(q) => Some(q@),
                    None => None,
                },
            ) == Some(arg),
            Err(e) => e == Fault::Invalid && children_arg_of_query(
                match query {
                    Some(q) => Some(q@),
                    None => None,
                },
            ) is None,
        },
{
    match query {
        None => Ok(children::Arg { length: None, position: None, size: None, timeout: None }),
        Some(q) => match query_decode(q) {
            Some(pairs) => match Fields::of_pairs(&pairs) {
                Ok(f) => children_arg_from_fields(&f),
                Err(e) => Err(e),
            },
            None => Err(Fault::Invalid),
        },
    }
}

/// Reads what a request asks of a reader of a log from its query.
pub fn log_arg_from_query(query: Option<&str>) -> (r: Result<log::Arg, Fault>)
    ensures
        match r {
            Ok(arg) => log_arg_of_query(
                match query {
                    Some(q) => Some(q@),
                    None => None,
                },
            ) == Some(arg),
            Err(e) => e == Fault::Invalid && log_arg_of_query(
                match query {
                    Some(q) => Some(q@),
                    None => None,
                },
            ) is None,
        },
{
    match query {
        None => Ok(log::Arg { length: None, position: None, size: None, timeout: None }),
        Some(q) => match query_decode(q) {
            Some(pairs) => match Fields::of_pairs(&pairs) {
                Ok(f) => log_arg_from_fields(&f),
                Err(e) => Err(e),
            },
            None => Err(Fault::Invalid),
        },
    }
}

/// The pairs under which what a reader of children asks for is written.
pub fn children_arg_to_pairs(arg: &children::Arg) -> (list: Vec<(String, String)>)
    ensures
        pair_views(list@) == children_pairs(*arg),
{
    pairs_from(
        optional_decimal_text(arg.length),
        optional_seek_text(arg.position),
        optional_decimal_text(arg.size),
        optional_decimal_text(arg.timeout),
    )
}

/// The pairs under which what a reader of a log asks for is written.
pub fn log_arg_to_pairs(arg: &log::Arg) -> (list: Vec<(String, String)>)
    ensures
        pair_views(list@) == log_pairs(*arg),
{
    let length: Option<String> = match arg.length {
        Some(l) => Some(signed_text(l)),
        None => None,
    };
    pairs_from(
        length,
        optional_seek_text(arg.position),
        optional_decimal_text(arg.size),
        optional_decimal_text(arg.timeout),
    )
}

/// The query that says what a reader of children asks for.
pub fn children_arg_to_query(arg: &children::Arg) -> (r: Option<String>)
    ensures
        optional_view(r) == query_text(children_pairs(*arg)),
{
    query_encode(&children_arg_to_pairs(arg))
}

/// The query that says what a reader of a log asks for.
pub fn log_arg_to_query(arg: &log::Arg) -> (r: Option<String>)
    ensures
        optional_view(r) == query_text(log_pairs(*arg)),
{
    query_encode(&log_arg_to_pairs(arg))
}

/// Reading what was written for a number gives the number back.
pub proof fn lemma_number_round_trip(n: u64, k: i64)
    ensures
        u64_of(decimal(n as nat)) == Some(n),
        i64_of(signed_decimal(k as int)) == Some(k),
        first_index(decimal(n as nat), '.') == decimal(n as nat).len(),
        first_index(signed_decimal(k as int), '.') == signed_decimal(k as int).len(),
{
    reveal_strlit("-");
    lemma_decimal_round_trip(n as nat);
    let digits = decimal(n as nat);
    assert(digit_value(digits[0]) is Some);
    lemma_first_index_unique(digits, '.', digits.len() as int);
    let signed = signed_decimal(k as int);
    if k < 0 {
        let magnitude = decimal((-k) as nat);
        lemma_decimal_round_trip((-k) as nat);
        assert(signed.skip(1) =~= magnitude);
        assert(signed[0] == '-');
        assert forall|j: int| 0 <= j < signed.len() implies signed[j] != '.' by {
            if j > 0 {
                assert(signed[j] == magnitude[j - 1]);
                assert(digit_value(magnitude[j - 1]) is Some);
            }
        }
    } else {
        lemma_decimal_round_trip(k as nat);
        assert(digit_value(signed[0]) is Some);
        assert forall|j: int| 0 <= j < signed.len() implies signed[j] != '.' by {
            assert(digit_value(signed[j]) is Some);
        }
    }
    lemma_first_index_unique(signed, '.', signed.len() as int);
}

/// Reading what was written for a seek gives the seek back.
pub proof fn lemma_seek_round_trip(seek: Seek)
    ensures
        seek_of(seek_text(seek)) == Some(seek),
{
    reveal_strlit("start.");
    reveal_strlit("end.");
    reveal_strlit("current.");
    reveal_strlit("start");
    reveal_strlit("end");
    reveal_strlit("current");
    let s = seek_text(seek);
    match seek {
        Seek::Start(p) => {
            lemma_number_round_trip(p, 0);
            lemma_first_index_unique(s, '.', 5);
            assert(s.subrange(0, 5) =~= "start"@);
            assert(s.subrange(6, s.len() as int) =~= decimal(p as nat));
        },
        Seek::End(k) => {
            lemma_number_round_trip(0, k);
            lemma_first_index_unique(s, '.', 3);
            assert(s.subrange(0, 3) =~= "end"@);
            assert(s.subrange(4, s.len() as int) =~= signed_decimal(k as int));
            assert("end"@ != "start"@);
        },
        Seek::Current(k) => {
            lemma_number_round_trip(0, k);
            lemma_first_index_unique(s, '.', 7);
            assert(s.subrange(0, 7) =~= "current"@);
            assert(s.subrange(8, s.len() as int) =~= signed_decimal(k as int));
            assert("current"@ != "start"@);
            assert("current"@ != "end"@);
        },
    }
}

/// Reading the pairs that were written for the parts of a reader's
/// arguments gives the parts back.
pub proof fn lemma_fields_round_trip(
    length: Option<Seq<char>>,
    position: Option<Seq<char>>,
    size: Option<Seq<char>>,
    timeout: Option<Seq<char>>,
)
    ensures
        fields_of(pairs_of(length, position, size, timeout)) == Some(
            FieldsView { length, position, size, timeout },
        ),
{
    reveal_strlit("length");
    reveal_strlit("position");
    reveal_strlit("size");
    reveal_strlit("timeout");
    assert("length"@[0] == 'l' && "position"@[0] == 'p' && "size"@[0] == 's' && "timeout"@[0]
        == 't');
    let none: Seq<(Seq<char>, Seq<char>)> = Seq::empty();
    let first = none + (match length {
        Some(v) => seq![("length"@, v)],
        None => Seq::empty(),
    });
    let second = first + (match position {
        Some(v) => seq![("position"@, v)],
        None => Seq::empty(),
    });
    let third = second + (match size {
        Some(v) => seq![("size"@, v)],
        None => Seq::empty(),
    });
    let fourth = third + (match timeout {
        Some(v) => seq![("timeout"@, v)],
        None => Seq::empty(),
    });
    assert(fields_of(none) == Some(
        FieldsView { length: None, position: None, size: None, timeout: None },
    ));
    assert(fields_of(first) == Some(
        FieldsView { length, position: None, size: None, timeout: None },
    )) by {
        if length is Some {
            assert(first.drop_last() =~= none);
        } else {
            assert(first =~= none);
        }
    }
    assert(fields_of(second) == Some(FieldsView { length, position, size: None, timeout: None }))
        by {
        if position is Some {
            assert(second.drop_last() =~= first);
        } else {
            assert(second =~= first);
        }
    }
    assert(fields_of(third) == Some(FieldsView { length, position, size, timeout: None })) by {
        if size is Some {
            assert(third.drop_last() =~= second);
        } else {
            assert(third =~= second);
        }
    }
    assert(fields_of(fourth) == Some(FieldsView { length, position, size, timeout })) by {
        if timeout is Some {
            assert(fourth.drop_last() =~= third);
        } else {
            assert(fourth =~= third);
        }
    }
    assert(fourth =~= pairs_of(length, position, size, timeout));
}

/// Reading the pairs that were written for what a reader asks for gives
/// it back, for readers of children and of logs alike.
pub proof fn lemma_arg_round_trip(asked: children::Arg, logged: log::Arg)
    ensures
        fields_of(children_pairs(asked)) matches Some(f) && children_arg_of(f) == Some(asked),
        fields_of(log_pairs(logged)) matches Some(f) && log_arg_of(f) == Some(logged),
{
    let zero: u64 = 0;
    let nought: i64 = 0;
    lemma_fields_round_trip(
        optional_decimal(asked.length),
        match asked.position {
            Some(seek) => Some(seek_text(seek)),
            None => None,
        },
        optional_decimal(asked.size),
        optional_decimal(asked.timeout),
    );
    lemma_fields_round_trip(
        match logged.length {
            Some(l) => Some(signed_decimal(l as int)),
            None => None,
        },
        match logged.position {
            Some(seek) => Some(seek_text(seek)),
            None => None,
        },
        optional_decimal(logged.size),
        optional_decimal(logged.timeout),
    );
    lemma_number_round_trip(
        match asked.length {
            Some(n) => n,
            None => zero,
        },
        match logged.length {
            Some(k) => k,
            None => nought,
        },
    );
    lemma_number_round_trip(
        match asked.size {
            Some(n) => n,
            None => zero,
        },
        nought,
    );
    lemma_number_round_trip(
        match asked.timeout {
            Some(n) => n,
            None => zero,
        },
        nought,
    );
    lemma_number_round_trip(
        match logged.size {
            Some(n) => n,
            None => zero,
        },
        nought,
    );
    lemma_number_round_trip(
        match logged.timeout {
            Some(n) => n,
            None => zero,
        },
        nought,
    );
    if let Some(seek) = asked.position {
        lemma_seek_round_trip(seek);
    }
    if let Some(seek) = logged.position {
        lemma_seek_round_trip(seek);
    }
}

} // verus!
