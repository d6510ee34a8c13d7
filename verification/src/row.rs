//! A build as the store keeps it: one row of texts and numbers.

use crate::fault::Fault;
use crate::id::{parsed, Id, IdView};
use crate::lifecycle::{Build, BuildView, Instant, Outcome, OutcomeView, Retry, Status};
use crate::outside::{i64_to_u64, parse_rfc3339, rfc3339_instant};
use crate::text::optional_view;
use vstd::prelude::*;
use vstd::string::*;

verus! {

/// The columns of a row of the table of builds. Timestamps are written in
/// the format of RFC 3339.
#[derive(Debug)]
pub struct Row {
    pub id: String,
    pub complete: bool,
    pub count: Option<i64>,
    pub host: String,
    pub log: Option<String>,
    pub outcome: Option<Outcome>,
    pub retry: String,
    pub status: String,
    pub target: String,
    pub weight: Option<i64>,
    pub created_at: String,
    pub queued_at: Option<String>,
    pub started_at: Option<String>,
    pub finished_at: Option<String>,
}

/// The mathematical value of a `Row`.
pub struct RowView {
    pub id: Seq<char>,
    pub complete: bool,
    pub count: Option<i64>,
    pub host: Seq<char>,
    pub log: Option<Seq<char>>,
    pub outcome: Option<OutcomeView>,
    pub retry: Seq<char>,
    pub status: Seq<char>,
    pub target: Seq<char>,
    pub weight: Option<i64>,
    pub created_at: Seq<char>,
    pub queued_at: Option<Seq<char>>,
    pub started_at: Option<Seq<char>>,
    pub finished_at: Option<Seq<char>>,
}

impl View for Row {
    type V = RowView;

    open spec fn view(&self) -> RowView {
        RowView {
            id: self.id@,
            complete: self.complete,
            count: self.count,
            host: self.host@,
            log: optional_view(self.log),
            outcome: match self.outcome {
                Some(o) => Some(o@),
                None => None,
            },
            retry: self.retry@,
            status: self.status@,
            target: self.target@,
            weight: self.weight,
            created_at: self.created_at@,
            queued_at: optional_view(self.queued_at),
            started_at: optional_view(self.started_at),
            finished_at: optional_view(self.finished_at),
        }
    }
}

/// The count that a column holds: absent when the column is empty, and
/// `None` when the column holds a negative number.
pub open spec fn count_of(n: Option<i64>) -> Option<Option<u64>> {
    match n {
        None => Some(None),
        Some(n) => if n >= 0 {
            Some(Some(n as u64))
        } else {
            None
        },
    }
}

/// The identifier that a column holds: absent when the column is empty,
/// and `None` when the column holds no identifier.
pub open spec fn optional_id_of(t: Option<Seq<char>>) -> Option<Option<IdView>> {
    match t {
        None => Some(None),
        Some(s) => match parsed(s) {
            Some(id) => Some(Some(id)),
            None => None,
        },
    }
}

/// The point in time that a column holds: absent when the column is
/// empty, and `None` when the column holds no timestamp.
pub open spec fn optional_instant_of(t: Option<Seq<char>>) -> Option<Option<Instant>> {
    match t {
        None => Some(None),
        Some(s) => match rfc3339_instant(s) {
            Some(at) => Some(Some(at)),
            None => None,
        },
    }
}

/// The identifiers that the columns of a row hold.
pub open spec fn ids_of(row: RowView) -> Option<(IdView, Option<IdView>, IdView)> {
    match (parsed(row.id), optional_id_of(row.log), parsed(row.target)) {
        (Some(id), Some(log), Some(target)) => Some((id, log, target)),
        _ => None,
    }
}

/// The points in time that the columns of a row hold.
pub open spec fn instants_of(row: RowView) -> Option<
    (Instant, Option<Instant>, Option<Instant>, Option<Instant>),
> {
    match (
        rfc3339_instant(row.created_at),
        optional_instant_of(row.queued_at),
        optional_instant_of(row.started_at),
        optional_instant_of(row.finished_at),
    ) {
        (Some(created), Some(queued), Some(started), Some(finished)) => Some(
            (created, queued, started, finished),
        ),
        _ => None,
    }
}

/// The build that a row stands for, or `None` when a column does not hold
/// what it should.
pub open spec fn decoded(row: RowView) -> Option<BuildView> {
    match (
        ids_of(row),
        count_of(row.count),
        count_of(row.weight),
        Retry::of_token(row.retry),
        Status::of_token(row.status),
        instants_of(row),
    ) {
        (Some(ids), Some(count), Some(weight), Some(retry), Some(status), Some(instants)) => Some(
            BuildView {
                id: ids.0,
                complete: row.complete,
                count,
                host: row.host,
                log: ids.1,
                outcome: row.outcome,
                retry,
                status,
                target: ids.2,
                weight,
                created_at: instants.0,
                queued_at: instants.1,
                started_at: instants.2,
                finished_at: instants.3,
            },
        ),
        _ => None,
    }
}

fn read_count(n: Option<i64>) -> (r: Option<Option<u64>>)
    ensures
        r == count_of(n),
{
    match n {
        None => Some(None),
        Some(n) => match i64_to_u64(n) {
            Some(n) => Some(Some(n)),
            None => None,
        },
    }
}

fn read_id(text: &str) -> (r: Option<Id>)
    ensures
        parsed(text@) == (match r {
            Some(id) => Some(id@),
            None => None,
        }),
{
    match Id::parse(text) {
        Ok(id) => Some(id),
        Err(_) => None,
    }
}

fn read_optional_id(t: &Option<String>) -> (r: Option<Option<Id>>)
    ensures
        optional_id_of(optional_view(*t)) == (match r {
            Some(Some(id)) => Some(Some(id@)),
            Some(None) => Some(None::<IdView>),
            None => None,
        }),
{
    match t {
        None => Some(None),
        Some(s) => match Id::parse(s.as_str()) {
            Ok(id) => Some(Some(id)),
            Err(_) => None,
        },
    }
}

fn read_optional_instant(t: &Option<String>) -> (r: Option<Option<Instant>>)
    ensures
        r == optional_instant_of(optional_view(*t)),
{
    match t {
        None => Some(None),
        Some(s) => match parse_rfc3339(s.as_str()) {
            Some(at) => Some(Some(at)),
            None => None,
        },
    }
}

impl Row {
    /// The build that the row stands for; `Invalid` when a column does not
    /// hold what it should: an identifier, a count that is not negative, a
    /// status, a retry policy or a timestamp.
    pub fn decode(self) -> (r: Result<Build, Fault>)
        ensures
            match r {
                Ok(b) => decoded(self@) == Some(b@),
                Err(e) => e == Fault::Invalid && decoded(self@) is None,
            },
    {
        let id = read_id(self.id.as_str());
        let log = read_optional_id(&self.log);
        let target = read_id(self.target.as_str());
        let count = read_count(self.count);
        let weight = read_count(self.weight);
        let retry = Retry::parse(self.retry.as_str());
        let status = Status::parse(self.status.as_str());
        let created_at = parse_rfc3339(self.created_at.as_str());
        let queued_at = read_optional_instant(&self.queued_at);
        let started_at = read_optional_instant(&self.started_at);
        let finished_at = read_optional_instant(&self.finished_at);
        match (id, log, target, count, weight) {
            (Some(id), Some(log), Some(target), Some(count), Some(weight)) => match (
                retry,
                status,
                created_at,
                queued_at,
                started_at,
                finished_at,
            ) {
                (
                    Ok(retry),
                    Ok(status),
                    Some(created_at),
                    Some(queued_at),
                    Some(started_at),
                    Some(finished_at),
                ) => Ok(
                    Build {
                        id,
                        complete: self.complete,
                        count,
                        host: self.host,
                        log,
                        outcome: self.outcome,
                        retry,
                        status,
                        target,
                        weight,
                        created_at,
                        queued_at,
                        started_at,
                        finished_at,
                    },
                ),
                _ => Err(Fault::Invalid),
            },
            _ => Err(Fault::Invalid),
        }
    }
}

} // verus!
