//! The build record and its lifecycle.

use crate::error::{Error, ErrorView};
use crate::fault::Fault;
use crate::id::{Id, IdView};
use crate::text::text_eq;
use vstd::prelude::*;
use vstd::string::*;

verus! {

/// Where a build is in its lifecycle. A build only ever moves forward.
#[derive(Clone, Copy, Debug, PartialEq, Eq, Structural, Hash)]
pub enum Status {
    Created,
    Queued,
    Started,
    Finished,
}

/// Which outcomes of a build leave it open to being built again.
#[derive(Clone, Copy, Debug, PartialEq, Eq, Structural, Hash)]
pub enum Retry {
    Canceled,
    Failed,
    Succeeded,
}

/// How a finished build ended. Cancellation is a finished build whose outcome is `Canceled`.
#[derive(Debug)]
pub enum Outcome {
    Canceled,
    Failed(Error),
    /// The value that the build produced, in its serialized form.
    Succeeded(String),
}

/// A point in time: nanoseconds since the Unix epoch.
pub type Instant = i128;

/// The persistent record of one unit of computation.
#[derive(Debug)]
pub struct Build {
    pub id: Id,
    /// Whether children, log and outputs are all held locally.
    pub complete: bool,
    pub count: Option<u64>,
    pub host: String,
    /// The artifact that holds the final log, once the build has finished.
    pub log: Option<Id>,
    pub outcome: Option<Outcome>,
    pub retry: Retry,
    pub status: Status,
    pub target: Id,
    pub weight: Option<u64>,
    pub created_at: Instant,
    pub queued_at: Option<Instant>,
    pub started_at: Option<Instant>,
    pub finished_at: Option<Instant>,
}

/// The mathematical value of an `Outcome`.
pub enum OutcomeView {
    Canceled,
    Failed(ErrorView),
    Succeeded(Seq<char>),
}

/// The mathematical value of a `Build`.
pub struct BuildView {
    pub id: IdView,
    pub complete: bool,
    pub count: Option<u64>,
    pub host: Seq<char>,
    pub log: Option<IdView>,
    pub outcome: Option<OutcomeView>,
    pub retry: Retry,
    pub status: Status,
    pub target: IdView,
    pub weight: Option<u64>,
    pub created_at: Instant,
    pub queued_at: Option<Instant>,
    pub started_at: Option<Instant>,
    pub finished_at: Option<Instant>,
}

impl View for Outcome {
    type V = OutcomeView;

    open spec fn view(&self) -> OutcomeView {
        match *self {
            Outcome::Canceled => OutcomeView::Canceled,
            Outcome::Failed(e) => OutcomeView::Failed(e@),
            Outcome::Succeeded(v) => OutcomeView::Succeeded(v@),
        }
    }
}

impl View for Build {
    type V = BuildView;

    open spec fn view(&self) -> BuildView {
        BuildView {
            id: self.id@,
            complete: self.complete,
            count: self.count,
            host: self.host@,
            log: match self.log {
                Some(l) => Some(l@),
                None => None,
            },
            outcome: match self.outcome {
                Some(o) => Some(o@),
                None => None,
            },
            retry: self.retry,
            status: self.status,
            target: self.target@,
            weight: self.weight,
            created_at: self.created_at,
            queued_at: self.queued_at,
            started_at: self.started_at,
            finished_at: self.finished_at,
        }
    }
}

impl Clone for Outcome {
    fn clone(&self) -> (copy: Outcome)
        ensures
            copy@ == self@,
    {
        self.duplicate()
    }
}

impl Clone for Build {
    fn clone(&self) -> (copy: Build)
        ensures
            copy@ == self@,
    {
        self.duplicate()
    }
}

impl Outcome {
    /// A copy of the outcome.
    pub fn duplicate(&self) -> (copy: Outcome)
        ensures
            copy@ == self@,
    {
        match self {
            Outcome::Canceled => Outcome::Canceled,
            Outcome::Failed(e) => Outcome::Failed(e.duplicate()),
            Outcome::Succeeded(v) => Outcome::Succeeded(v.clone()),
        }
    }
}

impl Status {
    /// The position of a status in the order `Created < Queued < Started < Finished`.
    pub open spec fn rank(self) -> int {
        match self {
            Status::Created => 0,
            Status::Queued => 1,
            Status::Started => 2,
            Status::Finished => 3,
        }
    }

    fn rank_of(&self) -> (r: u8)
        ensures
            r == self.rank(),
    {
        match self {
            Status::Created => 0,
            Status::Queued => 1,
            Status::Started => 2,
            Status::Finished => 3,
        }
    }

    /// Whether a build in this status may move to `next`: never backwards.
    pub fn may_advance_to(&self, next: &Status) -> (r: bool)
        ensures
            r == (self.rank() <= next.rank()),
    {
        self.rank_of() <= next.rank_of()
    }

    /// Whether this is the terminal status.
    pub fn is_finished(&self) -> (r: bool)
        ensures
            r == (*self == Status::Finished),
    {
        match self {
            Status::Finished => true,
            _ => false,
        }
    }

    /// The token under which a status is stored and sent.
    pub open spec fn token(self) -> Seq<char> {
        match self {
            Status::Created => seq!['c', 'r', 'e', 'a', 't', 'e', 'd'],
            Status::Queued => seq!['q', 'u', 'e', 'u', 'e', 'd'],
            Status::Started => seq!['s', 't', 'a', 'r', 't', 'e', 'd'],
            Status::Finished => seq!['f', 'i', 'n', 'i', 's', 'h', 'e', 'd'],
        }
    }

    /// The status that a token stands for.
    pub open spec fn of_token(t: Seq<char>) -> Option<Status> {
        if t == Status::Created.token() {
            Some(Status::Created)
        } else if t == Status::Queued.token() {
            Some(Status::Queued)
        } else if t == Status::Started.token() {
            Some(Status::Started)
        } else if t == Status::Finished.token() {
            Some(Status::Finished)
        } else {
            None
        }
    }

    /// The token of this status.
    pub fn as_str(&self) -> (r: &'static str)
        ensures
            r@ == self.token(),
    {
        proof {
            reveal_strlit("created");
            reveal_strlit("queued");
            reveal_strlit("started");
            reveal_strlit("finished");
        }
        let r = match self {
            Status::Created => "created",
            Status::Queued => "queued",
            Status::Started => "started",
            Status::Finished => "finished",
        };
        assert(r@ =~= self.token());
        r
    }

    /// Reads a status token; `Invalid` for any other text.
    pub fn parse(text: &str) -> (r: Result<Status, Fault>)
        ensures
            match r {
                Ok(s) => Status::of_token(text@) == Some(s),
                Err(e) => e == Fault::Invalid && Status::of_token(text@) is None,
            },
    {
        if text_eq(text, Status::Created.as_str()) {
            Ok(Status::Created)
        } else if text_eq(text, Status::Queued.as_str()) {
            Ok(Status::Queued)
        } else if text_eq(text, Status::Started.as_str()) {
            Ok(Status::Started)
        } else if text_eq(text, Status::Finished.as_str()) {
            Ok(Status::Finished)
        } else {
            Err(Fault::Invalid)
        }
    }

    /// Reading the token of a status gives the status back.
    pub proof fn lemma_token_round_trip(self)
        ensures
            Status::of_token(self.token()) == Some(self),
    {
        assert(Status::Created.token()[0] == 'c');
        assert(Status::Queued.token()[0] == 'q');
        assert(Status::Started.token()[0] == 's');
        assert(Status::Finished.token()[0] == 'f');
    }
}

impl Retry {
    /// The token under which a retry policy is stored and sent.
    pub open spec fn token(self) -> Seq<char> {
        match self {
            Retry::Canceled => seq!['c', 'a', 'n', 'c', 'e', 'l', 'e', 'd'],
            Retry::Failed => seq!['f', 'a', 'i', 'l', 'e', 'd'],
            Retry::Succeeded => seq!['s', 'u', 'c', 'c', 'e', 'e', 'd', 'e', 'd'],
        }
    }

    /// The retry policy that a token stands for.
    pub open spec fn of_token(t: Seq<char>) -> Option<Retry> {
        if t == Retry::Canceled.token() {
            Some(Retry::Canceled)
        } else if t == Retry::Failed.token() {
            Some(Retry::Failed)
        } else if t == Retry::Succeeded.token() {
            Some(Retry::Succeeded)
        } else {
            None
        }
    }

    /// The token of this retry policy.
    pub fn as_str(&self) -> (r: &'static str)
        ensures
            r@ == self.token(),
    {
        proof {
            reveal_strlit("canceled");
            reveal_strlit("failed");
            reveal_strlit("succeeded");
        }
        let r = match self {
            Retry::Canceled => "canceled",
            Retry::Failed => "failed",
            Retry::Succeeded => "succeeded",
        };
        assert(r@ =~= self.token());
        r
    }

    /// Reads a retry token; `Invalid` for any other text.
    pub fn parse(text: &str) -> (r: Result<Retry, Fault>)
        ensures
            match r {
                Ok(s) => Retry::of_token(text@) == Some(s),
                Err(e) => e == Fault::Invalid && Retry::of_token(text@) is None,
            },
    {
        if text_eq(text, Retry::Canceled.as_str()) {
            Ok(Retry::Canceled)
        } else if text_eq(text, Retry::Failed.as_str()) {
            Ok(Retry::Failed)
        } else if text_eq(text, Retry::Succeeded.as_str()) {
            Ok(Retry::Succeeded)
        } else {
            Err(Fault::Invalid)
        }
    }

    /// Reading the token of a retry policy gives the policy back.
    pub proof fn lemma_token_round_trip(self)
        ensures
            Retry::of_token(self.token()) == Some(self),
    {
        assert(Retry::Canceled.token()[0] == 'c');
        assert(Retry::Failed.token()[0] == 'f');
        assert(Retry::Succeeded.token()[0] == 's');
    }
}

/// Whether `a`, when present, is no later than `b`.
pub open spec fn not_after(a: Option<Instant>, b: Instant) -> bool {
    a matches Some(t) ==> t <= b
}

impl BuildView {
    /// The latest of the timestamps that the record holds.
    pub open spec fn latest(self) -> Instant {
        match self.finished_at {
            Some(t) => t,
            None => match self.started_at {
                Some(t) => t,
                None => match self.queued_at {
                    Some(t) => t,
                    None => self.created_at,
                },
            },
        }
    }

    /// The invariants of a build record: the outcome and the finishing time
    /// are present exactly when the build is finished, and the timestamps
    /// that are present do not decrease from creation to finish.
    pub open spec fn valid(self) -> bool {
        &&& self.outcome is Some <==> self.status == Status::Finished
        &&& self.finished_at is Some <==> self.status == Status::Finished
        &&& not_after(self.queued_at, self.latest())
        &&& not_after(self.started_at, self.latest())
        &&& self.created_at <= self.latest()
        &&& (self.queued_at matches Some(q) ==> self.created_at <= q)
        &&& (self.started_at matches Some(s) ==> not_after(self.queued_at, s) && self.created_at
            <= s)
    }
}

impl Build {
    /// A record of a newly created build.
    pub fn new(id: Id, host: String, target: Id, retry: Retry, created_at: Instant) -> (b: Build)
        ensures
            b@.valid(),
            b.id == id,
            b.host == host,
            b.target == target,
            b.retry == retry,
            b.created_at == created_at,
            b.status == Status::Created,
            !b.complete,
            b.count is None,
            b.weight is None,
            b.log is None,
            b.outcome is None,
            b.queued_at is None,
            b.started_at is None,
            b.finished_at is None,
    {
        Build {
            id,
            complete: false,
            count: None,
            host,
            log: None,
            outcome: None,
            retry,
            status: Status::Created,
            target,
            weight: None,
            created_at,
            queued_at: None,
            started_at: None,
            finished_at: None,
        }
    }

    /// A copy of the record.
    pub fn duplicate(&self) -> (copy: Build)
        ensures
            copy@ == self@,
    {
        Build {
            id: self.id.duplicate(),
            complete: self.complete,
            count: self.count,
            host: self.host.clone(),
            log: match &self.log {
                Some(l) => Some(l.duplicate()),
                None => None,
            },
            outcome: match &self.outcome {
                Some(o) => Some(o.duplicate()),
                None => None,
            },
            retry: self.retry,
            status: self.status,
            target: self.target.duplicate(),
            weight: self.weight,
            created_at: self.created_at,
            queued_at: self.queued_at,
            started_at: self.started_at,
            finished_at: self.finished_at,
        }
    }

    /// The latest of the timestamps that the record holds.
    pub fn latest_instant(&self) -> (t: Instant)
        ensures
            t == self@.latest(),
    {
        match self.finished_at {
            Some(t) => t,
            None => match self.started_at {
                Some(t) => t,
                None => match self.queued_at {
                    Some(t) => t,
                    None => self.created_at,
                },
            },
        }
    }

    /// Whether the record meets the invariants of a build record.
    pub fn is_valid(&self) -> (r: bool)
        ensures
            r == self@.valid(),
    {
        let finished: bool = self.status.is_finished();
        let latest: Instant = self.latest_instant();
        let queued_ok: bool = match self.queued_at {
            Some(q) => self.created_at <= q && q <= latest,
            None => true,
        };
        let started_ok: bool = match self.started_at {
            Some(s) => self.created_at <= s && s <= latest && match self.queued_at {
                Some(q) => q <= s,
                None => true,
            },
            None => true,
        };
        self.outcome.is_some() == finished && self.finished_at.is_some() == finished
            && self.created_at <= latest && queued_ok && started_ok
    }
}

} // verus!
