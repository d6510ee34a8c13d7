//! Local-first resolution: a server answers from its own store and falls
//! back on its peers, in their configured order. A finished build found at
//! a peer is recorded locally, so that the next read is local.

use crate::children;
use crate::cursor::{Cursor, Seek};
use crate::fault::Fault;
use crate::id::{views, Id, IdView};
use crate::lifecycle::{Build, BuildView, Outcome, OutcomeView, Status};
use crate::log;
use crate::store::{
    child_verdict, lemma_with_children_fresh, log_verdict, put_verdict, Entry, PutArg, Store,
};
use vstd::prelude::*;

verus! {

/// A server: its own store and the stores of its peers, in the order in
/// which the peers are consulted.
pub struct Server {
    pub local: Store,
    pub remotes: Vec<Store>,
}

/// Where an answer came from.
#[derive(Clone, Copy, Debug, PartialEq, Eq, Structural)]
pub enum Origin {
    Local,
    /// The peer at this place in the order.
    Remote(usize),
}

/// A build record and where it was found.
#[derive(Debug)]
pub struct Found {
    pub origin: Origin,
    pub build: Build,
}

/// The mathematical value of a server.
pub struct ServerView {
    pub local: Map<IdView, Entry>,
    pub remotes: Seq<Map<IdView, Entry>>,
}

/// What one peer answered: a value, nothing, or a failure.
pub type Answer<T> = Result<Option<T>, Fault>;

/// Whether answer `i` is the first that holds a value.
pub open spec fn wins<T>(answers: Seq<Answer<T>>, i: int) -> bool {
    &&& 0 <= i < answers.len()
    &&& answers[i] matches Ok(Some(_))
    &&& forall|j: int| 0 <= j < i ==> !(#[trigger] answers[j] matches Ok(Some(_)))
}

/// Whether no answer holds a value.
pub open spec fn none_wins<T>(answers: Seq<Answer<T>>) -> bool {
    forall|j: int| 0 <= j < answers.len() ==> !(#[trigger] answers[j] matches Ok(Some(_)))
}

/// Whether there are answers and every one is a failure.
pub open spec fn all_failed<T>(answers: Seq<Answer<T>>) -> bool {
    &&& answers.len() > 0
    &&& forall|j: int| 0 <= j < answers.len() ==> #[trigger] answers[j] is Err
}

/// The fallback rule over the answers of the peers, in order: the first
/// value wins; a failure counts as nothing found, unless every peer failed,
/// in which case the request fails as the last peer did.
pub fn pick<T>(answers: &Vec<Answer<T>>) -> (r: Result<Option<usize>, Fault>)
    ensures
        match r {
            Ok(Some(i)) => wins(answers@, i as int),
            Ok(None) => none_wins(answers@) && !all_failed(answers@),
            Err(e) => none_wins(answers@) && all_failed(answers@) && answers@.last() == Err::<
                Option<T>,
                Fault,
            >(e),
        },
{
    let mut failed: bool = true;
    let mut last: Fault = Fault::NotFound;
    let mut i: usize = 0;
    while i < answers.len()
        invariant
            i <= answers.len(),
            forall|j: int| 0 <= j < i ==> !(#[trigger] answers@[j] matches Ok(Some(_))),
            failed == (forall|j: int| 0 <= j < i ==> #[trigger] answers@[j] is Err),
            failed && i > 0 ==> answers@[i - 1] == Err::<Option<T>, Fault>(last),
        decreases answers.len() - i,
    {
        match &answers[i] {
            Ok(Some(_)) => {
                return Ok(Some(i));
            },
            Ok(None) => {
                failed = false;
            },
            Err(e) => {
                last = *e;
            },
        }
        i += 1;
    }
    if failed && answers.len() > 0 {
        Err(last)
    } else {
        Ok(None)
    }
}

impl View for Server {
    type V = ServerView;

    open spec fn view(&self) -> ServerView {
        ServerView {
            local: self.local@,
            remotes: Seq::new(self.remotes@.len(), |i: int| self.remotes@[i]@),
        }
    }
}

impl ServerView {
    /// Whether peer `i` is the first peer that knows the build.
    pub open spec fn holder(self, k: IdView, i: int) -> bool {
        &&& 0 <= i < self.remotes.len()
        &&& self.remotes[i].dom().contains(k)
        &&& forall|j: int| 0 <= j < i ==> !(#[trigger] self.remotes[j]).dom().contains(k)
    }

    /// Where a build is found: locally, else at the first peer that knows it.
    pub open spec fn located(self, k: IdView) -> Option<Origin> {
        if self.local.dom().contains(k) {
            Some(Origin::Local)
        } else if exists|i: int| self.holder(k, i) {
            Some(Origin::Remote((choose|i: int| self.holder(k, i)) as usize))
        } else {
            None
        }
    }

    /// The store that an origin names.
    pub open spec fn at(self, origin: Origin) -> Map<IdView, Entry> {
        match origin {
            Origin::Local => self.local,
            Origin::Remote(i) => self.remotes[i as int],
        }
    }

    /// The record that a read of a build returns.
    pub open spec fn build(self, k: IdView) -> Option<BuildView> {
        match self.located(k) {
            Some(origin) => Some(self.at(origin)[k].build),
            None => None,
        }
    }

    /// The server after a read of a build: a finished build found at a
    /// peer is recorded locally with the children that the peer holds.
    pub open spec fn after_read(self, k: IdView) -> ServerView {
        match self.located(k) {
            Some(Origin::Remote(i)) => {
                let found = self.remotes[i as int][k];
                if found.build.status == Status::Finished {
                    ServerView {
                        local: self.local.insert(
                            k,
                            Entry { build: found.build, children: found.children, log: Seq::empty() },
                        ),
                        ..self
                    }
                } else {
                    self
                }
            },
            _ => self,
        }
    }

    /// What the peers answer when a reader of children is opened at each.
    pub open spec fn children_answers(self, k: IdView, arg: children::Arg) -> Seq<Answer<Cursor>> {
        Seq::new(self.remotes.len(), |i: int| children::opened(self.remotes[i], k, arg))
    }

    /// What the peers answer when a reader of a log is opened at each.
    pub open spec fn log_answers(self, k: IdView, arg: log::Arg) -> Seq<Answer<Cursor>> {
        Seq::new(self.remotes.len(), |i: int| log::opened(self.remotes[i], k, arg))
    }

    /// What `add_build_child` answers and leaves behind. A build that the
    /// server knows itself takes the child locally. Otherwise the first peer
    /// is asked: the child's snapshot is put there first, and only when
    /// that succeeded is the child added there. What was put stays even if
    /// the peer then refuses the child.
    pub open spec fn child_added(self, build: IdView, child: IdView) -> (Result<(), Fault>, ServerView) {
        if self.local.dom().contains(build) {
            match child_verdict(self.local, build, child) {
                Ok(m) => (Ok(()), ServerView { local: m, ..self }),
                Err(e) => (Err(e), self),
            }
        } else if self.remotes.len() == 0 || !self.local.dom().contains(child) {
            (Err(Fault::NotFound), self)
        } else {
            let pushed = self.local[child];
            match put_verdict(self.remotes[0], pushed.build, pushed.children) {
                Err(e) => (Err(e), self),
                Ok(m) => match child_verdict(m, build, child) {
                    Ok(n) => (Ok(()), ServerView { remotes: self.remotes.update(0, n), ..self }),
                    Err(e) => (Err(e), ServerView { remotes: self.remotes.update(0, m), ..self }),
                },
            }
        }
    }

    /// What `add_build_log` answers and leaves behind: the bytes go to the
    /// local log of a build that the server knows itself, else to the first peer.
    pub open spec fn log_added(self, build: IdView, bytes: Seq<u8>) -> (Result<(), Fault>, ServerView) {
        if self.local.dom().contains(build) {
            match log_verdict(self.local, build, bytes) {
                Ok(m) => (Ok(()), ServerView { local: m, ..self }),
                Err(e) => (Err(e), self),
            }
        } else if self.remotes.len() == 0 {
            (Err(Fault::NotFound), self)
        } else {
            match log_verdict(self.remotes[0], build, bytes) {
                Ok(m) => (Ok(()), ServerView { remotes: self.remotes.update(0, m), ..self }),
                Err(e) => (Err(e), self),
            }
        }
    }

    /// There is one first peer that knows a build, if any peer does.
    pub proof fn lemma_holder(self, k: IdView, i: int)
        requires
            self.holder(k, i),
            !self.local.dom().contains(k),
        ensures
            self.located(k) == Some(Origin::Remote(i as usize)),
    {
        let c = choose|c: int| self.holder(k, c);
        if c < i {
            assert(!self.remotes[c].dom().contains(k));
        } else if i < c {
            assert(!self.remotes[i].dom().contains(k));
        }
    }
}

impl Server {
    /// The invariant of a server: its store and those of its peers are well formed.
    pub open spec fn wf(&self) -> bool {
        &&& self.local.wf()
        &&& forall|i: int| 0 <= i < self.remotes@.len() ==> (#[trigger] self.remotes@[i]).wf()
    }

    /// A server over a store and the stores of its peers.
    pub fn new(local: Store, remotes: Vec<Store>) -> (s: Server)
        ensures
            s.local == local,
            s.remotes == remotes,
    {
        Server { local, remotes }
    }

    /// Where a build is found: locally, else at the first peer that knows it.
    pub fn locate(&self, id: &Id) -> (r: Option<Origin>)
        requires
            self.wf(),
        ensures
            r == self@.located(id@),
            r matches Some(Origin::Remote(i)) ==> i < self.remotes@.len() && self.remotes@[i as int]@.dom().contains(
                id@,
            ),
            r matches Some(Origin::Local) ==> self.local@.dom().contains(id@),
    {
        if self.local.contains(id) {
            return Some(Origin::Local);
        }
        let mut i: usize = 0;
        while i < self.remotes.len()
            invariant
                self.wf(),
                i <= self.remotes.len(),
                !self@.local.dom().contains(id@),
                forall|j: int| 0 <= j < i ==> !(#[trigger] self@.remotes[j]).dom().contains(id@),
            decreases self.remotes.len() - i,
        {
            if self.remotes[i].contains(id) {
                proof {
                    assert(self@.remotes[i as int] == self.remotes@[i as int]@);
                    self@.lemma_holder(id@, i as int);
                }
                return Some(Origin::Remote(i));
            }
            i += 1;
        }
        proof {
            if exists|c: int| self@.holder(id@, c) {
                let c = choose|c: int| self@.holder(id@, c);
                assert(!self@.remotes[c].dom().contains(id@));
            }
        }
        None
    }

    /// The store that an origin names, if there is such a store.
    pub fn store(&self, origin: Origin) -> (r: Option<&Store>)
        ensures
            match origin {
                Origin::Local => r == Some(&self.local),
                Origin::Remote(i) => if i < self.remotes@.len() {
                    r == Some(&self.remotes@[i as int])
                } else {
                    r is None
                },
            },
    {
        match origin {
            Origin::Local => Some(&self.local),
            Origin::Remote(i) => if i < self.remotes.len() {
                Some(&self.remotes[i])
            } else {
                None
            },
        }
    }

    /// The record of a build that the server knows itself.
    pub fn try_get_build_local(&self, id: &Id) -> (r: Option<&Build>)
        requires
            self.wf(),
        ensures
            match r {
                Some(b) => self@.local.dom().contains(id@) && b@ == self@.local[id@].build,
                None => !self@.local.dom().contains(id@),
            },
    {
        self.local.try_get_build_local(id)
    }

    /// Reads a build from the peers: the record that the first peer that
    /// knows the build holds. When that build is finished, it is put into
    /// the local store together with the children that the peer holds.
    fn try_get_build_remote(&mut self, id: &Id) -> (r: Option<Found>)
        requires
            old(self).wf(),
            !old(self)@.local.dom().contains(id@),
        ensures
            final(self).wf(),
            final(self).remotes == old(self).remotes,
            final(self)@ == old(self)@.after_read(id@),
            match old(self)@.located(id@) {
                Some(origin) => r matches Some(found) && found.origin == origin && Some(
                    found.build@,
                ) == old(self)@.build(id@),
                None => r is None,
            },
    {
        let at: usize = match self.locate(id) {
            Some(Origin::Remote(i)) => i,
            _ => {
                return None;
            },
        };
        let ghost before = self@;
        let ghost held = self.remotes@[at as int]@[id@];
        assert(self@.remotes[at as int] == self.remotes@[at as int]@);
        let build: Build = match self.remotes[at].try_get_build_local(id) {
            Some(b) => b.duplicate(),
            None => {
                return None;
            },
        };
        if build.status.is_finished() {
            let arg = children::Arg {
                length: None,
                position: Some(Seek::Start(0)),
                size: None,
                timeout: Some(0),
            };
            let chunks: Vec<children::Chunk> = match children::read_available(
                &self.remotes[at],
                id,
                &arg,
            ) {
                Ok(Some(chunks)) => chunks,
                _ => Vec::new(),
            };
            let held_children: Vec<Id> = children::collect(&chunks);
            proof {
                self.remotes@[at as int].lemma_wf(id@);
                assert(views(held_children@) =~= held.children);
                lemma_with_children_fresh(held.children);
            }
            let put = self.local.put_build(PutArg { build: build.duplicate(), children: held_children });
            assert(put is Ok);
            assert(self@.local =~= before.after_read(id@).local);
            assert(self@.remotes =~= before.remotes);
        }
        Some(Found { origin: Origin::Remote(at), build })
    }

    /// Reads a build: the local record if there is one; else the record
    /// that the first peer that knows the build holds. A finished build
    /// found at a peer is put into the local store, with the children that
    /// the peer holds, so that the next read of it is local.
    pub fn try_get_build(&mut self, id: &Id) -> (r: Option<Found>)
        requires
            old(self).wf(),
        ensures
            final(self).wf(),
            final(self).remotes == old(self).remotes,
            final(self)@ == old(self)@.after_read(id@),
            match old(self)@.located(id@) {
                Some(origin) => r matches Some(found) && found.origin == origin && Some(
                    found.build@,
                ) == old(self)@.build(id@),
                None => r is None,
            },
    {
        match self.local.try_get_build_local(id) {
            Some(b) => Some(Found { origin: Origin::Local, build: b.duplicate() }),
            None => self.try_get_build_remote(id),
        }
    }

    /// The status of a build and where it was found: locally, else at the
    /// first peer that knows the build.
    pub fn try_get_build_status(&self, id: &Id) -> (r: Option<(Origin, Status)>)
        requires
            self.wf(),
        ensures
            match self@.located(id@) {
                Some(origin) => r == Some((origin, self@.at(origin)[id@].build.status)),
                None => r is None,
            },
    {
        let origin: Origin = match self.locate(id) {
            Some(origin) => origin,
            None => {
                return None;
            },
        };
        let store: &Store = match origin {
            Origin::Local => &self.local,
            Origin::Remote(i) => &self.remotes[i],
        };
        assert(store@ == self@.at(origin));
        match store.try_get_build_status_local(id) {
            Some(status) => Some((origin, status)),
            None => None,
        }
    }

    /// The outcome of a build, if it has one yet, and where the build was
    /// found: locally, else at the first peer that knows the build.
    pub fn try_get_build_outcome(&self, id: &Id) -> (r: Option<(Origin, Option<Outcome>)>)
        requires
            self.wf(),
        ensures
            match self@.located(id@) {
                Some(origin) => r matches Some((o, outcome)) && o == origin && (match outcome {
                    Some(value) => Some(value@),
                    None => None,
                }) == self@.at(origin)[id@].build.outcome,
                None => r is None,
            },
    {
        let origin: Origin = match self.locate(id) {
            Some(origin) => origin,
            None => {
                return None;
            },
        };
        let store: &Store = match origin {
            Origin::Local => &self.local,
            Origin::Remote(i) => &self.remotes[i],
        };
        assert(store@ == self@.at(origin));
        match store.try_get_build_local(id) {
            Some(build) => Some(
                (
                    origin,
                    match &build.outcome {
                        Some(outcome) => Some(outcome.duplicate()),
                        None => None,
                    },
                ),
            ),
            None => None,
        }
    }

    /// Opens a reader on the children of a build: at the local store if it
    /// knows the build, else at the first peer at which a reader opens. A
    /// peer that fails counts as one that does not know the build, unless
    /// every peer fails: then the request fails as the last peer did.
    pub fn try_get_build_children(&self, id: &Id, arg: &children::Arg) -> (r: Result<
        Option<(Origin, children::Reader)>,
        Fault,
    >)
        requires
            self.wf(),
        ensures
            match children::opened(self@.local, id@, *arg) {
                Ok(Some(cursor)) => r matches Ok(Some((origin, reader))) && origin == Origin::Local
                    && reader.cursor == cursor && reader.id == *id,
                Err(e) => r matches Err(f) && f == e,
                Ok(None) => {
                    let answers = self@.children_answers(id@, *arg);
                    match r {
                        Ok(Some((origin, reader))) => origin matches Origin::Remote(i) && wins(
                            answers,
                            i as int,
                        ) && answers[i as int] == Ok::<Option<Cursor>, Fault>(Some(reader.cursor))
                            && reader.id == *id,
                        Ok(None) => none_wins(answers) && !all_failed(answers),
                        Err(e) => none_wins(answers) && all_failed(answers) && answers.last()
                            == Err::<Option<Cursor>, Fault>(e),
                    }
                },
            },
    {
        match children::try_get_build_children_local(&self.local, id, arg) {
            Ok(Some(reader)) => {
                return Ok(Some((Origin::Local, reader)));
            },
            Err(e) => {
                return Err(e);
            },
            Ok(None) => {},
        }
        let ghost answers = self@.children_answers(id@, *arg);
        let mut failed: bool = true;
        let mut last: Fault = Fault::NotFound;
        let mut i: usize = 0;
        while i < self.remotes.len()
            invariant
                self.wf(),
                i <= self.remotes.len(),
                answers == self@.children_answers(id@, *arg),
                !self@.local.dom().contains(id@),
                forall|j: int| 0 <= j < i ==> !(#[trigger] answers[j] matches Ok(Some(_))),
                failed == (forall|j: int| 0 <= j < i ==> #[trigger] answers[j] is Err),
                failed && i > 0 ==> answers[i - 1] == Err::<Option<Cursor>, Fault>(last),
            decreases self.remotes.len() - i,
        {
            assert(self@.remotes[i as int] == self.remotes@[i as int]@);
            assert(answers[i as int] == children::opened(self@.remotes[i as int], id@, *arg));
            match children::try_get_build_children_local(&self.remotes[i], id, arg) {
                Ok(Some(reader)) => {
                    return Ok(Some((Origin::Remote(i), reader)));
                },
                Ok(None) => {
                    failed = false;
                },
                Err(e) => {
                    last = e;
                },
            }
            i += 1;
        }
        if failed && self.remotes.len() > 0 {
            Err(last)
        } else {
            Ok(None)
        }
    }

    /// Opens a reader on the log of a build: at the local store if it knows
    /// the build, else at the first peer at which a reader opens. A peer
    /// that fails counts as one that does not know the build, unless every
    /// peer fails: then the request fails as the last peer did.
    pub fn try_get_build_log(&self, id: &Id, arg: &log::Arg) -> (r: Result<
        Option<(Origin, log::Reader)>,
        Fault,
    >)
        requires
            self.wf(),
        ensures
            match log::opened(self@.local, id@, *arg) {
                Ok(Some(cursor)) => r matches Ok(Some((origin, reader))) && origin == Origin::Local
                    && reader.cursor == cursor && reader.id == *id,
                Err(e) => r matches Err(f) && f == e,
                Ok(None) => {
                    let answers = self@.log_answers(id@, *arg);
                    match r {
                        Ok(Some((origin, reader))) => origin matches Origin::Remote(i) && wins(
                            answers,
                            i as int,
                        ) && answers[i as int] == Ok::<Option<Cursor>, Fault>(Some(reader.cursor))
                            && reader.id == *id,
                        Ok(None) => none_wins(answers) && !all_failed(answers),
                        Err(e) => none_wins(answers) && all_failed(answers) && answers.last()
                            == Err::<Option<Cursor>, Fault>(e),
                    }
                },
            },
    {
        match log::try_get_build_log_local(&self.local, id, arg) {
            Ok(Some(reader)) => {
                return Ok(Some((Origin::Local, reader)));
            },
            Err(e) => {
                return Err(e);
            },
            Ok(None) => {},
        }
        let ghost answers = self@.log_answers(id@, *arg);
        let mut failed: bool = true;
        let mut last: Fault = Fault::NotFound;
        let mut i: usize = 0;
        while i < self.remotes.len()
            invariant
                self.wf(),
                i <= self.remotes.len(),
                answers == self@.log_answers(id@, *arg),
                !self@.local.dom().contains(id@),
                forall|j: int| 0 <= j < i ==> !(#[trigger] answers[j] matches Ok(Some(_))),
                failed == (forall|j: int| 0 <= j < i ==> #[trigger] answers[j] is Err),
                failed && i > 0 ==> answers[i - 1] == Err::<Option<Cursor>, Fault>(last),
            decreases self.remotes.len() - i,
        {
            assert(self@.remotes[i as int] == self.remotes@[i as int]@);
            assert(answers[i as int] == log::opened(self@.remotes[i as int], id@, *arg));
            match log::try_get_build_log_local(&self.remotes[i], id, arg) {
                Ok(Some(reader)) => {
                    return Ok(Some((Origin::Remote(i), reader)));
                },
                Ok(None) => {
                    failed = false;
                },
                Err(e) => {
                    last = e;
                },
            }
            i += 1;
        }
        if failed && self.remotes.len() > 0 {
            Err(last)
        } else {
            Ok(None)
        }
    }

    /// Adds a child to a build that the server knows itself. `false`, with
    /// nothing changed, when it does not know the build.
    pub fn try_add_build_child_local(&mut self, build: &Id, child: &Id) -> (r: Result<bool, Fault>)
        requires
            old(self).wf(),
        ensures
            final(self).wf(),
            final(self).remotes == old(self).remotes,
            match child_verdict(old(self)@.local, build@, child@) {
                Ok(m) => r == Ok::<bool, Fault>(true) && final(self)@.local == m,
                Err(e) => final(self)@.local == old(self)@.local && if e == Fault::NotFound {
                    r == Ok::<bool, Fault>(false)
                } else {
                    r == Err::<bool, Fault>(e)
                },
            },
    {
        match self.local.add_child(build, child) {
            Ok(()) => Ok(true),
            Err(Fault::NotFound) => Ok(false),
            Err(e) => Err(e),
        }
    }

    /// Adds a child to a build at the first peer, after putting the child's
    /// snapshot there. `false`, with nothing changed, when there is no peer.
    fn try_add_build_child_remote(&mut self, build: &Id, child: &Id) -> (r: Result<bool, Fault>)
        requires
            old(self).wf(),
            !old(self)@.local.dom().contains(build@),
        ensures
            final(self).wf(),
            final(self).local == old(self).local,
            final(self)@ == old(self)@.child_added(build@, child@).1,
            old(self)@.remotes.len() == 0 ==> r == Ok::<bool, Fault>(false),
            old(self)@.remotes.len() > 0 ==> match old(self)@.child_added(build@, child@).0 {
                Ok(()) => r == Ok::<bool, Fault>(true),
                Err(e) => r == Err::<bool, Fault>(e),
            },
    {
        if self.remotes.len() == 0 {
            return Ok(false);
        }
        let pushed: PutArg = match self.local.snapshot(child) {
            Some(arg) => arg,
            None => {
                return Err(Fault::NotFound);
            },
        };
        let ghost before = self@;
        assert(before.remotes[0] == self.remotes@[0]@);
        let ghost peers = self.remotes@;
        let mut first: Store = self.remotes.remove(0);
        let r = match first.put_build(pushed) {
            Err(e) => Err(e),
            Ok(()) => match first.add_child(build, child) {
                Ok(()) => Ok(true),
                Err(e) => Err(e),
            },
        };
        self.remotes.insert(0, first);
        proof {
            assert(self.remotes@ =~= peers.update(0, first));
            assert forall|i: int| 0 <= i < self.remotes@.len() implies (#[trigger] self.remotes@[i]).wf() by {
                if i > 0 {
                    assert(peers[i].wf());
                }
            }
            assert(self@.remotes =~= before.remotes.update(0, first@));
            assert(before.remotes.update(0, before.remotes[0]) =~= before.remotes);
        }
        r
    }

    /// Adds a child to a build: locally when the server knows the build,
    /// else at the first peer. `NotFound` when neither can be done.
    pub fn add_build_child(&mut self, build: &Id, child: &Id) -> (r: Result<(), Fault>)
        requires
            old(self).wf(),
        ensures
            final(self).wf(),
            r == old(self)@.child_added(build@, child@).0,
            final(self)@ == old(self)@.child_added(build@, child@).1,
    {
        if self.local.contains(build) {
            match self.try_add_build_child_local(build, child) {
                Ok(_) => Ok(()),
                Err(e) => Err(e),
            }
        } else {
            match self.try_add_build_child_remote(build, child) {
                Ok(true) => Ok(()),
                Ok(false) => Err(Fault::NotFound),
                Err(e) => Err(e),
            }
        }
    }

    /// Appends bytes to the log of a build: locally when the server knows
    /// the build, else at the first peer. `NotFound` when neither can be done.
    pub fn add_build_log(&mut self, build: &Id, bytes: Vec<u8>) -> (r: Result<(), Fault>)
        requires
            old(self).wf(),
        ensures
            final(self).wf(),
            r == old(self)@.log_added(build@, bytes@).0,
            final(self)@ == old(self)@.log_added(build@, bytes@).1,
    {
        if self.local.contains(build) {
            match self.local.add_log(build, bytes) {
                Ok(()) => Ok(()),
                Err(e) => Err(e),
            }
        } else if self.remotes.len() == 0 {
            Err(Fault::NotFound)
        } else {
            let ghost before = self@;
            assert(before.remotes[0] == self.remotes@[0]@);
            let ghost peers = self.remotes@;
            let mut first: Store = self.remotes.remove(0);
            let r = match first.add_log(build, bytes) {
                Ok(()) => Ok(()),
                Err(e) => Err(e),
            };
            self.remotes.insert(0, first);
            proof {
                assert(self.remotes@ =~= peers.update(0, first));
                assert forall|i: int| 0 <= i < self.remotes@.len() implies (
                #[trigger] self.remotes@[i]).wf() by {
                    if i > 0 {
                        assert(peers[i].wf());
                    }
                }
                assert(self@.remotes =~= before.remotes.update(0, first@));
                assert(before.remotes.update(0, before.remotes[0]) =~= before.remotes);
            }
            r
        }
    }
}

} // verus!
