//! The persistent state of the build subsystem: build records, their
//! append-only children and their append-only logs.

use crate::fault::Fault;
use crate::id::{copy_range, holds, views, Id, IdView};
use crate::lifecycle::{Build, BuildView, Instant, Outcome, OutcomeView, Status};
use vstd::prelude::*;

verus! {

/// What the store holds for one build.
struct Record {
    build: Build,
    children: Vec<Id>,
    log: Vec<u8>,
}

/// The mathematical value of a record.
pub struct Entry {
    pub build: BuildView,
    /// The children in the order in which they were added; a child's
    /// position is its index.
    pub children: Seq<IdView>,
    /// All bytes written to the log, in order.
    pub log: Seq<u8>,
}

/// A complete snapshot of a build, as it is handed to `put_build`.
pub struct PutArg {
    pub build: Build,
    pub children: Vec<Id>,
}

/// The builds known locally.
pub struct Store {
    records: Vec<Record>,
}

/// The children after `child` was added: unchanged when it is already one of them.
pub open spec fn with_child(children: Seq<IdView>, child: IdView) -> Seq<IdView> {
    if children.contains(child) {
        children
    } else {
        children.push(child)
    }
}

/// The children after each of `added` was added in turn.
pub open spec fn with_children(children: Seq<IdView>, added: Seq<IdView>) -> Seq<IdView>
    decreases added.len(),
{
    if added.len() == 0 {
        children
    } else {
        with_child(with_children(children, added.drop_last()), added.last())
    }
}

/// Whether every one of `added` is among `children`.
pub open spec fn all_among(added: Seq<IdView>, children: Seq<IdView>) -> bool {
    forall|i: int| 0 <= i < added.len() ==> children.contains(#[trigger] added[i])
}

/// Whether a snapshot may be put into a store with value `m`.
pub open spec fn put_accepted(m: Map<IdView, Entry>, build: BuildView, children: Seq<IdView>) -> bool {
    &&& build.valid()
    &&& m.dom().contains(build.id) ==> {
        let known = m[build.id];
        &&& known.build.status.rank() <= build.status.rank()
        &&& known.build.status == Status::Finished ==> all_among(children, known.children)
    }
}

/// The value of the store after a snapshot was put.
pub open spec fn put_result(m: Map<IdView, Entry>, build: BuildView, children: Seq<IdView>) -> Map<
    IdView,
    Entry,
> {
    let known = m.dom().contains(build.id);
    m.insert(
        build.id,
        Entry {
            build,
            children: with_children(
                if known {
                    m[build.id].children
                } else {
                    Seq::empty()
                },
                children,
            ),
            log: if known {
                m[build.id].log
            } else {
                Seq::empty()
            },
        },
    )
}

/// The record of a build after it moved to `status` at time `now`.
pub open spec fn advanced(build: BuildView, status: Status, now: Instant) -> BuildView {
    match status {
        Status::Created => build,
        Status::Queued => BuildView { status, queued_at: Some(now), ..build },
        Status::Started => BuildView { status, started_at: Some(now), ..build },
        Status::Finished => build,
    }
}

/// What `update_status` decides for a build whose record is `build`: the new
/// record, or the fault with which the request is refused. A move backwards
/// is refused; so is a move to `Finished`, which needs an outcome, and a
/// move that would leave the record invalid. A move to the status that the
/// build is in changes nothing.
pub open spec fn advance_verdict(build: BuildView, status: Status, now: Instant) -> Result<
    BuildView,
    Fault,
> {
    if status.rank() < build.status.rank() {
        Err(Fault::Invalid)
    } else if status == build.status {
        Ok(build)
    } else if status == Status::Finished || !advanced(build, status, now).valid() {
        Err(Fault::Invalid)
    } else {
        Ok(advanced(build, status, now))
    }
}

/// The record of a build after it finished with `outcome` at time `now`.
pub open spec fn finished(build: BuildView, outcome: OutcomeView, now: Instant) -> BuildView {
    BuildView { status: Status::Finished, outcome: Some(outcome), finished_at: Some(now), ..build }
}

/// What `set_outcome` decides for a build whose record is `build`. A build
/// that is finished already keeps its outcome.
pub open spec fn finish_verdict(build: BuildView, outcome: OutcomeView, now: Instant) -> Result<
    BuildView,
    Fault,
> {
    if build.status == Status::Finished || !finished(build, outcome, now).valid() {
        Err(Fault::Invalid)
    } else {
        Ok(finished(build, outcome, now))
    }
}

/// What `add_child` decides: the value of the store afterwards, or the
/// fault with which the request is refused. Adding a child that the build
/// has already changes nothing; a finished build takes no new child.
pub open spec fn child_verdict(m: Map<IdView, Entry>, build: IdView, child: IdView) -> Result<
    Map<IdView, Entry>,
    Fault,
> {
    if !m.dom().contains(build) {
        Err(Fault::NotFound)
    } else if m[build].children.contains(child) {
        Ok(m)
    } else if m[build].build.status == Status::Finished {
        Err(Fault::Invalid)
    } else {
        Ok(m.insert(build, Entry { children: m[build].children.push(child), ..m[build] }))
    }
}

/// What `add_log` decides: the value of the store afterwards, or the fault
/// with which the request is refused. The log of a finished build takes no
/// more bytes.
pub open spec fn log_verdict(m: Map<IdView, Entry>, build: IdView, bytes: Seq<u8>) -> Result<
    Map<IdView, Entry>,
    Fault,
> {
    if !m.dom().contains(build) {
        Err(Fault::NotFound)
    } else if m[build].build.status == Status::Finished {
        Err(Fault::Invalid)
    } else {
        Ok(m.insert(build, Entry { log: m[build].log + bytes, ..m[build] }))
    }
}

/// What `put_build` decides: the value of the store afterwards, or the
/// fault with which the snapshot is refused.
pub open spec fn put_verdict(m: Map<IdView, Entry>, build: BuildView, children: Seq<IdView>) -> Result<
    Map<IdView, Entry>,
    Fault,
> {
    if put_accepted(m, build, children) {
        Ok(put_result(m, build, children))
    } else {
        Err(Fault::Invalid)
    }
}

/// The entry of a build with its record replaced.
pub open spec fn with_build(e: Entry, build: BuildView) -> Entry {
    Entry { build, ..e }
}

/// The part of `items` that a read of at most `limit` items from `position` returns.
pub open spec fn page<T>(items: Seq<T>, position: int, limit: int) -> Seq<T>
    recommends
        0 <= position,
        0 <= limit,
{
    if position >= items.len() {
        Seq::empty()
    } else if position + limit >= items.len() {
        items.subrange(position, items.len() as int)
    } else {
        items.subrange(position, position + limit)
    }
}

/// How a later value of the store relates to an earlier one: every build
/// is still known, its status has not moved backwards, its children and
/// its log have only grown at the end, and neither has changed at all if
/// the build was finished.
pub open spec fn succeeds(later: Map<IdView, Entry>, earlier: Map<IdView, Entry>) -> bool {
    forall|k: IdView| #[trigger]
        earlier.dom().contains(k) ==> {
            &&& later.dom().contains(k)
            &&& earlier[k].build.status.rank() <= later[k].build.status.rank()
            &&& earlier[k].children.is_prefix_of(later[k].children)
            &&& earlier[k].log.is_prefix_of(later[k].log)
            &&& earlier[k].build.status == Status::Finished ==> later[k].children
                == earlier[k].children && later[k].log == earlier[k].log
        }
}

/// `with_child` keeps what was there, in place, and keeps the children distinct.
pub proof fn lemma_with_child(children: Seq<IdView>, child: IdView)
    requires
        children.no_duplicates(),
    ensures
        with_child(children, child).no_duplicates(),
        children.is_prefix_of(with_child(children, child)),
        with_child(children, child).contains(child),
        with_child(with_child(children, child), child) == with_child(children, child),
{
    let after = with_child(children, child);
    if !children.contains(child) {
        assert(after[children.len() as int] == child);
        assert forall|i: int, j: int| 0 <= i < after.len() && 0 <= j < after.len() && i != j implies after[i] != after[j] by {
            if i == children.len() {
                assert(children[j] == after[j]);
                assert(children.contains(children[j]));
            } else if j == children.len() {
                assert(children[i] == after[i]);
                assert(children.contains(children[i]));
            }
        }
    }
}

/// `with_children` keeps what was there, in place, keeps the children
/// distinct, and leaves every added child among them.
pub proof fn lemma_with_children(children: Seq<IdView>, added: Seq<IdView>)
    requires
        children.no_duplicates(),
    ensures
        with_children(children, added).no_duplicates(),
        children.is_prefix_of(with_children(children, added)),
        all_among(added, with_children(children, added)),
    decreases added.len(),
{
    if added.len() > 0 {
        let before = with_children(children, added.drop_last());
        lemma_with_children(children, added.drop_last());
        lemma_with_child(before, added.last());
        let after = with_children(children, added);
        assert forall|i: int| 0 <= i < added.len() implies after.contains(#[trigger] added[i]) by {
            if i < added.len() - 1 {
                assert(added.drop_last()[i] == added[i]);
                let j = choose|j: int| 0 <= j < before.len() && before[j] == added[i];
                assert(after[j] == added[i]);
            }
        }
    }
}

/// Adding distinct children to a build that has none gives exactly those children.
pub proof fn lemma_with_children_fresh(added: Seq<IdView>)
    requires
        added.no_duplicates(),
    ensures
        with_children(Seq::empty(), added) == added,
    decreases added.len(),
{
    if added.len() > 0 {
        let front = added.drop_last();
        lemma_with_children_fresh(front);
        if front.contains(added.last()) {
            let j = choose|j: int| 0 <= j < front.len() && front[j] == added.last();
            assert(added[j] == added[added.len() - 1]);
        }
        assert(front.push(added.last()) =~= added);
    }
}

/// Adding children that are all there already changes nothing.
pub proof fn lemma_with_children_known(children: Seq<IdView>, added: Seq<IdView>)
    requires
        all_among(added, children),
    ensures
        with_children(children, added) == children,
    decreases added.len(),
{
    if added.len() > 0 {
        assert forall|i: int| 0 <= i < added.drop_last().len() implies children.contains(
            #[trigger] added.drop_last()[i],
        ) by {
            assert(added.drop_last()[i] == added[i]);
        }
        lemma_with_children_known(children, added.drop_last());
        assert(children.contains(added[added.len() - 1]));
    }
}

spec fn key(r: Record) -> IdView {
    r.build.id@
}

spec fn entry(r: Record) -> Entry {
    Entry { build: r.build@, children: views(r.children@), log: r.log@ }
}

spec fn sound(r: Record) -> bool {
    r.build@.valid() && views(r.children@).no_duplicates()
}

spec fn wf_of(recs: Seq<Record>) -> bool {
    &&& forall|i: int, j: int| 0 <= i < j < recs.len() ==> key(recs[i]) != key(recs[j])
    &&& forall|i: int| 0 <= i < recs.len() ==> sound(#[trigger] recs[i])
}

spec fn known(recs: Seq<Record>, k: IdView) -> bool {
    exists|i: int| 0 <= i < recs.len() && key(#[trigger] recs[i]) == k
}

spec fn slot(recs: Seq<Record>, k: IdView) -> int {
    choose|i: int| 0 <= i < recs.len() && key(#[trigger] recs[i]) == k
}

spec fn view_of(recs: Seq<Record>) -> Map<IdView, Entry> {
    Map::new(|k: IdView| known(recs, k), |k: IdView| entry(recs[slot(recs, k)]))
}

proof fn lemma_slot(recs: Seq<Record>, i: int)
    requires
        wf_of(recs),
        0 <= i < recs.len(),
    ensures
        view_of(recs).dom().contains(key(recs[i])),
        view_of(recs)[key(recs[i])] == entry(recs[i]),
        slot(recs, key(recs[i])) == i,
{
    let k = key(recs[i]);
    assert(known(recs, k));
    let s = slot(recs, k);
    assert(0 <= s < recs.len() && key(recs[s]) == k);
    if s < i {
        assert(key(recs[s]) != key(recs[i]));
    } else if i < s {
        assert(key(recs[i]) != key(recs[s]));
    }
}

proof fn lemma_update(recs: Seq<Record>, i: int, r: Record)
    requires
        wf_of(recs),
        0 <= i < recs.len(),
        key(r) == key(recs[i]),
        sound(r),
    ensures
        wf_of(recs.update(i, r)),
        view_of(recs.update(i, r)) == view_of(recs).insert(key(r), entry(r)),
{
    let after = recs.update(i, r);
    assert forall|a: int, b: int| 0 <= a < b < after.len() implies key(after[a]) != key(
        after[b],
    ) by {
        assert(key(after[a]) == key(recs[a]));
        assert(key(after[b]) == key(recs[b]));
    }
    assert forall|a: int| 0 <= a < after.len() implies sound(#[trigger] after[a]) by {
        if a != i {
            assert(after[a] == recs[a]);
            assert(sound(recs[a]));
        }
    }
    assert(wf_of(after));
    let m = view_of(recs).insert(key(r), entry(r));
    assert forall|k: IdView| view_of(after).dom().contains(k) <==> m.dom().contains(k) by {
        if known(after, k) {
            let a = slot(after, k);
            assert(key(recs[a]) == k);
        }
        if known(recs, k) {
            let a = slot(recs, k);
            assert(key(after[a]) == k);
        }
        if k == key(r) {
            assert(key(after[i]) == k);
        }
    }
    assert forall|k: IdView| view_of(after).dom().contains(k) implies view_of(after)[k] == m[k] by {
        let a = slot(after, k);
        lemma_slot(after, a);
        if a != i {
            assert(after[a] == recs[a]);
            lemma_slot(recs, a);
        }
    }
    assert(view_of(after) =~= m);
}

proof fn lemma_push(recs: Seq<Record>, r: Record)
    requires
        wf_of(recs),
        !known(recs, key(r)),
        sound(r),
    ensures
        wf_of(recs.push(r)),
        view_of(recs.push(r)) == view_of(recs).insert(key(r), entry(r)),
{
    let after = recs.push(r);
    let n = recs.len() as int;
    assert forall|a: int, b: int| 0 <= a < b < after.len() implies key(after[a]) != key(
        after[b],
    ) by {
        assert(after[a] == recs[a]);
        if b == n {
            assert(key(recs[a]) != key(r));
        } else {
            assert(after[b] == recs[b]);
        }
    }
    assert forall|a: int| 0 <= a < after.len() implies sound(#[trigger] after[a]) by {
        if a < n {
            assert(after[a] == recs[a]);
            assert(sound(recs[a]));
        }
    }
    assert(wf_of(after));
    let m = view_of(recs).insert(key(r), entry(r));
    assert forall|k: IdView| view_of(after).dom().contains(k) <==> m.dom().contains(k) by {
        if known(after, k) {
            let a = slot(after, k);
            if a < n {
                assert(key(recs[a]) == k);
            }
        }
        if known(recs, k) {
            let a = slot(recs, k);
            assert(key(after[a]) == k);
        }
        if k == key(r) {
            assert(key(after[n]) == k);
        }
    }
    assert forall|k: IdView| view_of(after).dom().contains(k) implies view_of(after)[k] == m[k] by {
        let a = slot(after, k);
        lemma_slot(after, a);
        if a < n {
            assert(after[a] == recs[a]);
            lemma_slot(recs, a);
        }
    }
    assert(view_of(after) =~= m);
}

fn merged(children: Vec<Id>, added: &Vec<Id>) -> (r: Vec<Id>)
    ensures
        views(r@) == with_children(views(children@), views(added@)),
{
    let mut r: Vec<Id> = children;
    let mut i: usize = 0;
    assert(views(added@).take(0) =~= Seq::<IdView>::empty());
    while i < added.len()
        invariant
            i <= added.len(),
            views(r@) == with_children(views(children@), views(added@).take(i as int)),
        decreases added.len() - i,
    {
        let ghost before = views(r@);
        if !holds(&r, &added[i]) {
            r.push(added[i].duplicate());
            assert(views(r@) =~= before.push(added[i as int]@));
        }
        proof {
            let next = views(added@).take(i + 1);
            assert(next.drop_last() =~= views(added@).take(i as int));
            assert(next.last() == added[i as int]@);
        }
        i += 1;
    }
    assert(views(added@).take(added.len() as int) =~= views(added@));
    r
}

fn all_held(added: &Vec<Id>, children: &Vec<Id>) -> (r: bool)
    ensures
        r == all_among(views(added@), views(children@)),
{
    let mut i: usize = 0;
    while i < added.len()
        invariant
            i <= added.len(),
            forall|j: int| 0 <= j < i ==> views(children@).contains(#[trigger] views(added@)[j]),
        decreases added.len() - i,
    {
        if !holds(children, &added[i]) {
            assert(!views(children@).contains(views(added@)[i as int]));
            return false;
        }
        i += 1;
    }
    true
}

impl View for Store {
    type V = Map<IdView, Entry>;

    closed spec fn view(&self) -> Map<IdView, Entry> {
        view_of(self.records@)
    }
}

impl Store {
    /// The invariant of the store: each build is recorded once, under its
    /// own identifier, with a valid record and with no child listed twice.
    pub closed spec fn wf(&self) -> bool {
        wf_of(self.records@)
    }

    /// What the invariant says of each build that the store knows.
    pub proof fn lemma_wf(&self, k: IdView)
        requires
            self.wf(),
            self@.dom().contains(k),
        ensures
            self@[k].build.id == k,
            self@[k].build.valid(),
            self@[k].children.no_duplicates(),
    {
        let i = slot(self.records@, k);
        lemma_slot(self.records@, i);
        assert(sound(self.records@[i]));
    }

    /// A store that knows no build.
    pub fn new() -> (s: Store)
        ensures
            s.wf(),
            s@ == Map::<IdView, Entry>::empty(),
    {
        let s = Store { records: Vec::new() };
        assert(s@ =~= Map::<IdView, Entry>::empty());
        s
    }

    fn find(&self, id: &Id) -> (r: Option<usize>)
        requires
            self.wf(),
        ensures
            match r {
                Some(i) => i < self.records.len() && key(self.records@[i as int]) == id@
                    && self@.dom().contains(id@) && self@[id@] == entry(self.records@[i as int]),
                None => !self@.dom().contains(id@),
            },
    {
        let mut i: usize = 0;
        while i < self.records.len()
            invariant
                self.wf(),
                i <= self.records.len(),
                forall|j: int| 0 <= j < i ==> key(self.records@[j]) != id@,
            decreases self.records.len() - i,
        {
            if self.records[i].build.id.same(id) {
                proof {
                    lemma_slot(self.records@, i as int);
                }
                return Some(i);
            }
            i += 1;
        }
        None
    }

    /// Whether the store knows the build.
    pub fn contains(&self, id: &Id) -> (r: bool)
        requires
            self.wf(),
        ensures
            r == self@.dom().contains(id@),
    {
        self.find(id).is_some()
    }

    /// The record of a build, if the store knows it.
    pub fn try_get_build_local(&self, id: &Id) -> (r: Option<&Build>)
        requires
            self.wf(),
        ensures
            match r {
                Some(b) => self@.dom().contains(id@) && b@ == self@[id@].build,
                None => !self@.dom().contains(id@),
            },
    {
        match self.find(id) {
            Some(i) => Some(&self.records[i].build),
            None => None,
        }
    }

    /// A complete snapshot of a build, as `put_build` takes it, if the store knows the build.
    pub fn snapshot(&self, id: &Id) -> (r: Option<PutArg>)
        requires
            self.wf(),
        ensures
            match r {
                Some(arg) => self@.dom().contains(id@) && arg.build@ == self@[id@].build && views(
                    arg.children@,
                ) == self@[id@].children,
                None => !self@.dom().contains(id@),
            },
    {
        match self.find(id) {
            Some(i) => {
                let record = &self.records[i];
                let children = copy_range(&record.children, 0, record.children.len());
                assert(children@ =~= record.children@);
                Some(PutArg { build: record.build.duplicate(), children })
            },
            None => None,
        }
    }

    /// The status of a build, if the store knows it.
    pub fn try_get_build_status_local(&self, id: &Id) -> (r: Option<Status>)
        requires
            self.wf(),
        ensures
            match r {
                Some(s) => self@.dom().contains(id@) && s == self@[id@].build.status,
                None => !self@.dom().contains(id@),
            },
    {
        match self.find(id) {
            Some(i) => Some(self.records[i].build.status),
            None => None,
        }
    }

    /// Puts a complete snapshot of a build: a new record for a build that
    /// the store does not know, else the known record replaced and the
    /// snapshot's children added behind those already there. `Invalid`, with
    /// nothing changed, when the snapshot is not a valid record, would move
    /// the build backwards, or would add children to a finished build.
    pub fn put_build(&mut self, arg: PutArg) -> (r: Result<(), Fault>)
        requires
            old(self).wf(),
        ensures
            final(self).wf(),
            succeeds(final(self)@, old(self)@),
            match put_verdict(old(self)@, arg.build@, views(arg.children@)) {
                Ok(m) => r is Ok && final(self)@ == m,
                Err(e) => r == Err::<(), Fault>(e) && final(self)@ == old(self)@,
            },
    {
        if !arg.build.is_valid() {
            return Err(Fault::Invalid);
        }
        match self.find(&arg.build.id) {
            None => {
                let ghost k = arg.build.id@;
                let record = Record {
                    build: arg.build,
                    children: merged(Vec::new(), &arg.children),
                    log: Vec::new(),
                };
                proof {
                    assert(views(Seq::<Id>::empty()) =~= Seq::<IdView>::empty());
                    lemma_with_children(Seq::<IdView>::empty(), views(arg.children@));
                    lemma_push(self.records@, record);
                }
                self.records.push(record);
                Ok(())
            },
            Some(i) => {
                let known = &self.records[i];
                if !known.build.status.may_advance_to(&arg.build.status) {
                    return Err(Fault::Invalid);
                }
                if known.build.status.is_finished() && !all_held(&arg.children, &known.children) {
                    return Err(Fault::Invalid);
                }
                let ghost before = self.records@;
                let taken = self.records.remove(i);
                let record = Record {
                    build: arg.build,
                    children: merged(taken.children, &arg.children),
                    log: taken.log,
                };
                proof {
                    lemma_with_children(views(before[i as int].children@), views(arg.children@));
                    if before[i as int].build.status == Status::Finished {
                        lemma_with_children_known(
                            views(before[i as int].children@),
                            views(arg.children@),
                        );
                    }
                    lemma_update(before, i as int, record);
                }
                self.records.insert(i, record);
                assert(self.records@ =~= before.update(i as int, record));
                Ok(())
            },
        }
    }

    /// Puts a snapshot that arrived under the name of a build: as
    /// `put_build`, but `Invalid`, with nothing changed, when the snapshot
    /// is of another build.
    pub fn put_build_as(&mut self, id: &Id, arg: PutArg) -> (r: Result<(), Fault>)
        requires
            old(self).wf(),
        ensures
            final(self).wf(),
            succeeds(final(self)@, old(self)@),
            match (if arg.build@.id == id@ {
                put_verdict(old(self)@, arg.build@, views(arg.children@))
            } else {
                Err(Fault::Invalid)
            }) {
                Ok(m) => r is Ok && final(self)@ == m,
                Err(e) => r == Err::<(), Fault>(e) && final(self)@ == old(self)@,
            },
    {
        if arg.build.id.same(id) {
            self.put_build(arg)
        } else {
            Err(Fault::Invalid)
        }
    }

    /// Moves a build to `status` at time `now` and records the time under
    /// that status. `NotFound` for a build that the store does not know;
    /// otherwise as `advance_verdict` decides, with nothing changed on a fault.
    pub fn update_status(&mut self, id: &Id, status: Status, now: Instant) -> (r: Result<
        (),
        Fault,
    >)
        requires
            old(self).wf(),
        ensures
            final(self).wf(),
            succeeds(final(self)@, old(self)@),
            !old(self)@.dom().contains(id@) ==> r == Err::<(), Fault>(Fault::NotFound) && final(self)@ == old(self)@,
            old(self)@.dom().contains(id@) ==> match advance_verdict(
                old(self)@[id@].build,
                status,
                now,
            ) {
                Ok(b) => r is Ok && final(self)@ == old(self)@.insert(
                    id@,
                    with_build(old(self)@[id@], b),
                ),
                Err(e) => r == Err::<(), Fault>(e) && final(self)@ == old(self)@,
            },
    {
        let i = match self.find(id) {
            None => {
                return Err(Fault::NotFound);
            },
            Some(i) => i,
        };
        let current: Status = self.records[i].build.status;
        if !current.may_advance_to(&status) {
            return Err(Fault::Invalid);
        }
        if current == status {
            assert(self@.insert(id@, with_build(self@[id@], self@[id@].build)) =~= self@);
            return Ok(());
        }
        let ghost before = self.records@;
        let mut taken = self.records.remove(i);
        let queued_at: Option<Instant> = taken.build.queued_at;
        let started_at: Option<Instant> = taken.build.started_at;
        match status {
            Status::Queued => {
                taken.build.status = status;
                taken.build.queued_at = Some(now);
            },
            Status::Started => {
                taken.build.status = status;
                taken.build.started_at = Some(now);
            },
            _ => {},
        }
        let accepted: bool = !status.is_finished() && taken.build.is_valid();
        if !accepted {
            taken.build.status = current;
            taken.build.queued_at = queued_at;
            taken.build.started_at = started_at;
        }
        proof {
            assert(sound(before[i as int]));
            lemma_update(before, i as int, taken);
        }
        self.records.insert(i, taken);
        assert(self.records@ =~= before.update(i as int, taken));
        if accepted {
            Ok(())
        } else {
            assert(self@ =~= old(self)@);
            Err(Fault::Invalid)
        }
    }

    /// Finishes a build with `outcome` at time `now`: status, outcome and
    /// finishing time change together. `NotFound` for a build that the store
    /// does not know; otherwise as `finish_verdict` decides, with nothing
    /// changed on a fault.
    pub fn set_outcome(&mut self, id: &Id, outcome: Outcome, now: Instant) -> (r: Result<
        (),
        Fault,
    >)
        requires
            old(self).wf(),
        ensures
            final(self).wf(),
            succeeds(final(self)@, old(self)@),
            !old(self)@.dom().contains(id@) ==> r == Err::<(), Fault>(Fault::NotFound) && final(self)@ == old(self)@,
            old(self)@.dom().contains(id@) ==> match finish_verdict(
                old(self)@[id@].build,
                outcome@,
                now,
            ) {
                Ok(b) => r is Ok && final(self)@ == old(self)@.insert(
                    id@,
                    with_build(old(self)@[id@], b),
                ),
                Err(e) => r == Err::<(), Fault>(e) && final(self)@ == old(self)@,
            },
    {
        let i = match self.find(id) {
            None => {
                return Err(Fault::NotFound);
            },
            Some(i) => i,
        };
        if self.records[i].build.status.is_finished() {
            return Err(Fault::Invalid);
        }
        let ghost before = self.records@;
        let mut taken = self.records.remove(i);
        let current: Status = taken.build.status;
        taken.build.status = Status::Finished;
        taken.build.outcome = Some(outcome);
        taken.build.finished_at = Some(now);
        let accepted: bool = taken.build.is_valid();
        if !accepted {
            taken.build.status = current;
            taken.build.outcome = None;
            taken.build.finished_at = None;
        }
        proof {
            assert(sound(before[i as int]));
            lemma_update(before, i as int, taken);
        }
        self.records.insert(i, taken);
        assert(self.records@ =~= before.update(i as int, taken));
        if accepted {
            Ok(())
        } else {
            assert(self@ =~= old(self)@);
            Err(Fault::Invalid)
        }
    }

    /// Adds `child` behind the children of `build`, unless it is one of
    /// them already. `NotFound` when the store does not know `build`;
    /// `Invalid` when `build` is finished and `child` is not among its
    /// children. Nothing changes on a fault.
    pub fn add_child(&mut self, build: &Id, child: &Id) -> (r: Result<(), Fault>)
        requires
            old(self).wf(),
        ensures
            final(self).wf(),
            succeeds(final(self)@, old(self)@),
            match child_verdict(old(self)@, build@, child@) {
                Ok(m) => r is Ok && final(self)@ == m,
                Err(e) => r == Err::<(), Fault>(e) && final(self)@ == old(self)@,
            },
    {
        let i = match self.find(build) {
            None => {
                return Err(Fault::NotFound);
            },
            Some(i) => i,
        };
        let ghost known = self@[build@];
        if holds(&self.records[i].children, child) {
            return Ok(());
        }
        if self.records[i].build.status.is_finished() {
            return Err(Fault::Invalid);
        }
        let ghost before = self.records@;
        let mut taken = self.records.remove(i);
        taken.children.push(child.duplicate());
        proof {
            assert(sound(before[i as int]));
            assert(views(taken.children@) =~= with_child(known.children, child@));
            lemma_with_child(known.children, child@);
            lemma_update(before, i as int, taken);
        }
        self.records.insert(i, taken);
        assert(self.records@ =~= before.update(i as int, taken));
        Ok(())
    }

    /// Appends `bytes` to the log of `build`. `NotFound` when the store
    /// does not know `build`; `Invalid` when `build` is finished. Nothing
    /// changes on a fault.
    pub fn add_log(&mut self, build: &Id, bytes: Vec<u8>) -> (r: Result<(), Fault>)
        requires
            old(self).wf(),
        ensures
            final(self).wf(),
            succeeds(final(self)@, old(self)@),
            match log_verdict(old(self)@, build@, bytes@) {
                Ok(m) => r is Ok && final(self)@ == m,
                Err(e) => r == Err::<(), Fault>(e) && final(self)@ == old(self)@,
            },
    {
        let i = match self.find(build) {
            None => {
                return Err(Fault::NotFound);
            },
            Some(i) => i,
        };
        if self.records[i].build.status.is_finished() {
            return Err(Fault::Invalid);
        }
        let ghost before = self.records@;
        let mut taken = self.records.remove(i);
        let mut rest: Vec<u8> = bytes;
        taken.log.append(&mut rest);
        proof {
            assert(sound(before[i as int]));
            lemma_update(before, i as int, taken);
        }
        self.records.insert(i, taken);
        assert(self.records@ =~= before.update(i as int, taken));
        Ok(())
    }

    /// How many children a build has, if the store knows it.
    pub fn children_count(&self, id: &Id) -> (r: Option<u64>)
        requires
            self.wf(),
        ensures
            match r {
                Some(n) => self@.dom().contains(id@) && n == self@[id@].children.len(),
                None => !self@.dom().contains(id@),
            },
    {
        match self.find(id) {
            Some(i) => Some(self.records[i].children.len() as u64),
            None => None,
        }
    }

    /// At most `limit` children of a build, from `position` on, if the store knows it.
    pub fn children_page(&self, id: &Id, position: u64, limit: u64) -> (r: Option<Vec<Id>>)
        requires
            self.wf(),
        ensures
            match r {
                Some(items) => self@.dom().contains(id@) && views(items@) == page(
                    self@[id@].children,
                    position as int,
                    limit as int,
                ),
                None => !self@.dom().contains(id@),
            },
    {
        match self.find(id) {
            Some(i) => {
                let children = &self.records[i].children;
                let count: usize = children.len();
                if position >= count as u64 {
                    let items: Vec<Id> = Vec::new();
                    assert(views(items@) =~= Seq::<IdView>::empty());
                    Some(items)
                } else {
                    let from: usize = position as usize;
                    let to: usize = if limit >= (count - from) as u64 {
                        count
                    } else {
                        from + limit as usize
                    };
                    let items = copy_range(children, from, to);
                    assert(views(items@) =~= views(children@).subrange(from as int, to as int));
                    Some(items)
                }
            },
            None => None,
        }
    }

    /// Whether a reader at `position` has seen all there will ever be of a
    /// build's children: the build is finished and has no child at or
    /// behind `position`.
    pub fn children_end(&self, id: &Id, position: u64) -> (r: Option<bool>)
        requires
            self.wf(),
        ensures
            match r {
                Some(end) => self@.dom().contains(id@) && end == (self@[id@].build.status
                    == Status::Finished && position >= self@[id@].children.len()),
                None => !self@.dom().contains(id@),
            },
    {
        match self.find(id) {
            Some(i) => Some(
                self.records[i].build.status.is_finished() && position
                    >= self.records[i].children.len() as u64,
            ),
            None => None,
        }
    }

    /// How many bytes the log of a build holds, if the store knows it.
    pub fn log_len(&self, id: &Id) -> (r: Option<u64>)
        requires
            self.wf(),
        ensures
            match r {
                Some(n) => self@.dom().contains(id@) && n == self@[id@].log.len(),
                None => !self@.dom().contains(id@),
            },
    {
        match self.find(id) {
            Some(i) => Some(self.records[i].log.len() as u64),
            None => None,
        }
    }

    /// At most `limit` bytes of a build's log, from offset `position` on, if
    /// the store knows the build.
    pub fn log_page(&self, id: &Id, position: u64, limit: u64) -> (r: Option<Vec<u8>>)
        requires
            self.wf(),
        ensures
            match r {
                Some(bytes) => self@.dom().contains(id@) && bytes@ == page(
                    self@[id@].log,
                    position as int,
                    limit as int,
                ),
                None => !self@.dom().contains(id@),
            },
    {
        match self.find(id) {
            Some(i) => {
                let log = &self.records[i].log;
                let count: usize = log.len();
                let mut bytes: Vec<u8> = Vec::new();
                if position < count as u64 {
                    let from: usize = position as usize;
                    let to: usize = if limit >= (count - from) as u64 {
                        count
                    } else {
                        from + limit as usize
                    };
                    let mut j: usize = from;
                    while j < to
                        invariant
                            from <= j <= to <= log.len(),
                            bytes@ == log@.subrange(from as int, j as int),
                        decreases to - j,
                    {
                        bytes.push(log[j]);
                        assert(bytes@ =~= log@.subrange(from as int, j + 1));
                        j += 1;
                    }
                }
                assert(bytes@ =~= page(log@, position as int, limit as int));
                Some(bytes)
            },
            None => None,
        }
    }

    /// Whether a reader at offset `position` has seen all there will ever
    /// be of a build's log: the build is finished and its log ends at or
    /// before `position`.
    pub fn log_end(&self, id: &Id, position: u64) -> (r: Option<bool>)
        requires
            self.wf(),
        ensures
            match r {
                Some(end) => self@.dom().contains(id@) && end == (self@[id@].build.status
                    == Status::Finished && position >= self@[id@].log.len()),
                None => !self@.dom().contains(id@),
            },
    {
        match self.find(id) {
            Some(i) => Some(
                self.records[i].build.status.is_finished() && position
                    >= self.records[i].log.len() as u64,
            ),
            None => None,
        }
    }
}

} // verus!
