use build_state::error::Error;
use build_state::fault::Fault;
use build_state::id::{Id, Kind};
use build_state::lifecycle::{Build, Outcome, Retry, Status};
use build_state::store::{PutArg, Store};

fn bld(body: &str) -> Id {
    Id::new(Kind::Build, body.to_string())
}

fn fresh(body: &str) -> Build {
    Build::new(bld(body), "host".to_string(), Id::new(Kind::Target, "t".to_string()), Retry::Failed, 10)
}

fn store_with(body: &str) -> Store {
    let mut store = Store::new();
    assert_eq!(store.put_build(PutArg { build: fresh(body), children: vec![] }), Ok(()));
    store
}

fn children_of(store: &Store, body: &str) -> Vec<Id> {
    store.snapshot(&bld(body)).unwrap().children
}

#[test]
fn empty_store_knows_nothing() {
    let store = Store::new();
    assert!(!store.contains(&bld("1")));
    assert!(store.try_get_build_local(&bld("1")).is_none());
    assert_eq!(store.try_get_build_status_local(&bld("1")), None);
    assert_eq!(store.children_count(&bld("1")), None);
    assert_eq!(store.children_page(&bld("1"), 0, 10), None);
    assert_eq!(store.children_end(&bld("1"), 0), None);
    assert_eq!(store.log_len(&bld("1")), None);
    assert_eq!(store.log_page(&bld("1"), 0, 10), None);
    assert_eq!(store.log_end(&bld("1"), 0), None);
    assert!(store.snapshot(&bld("1")).is_none());
}

#[test]
fn put_build_inserts_build_and_children() {
    let mut store = Store::new();
    let arg = PutArg { build: fresh("1"), children: vec![bld("2"), bld("3"), bld("2")] };
    assert_eq!(store.put_build(arg), Ok(()));
    assert!(store.contains(&bld("1")));
    assert_eq!(store.try_get_build_local(&bld("1")).unwrap().host, "host");
    assert_eq!(children_of(&store, "1"), vec![bld("2"), bld("3")]);
    assert_eq!(store.children_count(&bld("1")), Some(2));
    assert_eq!(store.log_len(&bld("1")), Some(0));
}

#[test]
fn put_build_is_idempotent() {
    let mut store = Store::new();
    let mut build = fresh("1");
    build.status = Status::Started;
    build.started_at = Some(20);
    for _ in 0..3 {
        let arg = PutArg { build: build.clone(), children: vec![bld("2"), bld("3")] };
        assert_eq!(store.put_build(arg), Ok(()));
        assert_eq!(children_of(&store, "1"), vec![bld("2"), bld("3")]);
        assert_eq!(store.try_get_build_status_local(&bld("1")), Some(Status::Started));
        assert_eq!(store.try_get_build_local(&bld("1")).unwrap().started_at, Some(20));
    }
}

#[test]
fn put_build_adds_new_children_behind_known_ones() {
    let mut store = Store::new();
    assert_eq!(store.put_build(PutArg { build: fresh("1"), children: vec![bld("a"), bld("b")] }), Ok(()));
    assert_eq!(store.add_log(&bld("1"), b"log".to_vec()), Ok(()));
    let mut next = fresh("1");
    next.status = Status::Queued;
    next.queued_at = Some(11);
    next.host = "other".to_string();
    assert_eq!(store.put_build(PutArg { build: next, children: vec![bld("c"), bld("a")] }), Ok(()));
    assert_eq!(children_of(&store, "1"), vec![bld("a"), bld("b"), bld("c")]);
    assert_eq!(store.try_get_build_local(&bld("1")).unwrap().host, "other");
    assert_eq!(store.log_page(&bld("1"), 0, 10), Some(b"log".to_vec()));
}

#[test]
fn put_build_rejects_invalid_snapshots() {
    let mut store = Store::new();
    let mut build = fresh("1");
    build.status = Status::Finished;
    assert_eq!(store.put_build(PutArg { build, children: vec![] }), Err(Fault::Invalid));
    assert!(!store.contains(&bld("1")));
    let mut build = fresh("1");
    build.outcome = Some(Outcome::Canceled);
    assert_eq!(store.put_build(PutArg { build, children: vec![] }), Err(Fault::Invalid));
    let mut build = fresh("1");
    build.queued_at = Some(5);
    assert_eq!(store.put_build(PutArg { build, children: vec![] }), Err(Fault::Invalid));
    assert!(!store.contains(&bld("1")));
}

#[test]
fn put_build_rejects_regression_and_changes_to_finished_children() {
    let mut store = store_with("1");
    assert_eq!(store.add_child(&bld("1"), &bld("2")), Ok(()));
    assert_eq!(store.update_status(&bld("1"), Status::Started, 20), Ok(()));
    assert_eq!(store.put_build(PutArg { build: fresh("1"), children: vec![] }), Err(Fault::Invalid));
    assert_eq!(store.try_get_build_status_local(&bld("1")), Some(Status::Started));
    assert_eq!(store.set_outcome(&bld("1"), Outcome::Canceled, 30), Ok(()));
    let finished = store.try_get_build_local(&bld("1")).unwrap().clone();
    let arg = PutArg { build: finished.clone(), children: vec![bld("3")] };
    assert_eq!(store.put_build(arg), Err(Fault::Invalid));
    assert_eq!(children_of(&store, "1"), vec![bld("2")]);
    let arg = PutArg { build: finished, children: vec![bld("2")] };
    assert_eq!(store.put_build(arg), Ok(()));
    assert_eq!(children_of(&store, "1"), vec![bld("2")]);
}

#[test]
fn idempotent_child_add() {
    let mut store = store_with("1");
    assert_eq!(store.add_child(&bld("1"), &bld("2")), Ok(()));
    assert_eq!(store.add_child(&bld("1"), &bld("2")), Ok(()));
    assert_eq!(store.children_count(&bld("1")), Some(1));
    assert_eq!(children_of(&store, "1"), vec![bld("2")]);
    for _ in 0..5 {
        assert_eq!(store.add_child(&bld("1"), &bld("2")), Ok(()));
    }
    assert_eq!(store.children_count(&bld("1")), Some(1));
}

#[test]
fn add_child_keeps_insertion_order() {
    let mut store = store_with("1");
    for body in ["c", "a", "b", "a", "d", "c"] {
        assert_eq!(store.add_child(&bld("1"), &bld(body)), Ok(()));
    }
    assert_eq!(children_of(&store, "1"), vec![bld("c"), bld("a"), bld("b"), bld("d")]);
    assert_eq!(store.children_page(&bld("1"), 1, 2), Some(vec![bld("a"), bld("b")]));
    assert_eq!(store.children_page(&bld("1"), 3, 10), Some(vec![bld("d")]));
    assert_eq!(store.children_page(&bld("1"), 4, 10), Some(vec![]));
    assert_eq!(store.children_page(&bld("1"), 9, 10), Some(vec![]));
    assert_eq!(store.children_page(&bld("1"), 0, 0), Some(vec![]));
    assert_eq!(store.children_page(&bld("1"), 0, u64::MAX).unwrap().len(), 4);
}

#[test]
fn add_child_to_unknown_or_finished_build_fails() {
    let mut store = store_with("1");
    assert_eq!(store.add_child(&bld("9"), &bld("2")), Err(Fault::NotFound));
    assert_eq!(store.add_child(&bld("1"), &bld("2")), Ok(()));
    assert_eq!(store.set_outcome(&bld("1"), Outcome::Succeeded("1".to_string()), 11), Ok(()));
    assert_eq!(store.add_child(&bld("1"), &bld("3")), Err(Fault::Invalid));
    assert_eq!(store.add_child(&bld("1"), &bld("2")), Ok(()));
    assert_eq!(children_of(&store, "1"), vec![bld("2")]);
    assert_eq!(store.add_log(&bld("1"), vec![1]), Err(Fault::Invalid));
    assert_eq!(store.add_log(&bld("9"), vec![1]), Err(Fault::NotFound));
    assert_eq!(store.log_len(&bld("1")), Some(0));
}

#[test]
fn status_regression_rejected() {
    let mut store = store_with("1");
    assert_eq!(store.update_status(&bld("1"), Status::Started, 20), Ok(()));
    let before = store.try_get_build_local(&bld("1")).unwrap().clone();
    assert_eq!(store.update_status(&bld("1"), Status::Queued, 30), Err(Fault::Invalid));
    let after = store.try_get_build_local(&bld("1")).unwrap();
    assert_eq!(after.status, Status::Started);
    assert_eq!(after.queued_at, before.queued_at);
    assert_eq!(after.started_at, Some(20));
    assert_eq!(store.update_status(&bld("1"), Status::Created, 30), Err(Fault::Invalid));
    assert_eq!(store.try_get_build_status_local(&bld("1")), Some(Status::Started));
}

#[test]
fn update_status_sets_the_matching_timestamp() {
    let mut store = store_with("1");
    assert_eq!(store.update_status(&bld("9"), Status::Queued, 20), Err(Fault::NotFound));
    assert_eq!(store.update_status(&bld("1"), Status::Created, 5), Ok(()));
    assert_eq!(store.update_status(&bld("1"), Status::Queued, 5), Err(Fault::Invalid));
    assert_eq!(store.try_get_build_status_local(&bld("1")), Some(Status::Created));
    assert_eq!(store.update_status(&bld("1"), Status::Queued, 20), Ok(()));
    let build = store.try_get_build_local(&bld("1")).unwrap();
    assert_eq!((build.status, build.queued_at, build.started_at), (Status::Queued, Some(20), None));
    assert_eq!(store.update_status(&bld("1"), Status::Queued, 99), Ok(()));
    assert_eq!(store.try_get_build_local(&bld("1")).unwrap().queued_at, Some(20));
    assert_eq!(store.update_status(&bld("1"), Status::Started, 19), Err(Fault::Invalid));
    assert_eq!(store.update_status(&bld("1"), Status::Finished, 30), Err(Fault::Invalid));
    assert_eq!(store.update_status(&bld("1"), Status::Started, 20), Ok(()));
    let build = store.try_get_build_local(&bld("1")).unwrap();
    assert_eq!((build.status, build.queued_at, build.started_at), (Status::Started, Some(20), Some(20)));
    assert!(build.is_valid());
}

#[test]
fn set_outcome_finishes_once() {
    let mut store = store_with("1");
    assert_eq!(store.set_outcome(&bld("9"), Outcome::Canceled, 20), Err(Fault::NotFound));
    assert_eq!(store.set_outcome(&bld("1"), Outcome::Canceled, 9), Err(Fault::Invalid));
    assert_eq!(store.try_get_build_status_local(&bld("1")), Some(Status::Created));
    assert!(store.try_get_build_local(&bld("1")).unwrap().outcome.is_none());
    let failure = Outcome::Failed(Error::new("boom".to_string()));
    assert_eq!(store.set_outcome(&bld("1"), failure, 20), Ok(()));
    let build = store.try_get_build_local(&bld("1")).unwrap();
    assert_eq!(build.status, Status::Finished);
    assert_eq!(build.finished_at, Some(20));
    assert!(matches!(&build.outcome, Some(Outcome::Failed(e)) if e.message == "boom"));
    assert!(build.is_valid());
    assert_eq!(store.set_outcome(&bld("1"), Outcome::Canceled, 30), Err(Fault::Invalid));
    assert!(matches!(store.try_get_build_local(&bld("1")).unwrap().outcome, Some(Outcome::Failed(_))));
    assert_eq!(store.update_status(&bld("1"), Status::Finished, 40), Ok(()));
    assert_eq!(store.try_get_build_local(&bld("1")).unwrap().finished_at, Some(20));
}

#[test]
fn log_pages_are_byte_windows() {
    let mut store = store_with("1");
    assert_eq!(store.add_log(&bld("1"), b"hello ".to_vec()), Ok(()));
    assert_eq!(store.add_log(&bld("1"), b"world".to_vec()), Ok(()));
    assert_eq!(store.add_log(&bld("1"), vec![]), Ok(()));
    assert_eq!(store.log_len(&bld("1")), Some(11));
    assert_eq!(store.log_page(&bld("1"), 0, 100), Some(b"hello world".to_vec()));
    assert_eq!(store.log_page(&bld("1"), 3, 5), Some(b"lo wo".to_vec()));
    assert_eq!(store.log_page(&bld("1"), 10, 5), Some(b"d".to_vec()));
    assert_eq!(store.log_page(&bld("1"), 11, 5), Some(vec![]));
    assert_eq!(store.log_page(&bld("1"), 4, 0), Some(vec![]));
    assert_eq!(store.log_end(&bld("1"), 11), Some(false));
    assert_eq!(store.set_outcome(&bld("1"), Outcome::Canceled, 10), Ok(()));
    assert_eq!(store.log_end(&bld("1"), 10), Some(false));
    assert_eq!(store.log_end(&bld("1"), 11), Some(true));
    assert_eq!(store.children_end(&bld("1"), 0), Some(true));
}

#[test]
fn snapshot_can_be_put_elsewhere() {
    let mut store = store_with("1");
    assert_eq!(store.add_child(&bld("1"), &bld("2")), Ok(()));
    assert_eq!(store.update_status(&bld("1"), Status::Queued, 12), Ok(()));
    let snapshot = store.snapshot(&bld("1")).unwrap();
    let mut other = Store::new();
    assert_eq!(other.put_build(snapshot), Ok(()));
    assert_eq!(other.try_get_build_status_local(&bld("1")), Some(Status::Queued));
    assert_eq!(other.try_get_build_local(&bld("1")).unwrap().queued_at, Some(12));
    assert_eq!(other.children_page(&bld("1"), 0, 10), Some(vec![bld("2")]));
}

#[test]
fn put_build_as_checks_the_name() {
    let mut store = Store::new();
    let arg = PutArg { build: fresh("1"), children: vec![bld("2")] };
    assert_eq!(store.put_build_as(&bld("9"), arg), Err(Fault::Invalid));
    assert!(!store.contains(&bld("1")));
    let arg = PutArg { build: fresh("1"), children: vec![bld("2")] };
    assert_eq!(store.put_build_as(&bld("1"), arg), Ok(()));
    assert_eq!(store.children_count(&bld("1")), Some(1));
}
