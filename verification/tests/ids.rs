use build_state::fault::Fault;
use build_state::id::{copy_range, holds, Id, Kind};
use build_state::lifecycle::{Build, Outcome, Retry, Status};
use build_state::text::{
    find_char, parse_i64, parse_u64, push_decimal, strip_suffix, text_eq, text_lt,
};
use build_state::id::artifact_kind;

#[test]
fn id_prints_prefix_underscore_body() {
    assert_eq!(Id::new(Kind::Build, "1".to_string()).to_string(), "bld_1");
    assert_eq!(Id::new(Kind::Leaf, "a".to_string()).to_string(), "lef_a");
    assert_eq!(Id::new(Kind::Branch, "a".to_string()).to_string(), "bch_a");
    assert_eq!(Id::new(Kind::Directory, "a".to_string()).to_string(), "dir_a");
    assert_eq!(Id::new(Kind::File, "a".to_string()).to_string(), "fil_a");
    assert_eq!(Id::new(Kind::Symlink, "a".to_string()).to_string(), "sym_a");
    assert_eq!(Id::new(Kind::Lock, "a".to_string()).to_string(), "lok_a");
    assert_eq!(Id::new(Kind::Target, "a_b".to_string()).to_string(), "tgt_a_b");
    assert_eq!(Id::new(Kind::Build, String::new()).to_string(), "bld_");
}

#[test]
fn id_parse_reads_what_print_wrote() {
    for kind in [
        Kind::Leaf,
        Kind::Branch,
        Kind::Directory,
        Kind::File,
        Kind::Symlink,
        Kind::Lock,
        Kind::Target,
        Kind::Build,
    ] {
        for body in ["", "1", "01hx_yz", "with space", "ünïcode"] {
            let id = Id::new(kind, body.to_string());
            assert_eq!(Id::parse(&id.to_string()), Ok(id));
        }
    }
    let id = Id::parse("bld_a_b").unwrap();
    assert_eq!(id.kind, Kind::Build);
    assert_eq!(id.body, "a_b");
    assert!(id.is_build());
    assert!(!Id::parse("dir_a").unwrap().is_build());
}

#[test]
fn id_parse_rejects_what_is_no_identifier() {
    assert_eq!(Id::parse(""), Err(Fault::Invalid));
    assert_eq!(Id::parse("bld"), Err(Fault::Invalid));
    assert_eq!(Id::parse("xyz_1"), Err(Fault::Invalid));
    assert_eq!(Id::parse("BLD_1"), Err(Fault::Invalid));
    assert_eq!(Id::parse("_bld_1"), Err(Fault::Invalid));
    assert_eq!(Id::parse("bl_d1"), Err(Fault::Invalid));
}

#[test]
fn id_same_and_duplicate_agree() {
    let a = Id::new(Kind::Build, "1".to_string());
    let b = a.duplicate();
    assert_eq!(a, b);
    assert!(a.same(&b));
    assert!(!a.same(&Id::new(Kind::Build, "2".to_string())));
    assert!(!a.same(&Id::new(Kind::File, "1".to_string())));
    let list = vec![a.duplicate(), Id::new(Kind::Build, "2".to_string()), Id::new(Kind::Build, "3".to_string())];
    assert!(holds(&list, &b));
    assert!(!holds(&list, &Id::new(Kind::Build, "4".to_string())));
    assert_eq!(copy_range(&list, 1, 3), list[1..3].to_vec());
    assert_eq!(copy_range(&list, 2, 2), vec![]);
}

#[test]
fn text_helpers_give_exact_results() {
    assert_eq!(find_char("a/b/c", '/'), Some(1));
    assert_eq!(find_char("abc", '/'), None);
    assert_eq!(find_char("", '/'), None);
    assert!(text_eq("abc", "abc"));
    assert!(!text_eq("abc", "abd"));
    assert!(!text_eq("abc", "ab"));
    assert!(text_lt("a", "b"));
    assert!(text_lt("a", "ab"));
    assert!(text_lt("", "a"));
    assert!(!text_lt("b", "a"));
    assert!(!text_lt("a", "a"));
    assert!(!text_lt("ab", "a"));
    assert!(text_lt("Z", "a"));
    assert_eq!(strip_suffix("hello.rs", ".rs"), Some("hello".to_string()));
    assert_eq!(strip_suffix("hello.rs", ".ts"), None);
    assert_eq!(strip_suffix("rs", "hello.rs"), None);
    let mut out = String::from("n=");
    push_decimal(&mut out, 0);
    push_decimal(&mut out, 7);
    push_decimal(&mut out, 10);
    push_decimal(&mut out, 18446744073709551615);
    assert_eq!(out, "n=071018446744073709551615");
}

#[test]
fn status_tokens_round_trip() {
    for status in [Status::Created, Status::Queued, Status::Started, Status::Finished] {
        assert_eq!(Status::parse(status.as_str()), Ok(status));
    }
    assert_eq!(Status::Created.as_str(), "created");
    assert_eq!(Status::Queued.as_str(), "queued");
    assert_eq!(Status::Started.as_str(), "started");
    assert_eq!(Status::Finished.as_str(), "finished");
    assert_eq!(Status::parse("done"), Err(Fault::Invalid));
    assert_eq!(Status::parse("Created"), Err(Fault::Invalid));
    for retry in [Retry::Canceled, Retry::Failed, Retry::Succeeded] {
        assert_eq!(Retry::parse(retry.as_str()), Ok(retry));
    }
    assert_eq!(Retry::Canceled.as_str(), "canceled");
    assert_eq!(Retry::Failed.as_str(), "failed");
    assert_eq!(Retry::Succeeded.as_str(), "succeeded");
    assert_eq!(Retry::parse(""), Err(Fault::Invalid));
}

#[test]
fn status_order_is_created_queued_started_finished() {
    let order = [Status::Created, Status::Queued, Status::Started, Status::Finished];
    for (i, a) in order.iter().enumerate() {
        for (j, b) in order.iter().enumerate() {
            assert_eq!(a.may_advance_to(b), i <= j);
        }
        assert_eq!(a.is_finished(), i == 3);
    }
}

#[test]
fn build_validity_follows_the_invariants() {
    let id = Id::new(Kind::Build, "1".to_string());
    let target = Id::new(Kind::Target, "t".to_string());
    let build = Build::new(id, "x86_64-linux".to_string(), target, Retry::Failed, 100);
    assert!(build.is_valid());
    assert_eq!(build.status, Status::Created);
    assert_eq!(build.latest_instant(), 100);

    let mut b = build.clone();
    b.status = Status::Finished;
    assert!(!b.is_valid());
    b.outcome = Some(Outcome::Canceled);
    assert!(!b.is_valid());
    b.finished_at = Some(100);
    assert!(b.is_valid());
    b.finished_at = Some(99);
    assert!(!b.is_valid());

    let mut b = build.clone();
    b.outcome = Some(Outcome::Succeeded("null".to_string()));
    assert!(!b.is_valid());

    let mut b = build.clone();
    b.queued_at = Some(150);
    b.started_at = Some(120);
    assert!(!b.is_valid());
    b.started_at = Some(150);
    assert!(b.is_valid());
    assert_eq!(b.latest_instant(), 150);
    b.queued_at = Some(50);
    assert!(!b.is_valid());
}

#[test]
fn artifact_kind_takes_the_first_class_that_fits() {
    assert_eq!(artifact_kind(true, false, false), Ok(Kind::Directory));
    assert_eq!(artifact_kind(false, true, false), Ok(Kind::File));
    assert_eq!(artifact_kind(false, false, true), Ok(Kind::Symlink));
    assert_eq!(artifact_kind(true, true, true), Ok(Kind::Directory));
    assert_eq!(artifact_kind(false, true, true), Ok(Kind::File));
    assert_eq!(artifact_kind(false, false, false), Err(Fault::Invalid));
}

#[test]
fn numbers_are_read_as_decimal_digits() {
    assert_eq!(parse_u64("0"), Some(0));
    assert_eq!(parse_u64("42"), Some(42));
    assert_eq!(parse_u64("+42"), Some(42));
    assert_eq!(parse_u64("007"), Some(7));
    assert_eq!(parse_u64("18446744073709551615"), Some(u64::MAX));
    assert_eq!(parse_u64("18446744073709551616"), None);
    assert_eq!(parse_u64("99999999999999999999999"), None);
    assert_eq!(parse_u64(""), None);
    assert_eq!(parse_u64("+"), None);
    assert_eq!(parse_u64("-0"), None);
    assert_eq!(parse_u64("1_000"), None);
    assert_eq!(parse_u64(" 1"), None);
    assert_eq!(parse_u64("٣"), None);
    assert_eq!(parse_i64("0"), Some(0));
    assert_eq!(parse_i64("-0"), Some(0));
    assert_eq!(parse_i64("+9"), Some(9));
    assert_eq!(parse_i64("-12"), Some(-12));
    assert_eq!(parse_i64("9223372036854775807"), Some(i64::MAX));
    assert_eq!(parse_i64("9223372036854775808"), None);
    assert_eq!(parse_i64("-9223372036854775808"), Some(i64::MIN));
    assert_eq!(parse_i64("-9223372036854775809"), None);
    assert_eq!(parse_i64("-"), None);
    assert_eq!(parse_i64("--1"), None);
    assert_eq!(parse_i64("-+1"), None);
    assert_eq!(parse_i64("1-"), None);
    for text in ["5", "+5", "05", "x", "", "-5", "18446744073709551615", "18446744073709551616"] {
        assert_eq!(parse_u64(text), text.parse::<u64>().ok());
        assert_eq!(parse_i64(text), text.parse::<i64>().ok());
    }
}
