use build_state::children;
use build_state::cursor::Seek;
use build_state::error::Error;
use build_state::fault::Fault;
use build_state::http::{
    children_event, children_json, children_uri, choose_format, classify, log_uri, negotiate,
    path, route, split, yank_path, Format, Method, Reply, Resource, Route,
};
use build_state::id::{Id, Kind};
use build_state::lifecycle::{Outcome, Retry, Status};
use build_state::log;
use build_state::notify::{reader_subjects, subject, Topic, TICK_SECONDS};
use build_state::query::{
    children_arg_from_fields, children_arg_from_query, children_arg_to_pairs,
    children_arg_to_query, log_arg_from_fields, log_arg_from_query, log_arg_to_pairs,
    log_arg_to_query, Fields,
};
use build_state::row::Row;
use build_state::sse::{sse_data, sse_event, take_events};
use build_state::http::{
    add_log_request, children_events, children_response, fault_response, get_log_request,
    package_doc_segment, read_children_request, yank_request, ChildrenRequest, Request, Response,
};
use build_state::statement::{Dialect, Statement};

fn bld(body: &str) -> Id {
    Id::new(Kind::Build, body.to_string())
}

fn pair(name: &str, value: &str) -> (String, String) {
    (name.to_string(), value.to_string())
}

#[test]
fn fault_status_codes() {
    assert_eq!(Fault::NotFound.status_code(), 404);
    assert_eq!(Fault::Invalid.status_code(), 400);
    assert_eq!(Fault::Conflict.status_code(), 500);
    assert_eq!(Fault::Unavailable.status_code(), 500);
    assert_eq!(Fault::Timeout.status_code(), 500);
    assert_eq!(Fault::Internal.status_code(), 500);
}

#[test]
fn negotiate_reads_the_accept_header() {
    assert_eq!(negotiate(None), Ok(Format::Json));
    assert_eq!(negotiate(Some("*/*")), Ok(Format::Json));
    assert_eq!(negotiate(Some("application/json")), Ok(Format::Json));
    assert_eq!(negotiate(Some("Application/JSON; charset=utf-8")), Ok(Format::Json));
    assert_eq!(negotiate(Some("text/event-stream")), Ok(Format::EventStream));
    assert_eq!(negotiate(Some("TEXT/Event-Stream")), Ok(Format::EventStream));
    assert_eq!(negotiate(Some("text/plain")), Err(Fault::Invalid));
    assert_eq!(negotiate(Some("application/*")), Err(Fault::Invalid));
    assert_eq!(negotiate(Some("not a media type")), Err(Fault::Invalid));
    assert_eq!(negotiate(Some("")), Err(Fault::Invalid));
    assert_eq!(Format::Json.content_type(), "application/json");
    assert_eq!(Format::EventStream.content_type(), "text/event-stream");
}

#[test]
fn choose_format_decides_on_the_two_names() {
    let names = |a: &str, b: &str| Some((a.to_string(), b.to_string()));
    assert_eq!(choose_format(&None), Ok(Format::Json));
    assert_eq!(choose_format(&names("*", "*")), Ok(Format::Json));
    assert_eq!(choose_format(&names("application", "json")), Ok(Format::Json));
    assert_eq!(choose_format(&names("text", "event-stream")), Ok(Format::EventStream));
    assert_eq!(choose_format(&names("text", "json")), Err(Fault::Invalid));
    assert_eq!(choose_format(&names("*", "json")), Err(Fault::Invalid));
    assert_eq!(choose_format(&names("application", "*")), Err(Fault::Invalid));
}

#[test]
fn split_cuts_at_every_slash() {
    assert_eq!(split("/builds/bld_1"), vec!["", "builds", "bld_1"]);
    assert_eq!(split("a//b/"), vec!["a", "", "b", ""]);
    assert_eq!(split(""), vec![""]);
    assert_eq!(split("abc"), vec!["abc"]);
}

#[test]
fn route_names_the_resources_of_a_build() {
    let named = |method, resource| Ok(Route { method, resource, id: bld("1") });
    assert_eq!(route(Method::Get, "/builds/bld_1"), named(Method::Get, Resource::Build));
    assert_eq!(route(Method::Put, "/builds/bld_1"), named(Method::Put, Resource::Build));
    assert_eq!(route(Method::Get, "/builds/bld_1/children"), named(Method::Get, Resource::Children));
    assert_eq!(route(Method::Post, "/builds/bld_1/children"), named(Method::Post, Resource::Children));
    assert_eq!(route(Method::Get, "/builds/bld_1/log"), named(Method::Get, Resource::Log));
    assert_eq!(route(Method::Post, "/builds/bld_1/log"), named(Method::Post, Resource::Log));
    assert_eq!(route(Method::Get, "/builds/bld_1/status"), named(Method::Get, Resource::Status));
    assert_eq!(route(Method::Post, "/builds/bld_1/status"), Err(Fault::NotFound));
    assert_eq!(route(Method::Post, "/builds/bld_1"), Err(Fault::NotFound));
    assert_eq!(route(Method::Put, "/builds/bld_1/log"), Err(Fault::NotFound));
    assert_eq!(route(Method::Get, "/builds/bld_1/other"), Err(Fault::NotFound));
    assert_eq!(route(Method::Get, "/builds/bld_1/log/more"), Err(Fault::NotFound));
    assert_eq!(route(Method::Get, "/builds"), Err(Fault::NotFound));
    assert_eq!(route(Method::Get, "builds/bld_1"), Err(Fault::NotFound));
    assert_eq!(route(Method::Get, "/packages/bld_1"), Err(Fault::NotFound));
    assert_eq!(route(Method::Get, "/builds/dir_1"), Err(Fault::Invalid));
    assert_eq!(route(Method::Get, "/builds/nonsense/log"), Err(Fault::Invalid));
}

#[test]
fn sse_frames_are_data_lines() {
    assert_eq!(sse_event("{\"position\":0}"), "data: {\"position\":0}\n\n");
    assert_eq!(sse_event(""), "data: \n\n");
    assert_eq!(sse_data("data: {\"position\":0}\n\n"), Some("{\"position\":0}".to_string()));
    assert_eq!(sse_data("data: \n\n"), Some(String::new()));
    assert_eq!(sse_data("data:x\n\n"), None);
    assert_eq!(sse_data("data: x\n"), None);
    assert_eq!(sse_data("data: "), None);
    assert_eq!(sse_data(&sse_event("a\nb")), Some("a\nb".to_string()));
}

#[test]
fn children_bodies_are_json() {
    let chunks = vec![
        children::Chunk { position: 0, items: vec![bld("2"), bld("3")] },
        children::Chunk { position: 2, items: vec![bld("4")] },
    ];
    assert_eq!(children_json(&chunks), r#"["bld_2","bld_3","bld_4"]"#);
    assert_eq!(children_json(&vec![]), "[]");
    assert_eq!(
        children_event(&chunks[0]),
        Some("data: {\"position\":0,\"items\":[\"bld_2\",\"bld_3\"]}\n\n".to_string())
    );
    let empty = children::Chunk { position: 7, items: vec![] };
    assert_eq!(children_event(&empty), Some("data: {\"position\":7,\"items\":[]}\n\n".to_string()));
}

#[test]
fn classify_reads_the_status() {
    assert_eq!(classify(404), Reply::NotFound);
    assert_eq!(classify(200), Reply::Success);
    assert_eq!(classify(204), Reply::Success);
    assert_eq!(classify(299), Reply::Success);
    assert_eq!(classify(300), Reply::Failure);
    assert_eq!(classify(199), Reply::Failure);
    assert_eq!(classify(400), Reply::Failure);
    assert_eq!(classify(500), Reply::Failure);
}

#[test]
fn paths_and_uris_name_the_build() {
    assert_eq!(path(&bld("1"), Resource::Build), "/builds/bld_1");
    assert_eq!(path(&bld("1"), Resource::Children), "/builds/bld_1/children");
    assert_eq!(path(&bld("1"), Resource::Log), "/builds/bld_1/log");
    assert_eq!(path(&bld("1"), Resource::Status), "/builds/bld_1/status");
    assert_eq!(yank_path(&Id::new(Kind::Directory, "p".to_string())), "/packages/dir_p/yank");
    let arg = log::Arg {
        length: Some(-3),
        position: Some(Seek::End(-10)),
        size: Some(4096),
        timeout: Some(0),
    };
    assert_eq!(
        log_uri(&bld("1"), &arg),
        Some("/builds/bld_1/log?length=-3&position=end.-10&size=4096&timeout=0".to_string())
    );
    assert_eq!(log_uri(&bld("1"), &log::Arg::default()), Some("/builds/bld_1/log?".to_string()));
    let arg = children::Arg { length: None, position: Some(Seek::Start(5)), size: None, timeout: None };
    assert_eq!(
        children_uri(&bld("1"), &arg),
        Some("/builds/bld_1/children?position=start.5".to_string())
    );
}

#[test]
fn subjects_name_build_and_topic() {
    assert_eq!(subject(&bld("1"), Topic::Children), "builds.bld_1.children");
    assert_eq!(subject(&bld("1"), Topic::Log), "builds.bld_1.log");
    assert_eq!(subject(&bld("1"), Topic::Status), "builds.bld_1.status");
    assert_eq!(
        reader_subjects(&bld("1"), Topic::Children),
        vec!["builds.bld_1.children", "builds.bld_1.status"]
    );
    assert_eq!(reader_subjects(&bld("1"), Topic::Log), vec!["builds.bld_1.log", "builds.bld_1.status"]);
    assert_eq!(reader_subjects(&bld("1"), Topic::Status), vec!["builds.bld_1.status"]);
    assert_eq!(TICK_SECONDS, 60);
}

#[test]
fn seek_text_round_trips() {
    for (seek, text) in [
        (Seek::Start(0), "start.0"),
        (Seek::Start(u64::MAX), "start.18446744073709551615"),
        (Seek::End(-1), "end.-1"),
        (Seek::End(0), "end.0"),
        (Seek::End(i64::MIN), "end.-9223372036854775808"),
        (Seek::Current(i64::MAX), "current.9223372036854775807"),
    ] {
        assert_eq!(seek.to_string(), text);
        assert_eq!(Seek::parse(text), Ok(seek));
    }
    assert_eq!(Seek::parse("start.-1"), Err(Fault::Invalid));
    assert_eq!(Seek::parse("start"), Err(Fault::Invalid));
    assert_eq!(Seek::parse("start."), Err(Fault::Invalid));
    assert_eq!(Seek::parse("begin.1"), Err(Fault::Invalid));
    assert_eq!(Seek::parse("end.1.5"), Err(Fault::Invalid));
    assert_eq!(Seek::parse("end.9223372036854775808"), Err(Fault::Invalid));
    assert_eq!(Seek::parse(""), Err(Fault::Invalid));
}

#[test]
fn fields_take_each_known_name_once() {
    let pairs = vec![pair("size", "3"), pair("other", "x"), pair("position", "end.-2")];
    let fields = Fields::of_pairs(&pairs).unwrap();
    assert_eq!(
        fields,
        Fields {
            length: None,
            position: Some("end.-2".to_string()),
            size: Some("3".to_string()),
            timeout: None,
        }
    );
    let pairs = vec![pair("size", "3"), pair("size", "3")];
    assert_eq!(Fields::of_pairs(&pairs), Err(Fault::Invalid));
    let pairs = vec![pair("length", "1"), pair("timeout", "2"), pair("length", "1"), pair("x", "y")];
    assert_eq!(Fields::of_pairs(&pairs), Err(Fault::Invalid));
    assert_eq!(
        Fields::of_pairs(&vec![]),
        Ok(Fields { length: None, position: None, size: None, timeout: None })
    );
}

#[test]
fn args_are_read_from_fields_and_queries() {
    let fields = Fields {
        length: Some("5".to_string()),
        position: Some("start.2".to_string()),
        size: Some("3".to_string()),
        timeout: Some("60".to_string()),
    };
    let arg = children_arg_from_fields(&fields).unwrap();
    assert_eq!(
        arg,
        children::Arg {
            length: Some(5),
            position: Some(Seek::Start(2)),
            size: Some(3),
            timeout: Some(60),
        }
    );
    let arg = log_arg_from_fields(&Fields { length: Some("-5".to_string()), ..fields.clone() }).unwrap();
    assert_eq!(arg.length, Some(-5));
    assert_eq!(
        children_arg_from_fields(&Fields { length: Some("-5".to_string()), ..fields.clone() }),
        Err(Fault::Invalid)
    );
    assert_eq!(
        log_arg_from_fields(&Fields { size: Some("big".to_string()), ..fields.clone() }),
        Err(Fault::Invalid)
    );
    assert_eq!(
        log_arg_from_fields(&Fields { position: Some("2".to_string()), ..fields }),
        Err(Fault::Invalid)
    );

    assert_eq!(children_arg_from_query(None), Ok(children::Arg::default()));
    assert_eq!(children_arg_from_query(Some("")), Ok(children::Arg::default()));
    assert_eq!(
        children_arg_from_query(Some("position=end.-2&size=4&ignored=1")),
        Ok(children::Arg { length: None, position: Some(Seek::End(-2)), size: Some(4), timeout: None })
    );
    assert_eq!(
        children_arg_from_query(Some("position=start%2E7&timeout=0")),
        Ok(children::Arg { length: None, position: Some(Seek::Start(7)), size: None, timeout: Some(0) })
    );
    assert_eq!(children_arg_from_query(Some("size=4&size=5")), Err(Fault::Invalid));
    assert_eq!(children_arg_from_query(Some("size=four")), Err(Fault::Invalid));
    assert_eq!(log_arg_from_query(None), Ok(log::Arg::default()));
    assert_eq!(
        log_arg_from_query(Some("length=-1&position=current.0")),
        Ok(log::Arg { length: Some(-1), position: Some(Seek::Current(0)), size: None, timeout: None })
    );
    assert_eq!(log_arg_from_query(Some("length=1.5")), Err(Fault::Invalid));
}

#[test]
fn args_are_written_as_pairs_and_queries() {
    let arg = children::Arg {
        length: Some(5),
        position: Some(Seek::Current(-2)),
        size: Some(3),
        timeout: Some(60),
    };
    assert_eq!(
        children_arg_to_pairs(&arg),
        vec![pair("length", "5"), pair("position", "current.-2"), pair("size", "3"), pair("timeout", "60")]
    );
    assert_eq!(
        children_arg_to_query(&arg),
        Some("length=5&position=current.-2&size=3&timeout=60".to_string())
    );
    assert_eq!(children_arg_to_pairs(&children::Arg::default()), vec![]);
    assert_eq!(children_arg_to_query(&children::Arg::default()), Some(String::new()));
    let arg = log::Arg { length: Some(i64::MIN), position: None, size: None, timeout: Some(1) };
    assert_eq!(
        log_arg_to_pairs(&arg),
        vec![pair("length", "-9223372036854775808"), pair("timeout", "1")]
    );
    assert_eq!(log_arg_to_query(&arg), Some("length=-9223372036854775808&timeout=1".to_string()));
    let arg = children::Arg { length: None, position: Some(Seek::End(-3)), size: Some(2), timeout: None };
    let query = children_arg_to_query(&arg).unwrap();
    assert_eq!(children_arg_from_query(Some(&query)), Ok(arg));
}

fn row() -> Row {
    Row {
        id: "bld_1".to_string(),
        complete: true,
        count: Some(3),
        host: "x86_64-linux".to_string(),
        log: Some("lef_log".to_string()),
        outcome: Some(Outcome::Canceled),
        retry: "failed".to_string(),
        status: "finished".to_string(),
        target: "tgt_t".to_string(),
        weight: None,
        created_at: "1970-01-01T00:00:01Z".to_string(),
        queued_at: None,
        started_at: Some("1970-01-01T00:00:02.5Z".to_string()),
        finished_at: Some("1970-01-01T01:00:03+01:00".to_string()),
    }
}

#[test]
fn row_decodes_to_a_build() {
    let build = row().decode().unwrap();
    assert_eq!(build.id, bld("1"));
    assert!(build.complete);
    assert_eq!(build.count, Some(3));
    assert_eq!(build.weight, None);
    assert_eq!(build.host, "x86_64-linux");
    assert_eq!(build.log, Some(Id::new(Kind::Leaf, "log".to_string())));
    assert!(matches!(build.outcome, Some(Outcome::Canceled)));
    assert_eq!(build.retry, Retry::Failed);
    assert_eq!(build.status, Status::Finished);
    assert_eq!(build.target, Id::new(Kind::Target, "t".to_string()));
    assert_eq!(build.created_at, 1_000_000_000);
    assert_eq!(build.queued_at, None);
    assert_eq!(build.started_at, Some(2_500_000_000));
    assert_eq!(build.finished_at, Some(3_000_000_000));
    assert!(build.is_valid());
}

#[test]
fn row_with_a_bad_column_is_invalid() {
    assert!(matches!(Row { id: "1".to_string(), ..row() }.decode(), Err(Fault::Invalid)));
    assert!(matches!(Row { count: Some(-1), ..row() }.decode(), Err(Fault::Invalid)));
    assert!(matches!(Row { weight: Some(i64::MIN), ..row() }.decode(), Err(Fault::Invalid)));
    assert!(matches!(Row { log: Some("log".to_string()), ..row() }.decode(), Err(Fault::Invalid)));
    assert!(matches!(Row { retry: "never".to_string(), ..row() }.decode(), Err(Fault::Invalid)));
    assert!(matches!(Row { status: "done".to_string(), ..row() }.decode(), Err(Fault::Invalid)));
    assert!(matches!(Row { target: "".to_string(), ..row() }.decode(), Err(Fault::Invalid)));
    assert!(matches!(Row { created_at: "yesterday".to_string(), ..row() }.decode(), Err(Fault::Invalid)));
    assert!(matches!(
        Row { queued_at: Some("1970-01-01".to_string()), ..row() }.decode(),
        Err(Fault::Invalid)
    ));
    assert!(matches!(Row { started_at: Some("".to_string()), ..row() }.decode(), Err(Fault::Invalid)));
    assert!(matches!(Row { finished_at: Some("1".to_string()), ..row() }.decode(), Err(Fault::Invalid)));
    assert!(Row { weight: Some(i64::MAX), ..row() }.decode().is_ok());
}

#[test]
fn statements_use_the_marks_of_the_dialect() {
    assert_eq!(Dialect::Sqlite.placeholder(1), "?1");
    assert_eq!(Dialect::Postgres.placeholder(12), "$12");
    assert_eq!(Dialect::Sqlite.mark(), "?");
    assert_eq!(Dialect::Postgres.mark(), "$");
    assert_eq!(
        Dialect::Sqlite.statement(Statement::ChildrenCount),
        "select count(*)\nfrom build_children\nwhere build = ?1;\n"
    );
    assert_eq!(
        Dialect::Postgres.statement(Statement::ChildrenPage),
        "select child\nfrom build_children\nwhere build = $1\norder by position\nlimit $2\noffset $3\n"
    );
    assert_eq!(
        Dialect::Postgres.statement(Statement::ChildrenEnd),
        "select (\n\tselect status = 'finished'\n\tfrom builds\n\twhere id = $1\n) and (\n\tselect $2 >= count(*)\n\tfrom build_children\n\twhere build = $1\n);\n"
    );
    assert_eq!(
        Dialect::Sqlite.statement(Statement::AddChild),
        "insert into build_children (build, position, child)\nvalues (?1, (select coalesce(max(position) + 1, 0) from build_children where build = ?1), ?2)\non conflict (build, child) do nothing;\n"
    );
    assert_eq!(
        Dialect::Sqlite.statement(Statement::GetBuild),
        "select id, complete, count, host, log, outcome, retry, status, target, weight, created_at, queued_at, started_at, finished_at\nfrom builds\nwhere id = ?1;\n"
    );
}

#[test]
fn children_responses_take_the_form_asked_for() {
    let chunks = vec![
        children::Chunk { position: 0, items: vec![bld("2")] },
        children::Chunk { position: 1, items: vec![bld("3")] },
    ];
    assert_eq!(
        children_response(Format::Json, &chunks),
        Some(Response {
            status: 200,
            content_type: Some("application/json".to_string()),
            body: r#"["bld_2","bld_3"]"#.to_string(),
        })
    );
    let events = "data: {\"position\":0,\"items\":[\"bld_2\"]}\n\ndata: {\"position\":1,\"items\":[\"bld_3\"]}\n\n";
    assert_eq!(children_events(&chunks), Some(events.to_string()));
    assert_eq!(children_events(&vec![]), Some(String::new()));
    assert_eq!(
        children_response(Format::EventStream, &chunks),
        Some(Response {
            status: 200,
            content_type: Some("text/event-stream".to_string()),
            body: events.to_string(),
        })
    );
    assert_eq!(
        fault_response(Fault::NotFound, String::new()),
        Response { status: 404, content_type: None, body: String::new() }
    );
    assert_eq!(fault_response(Fault::Invalid, "{}".to_string()).status, 400);
    assert_eq!(fault_response(Fault::Internal, "{}".to_string()).body, "{}");
}

#[test]
fn children_requests_are_read_whole() {
    assert_eq!(
        read_children_request("bld_1", Some("size=2"), Some("text/event-stream; q=1")),
        Ok(ChildrenRequest {
            id: bld("1"),
            arg: children::Arg { size: Some(2), ..children::Arg::default() },
            accept: Some(("text".to_string(), "event-stream".to_string())),
        })
    );
    assert_eq!(
        read_children_request("bld_1", None, None),
        Ok(ChildrenRequest { id: bld("1"), arg: children::Arg::default(), accept: None })
    );
    let asked = read_children_request("bld_1", None, Some("image/png")).unwrap();
    assert_eq!(choose_format(&asked.accept), Err(Fault::Invalid));
    assert_eq!(read_children_request("fil_1", None, None), Err(Fault::Invalid));
    assert_eq!(read_children_request("bld_1", Some("size=x"), None), Err(Fault::Invalid));
    assert_eq!(read_children_request("bld_1", None, Some("nonsense")), Err(Fault::Invalid));
}

#[test]
fn requests_to_peers_name_method_and_uri() {
    let arg = log::Arg { length: None, position: Some(Seek::Start(0)), size: None, timeout: None };
    assert_eq!(
        get_log_request(&bld("1"), &arg),
        Some(Request {
            method: Method::Get,
            uri: "/builds/bld_1/log?position=start.0".to_string(),
            accept: Some("text/event-stream".to_string()),
            content_type: None,
        })
    );
    assert_eq!(
        add_log_request(&bld("1")),
        Request {
            method: Method::Post,
            uri: "/builds/bld_1/log".to_string(),
            accept: None,
            content_type: Some("application/octet-stream".to_string()),
        }
    );
    assert_eq!(
        yank_request(&Id::new(Kind::Directory, "p".to_string())),
        Request {
            method: Method::Post,
            uri: "/packages/dir_p/yank".to_string(),
            accept: None,
            content_type: None,
        }
    );
    assert_eq!(Method::Get.as_str(), "GET");
    assert_eq!(Method::Put.as_str(), "PUT");
    assert_eq!(Method::Post.as_str(), "POST");
}

#[test]
fn package_doc_paths_name_a_dependency() {
    assert_eq!(package_doc_segment("/packages/foo%401.0/doc"), Some("foo%401.0".to_string()));
    assert_eq!(package_doc_segment("/packages//doc"), Some(String::new()));
    assert_eq!(package_doc_segment("/packages/foo"), None);
    assert_eq!(package_doc_segment("/packages/foo/docs"), None);
    assert_eq!(package_doc_segment("/builds/foo/doc"), None);
    assert_eq!(package_doc_segment("packages/foo/doc"), None);
    assert_eq!(package_doc_segment("/packages/a/b/doc"), None);
}

#[test]
fn take_events_cuts_at_blank_lines() {
    let cut = |text: &str| {
        let (events, rest) = take_events(text);
        (events, rest)
    };
    assert_eq!(cut(""), (vec![], String::new()));
    assert_eq!(cut("data: 1"), (vec![], "data: 1".to_string()));
    assert_eq!(cut("data: 1\n"), (vec![], "data: 1\n".to_string()));
    assert_eq!(cut("data: 1\n\n"), (vec!["data: 1\n\n".to_string()], String::new()));
    assert_eq!(
        cut("data: 1\n\ndata: 2\n\ndata"),
        (vec!["data: 1\n\n".to_string(), "data: 2\n\n".to_string()], "data".to_string())
    );
    assert_eq!(
        cut("\n\n\n\n\n"),
        (vec!["\n\n".to_string(), "\n\n".to_string()], "\n".to_string())
    );
    let (events, rest) = take_events(&format!("{}{}", sse_event("a"), sse_event("b")));
    assert_eq!(rest, "");
    let data: Vec<Option<String>> = events.iter().map(|event| sse_data(event)).collect();
    assert_eq!(data, vec![Some("a".to_string()), Some("b".to_string())]);
}

#[test]
fn faults_travel_as_tokens() {
    for fault in [
        Fault::NotFound,
        Fault::Invalid,
        Fault::Conflict,
        Fault::Unavailable,
        Fault::Timeout,
        Fault::Internal,
    ] {
        assert_eq!(Fault::parse(fault.as_str()), fault);
        let error = Error::from_fault(fault);
        assert_eq!(error.fault(), fault);
        assert_eq!(error.message, fault.describe());
        assert_eq!(error.values, vec![("fault".to_string(), fault.as_str().to_string())]);
    }
    assert_eq!(Fault::NotFound.as_str(), "not_found");
    assert_eq!(Fault::Invalid.as_str(), "invalid");
    assert_eq!(Fault::Conflict.as_str(), "conflict");
    assert_eq!(Fault::Unavailable.as_str(), "unavailable");
    assert_eq!(Fault::Timeout.as_str(), "timeout");
    assert_eq!(Fault::Internal.as_str(), "internal");
    assert_eq!(Fault::parse("nonsense"), Fault::Internal);
    assert_eq!(Fault::NotFound.describe(), "failed to get the build");
    assert_eq!(Error::new("plain".to_string()).fault(), Fault::Internal);
    let error = Error::new("m".to_string())
        .with_value("fault".to_string(), "timeout".to_string())
        .with_value("a".to_string(), "b".to_string());
    assert_eq!(error.fault(), Fault::Timeout);
}
