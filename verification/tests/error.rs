use build_state::error::{function_symbol, Error, Location, Source, TraceOptions};
use build_state::trace::{render, Line};

#[test]
fn error_macro() {
    let options = TraceOptions::default();

    let foo = "foo";
    let bar = "bar";
    let error = Error::new(format!("{}", "message"))
        .with_location(Location {
            symbol: Some("error_macro".to_owned()),
            source: Source::Internal { path: "tests/error.rs".to_owned() },
            line: 8,
            column: 16,
        })
        .with_value("foo".to_owned(), format!("{:?}", foo))
        .with_value("bar".to_owned(), bar.to_string())
        .with_value("baz".to_owned(), "baz".to_string())
        .with_value("qux".to_owned(), format!("{:?}", "qux"));
    let trace = error.trace(&options).to_string();
    println!("{trace}");

    let source = Error::from_chain(&vec!["an io error".to_owned()]).unwrap();
    let error = Error::new(format!("another error")).with_source(source);
    let trace = error.trace(&options).to_string();
    println!("{trace}");

    let source = Error::from_chain(&vec!["an io error".to_owned()]).unwrap();
    let error = Error::new(format!("another error")).with_source(source);
    let trace = error.trace(&options).to_string();
    println!("{trace}");

    let stack = vec![Location {
        symbol: None,
        source: Source::Internal {
            path: "foobar.rs".to_owned(),
        },
        line: 123,
        column: 456,
    }];
    let error = Error::new(format!("an error occurred")).with_stack(stack);
    let trace = error.trace(&options).to_string();
    println!("{trace}");
}

#[test]
fn function_macro() {
    let f = function_symbol("tangram_error::tests::function_macro::__Dummy").unwrap();
    assert_eq!(f, "tangram_error::tests::function_macro");
}

#[test]
fn function_symbol_needs_the_marker() {
    assert_eq!(function_symbol("a::b::c"), None);
    assert_eq!(function_symbol("__Dummy"), None);
    assert_eq!(function_symbol("::__Dummy"), Some(String::new()));
}

#[test]
fn source_kinds_and_text() {
    let internal = Source::Internal { path: "src/lib.rs".to_owned() };
    let external = Source::External { package: "pkg".to_owned(), path: "mod.ts".to_owned() };
    assert!(internal.is_internal());
    assert!(!internal.is_external());
    assert!(external.is_external());
    assert!(!external.is_internal());
    assert_eq!(internal.to_string(), "src/lib.rs");
    assert_eq!(external.to_string(), "pkg:mod.ts");
}

#[test]
fn location_text_counts_from_one() {
    let location = Location {
        symbol: Some("f".to_owned()),
        source: Source::External { package: "pkg".to_owned(), path: "mod.ts".to_owned() },
        line: 0,
        column: 9,
    };
    assert_eq!(location.to_string(), "pkg:mod.ts:1:10 f");
    let location = Location {
        symbol: None,
        source: Source::Internal { path: "a.rs".to_owned() },
        line: 4294967295,
        column: 122,
    };
    assert_eq!(location.to_string(), "a.rs:4294967296:123");
    let location = Location::internal("a.rs".to_owned(), 12, 1);
    assert_eq!(location.line, 11);
    assert_eq!(location.column, 0);
    assert_eq!(location.symbol, None);
    assert_eq!(location.to_string(), "a.rs:12:1");
}

#[test]
fn trace_is_innermost_first_unless_reversed() {
    let inner = Error::new("inner".to_owned());
    let middle = Error::new("middle".to_owned()).with_source(inner);
    let outer = Error::new("outer".to_owned()).with_source(middle);
    let options = TraceOptions::default();
    assert_eq!(outer.trace(&options).to_string(), "-> inner\n-> middle\n-> outer\n");
    let options = TraceOptions { internal: false, reverse: true };
    assert_eq!(outer.trace(&options).to_string(), "-> outer\n-> middle\n-> inner\n");
}

#[test]
fn trace_shows_values_locations_and_stack() {
    let stack = vec![
        Location {
            symbol: Some("first".to_owned()),
            source: Source::External { package: "pkg".to_owned(), path: "a.ts".to_owned() },
            line: 0,
            column: 0,
        },
        Location {
            symbol: None,
            source: Source::Internal { path: "hidden.rs".to_owned() },
            line: 1,
            column: 1,
        },
        Location {
            symbol: None,
            source: Source::External { package: "pkg".to_owned(), path: "b.ts".to_owned() },
            line: 2,
            column: 3,
        },
    ];
    let error = Error::new("failed".to_owned())
        .with_location(Location::internal("src/x.rs".to_owned(), 10, 20))
        .with_value("zeta".to_owned(), "26".to_owned())
        .with_value("alpha".to_owned(), "1".to_owned())
        .with_value("zeta".to_owned(), "27".to_owned())
        .with_stack(stack);
    let options = TraceOptions::default();
    assert_eq!(
        error.trace(&options).to_string(),
        "-> failed\n   alpha = 1\n   zeta = 27\n   pkg:b.ts:3:4\n   pkg:a.ts:1:1 first\n"
    );
    let options = TraceOptions { internal: true, reverse: false };
    assert_eq!(
        error.trace(&options).to_string(),
        "-> failed\n   src/x.rs:10:20\n   alpha = 1\n   zeta = 27\n   pkg:b.ts:3:4\n   hidden.rs:2:2\n   pkg:a.ts:1:1 first\n"
    );
    let options = TraceOptions { internal: true, reverse: true };
    assert_eq!(
        error.trace(&options).to_string(),
        "-> failed\n   src/x.rs:10:20\n   alpha = 1\n   zeta = 27\n   pkg:a.ts:1:1 first\n   hidden.rs:2:2\n   pkg:b.ts:3:4\n"
    );
}

#[test]
fn error_values_stay_sorted_by_name() {
    let error = Error::new("m".to_owned())
        .with_value("b".to_owned(), "2".to_owned())
        .with_value("a".to_owned(), "1".to_owned())
        .with_value("c".to_owned(), "3".to_owned())
        .with_value("ab".to_owned(), "4".to_owned())
        .with_value("b".to_owned(), "5".to_owned());
    let names: Vec<(&str, &str)> =
        error.values.iter().map(|v| (v.0.as_str(), v.1.as_str())).collect();
    assert_eq!(names, vec![("a", "1"), ("ab", "4"), ("b", "5"), ("c", "3")]);
}

#[test]
fn error_from_chain_links_causes() {
    assert!(Error::from_chain(&vec![]).is_none());
    let error =
        Error::from_chain(&vec!["top".to_owned(), "mid".to_owned(), "low".to_owned()]).unwrap();
    assert_eq!(error.message, "top");
    let mid = error.source.as_ref().unwrap();
    assert_eq!(mid.message, "mid");
    let low = mid.source.as_ref().unwrap();
    assert_eq!(low.message, "low");
    assert!(low.source.is_none());
    let copy = error.clone();
    assert_eq!(copy.trace(&TraceOptions::default()).to_string(), "-> low\n-> mid\n-> top\n");
    let custom = Error::custom("bad value".to_owned());
    assert_eq!(custom.message, "bad value");
    assert!(custom.location.is_none() && custom.source.is_none() && custom.values.is_empty());
}

#[test]
fn trace_lines_match_the_text() {
    let cause = Error::new("cause".to_owned())
        .with_location(Location {
            symbol: None,
            source: Source::External { package: "pkg".to_owned(), path: "a.ts".to_owned() },
            line: 4,
            column: 2,
        })
        .with_value("k".to_owned(), "v".to_owned());
    let error = Error::new("top".to_owned())
        .with_location(Location::internal("src/x.rs".to_owned(), 1, 1))
        .with_source(cause);
    let options = TraceOptions::default();
    let lines = error.trace(&options).lines();
    assert_eq!(
        lines,
        vec![
            Line::Message("cause".to_owned()),
            Line::Location("pkg:a.ts:5:3".to_owned()),
            Line::Value("k".to_owned(), "v".to_owned()),
            Line::Message("top".to_owned()),
        ]
    );
    assert_eq!(render(&lines), error.trace(&options).to_string());
    assert_eq!(render(&lines), "-> cause\n   pkg:a.ts:5:3\n   k = v\n-> top\n");
    assert_eq!(Line::Message("m".to_owned()).to_string(), "-> m\n");
    assert_eq!(Line::Location("l".to_owned()).to_string(), "   l\n");
    assert_eq!(Line::Value("n".to_owned(), "v".to_owned()).to_string(), "   n = v\n");
    assert_eq!(render(&vec![]), "");
}
