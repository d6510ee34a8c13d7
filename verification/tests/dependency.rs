use build_state::dependency::{Dependency, Path};
use build_state::fault::Fault;
use build_state::http::dependency_of_segment;
use build_state::id::{Id, Kind};
use build_state::outside::Scalar;

#[test]
fn display() {
    let left = Dependency {
        id: None,
        name: Some("foo".into()),
        path: None,
        version: None,
    };
    let right = "foo";
    assert_eq!(left.to_string(), right);

    let left = Dependency {
        id: None,
        name: Some("foo".into()),
        path: None,
        version: Some("1.2.3".into()),
    };
    let right = "foo@1.2.3";
    assert_eq!(left.to_string(), right);

    let left = Dependency {
        id: None,
        name: Some("foo".into()),
        path: Some("path/to/foo".parse().unwrap()),
        version: Some("1.2.3".into()),
    };
    let right = r#"{"name":"foo","path":"path/to/foo","version":"1.2.3"}"#;
    assert_eq!(left.to_string(), right);

    let left = Dependency {
        id: None,
        name: None,
        path: Some("path/to/foo".parse().unwrap()),
        version: None,
    };
    let right = "./path/to/foo";
    assert_eq!(left.to_string(), right);
}

#[test]
fn parse() {
    let left: Dependency = "foo".parse().unwrap();
    let right = Dependency {
        id: None,
        name: Some("foo".into()),
        path: None,
        version: None,
    };
    assert_eq!(left, right);

    let left: Dependency = "foo@1.2.3".parse().unwrap();
    let right = Dependency {
        id: None,
        name: Some("foo".into()),
        path: None,
        version: Some("1.2.3".into()),
    };
    assert_eq!(left, right);

    let left: Dependency = r#"{"name":"foo","path":"path/to/foo","version":"1.2.3"}"#
        .parse()
        .unwrap();
    let right = Dependency {
        id: None,
        name: Some("foo".into()),
        path: Some("path/to/foo".parse().unwrap()),
        version: Some("1.2.3".into()),
    };
    assert_eq!(left, right);

    let left: Dependency = "./path/to/foo".parse().unwrap();
    let right = Dependency {
        id: None,
        name: None,
        path: Some("./path/to/foo".parse().unwrap()),
        version: None,
    };
    assert_eq!(left, right);

    let left: Dependency = r#"{"path":"path/to/foo"}"#.parse().unwrap();
    let right = Dependency {
        id: None,
        name: None,
        path: Some("path/to/foo".parse().unwrap()),
        version: None,
    };
    assert_eq!(left, right);
}

#[test]
fn dependency_builders_set_one_part() {
    let id = Id::new(Kind::Directory, "abc".to_string());
    let d = Dependency::with_id(id.clone());
    assert_eq!(d, Dependency { id: Some(id), name: None, path: None, version: None });
    let d = Dependency::with_name("foo".to_string());
    assert_eq!(d.name, Some("foo".to_string()));
    assert_eq!(d.version, None);
    let d = Dependency::with_name_and_version("foo".to_string(), "1.0".to_string());
    assert_eq!(d.name, Some("foo".to_string()));
    assert_eq!(d.version, Some("1.0".to_string()));
    let d = Dependency::with_path(Path::new("/abs".to_string()));
    assert_eq!(d.path, Some(Path { text: "/abs".to_string() }));
    assert_eq!(Dependency::default(), Dependency { id: None, name: None, path: None, version: None });
}

#[test]
fn dependency_merge_prefers_the_other() {
    let mut d = Dependency::with_name_and_version("foo".to_string(), "1.0".to_string());
    let other = Dependency {
        id: None,
        name: None,
        path: Some(Path::new("./p".to_string())),
        version: Some("2.0".to_string()),
    };
    d.merge(other);
    assert_eq!(d.name, Some("foo".to_string()));
    assert_eq!(d.version, Some("2.0".to_string()));
    assert_eq!(d.path, Some(Path::new("./p".to_string())));
    assert_eq!(d.id, None);
}

#[test]
fn dependency_display_of_id_and_paths() {
    let d = Dependency::with_id(Id::new(Kind::Directory, "01abc".to_string()));
    assert_eq!(d.to_string(), "dir_01abc");
    assert_eq!(Dependency::with_path(Path::new("/abs/x".to_string())).to_string(), "/abs/x");
    assert_eq!(Dependency::with_path(Path::new("../up".to_string())).to_string(), "../up");
    assert_eq!(Dependency::with_path(Path::new("./here".to_string())).to_string(), "./here");
    assert_eq!(Dependency::with_path(Path::new("name".to_string())).to_string(), "./name");
    assert_eq!(Dependency::with_path(Path::new("".to_string())).to_string(), "");
    assert!(Path::new("a/b".to_string()).starts_with_name());
    assert!(!Path::new("..".to_string()).starts_with_name());
}

#[test]
fn dependency_display_falls_back_to_json() {
    let d = Dependency {
        id: Some(Id::new(Kind::Directory, "x".to_string())),
        name: Some("foo".to_string()),
        path: None,
        version: None,
    };
    assert_eq!(d.to_string(), r#"{"id":"dir_x","name":"foo"}"#);
    let d = Dependency { id: None, name: None, path: None, version: Some("1".to_string()) };
    assert_eq!(d.to_string(), r#"{"version":"1"}"#);
    assert_eq!(Dependency::default().to_string(), "{}");
    let d = Dependency::with_name("say \"hi\"".to_string());
    let d = Dependency { version: None, path: Some(Path::new("p".to_string())), ..d };
    assert_eq!(d.to_string(), r#"{"name":"say \"hi\"","path":"p"}"#);
}

#[test]
fn dependency_parse_of_ids_and_paths() {
    let d = Dependency::parse("dir_01abc").unwrap();
    assert_eq!(d, Dependency::with_id(Id::new(Kind::Directory, "01abc".to_string())));
    let d = Dependency::parse("bld_01abc").unwrap();
    assert_eq!(d, Dependency::with_name("bld_01abc".to_string()));
    let d = Dependency::parse("/abs").unwrap();
    assert_eq!(d, Dependency::with_path(Path::new("/abs".to_string())));
    let d = Dependency::parse("a@b@c").unwrap();
    assert_eq!(d, Dependency::with_name_and_version("a".to_string(), "b@c".to_string()));
    let d = Dependency::parse("").unwrap();
    assert_eq!(d, Dependency::with_name("".to_string()));
}

#[test]
fn dependency_parse_of_json() {
    let d = Dependency::parse(r#"{"id":"dir_x","name":null,"extra":[1,2]}"#).unwrap();
    assert_eq!(d, Dependency::with_id(Id::new(Kind::Directory, "x".to_string())));
    assert_eq!(Dependency::parse(r#"{"name":5}"#), Err(Fault::Invalid));
    assert_eq!(Dependency::parse(r#"{"id":"bld_x"}"#), Err(Fault::Invalid));
    assert_eq!(Dependency::parse(r#"{"name":"foo""#), Err(Fault::Invalid));
    assert_eq!(Dependency::parse("{}").unwrap(), Dependency::default());
}

#[test]
fn dependency_from_members_reads_each_part() {
    let members = vec![
        ("version".to_string(), Scalar::Text("2".to_string())),
        ("name".to_string(), Scalar::Text("foo".to_string())),
        ("path".to_string(), Scalar::Null),
        ("other".to_string(), Scalar::Other),
    ];
    let d = Dependency::from_members(&members).unwrap();
    assert_eq!(d, Dependency::with_name_and_version("foo".to_string(), "2".to_string()));
    let members = vec![("path".to_string(), Scalar::Other)];
    assert_eq!(Dependency::from_members(&members), Err(Fault::Invalid));
}

#[test]
fn dependency_round_trips_through_text() {
    for text in ["foo", "foo@1.2.3", "./path/to/foo", "dir_abc", r#"{"name":"foo","path":"p"}"#] {
        let d = Dependency::parse(text).unwrap();
        assert_eq!(d.to_string(), text);
    }
}

#[test]
fn dependency_of_segment_decodes_percent_escapes() {
    let d = dependency_of_segment("foo%401.2.3").unwrap();
    assert_eq!(d, Dependency::with_name_and_version("foo".to_string(), "1.2.3".to_string()));
    let d = dependency_of_segment(".%2Fpath%2Fto").unwrap();
    assert_eq!(d, Dependency::with_path(Path::new("./path/to".to_string())));
    assert_eq!(dependency_of_segment("%ff"), Err(Fault::Invalid));
    assert_eq!(dependency_of_segment("%7Bbad"), Err(Fault::Invalid));
}
