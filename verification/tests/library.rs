use std::path::PathBuf;

use haiti_lite_rust::cli::{Cli, Command, HashSource, Invocation, OutputKind};
use haiti_lite_rust::data::{DataError, DataSet, JsonErrorCategory, JsonFile, Mode, Prototype};
use haiti_lite_rust::matcher::{CompiledRules, MatchError, MatchRecord, Reference};
use haiti_lite_rust::ruby_chomp;

fn mode(name: &str, hashcat: Option<i64>, john: Option<&str>, extended: bool) -> Mode {
    Mode {
        john: john.map(|s| s.to_string()),
        hashcat,
        extended,
        name: name.to_string(),
        samples: None,
    }
}

fn prototype(regex: &str, modes: Vec<Mode>) -> Prototype {
    Prototype {
        regex: regex.to_string(),
        modes,
    }
}

fn file<T>(name: &str, value: T) -> JsonFile<T> {
    JsonFile {
        path: PathBuf::from("data dir").join(name),
        contents: Ok(Ok(value)),
    }
}

fn load(prototypes: Vec<Prototype>, commons: Vec<&str>) -> Result<DataSet, DataError> {
    DataSet::load(
        file("prototypes.json", prototypes),
        file(
            "commons.json",
            commons.into_iter().map(|s| s.to_string()).collect(),
        ),
    )
}

fn schema_message(error: DataError) -> (PathBuf, String) {
    match error {
        DataError::Schema { path, message } => (path, message),
        other => panic!("expected a schema error, got {other:?}"),
    }
}

fn md5_rules() -> CompiledRules {
    let data = load(
        vec![
            prototype(
                r"\A[a-f0-9]{32}(:.+)?\z",
                vec![
                    mode("MD5", Some(0), Some("raw-md5"), false),
                    mode("MD4", Some(900), Some("raw-md4"), false),
                    mode("Double MD5", Some(2600), None, true),
                    mode("NTLM", Some(1000), Some("nt"), false),
                    mode("LM", None, Some("lm"), false),
                ],
            ),
            prototype(r"\A[a-z]+\z", vec![mode("Letters", Some(7), None, false)]),
        ],
        vec!["NTLM", "MD5"],
    )
    .unwrap();
    CompiledRules::compile(&data).unwrap()
}

#[test]
fn chomp_matches_ruby_line_endings() {
    assert_eq!(ruby_chomp("hash\n"), "hash");
    assert_eq!(ruby_chomp("hash\r\n"), "hash");
    assert_eq!(ruby_chomp("hash\r"), "hash");
    assert_eq!(ruby_chomp("hash\n\n"), "hash\n");
    assert_eq!(ruby_chomp("hash"), "hash");
}

#[test]
fn chomp_edge_cases() {
    assert_eq!(ruby_chomp(""), "");
    assert_eq!(ruby_chomp("\n"), "");
    assert_eq!(ruby_chomp("\r\n"), "");
    assert_eq!(ruby_chomp("\n\r"), "\n");
    assert_eq!(ruby_chomp("héllo\r\n"), "héllo");
    assert_eq!(ruby_chomp("5f4dcc3b5aa765d61d8327deb882cf99\r\n"), "5f4dcc3b5aa765d61d8327deb882cf99");
}

#[test]
fn output_kind_names() {
    assert_eq!(OutputKind::Hashcat.as_str(), "hc");
    assert_eq!(OutputKind::John.as_str(), "jtr");
}

#[test]
fn data_loader_supports_paths_with_spaces_and_external_updates() {
    let first = load(
        vec![prototype(
            r"\A[a-z]+\Z",
            vec![mode("First", Some(1), None, false)],
        )],
        vec!["First"],
    )
    .unwrap();
    let first_rules = CompiledRules::compile(&first).unwrap();
    let first_matches = first_rules.identify("hash").unwrap();
    assert_eq!(
        first_rules.render(&first_matches, OutputKind::Hashcat, false),
        [MatchRecord {
            name: "First".into(),
            reference: Reference::Hashcat(1),
        }]
    );

    let second = load(
        vec![prototype(
            r"\A[0-9]+\Z",
            vec![mode("Second", Some(2), None, false)],
        )],
        vec!["Second"],
    )
    .unwrap();
    let second_rules = CompiledRules::compile(&second).unwrap();
    let second_matches = second_rules.identify("123").unwrap();
    assert_eq!(
        second_rules.render(&second_matches, OutputKind::Hashcat, false),
        [MatchRecord {
            name: "Second".into(),
            reference: Reference::Hashcat(2),
        }]
    );
}

#[test]
fn data_loader_reports_missing_malformed_and_incompatible_files() {
    let root = PathBuf::from("haiti parsable rust invalid");
    let missing = DataSet::load(
        JsonFile {
            path: root.join("prototypes.json"),
            contents: Err(std::io::Error::new(std::io::ErrorKind::NotFound, "not found")),
        },
        file("commons.json", Vec::new()),
    )
    .unwrap_err();
    match missing {
        DataError::Io { path, .. } => assert!(path.display().to_string().contains("prototypes.json")),
        other => panic!("expected an I/O error, got {other:?}"),
    }

    let not_json = serde_json::from_str::<Vec<String>>("not-json").unwrap_err();
    let malformed = DataSet::load(
        JsonFile {
            path: root.join("prototypes.json"),
            contents: Ok(Err(not_json)),
        },
        file("commons.json", Vec::new()),
    )
    .unwrap_err();
    assert!(matches!(malformed, DataError::Json { .. }));

    // a prototype's regex must be a string
    let wrong_type = serde_json::from_str::<Vec<std::collections::BTreeMap<String, String>>>(
        r#"[{"regex":123,"modes":[]}]"#,
    )
    .unwrap_err();
    let incompatible = DataSet::load(
        JsonFile {
            path: root.join("prototypes.json"),
            contents: Ok(Err(wrong_type)),
        },
        file("commons.json", Vec::new()),
    )
    .unwrap_err();
    assert!(matches!(incompatible, DataError::Schema { .. }));
}

#[test]
fn json_failures_are_sorted_by_category() {
    let source = serde_json::from_str::<Vec<String>>("[").unwrap_err();
    let eof = DataError::from_json_failure(
        PathBuf::from("p"),
        source,
        JsonErrorCategory::Eof,
        "ignored".to_string(),
    );
    assert!(matches!(eof, DataError::Json { .. }));
    let source = serde_json::from_str::<Vec<String>>("[1]").unwrap_err();
    let data = DataError::from_json_failure(
        PathBuf::from("p"),
        source,
        JsonErrorCategory::Data,
        "bad type".to_string(),
    );
    match data {
        DataError::Schema { message, .. } => assert_eq!(message, "bad type"),
        other => panic!("expected a schema error, got {other:?}"),
    }
}

#[test]
fn load_reads_commons_only_after_prototypes() {
    let missing_commons = DataSet::load(
        file("prototypes.json", vec![prototype("x", vec![mode("X", Some(1), None, false)])]),
        JsonFile {
            path: PathBuf::from("commons.json"),
            contents: Err(std::io::Error::new(std::io::ErrorKind::NotFound, "gone")),
        },
    )
    .unwrap_err();
    match missing_commons {
        DataError::Io { path, .. } => assert_eq!(path, PathBuf::from("commons.json")),
        other => panic!("expected an I/O error, got {other:?}"),
    }
    // a bad prototype list is reported before a bad commons list
    let (path, message) = schema_message(load(vec![], vec![""]).unwrap_err());
    assert!(path.ends_with("prototypes.json"));
    assert_eq!(message, "the prototype list must not be empty");
}

#[test]
fn prototype_checks_name_the_first_bad_prototype() {
    let good = || prototype("a", vec![mode("A", Some(1), None, false)]);
    let (_, message) = schema_message(load(vec![good(), prototype("", vec![])], vec![]).unwrap_err());
    assert_eq!(message, "prototype 1 has an empty regex");
    let (_, message) =
        schema_message(load(vec![good(), good(), prototype("b", vec![])], vec![]).unwrap_err());
    assert_eq!(message, "prototype 2 has no modes");
    let mut many = Vec::new();
    for _ in 0..12 {
        many.push(good());
    }
    many.push(prototype(
        "c",
        vec![mode("C", None, None, false), mode(" \t\u{3000}", None, None, false)],
    ));
    let (_, message) = schema_message(load(many, vec![]).unwrap_err());
    assert_eq!(message, "prototype 12 contains a mode with no name");
}

#[test]
fn commons_checks_reject_blank_and_repeated_names() {
    let good = || vec![prototype("a", vec![mode("A", Some(1), None, false)])];
    let (path, message) = schema_message(load(good(), vec!["MD5", "  "]).unwrap_err());
    assert!(path.ends_with("commons.json"));
    assert_eq!(message, "commons contains an empty name");
    let (_, message) = schema_message(load(good(), vec!["MD5", "NTLM", "MD5"]).unwrap_err());
    assert_eq!(message, "commons contains duplicate name `MD5`");
    assert!(load(good(), vec!["MD5", "md5", " MD5"]).is_ok());
}

#[test]
fn identify_puts_common_modes_first_and_keeps_data_order() {
    let rules = md5_rules();
    let matches = rules.identify("5f4dcc3b5aa765d61d8327deb882cf99").unwrap();
    let names: Vec<&str> = matches.iter().map(|m| m.name.as_str()).collect();
    assert_eq!(names, ["MD5", "NTLM", "MD4", "Double MD5", "LM"]);
    // matching is case-insensitive
    let upper = rules.identify("5F4DCC3B5AA765D61D8327DEB882CF99").unwrap();
    assert_eq!(upper.len(), 5);
    // a hash that no prototype matches
    assert!(rules.identify("definitely-not-a-hash").unwrap().is_empty());
    // both prototypes match
    let letters = rules.identify("abcdef").unwrap();
    let names: Vec<&str> = letters.iter().map(|m| m.name.as_str()).collect();
    assert_eq!(names, ["Letters"]);
}

#[test]
fn render_follows_output_kind_and_extended_flag() {
    let rules = md5_rules();
    let matches = rules.identify("5f4dcc3b5aa765d61d8327deb882cf99").unwrap();
    let hc = rules.render(&matches, OutputKind::Hashcat, false);
    assert_eq!(
        hc,
        [
            MatchRecord { name: "MD5".into(), reference: Reference::Hashcat(0) },
            MatchRecord { name: "NTLM".into(), reference: Reference::Hashcat(1000) },
            MatchRecord { name: "MD4".into(), reference: Reference::Hashcat(900) },
        ]
    );
    let hc_extended = rules.render(&matches, OutputKind::Hashcat, true);
    assert_eq!(hc_extended.len(), 4);
    assert_eq!(hc_extended[3].name, "Double MD5");
    let jtr = rules.render(&matches, OutputKind::John, false);
    assert_eq!(
        jtr,
        [
            MatchRecord { name: "MD5".into(), reference: Reference::John("raw-md5".into()) },
            MatchRecord { name: "NTLM".into(), reference: Reference::John("nt".into()) },
            MatchRecord { name: "MD4".into(), reference: Reference::John("raw-md4".into()) },
            MatchRecord { name: "LM".into(), reference: Reference::John("lm".into()) },
        ]
    );
}

#[test]
fn report_identifies_even_when_nothing_is_rendered() {
    let data = load(
        vec![prototype(r"\A[0-9]+\z", vec![mode("Digits", Some(5), None, true)])],
        vec![],
    )
    .unwrap();
    let rules = CompiledRules::compile(&data).unwrap();
    let report = rules.report("123", OutputKind::Hashcat, false).unwrap();
    assert!(report.identified);
    assert!(report.matches.is_empty());
    let report = rules.report("123", OutputKind::Hashcat, true).unwrap();
    assert_eq!(report.matches.len(), 1);
    let report = rules.report("abc", OutputKind::Hashcat, true).unwrap();
    assert!(!report.identified);
}

#[test]
fn compile_reports_the_first_bad_regex() {
    let data = DataSet {
        prototypes: vec![
            prototype("ok", vec![mode("A", Some(1), None, false)]),
            prototype("(unclosed", vec![mode("B", Some(2), None, false)]),
            prototype("[", vec![mode("C", Some(3), None, false)]),
        ],
        commons: vec![],
    };
    match CompiledRules::compile(&data) {
        Err(MatchError::Compile { prototype_index, regex, .. }) => {
            assert_eq!(prototype_index, 1);
            assert_eq!(regex, "(unclosed");
        }
        Err(other) => panic!("expected a compile error, got {other:?}"),
        Ok(_) => panic!("expected a compile error"),
    }
}

#[test]
fn matches_prototype_answers_per_prototype() {
    let rules = md5_rules();
    assert!(rules.matches_prototype(0, "5f4dcc3b5aa765d61d8327deb882cf99").unwrap());
    assert!(!rules.matches_prototype(1, "5f4dcc3b5aa765d61d8327deb882cf99").unwrap());
    assert!(rules.matches_prototype(1, "ABC").unwrap());
}

#[test]
fn invocation_reads_the_command_line() {
    let cli = |version: bool, command: Option<Command>, data_dir: Option<&str>| Cli {
        data_dir: data_dir.map(PathBuf::from),
        extended: true,
        debug: false,
        version,
        command,
    };
    assert!(matches!(
        cli(true, None, None).invocation(),
        Ok(Invocation::Version)
    ));
    assert_eq!(
        cli(false, None, Some("d")).invocation().unwrap_err(),
        "a mode (`hc` or `jtr`) and hash are required"
    );
    assert_eq!(
        cli(false, Some(Command::Hc { hash: "h".into() }), None)
            .invocation()
            .unwrap_err(),
        "--data-dir <path> is required for matching"
    );
    match cli(false, Some(Command::Jtr { hash: "-".into() }), Some("d")).invocation() {
        Ok(Invocation::Identify(request)) => {
            assert!(matches!(request.output_kind, OutputKind::John));
            assert!(matches!(request.hash, HashSource::StandardInput));
            assert_eq!(request.data_dir, PathBuf::from("d"));
            assert!(request.extended);
            assert!(!request.debug);
        }
        _ => panic!("expected an identify request"),
    }
    match cli(false, Some(Command::Hc { hash: "--".into() }), Some("d")).invocation() {
        Ok(Invocation::Identify(request)) => {
            assert!(matches!(request.output_kind, OutputKind::Hashcat));
            match request.hash {
                HashSource::Argument(hash) => assert_eq!(hash, "--"),
                HashSource::StandardInput => panic!("`--` is a hash"),
            }
        }
        _ => panic!("expected an identify request"),
    }
}

#[test]
fn rendered_records_never_contain_ansi_escape_sequences() {
    let rules = md5_rules();
    let matches = rules.identify("5f4dcc3b5aa765d61d8327deb882cf99").unwrap();
    for kind in [OutputKind::Hashcat, OutputKind::John] {
        for record in rules.render(&matches, kind, true) {
            assert!(!record.name.contains('\u{1b}'));
            if let Reference::John(name) = &record.reference {
                assert!(!name.contains('\u{1b}'));
            }
        }
    }
}

fn decode_commons(text: &str) -> Result<DataSet, DataError> {
    DataSet::try_load(
        file("prototypes.json", vec![prototype("a", vec![mode("A", Some(1), None, false)])]),
        JsonFile {
            path: PathBuf::from("commons.json"),
            contents: Ok(serde_json::from_str::<Vec<String>>(text)),
        },
    )
    .expect("text decoding gives no I/O-category error")
}

#[test]
fn decoding_failures_are_json_or_schema_errors_by_cause() {
    for text in ["", "[\"MD5\"] x", "not-json", "[\"MD5\""] {
        match decode_commons(text).unwrap_err() {
            DataError::Json { path, .. } => assert_eq!(path, PathBuf::from("commons.json")),
            other => panic!("expected a JSON error for {text:?}, got {other:?}"),
        }
    }
    for text in ["[1]", "{\"a\":1}"] {
        let expected = serde_json::from_str::<Vec<String>>(text).unwrap_err().to_string();
        match decode_commons(text).unwrap_err() {
            DataError::Schema { path, message } => {
                assert_eq!(path, PathBuf::from("commons.json"));
                assert_eq!(message, expected);
            }
            other => panic!("expected a schema error for {text:?}, got {other:?}"),
        }
    }
    assert_eq!(decode_commons("[\"MD5\"]").unwrap().commons, vec!["MD5".to_string()]);
}

#[test]
fn try_load_refuses_io_category_decoding_errors() {
    let io = serde_json::Error::io(std::io::Error::new(std::io::ErrorKind::Other, "broken"));
    let refused = DataSet::try_load(
        JsonFile {
            path: PathBuf::from("prototypes.json"),
            contents: Ok(Err(io)),
        },
        file("commons.json", Vec::new()),
    );
    assert!(refused.is_none());
}
