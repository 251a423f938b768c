use semver::{Version, VersionReq};
use toml_describe::compiler::{
    check, check_text, directives, evaluate_text, flags, rerun_directive,
};
use toml_describe::document::{
    find_section, find_table, flatten_text, read_document, read_entries, Item,
};
use toml_describe::error::{Failure, Fault};
use toml_describe::manifest::{parse_compiler_checks, Condition, Constraint};
use toml_describe::rustc::VersionData;

const LINUX: &str = "x86_64-unknown-linux-gnu";

fn document(text: &str) -> Item {
    read_document(text).unwrap()
}

fn entries_at(text: &str, path: &[&str]) -> Vec<(String, Constraint)> {
    let doc = document(text);
    let mut table = match &doc {
        Item::Table(root) => root,
        _ => panic!("no table at the top"),
    };
    for key in path {
        table = find_table(table, &key.to_string()).unwrap();
    }
    read_entries(table).unwrap()
}

fn entries_of(text: &str) -> Vec<(String, Constraint)> {
    let doc = document(text);
    read_entries(find_section(&doc).unwrap()).unwrap()
}

fn support_entries_of(text: &str) -> Vec<(String, Constraint)> {
    entries_at(text, &["package", "metadata", "compiler_support"])
}

fn constraint<'a>(entries: &'a [(String, Constraint)], name: &str) -> &'a Constraint {
    &entries.iter().find(|(k, _)| k == name).unwrap().1
}

fn member<'a>(members: &'a [(String, Condition)], name: &str) -> Option<&'a Condition> {
    members.iter().find(|(k, _)| k == name).map(|(_, c)| c)
}

fn version_data(v: &str) -> VersionData {
    VersionData::new(Version::parse(v).unwrap(), false)
}

fn output(first: Option<String>, names: &Vec<String>) -> Vec<u8> {
    let mut out = String::new();
    if let Some(line) = first {
        out.push_str(&line);
        out.push('\n');
    }
    for line in directives(names) {
        out.push_str(&line);
        out.push('\n');
    }
    out.into_bytes()
}

const BASIC: &str = r#"
    [package]
    name = "basic"
    version = "0.1.0"

    [package.metadata.toml_describe.compiler_checks]
    foo = { version = "1.0.0" }
"#;

const NOT: &str = r#"
    [package]
    name = "not"
    version = "0.1.0"

    [package.metadata.toml_describe.compiler_checks]
    foo = { version = "<1.0.0" }
"#;

const CUSTOM_NAME: &str = r#"
    [package]
    name = "custom_name"
    version = "0.1.0"

    [package.metadata.toml_describe.compiler_checks]
    foo = { version = "1.0.0", cfg = "can_do_stuff" }
"#;

#[test]
fn lib_test_emits() {
    let found = evaluate_text(BASIC, LINUX, &version_data("1.70.0")).unwrap();
    let out = output(None, &found);
    assert_eq!(out, b"cargo:rustc-cfg=compiler_support_foo\n");
}

#[test]
fn compiler_test_emits() {
    let names = check_text(BASIC, LINUX, &version_data("1.70.0")).unwrap();
    let out = output(Some(rerun_directive()), &names);
    assert_eq!(out, b"cargo:rerun-if-changed=Cargo.toml\ncargo:rustc-cfg=foo\n");
}

#[test]
fn compiler_test_not_emits() {
    let names = check_text(NOT, LINUX, &version_data("1.70.0")).unwrap();
    let out = output(Some(rerun_directive()), &names);
    assert_eq!(out, b"cargo:rerun-if-changed=Cargo.toml\n");
}

#[test]
fn test_emit_custom_name() {
    let names = evaluate_text(CUSTOM_NAME, LINUX, &version_data("1.70.0")).unwrap();
    let out = output(None, &names);
    assert_eq!(out, b"cargo:rustc-cfg=can_do_stuff\n");
    let names = check_text(CUSTOM_NAME, LINUX, &version_data("1.0.0")).unwrap();
    let out = output(None, &names);
    assert_eq!(out, b"cargo:rustc-cfg=can_do_stuff\n");
}

#[test]
fn lib_test_not_emits() {
    let names = evaluate_text(NOT, LINUX, &version_data("1.70.0")).unwrap();
    let out = output(None, &names);
    assert_eq!(out.len(), 0);
}

#[test]
fn lib_test_basic_read() {
    let entries = support_entries_of(
        r#"
            [package.metadata.compiler_support]
            foo = { version = "1.0.0" }
        "#,
    );

    let v = constraint(&entries, "foo");
    let ver = match v {
        Constraint::Condition(ver) => ver.version.as_ref().unwrap(),
        _ => panic!("Did not get a Version"),
    };
    assert!(ver.matches(&Version::new(1, 0, 0)));
}

#[test]
fn lib_test_multiple_constraints() {
    let entries = support_entries_of(
        r#"
            [package.metadata.compiler_support]
            foo = { version = ">1.0.0, <2.0.0" }
        "#,
    );

    let v = constraint(&entries, "foo");
    let ver = match v {
        Constraint::Condition(ver) => ver.version.as_ref().unwrap(),
        _ => panic!("Did not get a Version"),
    };
    assert!(ver.matches(&Version::new(1, 3, 0)));
    assert!(!ver.matches(&Version::new(0, 3, 0)));
    assert!(!ver.matches(&Version::new(2, 3, 0)));
}

#[test]
fn lib_test_cfg() {
    let entries = support_entries_of(
        r#"
            [package.metadata.compiler_support.'cfg(target_os = "linux")']
            foo = { version = "~1.0.0" }
        "#,
    );

    let v = constraint(&entries, "cfg(target_os = \"linux\")");
    let cfg = match v {
        Constraint::Cfg(cfg) => cfg,
        _ => panic!("Did not get a Version"),
    };

    assert!(member(cfg, "foo").is_some());
    assert!(member(cfg, "foo")
        .unwrap()
        .version
        .as_ref()
        .unwrap()
        .matches(&Version::new(1, 0, 9)));
}

#[test]
fn lib_test_parse_cfg() {
    let entries = support_entries_of(
        r#"
            [package.metadata.compiler_support]
            foo = { version = "1.0.0" }
            [package.metadata.compiler_support.'cfg(target_os = "linux")']
            bar = { version = "1.2.0" }
            [package.metadata.compiler_support.'cfg(target_os = "windows")']
            bad = { version = "1.2.0" }
        "#,
    );
    let vals = parse_compiler_checks(&entries, LINUX).unwrap();

    assert_eq!(vals.len(), 2);
}

#[test]
fn compiler_test_basic_read() {
    let entries = entries_of(
        r#"
            [package.metadata.toml_describe.compiler_checks]
            foo = { version = "1.0.0" }
        "#,
    );

    let v = constraint(&entries, "foo");
    let ver = match v {
        Constraint::Condition(ver) => ver.version.as_ref().unwrap(),
        _ => panic!("Did not get a Version"),
    };
    assert!(ver.matches(&Version::new(1, 0, 0)));
}

#[test]
fn compiler_test_multiple_constraints() {
    let entries = entries_of(
        r#"
            [package.metadata.toml_describe.compiler_checks]
            foo = { version = ">1.0.0, <2.0.0" }
        "#,
    );

    let v = constraint(&entries, "foo");
    let ver = match v {
        Constraint::Condition(ver) => ver.version.as_ref().unwrap(),
        _ => panic!("Did not get a Version"),
    };
    assert!(ver.matches(&Version::new(1, 3, 0)));
    assert!(!ver.matches(&Version::new(0, 3, 0)));
    assert!(!ver.matches(&Version::new(2, 3, 0)));
}

#[test]
fn compiler_test_cfg() {
    let entries = entries_of(
        r#"
            [package.metadata.toml_describe.compiler_checks.'cfg(target_os = "linux")']
            foo = { version = "~1.0.0" }
        "#,
    );

    let v = constraint(&entries, "cfg(target_os = \"linux\")");
    let cfg = match v {
        Constraint::Cfg(cfg) => cfg,
        _ => panic!("Got a Condition instead of a CFG"),
    };

    assert!(member(cfg, "foo").is_some());
    assert!(member(cfg, "foo")
        .unwrap()
        .version
        .as_ref()
        .unwrap()
        .matches(&Version::new(1, 0, 9)));
}

#[test]
fn compiler_test_parse_cfg() {
    let vals = flatten_text(
        r#"
                [package.metadata.toml_describe.compiler_checks]
                foo = { version = "1.0.0" }
                [package.metadata.toml_describe.compiler_checks.'cfg(target_os = "linux")']
                bar = { version = "1.2.0" }
                [package.metadata.toml_describe.compiler_checks.'cfg(target_os = "windows")']
                bad = { version = "1.2.0" }
            "#,
        LINUX,
    )
    .unwrap();

    assert_eq!(vals.len(), 2);
}

#[test]
#[should_panic(expected = "Invalid CFG expression: x86_65-unknown-freax-gna")]
fn test_invalid_cfg() {
    let target = "x86_65-unknown-freax-gna";
    let r = flatten_text(
        r#"
                [package.metadata.toml_describe.compiler_checks.'cfg(target_os = "linux")']
                bar = { version = "1.2.0" }
            "#,
        target,
    );
    if let Err(Fault { kind: Failure::UnknownTarget, .. }) = r {
        panic!("Invalid CFG expression: {}", target);
    }
}

#[test]
fn test_condition_check_version_match() {
    let c = Condition::new().set_version(VersionReq::parse(">= 1").ok());
    assert!(c.check(&version_data("1.0.0")));
}

#[test]
fn test_condition_check_version_not_match() {
    let c = Condition::new().set_version(VersionReq::parse("< 1").ok());
    assert!(!c.check(&version_data("1.0.0")));
}

#[test]
fn check_keeps_order_and_duplicates() {
    let any = || Condition::new().set_version(VersionReq::parse("*").ok());
    let none = || Condition::new().set_version(VersionReq::parse("<1").ok());
    let pairs = vec![
        ("b".to_string(), any()),
        ("a".to_string(), none()),
        ("b".to_string(), any()),
        ("c".to_string(), any().set_cfg(Some("see".to_string()))),
    ];
    assert_eq!(check(&pairs, &version_data("1.5.0")), vec!["b", "b", "see"]);
    assert_eq!(
        flags(&pairs, &version_data("1.5.0")),
        vec!["compiler_support_b", "compiler_support_b", "see"]
    );
}
