use minver::fetch::{fetch_dependencies, Dependency, DependencyType, FetchDependenciesError};
use minver::version::SemVer;
use toml_edit::{Document, Item};

const ROOT_TOML: &str = r#"[package]
name = "minver"
version = "0.1.0"
edition = "2021"

[dependencies]
clap = { version = "4.2.4", features = ["derive"] }
semver = "1.0.17"
thiserror = "1.0.40"
toml_edit = "0.19.8"
tracing = "0.1.37"

[dev-dependencies]
pretty_assertions = "1.3.0"
"#;

fn parse(text: &str) -> Document {
    text.parse().unwrap()
}

fn triple(v: &SemVer) -> (u64, u64, u64) {
    (v.major, v.minor, v.patch)
}

fn minimize_and_release(document: &mut Document, ty: DependencyType) {
    let dependencies = fetch_dependencies(document, ty).unwrap();
    for Dependency { mut version, .. } in dependencies {
        version.minimize();
        version.release(document);
    }
}

#[test]
fn check_dependencies() {
    let document = parse(ROOT_TOML);
    let expected_depedencies = [
        ("clap", SemVer::new(4, 2, 4)),
        ("semver", SemVer::new(1, 0, 17)),
        ("thiserror", SemVer::new(1, 0, 40)),
        ("toml_edit", SemVer::new(0, 19, 8)),
    ];
    let actual_dependencies: Vec<_> =
        fetch_dependencies(&document, DependencyType::Standard).unwrap();
    let zipped = expected_depedencies.iter().zip(actual_dependencies);
    for ((expected_name, expected_version), Dependency { name, version }) in zipped {
        assert_eq!(*expected_name, name.as_str());
        assert!(expected_version.same_as(version.get()));
    }
}

#[test]
fn bare_string_entry_is_parsed_and_text_untouched() {
    let text = "[dependencies]\nfoo = \"1.2.3\"\n";
    let document = parse(text);
    let deps = fetch_dependencies(&document, DependencyType::Standard).unwrap();
    assert_eq!(deps.len(), 1);
    assert_eq!(deps[0].name, "foo");
    assert_eq!(triple(deps[0].version.get()), (1, 2, 3));
    assert!(!deps[0].version.is_dirty());
    assert_eq!(document.to_string(), text);
}

#[test]
fn inline_table_entry_matches_bare_string() {
    let bare = parse("[dependencies]\nfoo = \"3.4.5-rc.1+b7\"\n");
    let inline = parse("[dependencies]\nfoo = { version = \"3.4.5-rc.1+b7\", features = [\"x\"] }\n");
    let a = fetch_dependencies(&bare, DependencyType::Standard).unwrap();
    let b = fetch_dependencies(&inline, DependencyType::Standard).unwrap();
    assert_eq!(a[0].name, b[0].name);
    assert!(a[0].version.get().same_as(b[0].version.get()));
    assert_eq!(b[0].version.get().pre, "rc.1");
    assert_eq!(b[0].version.get().build, "b7");
}

#[test]
fn setting_current_version_keeps_handle_clean() {
    let text = "[dependencies]\nfoo = '1.2.3'  # pinned\n";
    let mut document = parse(text);
    let deps = fetch_dependencies(&document, DependencyType::Standard).unwrap();
    for Dependency { mut version, .. } in deps {
        let same = version.get().duplicate();
        version.set(same);
        assert!(!version.is_dirty());
        version.release(&mut document);
    }
    assert_eq!(document.to_string(), text);
}

#[test]
fn set_then_release_round_trips() {
    let mut document = parse("[dependencies]\nfoo = \"1.2.3\"\nbar = { version = \"0.1.0\" }\n");
    let deps = fetch_dependencies(&document, DependencyType::Standard).unwrap();
    for Dependency { mut version, .. } in deps {
        let target = SemVer::parse("7.8.9-beta.2+exp.sha.5114f85").unwrap();
        version.set(target);
        assert!(version.is_dirty());
        version.release(&mut document);
        assert!(!version.is_dirty());
        version.release(&mut document);
    }
    let again = fetch_dependencies(&document, DependencyType::Standard).unwrap();
    assert_eq!(again.len(), 2);
    for dep in &again {
        let v = dep.version.get();
        assert_eq!(triple(v), (7, 8, 9));
        assert_eq!(v.pre, "beta.2");
        assert_eq!(v.build, "exp.sha.5114f85");
    }
    assert!(document.to_string().contains("foo = \"7.8.9-beta.2+exp.sha.5114f85\""));
}

#[test]
fn setting_back_to_original_clears_dirty() {
    let text = "[dependencies]\nfoo = \"1.2.3\"\n";
    let mut document = parse(text);
    let mut deps = fetch_dependencies(&document, DependencyType::Standard).unwrap();
    let mut version = deps.remove(0).version;
    version.set(SemVer::new(9, 9, 9));
    assert!(version.is_dirty());
    version.set(SemVer::new(1, 2, 3));
    assert!(!version.is_dirty());
    version.release(&mut document);
    assert_eq!(document.to_string(), text);
}

#[test]
fn minimal_is_idempotent() {
    for v in [SemVer::new(0, 3, 7), SemVer::new(2, 5, 9), SemVer::new(0, 0, 4), SemVer::new(1, 0, 0)] {
        let once = v.minimal();
        let twice = once.minimal();
        assert!(once.same_as(&twice));
    }
}

#[test]
fn minimal_major_zero_boundary() {
    assert_eq!(triple(&SemVer::new(0, 3, 7).minimal()), (0, 3, 0));
    assert_eq!(triple(&SemVer::new(2, 5, 9).minimal()), (2, 0, 0));
    assert_eq!(triple(&SemVer::new(0, 0, 4).minimal()), (0, 0, 0));
    assert_eq!(triple(&SemVer::new(0, 0, 0).minimal()), (0, 0, 0));
}

#[test]
fn missing_group_is_reported() {
    let document = parse("[package]\nname = \"x\"\n");
    let r = fetch_dependencies(&document, DependencyType::Standard);
    assert!(matches!(r, Err(FetchDependenciesError::MissingDependencyGroup)));
    let r = fetch_dependencies(&parse(ROOT_TOML), DependencyType::Dev).unwrap();
    assert_eq!(r.len(), 1);
    assert_eq!(r[0].name, "pretty_assertions");
}

#[test]
fn group_that_is_not_a_table_is_reported() {
    let document = parse("dependencies = 3\n");
    let r = fetch_dependencies(&document, DependencyType::Standard);
    assert!(matches!(
        r,
        Err(FetchDependenciesError::UnexpectedGroupShape { actual_kind: "Value" })
    ));
    let document = parse("[[dependencies]]\nfoo = \"1.0.0\"\n");
    let r = fetch_dependencies(&document, DependencyType::Standard);
    assert!(matches!(
        r,
        Err(FetchDependenciesError::UnexpectedGroupShape { actual_kind: "ArrayOfTables" })
    ));
}

#[test]
fn malformed_entry_fails_whole_fetch() {
    let document = parse("[dependencies]\nok = \"1.0.0\"\nname = 42\nlater = \"2.0.0\"\n");
    match fetch_dependencies(&document, DependencyType::Standard) {
        Err(FetchDependenciesError::UnexpectedEntryShape { key, actual_kind }) => {
            assert_eq!(key, "name");
            assert_eq!(actual_kind, "Integer");
        }
        other => panic!("unexpected result {:?}", other),
    }
}

#[test]
fn inline_table_without_version_is_reported() {
    let document = parse("[dependencies]\nname = { subdep = \"1.0.0\" }\n");
    match fetch_dependencies(&document, DependencyType::Standard) {
        Err(FetchDependenciesError::MissingVersionField { key }) => assert_eq!(key, "name"),
        other => panic!("unexpected result {:?}", other),
    }
}

#[test]
fn version_field_of_wrong_type_is_reported() {
    let document = parse("[dependencies]\nname = { version = true }\n");
    match fetch_dependencies(&document, DependencyType::Standard) {
        Err(FetchDependenciesError::UnexpectedVersionFieldType { key, actual_kind }) => {
            assert_eq!(key, "name");
            assert_eq!(actual_kind, "Boolean");
        }
        other => panic!("unexpected result {:?}", other),
    }
}

#[test]
fn sub_table_entry_is_unsupported() {
    let document = parse("[dependencies]\nfoo = \"1.0.0\"\n\n[dependencies.name]\nversion = \"1.0.0\"\n");
    match fetch_dependencies(&document, DependencyType::Standard) {
        Err(FetchDependenciesError::UnsupportedEntryShape { key }) => assert_eq!(key, "name"),
        other => panic!("unexpected result {:?}", other),
    }
}

#[test]
fn unparsable_version_is_reported() {
    let document = parse("[dependencies]\nname = \"1.2\"\n");
    match fetch_dependencies(&document, DependencyType::Standard) {
        Err(FetchDependenciesError::SemverParseFailure { key, cause }) => {
            assert_eq!(key, "name");
            assert!(!cause.is_empty());
        }
        other => panic!("unexpected result {:?}", other),
    }
}

#[test]
fn unchanged_entries_keep_their_formatting() {
    let text = "[dependencies]\n# runtime\nkeep = '2.0.0'   # already minimal\nzero = {version=\"0.4.0\",features=[]}\nbump = \"1.4.2\" # loosened\n";
    let mut document = parse(text);
    minimize_and_release(&mut document, DependencyType::Standard);
    let out = document.to_string();
    let before: Vec<&str> = text.lines().collect();
    let after: Vec<&str> = out.lines().collect();
    assert_eq!(after.len(), before.len());
    assert_eq!(after[1], before[1]);
    assert_eq!(after[2], before[2]);
    assert_eq!(after[3], before[3]);
    assert_eq!(after[4], "bump = \"1.0.0\" # loosened");
}

#[test]
fn minimizing_rewrites_versions() {
    let mut document = parse(ROOT_TOML);
    minimize_and_release(&mut document, DependencyType::Standard);
    let deps = fetch_dependencies(&document, DependencyType::Standard).unwrap();
    let got: Vec<(String, (u64, u64, u64))> =
        deps.iter().map(|d| (d.name.clone(), triple(d.version.get()))).collect();
    assert_eq!(
        got,
        vec![
            ("clap".to_string(), (4, 0, 0)),
            ("semver".to_string(), (1, 0, 0)),
            ("thiserror".to_string(), (1, 0, 0)),
            ("toml_edit".to_string(), (0, 19, 0)),
            ("tracing".to_string(), (0, 1, 0)),
        ]
    );
    assert!(document.to_string().contains("clap = { version = \"4.0.0\", features = [\"derive\"] }"));
}

#[test]
fn canonical_text_of_versions() {
    assert_eq!(SemVer::new(10, 0, 305).to_text(), "10.0.305");
    let v = SemVer::parse("1.2.3-alpha.1+build.9").unwrap();
    assert_eq!(v.to_text(), "1.2.3-alpha.1+build.9");
    let w = SemVer::parse(&v.to_text()).unwrap();
    assert!(v.same_as(&w));
    assert!(SemVer::parse("1.2.3").unwrap().same_as(&SemVer::new(1, 2, 3)));
    assert!(SemVer::parse("01.2.3").is_err());
}

#[test]
fn rewrite_keeps_single_quotes_and_comment() {
    let mut document = parse("[dependencies]\nfoo = '1.2.3'  # note\n");
    let mut deps = fetch_dependencies(&document, DependencyType::Standard).unwrap();
    let mut version = deps.remove(0).version;
    version.set(SemVer::new(1, 0, 0));
    version.release(&mut document);
    assert_eq!(document.to_string(), "[dependencies]\nfoo = '1.0.0'  # note\n");
}

#[test]
fn rewrite_keeps_inline_table_attributes() {
    let mut document =
        parse("[dependencies]\nclap = { version = '4.2.4', features = ['derive'] }\n");
    let mut deps = fetch_dependencies(&document, DependencyType::Standard).unwrap();
    let mut version = deps.remove(0).version;
    version.set(SemVer::new(4, 0, 0));
    version.release(&mut document);
    assert_eq!(
        document.to_string(),
        "[dependencies]\nclap = { version = '4.0.0', features = ['derive'] }\n"
    );
}

#[test]
fn root_that_is_not_a_table_has_no_group() {
    let mut document = parse("[dependencies]\nfoo = \"1.2.3\"\n");
    *document.as_item_mut() = Item::None;
    let r = fetch_dependencies(&document, DependencyType::Standard);
    assert!(matches!(r, Err(FetchDependenciesError::MissingDependencyGroup)));
}

#[test]
fn minimizing_twice_changes_nothing_more() {
    let text = "[dependencies]\na = \"2.5.9\"\nb = { version = '0.3.7', optional = true }\nc = '1.0.0-rc.1'\n";
    let mut document = parse(text);
    minimize_and_release(&mut document, DependencyType::Standard);
    let once = document.to_string();
    let deps = fetch_dependencies(&document, DependencyType::Standard).unwrap();
    for Dependency { mut version, .. } in deps {
        version.minimize();
        assert!(!version.is_dirty());
        version.release(&mut document);
    }
    assert_eq!(document.to_string(), once);
    assert_eq!(
        once,
        "[dependencies]\na = \"2.0.0\"\nb = { version = '0.3.0', optional = true }\nc = '1.0.0-rc.1'\n"
    );
}
