use polyjson_project::{
    deserialize_crate_name, AbsPathBuf, BuildError, CfgFlag, CrateDisplayName, CrateId, CrateName,
    Edition, EditionData, PolyJsonCrateData, PolyJsonCrateSource, PolyJsonData, PolyJsonDepData,
    PolyJsonProject, SchemaError,
};

fn abs(s: &str) -> AbsPathBuf {
    AbsPathBuf::from_text(s).expect("absolute path")
}

fn crate_at(root_module: &str) -> PolyJsonCrateData {
    PolyJsonCrateData {
        display_name: None,
        root_module: root_module.to_string(),
        edition: EditionData::Edition2021,
        version: None,
        deps: Vec::new(),
        cfg: Vec::new(),
        target: None,
        env: rustc_hash::FxHashMap::default(),
        proc_macro_dylib_path: None,
        is_workspace_member: None,
        source: None,
        is_proc_macro: false,
        repository: None,
    }
}

fn data_of(crates: Vec<PolyJsonCrateData>) -> PolyJsonData {
    PolyJsonData { sysroot: None, sysroot_src: None, crates }
}

fn build(crates: Vec<PolyJsonCrateData>) -> PolyJsonProject {
    PolyJsonProject::new(&abs("/proj"), data_of(crates)).expect("project resolves")
}

fn texts(paths: &[AbsPathBuf]) -> Vec<String> {
    paths.iter().map(|p| p.to_text()).collect()
}

#[test]
fn crates_keep_count_and_order() {
    let p = build(vec![crate_at("a/lib.rs"), crate_at("/x/b.rs"), crate_at("c/main.rs")]);
    assert_eq!(p.n_crates(), 3);
    let crates = p.crates();
    assert_eq!(crates.len(), 3);
    let roots: Vec<String> = crates.iter().map(|(_, k)| k.root_module.to_text()).collect();
    assert_eq!(roots, vec!["/proj/a/lib.rs", "/x/b.rs", "/proj/c/main.rs"]);
    for (i, (id, _)) in crates.iter().enumerate() {
        assert_eq!(id.into_raw(), i);
        assert_eq!(*id, CrateId::from_raw(i));
    }
}

#[test]
fn empty_description_gives_empty_project() {
    let p = build(Vec::new());
    assert_eq!(p.n_crates(), 0);
    assert!(p.crates().is_empty());
    assert_eq!(p.path().to_text(), "/proj");
}

#[test]
fn every_path_is_absolute() {
    let mut c = crate_at("src/lib.rs");
    c.proc_macro_dylib_path = Some("target/libm.so".to_string());
    c.source = Some(PolyJsonCrateSource {
        include_dirs: vec!["src".to_string(), "/abs/inc".to_string()],
        exclude_dirs: vec!["src/gen".to_string()],
    });
    let data = PolyJsonData {
        sysroot: Some("sysroot".to_string()),
        sysroot_src: Some("/rust/src".to_string()),
        crates: vec![c],
    };
    let p = PolyJsonProject::new(&abs("/proj"), data).unwrap();
    assert_eq!(p.sysroot().unwrap().to_text(), "/proj/sysroot");
    assert_eq!(p.sysroot_src().unwrap().to_text(), "/rust/src");
    let (_, k) = p.crates()[0];
    assert_eq!(k.root_module.to_text(), "/proj/src/lib.rs");
    assert_eq!(k.proc_macro_dylib_path.as_ref().unwrap().to_text(), "/proj/target/libm.so");
    assert_eq!(texts(&k.include_dirs), vec!["/proj/src", "/abs/inc"]);
    assert_eq!(texts(&k.exclude_dirs), vec!["/proj/src/gen"]);
}

#[test]
fn missing_sysroot_stays_missing() {
    let p = build(vec![crate_at("lib.rs")]);
    assert!(p.sysroot().is_none());
    assert!(p.sysroot_src().is_none());
}

#[test]
fn absolute_input_is_returned_unchanged() {
    let base = abs("/proj");
    assert_eq!(base.absolutize("/other/lib.rs").to_text(), "/other/lib.rs");
    assert_eq!(base.absolutize("/").to_text(), "/");
}

#[test]
fn absolutize_joins_relative_paths() {
    let base = abs("/proj");
    assert_eq!(base.absolutize("src/lib.rs").to_text(), "/proj/src/lib.rs");
    assert_eq!(base.absolutize("./src//lib.rs").to_text(), "/proj/src/lib.rs");
    assert_eq!(base.absolutize("../x/lib.rs").to_text(), "/proj/../x/lib.rs");
    assert_eq!(base.absolutize("").to_text(), "/proj");
}

#[test]
fn absolutize_is_idempotent() {
    let base = abs("/proj");
    for p in ["src/lib.rs", "/other/lib.rs", "./a/./b/", "", "/"] {
        let once = base.absolutize(p);
        let twice = base.absolutize(&once.to_text());
        assert_eq!(once, twice);
        assert_eq!(once.to_text(), twice.to_text());
    }
}

#[test]
fn relative_text_is_no_absolute_path() {
    assert!(AbsPathBuf::from_text("proj").is_none());
    assert!(AbsPathBuf::from_text("").is_none());
    assert_eq!(abs("//a///b/").to_text(), "/a/b");
}

#[test]
fn parent_and_prefix() {
    assert_eq!(abs("/proj/src/lib.rs").parent().unwrap().to_text(), "/proj/src");
    assert_eq!(abs("/proj").parent().unwrap().to_text(), "/");
    assert!(abs("/").parent().is_none());
    assert!(abs("/proj/src").starts_with(&abs("/proj")));
    assert!(abs("/proj").starts_with(&abs("/proj")));
    assert!(!abs("/proj2/src").starts_with(&abs("/proj")));
    assert!(!abs("/proj").starts_with(&abs("/proj/src")));
}

#[test]
fn workspace_membership_defaults_to_location() {
    let mut explicit = crate_at("/proj/src/lib.rs");
    explicit.is_workspace_member = Some(false);
    let mut outside_member = crate_at("/other/lib.rs");
    outside_member.is_workspace_member = Some(true);
    let p = build(vec![
        crate_at("/proj/src/lib.rs"),
        crate_at("/other/lib.rs"),
        explicit,
        crate_at("/proj2/lib.rs"),
        outside_member,
    ]);
    let members: Vec<bool> = p.crates().iter().map(|(_, k)| k.is_workspace_member).collect();
    assert_eq!(members, vec![true, false, false, false, true]);
}

#[test]
fn default_source_is_root_module_directory() {
    let p = build(vec![crate_at("/proj/src/lib.rs")]);
    let (_, k) = p.crates()[0];
    assert_eq!(texts(&k.include_dirs), vec!["/proj/src"]);
    assert!(k.exclude_dirs.is_empty());
}

#[test]
fn explicit_empty_source_is_kept() {
    let mut c = crate_at("/proj/src/lib.rs");
    c.source = Some(PolyJsonCrateSource { include_dirs: Vec::new(), exclude_dirs: Vec::new() });
    let p = build(vec![c]);
    let (_, k) = p.crates()[0];
    assert!(k.include_dirs.is_empty());
    assert!(k.exclude_dirs.is_empty());
}

#[test]
fn edition_text_is_checked() {
    assert_eq!(EditionData::from_text("2015"), Ok(EditionData::Edition2015));
    assert_eq!(EditionData::from_text("2018"), Ok(EditionData::Edition2018));
    assert_eq!(EditionData::from_text("2021"), Ok(EditionData::Edition2021));
    assert_eq!(EditionData::from_text("2024"), Err(SchemaError::UnknownEdition("2024".to_string())));
    assert!(EditionData::from_text("").is_err());
    assert!(EditionData::from_text(" 2021").is_err());
    assert_eq!(Edition::from(EditionData::Edition2021), Edition::Edition2021);
    assert_eq!(Edition::from(EditionData::Edition2015), Edition::Edition2015);
    assert_eq!(Edition::from(EditionData::Edition2018), Edition::Edition2018);
}

#[test]
fn resolved_edition_follows_description() {
    let mut c = crate_at("lib.rs");
    c.edition = EditionData::Edition2018;
    let p = build(vec![c]);
    assert_eq!(p.crates()[0].1.edition, Edition::Edition2018);
}

#[test]
fn root_module_at_filesystem_root_fails() {
    let data = data_of(vec![crate_at("/proj/lib.rs"), crate_at("/"), crate_at("/")]);
    let r = PolyJsonProject::new(&abs("/proj"), data);
    assert_eq!(r.err(), Some(BuildError::RootModuleWithoutParent(1)));
    let r = PolyJsonProject::new(&abs("/"), data_of(vec![crate_at(".")]));
    assert_eq!(r.err(), Some(BuildError::RootModuleWithoutParent(0)));
}

#[test]
fn root_module_at_filesystem_root_with_source_resolves() {
    let mut c = crate_at("/");
    c.source = Some(PolyJsonCrateSource { include_dirs: vec!["/".to_string()], exclude_dirs: Vec::new() });
    let p = build(vec![c]);
    assert_eq!(texts(&p.crates()[0].1.include_dirs), vec!["/"]);
}

#[test]
fn dependency_index_is_not_checked() {
    let mut c = crate_at("lib.rs");
    c.deps = vec![PolyJsonDepData { krate: 5, name: CrateName::new("foo").unwrap() }];
    let p = build(vec![c]);
    assert_eq!(p.n_crates(), 1);
    let dep = &p.crates()[0].1.deps[0];
    assert_eq!(dep.crate_id.into_raw(), 5);
    assert_eq!(dep.crate_id, CrateId::from_raw(5));
    assert_eq!(dep.name.as_str(), "foo");
}

#[test]
fn crate_names_are_checked() {
    assert_eq!(deserialize_crate_name("foo".to_string()).unwrap().as_str(), "foo");
    assert_eq!(deserialize_crate_name("foo_bar2".to_string()).unwrap().as_str(), "foo_bar2");
    assert_eq!(deserialize_crate_name("café".to_string()).unwrap().as_str(), "café");
    assert_eq!(
        deserialize_crate_name("foo-bar".to_string()).err(),
        Some(SchemaError::InvalidCrateName("foo-bar".to_string()))
    );
    assert!(deserialize_crate_name(String::new()).is_err());
    assert!(deserialize_crate_name("a.b".to_string()).is_err());
    assert!(CrateName::new("a b").is_none());
}

#[test]
fn cfg_flags_split_at_first_equals() {
    assert_eq!(CfgFlag::parse("test"), CfgFlag::Atom("test".to_string()));
    assert_eq!(
        CfgFlag::parse("feature=\"std\""),
        CfgFlag::KeyValue { key: "feature".to_string(), value: "\"std\"".to_string() }
    );
    assert_eq!(
        CfgFlag::parse("a=b=c"),
        CfgFlag::KeyValue { key: "a".to_string(), value: "b=c".to_string() }
    );
    assert_eq!(CfgFlag::parse("=v"), CfgFlag::KeyValue { key: String::new(), value: "v".to_string() });
}

#[test]
fn display_name_keeps_both_forms() {
    let d = CrateDisplayName::from_canonical_name("my-fancy-crate".to_string());
    assert_eq!(d.canonical_name(), "my-fancy-crate");
    assert_eq!(d.crate_name(), "my_fancy_crate");
    let d = CrateDisplayName::from_canonical_name("plain".to_string());
    assert_eq!(d.crate_name(), "plain");
}

#[test]
fn pass_through_fields_are_kept() {
    let mut c = crate_at("lib.rs");
    c.display_name = Some("my-crate".to_string());
    c.version = Some(semver::Version::parse("1.2.3-beta.1+build.5").unwrap());
    c.cfg = vec![CfgFlag::parse("test"), CfgFlag::parse("feature=x")];
    c.target = Some("x86_64-unknown-linux-gnu".to_string());
    c.env.insert("KEY".to_string(), "value".to_string());
    c.is_proc_macro = true;
    c.repository = Some("https://example.com/repo".to_string());
    let p = build(vec![c]);
    let (_, k) = p.crates()[0];
    assert_eq!(k.display_name.as_ref().unwrap().canonical_name(), "my-crate");
    assert_eq!(k.display_name.as_ref().unwrap().crate_name(), "my_crate");
    assert_eq!(k.version.as_deref(), Some("1.2.3-beta.1+build.5"));
    assert_eq!(k.cfg, vec![CfgFlag::Atom("test".to_string()), CfgFlag::parse("feature=x")]);
    assert_eq!(k.target.as_deref(), Some("x86_64-unknown-linux-gnu"));
    assert_eq!(k.env.get("KEY").map(String::as_str), Some("value"));
    assert_eq!(k.env.len(), 1);
    assert!(k.is_proc_macro);
    assert_eq!(k.repository.as_deref(), Some("https://example.com/repo"));
    assert!(k.deps.is_empty());
}

#[test]
fn version_is_written_in_canonical_form() {
    let mut c = crate_at("lib.rs");
    c.version = Some(semver::Version::new(1, 2, 3));
    let p = build(vec![c]);
    assert_eq!(p.crates()[0].1.version.as_deref(), Some("1.2.3"));
}
