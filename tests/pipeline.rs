use shadow_rs::ci::{detect_ci, CiType};
use shadow_rs::emit::{emit, write_const, ShadowError};
use shadow_rs::registry::{ConstType, ConstVal, Registry};
use shadow_rs::shadow::{Shadow, HOOK_BANNER};
use shadow_rs::trigger::{BuildPattern, Trigger};
use shadow_rs::version::{
    resolve, VersionKind, CLAP_LONG_VERSION_BRANCH_FN, CLAP_LONG_VERSION_TAG_FN,
    VERSION_BRANCH_FN, VERSION_TAG_FN,
};

fn s(v: &str) -> String {
    v.to_string()
}

fn sv(k: &str, v: &str) -> (String, ConstVal) {
    (s(k), ConstVal::new(s("desc"), s(v), ConstType::Str))
}

fn git_facts(tag: &str) -> Vec<(String, ConstVal)> {
    vec![
        sv("TAG", tag),
        sv("BRANCH", "main"),
        sv("COMMIT_HASH", "abc123"),
        sv("SHORT_COMMIT", "abc123"),
    ]
}

fn project_facts() -> Vec<(String, ConstVal)> {
    vec![
        sv("PKG_VERSION", "0.1.0"),
        sv("CARGO_TREE", "shadow v0.1.0"),
        sv("BUILD_TIME", "2024-01-01 00:00:00"),
    ]
}

fn build(deny: Vec<String>, pattern: BuildPattern) -> Shadow {
    Shadow::build(
        vec![],
        git_facts("v1.0.0"),
        project_facts(),
        vec![sv("RUST_VERSION", "rustc 1.80.0")],
        deny,
        s("./"),
        pattern,
    )
}

#[test]
fn test_build() {
    let shadow = build(vec![], BuildPattern::Lazy);
    let text = shadow.render("Mon, 1 Jan 2024 00:00:00 +0000").ok().unwrap();
    assert!(!text.is_empty());
    assert!(text.lines().count() > 0);
}

#[test]
fn test_build_deny() {
    let shadow = build(vec![s("CARGO_TREE")], BuildPattern::Lazy);
    let text = shadow.render("Mon, 1 Jan 2024 00:00:00 +0000").ok().unwrap();
    assert!(!text.is_empty());
    assert!(text.lines().count() > 0);
    let expect = "pub const CARGO_TREE :&str";
    assert!(!text.contains(expect));
}

#[test]
fn test_env() {
    let env = vec![(s("HOME"), s("/root")), (s("GITHUB_ACTIONS"), s("true"))];
    for (k, v) in &env {
        println!("K:{k},V:{v}");
    }
    assert_eq!(detect_ci(&env), CiType::Github);
}

#[test]
fn branch_version_when_tag_empty() {
    let reg = Registry::from_pairs(vec![
        sv("TAG", ""),
        sv("BRANCH", "main"),
        sv("COMMIT", "abc123"),
    ]);
    assert_eq!(resolve(&reg), VersionKind::Branch);
    let text = emit(&reg, resolve(&reg), "now").ok().unwrap();
    assert!(text.contains(VERSION_BRANCH_FN));
    assert!(text.contains(CLAP_LONG_VERSION_BRANCH_FN));
    assert!(!text.contains(VERSION_TAG_FN));
    assert!(text.contains("pub const BRANCH :&str = r#\"main\"#;"));
    assert!(text.contains("pub const COMMIT :&str = r#\"abc123\"#;"));
}

#[test]
fn branch_version_when_tag_absent() {
    let reg = Registry::from_pairs(vec![sv("BRANCH", "main")]);
    assert_eq!(resolve(&reg), VersionKind::Branch);
}

#[test]
fn tag_version_when_tag_present() {
    let reg = Registry::from_pairs(vec![sv("TAG", "v1.2.0"), sv("BRANCH", "main")]);
    assert_eq!(resolve(&reg), VersionKind::Tag);
    let text = emit(&reg, resolve(&reg), "now").ok().unwrap();
    assert!(text.contains(VERSION_TAG_FN));
    assert!(text.contains(CLAP_LONG_VERSION_TAG_FN));
    assert!(!text.contains(VERSION_BRANCH_FN));
    assert!(text.contains("pub const TAG :&str = r#\"v1.2.0\"#;"));
}

#[test]
fn denied_constant_absent_everywhere() {
    let shadow = build(vec![s("CARGO_TREE")], BuildPattern::Lazy);
    assert!(shadow.deny_contains("CARGO_TREE"));
    assert!(!shadow.deny_contains("BRANCH"));
    assert!(!shadow.map.contains(&s("CARGO_TREE")));
    let text = shadow.render("now").ok().unwrap();
    assert!(!text.contains("CARGO_TREE"));
    assert!(text.contains("\tprintln!(\"BRANCH:{BRANCH}\\n\");\n"));
    let kept = build(vec![], BuildPattern::Lazy).render("now").ok().unwrap();
    assert!(kept.contains("pub const CARGO_TREE :&str"));
    assert!(kept.contains("\tprintln!(\"CARGO_TREE:{CARGO_TREE}\\n\");\n"));
}

#[test]
fn custom_pattern_selects_listed_keys() {
    let shadow = build(vec![], BuildPattern::Custom(vec![s("COMMIT_HASH"), s("MISSING")]));
    let t = shadow.triggers();
    assert_eq!(t.len(), 1);
    assert!(matches!(&t[0], Trigger::IfEnvChanged(k) if k == "COMMIT_HASH"));
    assert_eq!(t[0].directive(), "cargo:rerun-if-env-changed=COMMIT_HASH");
}

#[test]
fn custom_pattern_skips_denied_keys() {
    let shadow = build(
        vec![s("COMMIT_HASH")],
        BuildPattern::Custom(vec![s("COMMIT_HASH")]),
    );
    assert!(shadow.triggers().is_empty());
}

#[test]
fn lazy_and_realtime_patterns() {
    assert!(build(vec![], BuildPattern::Lazy).triggers().is_empty());
    let t = build(vec![], BuildPattern::RealTime).triggers();
    assert_eq!(t.len(), 1);
    assert!(matches!(&t[0], Trigger::Always(p) if p == "./shadow.rs"));
    assert_eq!(t[0].directive(), "cargo:rerun-if-changed=./shadow.rs");
}

#[test]
fn bool_constants_parse_or_fail() {
    let ok = Registry::from_pairs(vec![(
        s("flag"),
        ConstVal::new(s("a flag"), s("true"), ConstType::Bool),
    )]);
    let text = emit(&ok, VersionKind::Branch, "now").ok().unwrap();
    assert!(text.contains("#[doc=r#\"a flag\"#]\n"));
    assert!(text.contains("pub const FLAG :bool = true;\n\n"));
    let off = Registry::from_pairs(vec![(
        s("FLAG"),
        ConstVal::new(s("d"), s("false"), ConstType::Bool),
    )]);
    let text = emit(&off, VersionKind::Branch, "now").ok().unwrap();
    assert!(text.contains("pub const FLAG :bool = false;"));
    let bad = Registry::from_pairs(vec![(
        s("FLAG"),
        ConstVal::new(s("d"), s("notabool"), ConstType::Bool),
    )]);
    let r = emit(&bad, VersionKind::Branch, "now");
    assert!(matches!(r, Err(ShadowError::MalformedConstant(ref k)) if k == "FLAG"));
}

#[test]
fn slice_constants_as_byte_lists() {
    let reg = Registry::from_pairs(vec![
        (s("bytes"), ConstVal::new(s("d"), s("hi"), ConstType::Slice)),
        (s("EMPTY"), ConstVal::new(s("d"), s(""), ConstType::Slice)),
    ]);
    let text = emit(&reg, VersionKind::Branch, "now").ok().unwrap();
    assert!(text.contains("pub const BYTES :&[u8] = &[104, 105];"));
    assert!(text.contains("pub const EMPTY :&[u8] = &[];"));
    assert!(text.contains("\tprintln!(\"BYTES:{:?}\\n\",BYTES);\n"));
}

#[test]
fn artifact_layout_in_order() {
    let reg = Registry::from_pairs(vec![sv("b", "2"), sv("a", "1")]);
    let text = emit(&reg, VersionKind::Branch, "Mon, 1 Jan 2024").ok().unwrap();
    assert!(text.starts_with("// Code automatically generated by `shadow-rs`"));
    assert!(text.contains("// Generation time: Mon, 1 Jan 2024\n\n\n\n#[doc"));
    let a = text.find("pub const A :&str").unwrap();
    let b = text.find("pub const B :&str").unwrap();
    let v = text.find(VERSION_BRANCH_FN).unwrap();
    let d = text.find("pub fn print_build_in()").unwrap();
    assert!(a < b && b < v && v < d);
    assert!(text.contains(
        "\tprintln!(\"A:{A}\\n\");\n\tprintln!(\"B:{B}\\n\");\n\tprintln!(\"VERSION:{VERSION}\\n\");\n\tprintln!(\"CLAP_LONG_VERSION:{CLAP_LONG_VERSION}\\n\");\n}\n\n"
    ));
    assert!(text.ends_with("}\n\n\n"));
    assert!(!text.contains("cargo_metadata"));
}

#[test]
fn metadata_function_when_collected() {
    let reg = Registry::from_pairs(vec![(
        s("CARGO_METADATA"),
        ConstVal::new(s("d"), s("{}"), ConstType::Slice),
    )]);
    let text = emit(&reg, VersionKind::Branch, "now").ok().unwrap();
    assert!(text.contains("pub fn cargo_metadata()"));
    assert!(text.ends_with("}\n\n"));
}

#[test]
fn emission_deterministic_but_for_time() {
    let a = build(vec![], BuildPattern::Lazy).render("t1").ok().unwrap();
    let b = build(vec![], BuildPattern::Lazy).render("t1").ok().unwrap();
    let c = build(vec![], BuildPattern::Lazy).render("t2").ok().unwrap();
    assert_eq!(a, b);
    assert_ne!(a, c);
    assert_eq!(a.replace("t1", "t2"), c);
}

#[test]
fn merge_later_source_wins() {
    let shadow = Shadow::build(
        vec![],
        vec![sv("BRANCH", "main"), sv("X", "git")],
        vec![sv("X", "project")],
        vec![sv("X", "system")],
        vec![],
        s("out"),
        BuildPattern::Lazy,
    );
    assert_eq!(shadow.map.len(), 2);
    assert_eq!(shadow.map.get(&s("X")).unwrap().v, "system");
    assert_eq!(shadow.map.key_at(0), "BRANCH");
    assert_eq!(shadow.map.key_at(1), "X");
}

#[test]
fn filter_keeps_others_and_is_idempotent() {
    let mut reg = Registry::from_pairs(vec![sv("A", "1"), sv("B", "2"), sv("C", "3")]);
    let deny = vec![s("B"), s("Z")];
    reg.filter_deny(&deny);
    assert_eq!(reg.len(), 2);
    assert!(!reg.contains(&s("B")));
    assert_eq!(reg.get(&s("A")).unwrap().v, "1");
    assert_eq!(reg.get(&s("C")).unwrap().v, "3");
    reg.filter_deny(&deny);
    assert_eq!(reg.len(), 2);
    assert_eq!(reg.key_at(0), "A");
    assert_eq!(reg.key_at(1), "C");
}

#[test]
fn ci_detection() {
    let gitlab = vec![(s("GITLAB_CI"), s("true")), (s("GITHUB_ACTIONS"), s("true"))];
    assert_eq!(detect_ci(&gitlab), CiType::Gitlab);
    let github = vec![(s("GITLAB_CI"), s("false")), (s("GITHUB_ACTIONS"), s("true"))];
    assert_eq!(detect_ci(&github), CiType::Github);
    let none = vec![(s("GITHUB_ACTIONS"), s("1"))];
    assert_eq!(detect_ci(&none), CiType::NoCi);
    let shadow = Shadow::build(gitlab, vec![], vec![], vec![], vec![], s("o"), BuildPattern::Lazy);
    assert_eq!(shadow.try_ci(), CiType::Gitlab);
}

#[test]
fn output_file_paths() {
    let mut shadow = build(vec![], BuildPattern::Lazy);
    assert_eq!(shadow.output_file(), "./shadow.rs");
    shadow.out_path = s("target/out");
    assert_eq!(shadow.output_file(), "target/out/shadow.rs");
}

#[test]
fn hook_appends_after_banner() {
    let shadow = build(vec![], BuildPattern::Lazy);
    let mut out = s("body");
    let custom = s("pub const HOOK_CONST: &str = \"hello hook const\";\n");
    assert!(shadow.hook(&mut out, Ok(custom)).is_ok());
    assert_eq!(
        out,
        format!("body{HOOK_BANNER}pub const HOOK_CONST: &str = \"hello hook const\";\n")
    );
    assert!(out.contains("// Below code generated by project custom from by build.rs"));
}

#[test]
fn hook_error_returned_unchanged() {
    let shadow = build(vec![], BuildPattern::Lazy);
    let mut out = s("body");
    let r = shadow.hook(&mut out, Err(ShadowError::MalformedConstant(s("HOOK"))));
    assert!(matches!(r, Err(ShadowError::MalformedConstant(ref k)) if k == "HOOK"));
    assert_eq!(out, format!("body{HOOK_BANNER}"));
}

#[test]
fn output_file_for_empty_directory() {
    let mut shadow = build(vec![], BuildPattern::Lazy);
    shadow.out_path = s("");
    assert_eq!(shadow.output_file(), "shadow.rs");
}

#[test]
fn malformed_bool_writes_nothing() {
    let mut out = s("before");
    let v = ConstVal::new(String::new(), s("notabool"), ConstType::Bool);
    let r = write_const(&mut out, &s("FLAG"), &v);
    assert!(matches!(r, Err(ShadowError::MalformedConstant(ref k)) if k == "FLAG"));
    assert_eq!(out, "before");
}

#[test]
fn first_malformed_constant_reported() {
    let reg = Registry::from_pairs(vec![
        (s("Z_FLAG"), ConstVal::new(s("d"), s("nope"), ConstType::Bool)),
        (s("A_OK"), ConstVal::new(s("d"), s("true"), ConstType::Bool)),
        (s("M_FLAG"), ConstVal::new(s("d"), s("maybe"), ConstType::Bool)),
    ]);
    let r = emit(&reg, VersionKind::Branch, "now");
    assert!(matches!(r, Err(ShadowError::MalformedConstant(ref k)) if k == "M_FLAG"));
}
