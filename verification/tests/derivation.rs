use jade::package::{Derivation, Derivations, RawDerivation};
use jade::preprocessor::{dedup, filter_derivations_by_tags};

fn raw(url: &str) -> RawDerivation {
    RawDerivation {
        url: url.to_string(),
        extract: None,
        extract_target: None,
        name: None,
        file_name: None,
        hash: None,
        depends: None,
        tags: None,
    }
}

fn plain(name: &str, url: &str) -> Derivation {
    Derivation::new(url, name, &format!("{name}.jar"), false, None, None, vec![], vec![], "")
}

#[test]
fn from_raw_defaults_from_url() {
    let d = Derivation::from_raw(raw("https://host/path/sodium-0.5.jar"), "/derives/a.toml");
    assert_eq!(d.name, "sodium-0.5.jar");
    assert_eq!(d.file_name, "sodium-0.5.jar");
    assert_eq!(d.url, "https://host/path/sodium-0.5.jar");
    assert!(!d.extract);
    assert_eq!(d.extract_target, None);
    assert_eq!(d.hash, None);
    assert!(d.depends.is_empty());
    assert!(d.tags.is_empty());
    assert_eq!(d.backing_file, "/derives/a.toml");
}

#[test]
fn from_raw_name_falls_back_to_file_name() {
    let mut r = raw("https://host/x.jar");
    r.file_name = Some("renamed.jar".to_string());
    let d = Derivation::from_raw(r, "p");
    assert_eq!(d.name, "renamed.jar");
    assert_eq!(d.file_name, "renamed.jar");
}

#[test]
fn from_raw_explicit_fields_win() {
    let mut r = raw("https://host/x.jar");
    r.name = Some("sodium".to_string());
    r.file_name = Some("sodium-0.5.jar".to_string());
    r.extract = Some(true);
    r.hash = Some("abc".to_string());
    r.depends = Some(vec!["fabricapi".to_string()]);
    r.tags = Some(vec!["performance".to_string()]);
    let d = Derivation::from_raw(r, "p");
    assert_eq!(d.name, "sodium");
    assert_eq!(d.file_name, "sodium-0.5.jar");
    assert!(d.extract);
    assert_eq!(d.hash.as_deref(), Some("abc"));
    assert_eq!(d.depends, vec!["fabricapi".to_string()]);
    assert_eq!(d.tags, vec!["performance".to_string()]);
}

#[test]
fn to_raw_elides_defaults() {
    let d = plain("x", "http://h/x.jar");
    let r = d.to_raw();
    assert_eq!(r.extract, None);
    assert_eq!(r.depends, None);
    assert_eq!(r.tags, None);
    assert_eq!(r.name.as_deref(), Some("x"));
    assert_eq!(r.file_name.as_deref(), Some("x.jar"));
    assert_eq!(r.hash, None);
}

#[test]
fn raw_round_trip_preserves_fields() {
    let d = Derivation::new(
        "https://host/path/sodium-0.5.jar",
        "sodium",
        "sodium-0.5.jar",
        true,
        Some("inner/dir".to_string()),
        Some("0hash0".to_string()),
        vec!["fabricapi".to_string()],
        vec!["performance".to_string()],
        "/derives/sodium.jade.toml",
    );
    let r = d.to_raw();
    let back = Derivation::from_raw(r, "/derives/sodium.jade.toml");
    assert_eq!(back.url, d.url);
    assert_eq!(back.name, d.name);
    assert_eq!(back.file_name, d.file_name);
    assert_eq!(back.extract, d.extract);
    assert_eq!(back.extract_target, d.extract_target);
    assert_eq!(back.hash, d.hash);
    assert_eq!(back.depends, d.depends);
    assert_eq!(back.tags, d.tags);
    assert_eq!(back.backing_file, d.backing_file);
}

#[test]
fn hash_signature_shape() {
    let mut d = plain("x", "http://h/x.jar");
    d.hash = Some("0123abcd".to_string());
    assert_eq!(d.generate_hash_signature(), "0123abcd-x");
}

#[test]
fn normalize_name_in_place() {
    let mut d = plain("My-Mod", "http://h/m.jar");
    d.normalize_name();
    assert_eq!(d.name, "mymod");
}

#[test]
fn dedup_collapses_duplicates_keeping_first() {
    let a = plain("a", "http://h/a.jar");
    let b = plain("b", "http://h/b.jar");
    let mut a2 = plain("a", "http://h/a.jar");
    a2.backing_file = "elsewhere.toml".to_string();
    let out = dedup(vec![a.clone(), b.clone(), a2]);
    assert_eq!(out.len(), 2);
    assert_eq!(out[0].name, "a");
    assert_eq!(out[0].backing_file, a.backing_file);
    assert_eq!(out[1].name, "b");
}

#[test]
fn dedup_of_doubled_list_is_dedup_of_list() {
    let xs = vec![plain("a", "u1"), plain("b", "u2"), plain("a", "u1")];
    let mut doubled = xs.clone();
    doubled.extend(xs.clone());
    let once = dedup(xs);
    let twice = dedup(doubled);
    assert_eq!(once.len(), twice.len());
    for (l, r) in once.iter().zip(twice.iter()) {
        assert_eq!(l.name, r.name);
        assert_eq!(l.url, r.url);
    }
}

#[test]
fn fuzzy_name_finds_first_containing_match() {
    let set = Derivations::new(vec![
        plain("lithium", "u1"),
        plain("sodium", "u2"),
        plain("sodium-extra", "u3"),
    ]);
    let d = set.get_derivation_by_fuzzy_name("Sodium").expect("should match");
    assert_eq!(d.name, "sodium");
    let err = set.get_derivation_by_fuzzy_name("phosphor").unwrap_err();
    assert_eq!(err, "phosphor could not be found");
}

#[test]
fn dedup_method_rewrites_in_place() {
    let mut set = Derivations::new(vec![plain("a", "u"), plain("a", "u")]);
    set.dedup();
    assert_eq!(set.derivations.len(), 1);
}

#[test]
fn find_unmanaged_matches_by_normalized_name() {
    let set = Derivations::new(vec![plain("lithium", "u1"), plain("sodium", "u2")]);
    let candidate = plain("So-Dium", "other");
    let (i, installed) = set.find_unmanaged_matches(&candidate).expect("should match");
    assert_eq!(i, 1);
    assert!(!installed);
    assert!(set.find_unmanaged_matches(&plain("phosphor", "u")).is_none());
    assert!(set.get_api_pkg_id_list().is_empty());
}

fn tagged(name: &str, tags: &[&str]) -> Derivation {
    Derivation::new(
        "u",
        name,
        "f.jar",
        false,
        None,
        None,
        vec![],
        tags.iter().map(|t| t.to_string()).collect(),
        "",
    )
}

#[test]
fn filter_by_tags_keeps_enabled_without_disabled() {
    let input = vec![
        tagged("a", &["perf"]),
        tagged("b", &["perf", "broken"]),
        tagged("c", &["cosmetic"]),
        tagged("d", &[]),
    ];
    let enabled = vec!["perf".to_string()];
    let disabled = vec!["broken".to_string()];
    let kept = filter_derivations_by_tags(input.clone(), enabled.clone(), disabled.clone(), true);
    let names: Vec<&str> = kept.iter().map(|d| d.name.as_str()).collect();
    assert_eq!(names, vec!["a"]);
    let kept = filter_derivations_by_tags(input, enabled, disabled, false);
    let names: Vec<&str> = kept.iter().map(|d| d.name.as_str()).collect();
    assert_eq!(names, vec!["a", "c", "d"]);
}

#[test]
fn unresolved_depends_names_the_gaps() {
    let root = Derivation::new(
        "u",
        "root",
        "root.jar",
        false,
        None,
        None,
        vec!["Fabric-API".to_string(), "ghost-mod".to_string()],
        vec![],
        "",
    );
    let dep = plain("fabricapi", "u2");
    let set = Derivations::new(vec![root.clone(), dep]);
    assert_eq!(set.unresolved_depends(&root), vec!["ghost-mod".to_string()]);
    let lonely = Derivations::new(vec![root.clone()]);
    assert_eq!(
        lonely.unresolved_depends(&root),
        vec!["Fabric-API".to_string(), "ghost-mod".to_string()]
    );
}
