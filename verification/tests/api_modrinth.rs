use jade::api::HTTPSQuery;
use jade::json::JsonValue;
use jade::manifest::ConfigValue;
use jade::modrinth::{
    derivation_for_version, find_seen, parse_project, parse_search_hits, parse_version,
    ModrinthDriver,
};
use jade::package::Derivation;

#[test]
fn serialize_array_joins_with_commas() {
    assert_eq!(HTTPSQuery::serialize_array(&[]), "[]");
    assert_eq!(HTTPSQuery::serialize_array(&["a".to_string()]), "[a]");
    assert_eq!(
        HTTPSQuery::serialize_array(&["a".to_string(), "b".to_string(), "c".to_string()]),
        "[a,b,c]"
    );
}

#[test]
fn formulate_encodes_parameters_in_order() {
    let q = HTTPSQuery::new("api.modrinth.com", "v2/search")
        .add_parameter("query", "a b")
        .unwrap()
        .add_parameter("limit", "20")
        .unwrap();
    assert_eq!(
        q.formulate(),
        "https://api.modrinth.com/v2/search?query=a%20b&limit=20"
    );
}

#[test]
fn add_parameter_replaces_existing_key_in_place() {
    let q = HTTPSQuery::new("h", "e")
        .add_parameter("a", "1")
        .unwrap()
        .add_parameter("b", "2")
        .unwrap()
        .add_parameter("a", "3")
        .unwrap();
    assert_eq!(q.formulate(), "https://h/e?a=3&b=2");
}

fn driver_cfg() -> Vec<(String, ConfigValue)> {
    vec![(
        "modrinth".to_string(),
        ConfigValue::Table(vec![
            ("loader".to_string(), ConfigValue::Str("fabric".to_string())),
            (
                "versions".to_string(),
                ConfigValue::Arr(vec![
                    ConfigValue::Str("1.20.1".to_string()),
                    ConfigValue::Str("1.20.4".to_string()),
                ]),
            ),
            ("limit".to_string(), ConfigValue::Int(20)),
        ]),
    )]
}

#[test]
fn driver_reads_its_config_table() {
    let d = ModrinthDriver::new(&driver_cfg()).unwrap();
    assert_eq!(d.loader, "fabric");
    assert_eq!(d.versions, vec!["1.20.1".to_string(), "1.20.4".to_string()]);
    assert_eq!(d.limit, "20");
}

#[test]
fn driver_config_errors_name_the_parameter() {
    let e = ModrinthDriver::new(&vec![]).unwrap_err();
    assert_eq!(e, "missing config table `modrinth`");
    let cfg = vec![("modrinth".to_string(), ConfigValue::Table(vec![]))];
    assert_eq!(ModrinthDriver::new(&cfg).unwrap_err(), "missing config parameter `loader`");
    let cfg = vec![(
        "modrinth".to_string(),
        ConfigValue::Table(vec![("loader".to_string(), ConfigValue::Int(1))]),
    )];
    assert_eq!(
        ModrinthDriver::new(&cfg).unwrap_err(),
        "config parameter `loader` present but not string"
    );
    let cfg = vec![(
        "modrinth".to_string(),
        ConfigValue::Table(vec![
            ("loader".to_string(), ConfigValue::Str("fabric".to_string())),
            ("versions".to_string(), ConfigValue::Arr(vec![ConfigValue::Int(1)])),
        ]),
    )];
    assert_eq!(
        ModrinthDriver::new(&cfg).unwrap_err(),
        "config parameter `versions` contained a non-string"
    );
    let cfg = vec![(
        "modrinth".to_string(),
        ConfigValue::Table(vec![
            ("loader".to_string(), ConfigValue::Str("fabric".to_string())),
            ("versions".to_string(), ConfigValue::Arr(vec![])),
        ]),
    )];
    assert_eq!(ModrinthDriver::new(&cfg).unwrap_err(), "missing config parameter `limit`");
}

#[test]
fn facets_filter_loader_and_versions() {
    let d = ModrinthDriver::new(&driver_cfg()).unwrap();
    assert_eq!(
        d.get_facets(),
        "[[\"categories:fabric\",\"versions:1.20.1\",\"versions:1.20.4\"]]"
    );
}

#[test]
fn version_queries_carry_loader_and_game_versions() {
    let d = ModrinthDriver::new(&driver_cfg()).unwrap();
    let q = d.project_query("AABBCC");
    assert_eq!(q.formulate(), "https://api.modrinth.com/v2/project/AABBCC?");
    let q = d.version_query("AABBCC", None).unwrap();
    assert_eq!(
        q.formulate(),
        "https://api.modrinth.com/v2/project/AABBCC/version?loaders=%5B%22fabric%22%5D&game_versions=%5B%221.20.1%22%2C%221.20.4%22%5D"
    );
    let q = d.version_query("AABBCC", Some("v9")).unwrap();
    assert!(q.formulate().starts_with("https://api.modrinth.com/v2/project/AABBCC/version/v9?"));
}

#[test]
fn search_query_carries_facets_and_limit() {
    let d = ModrinthDriver::new(&driver_cfg()).unwrap();
    let q = d.search_query("sodium").unwrap();
    let url = q.formulate();
    assert!(url.starts_with("https://api.modrinth.com/v2/search?query=sodium&facets="));
    assert!(url.ends_with("&limit=20"));
}

fn obj(entries: Vec<(&str, JsonValue)>) -> JsonValue {
    JsonValue::Obj(entries.into_iter().map(|(k, v)| (k.to_string(), v)).collect())
}

fn jstr(s: &str) -> JsonValue {
    JsonValue::Str(s.to_string())
}

#[test]
fn parse_project_reads_slug_and_categories() {
    let v = obj(vec![
        ("slug", jstr("sodium")),
        ("categories", JsonValue::Arr(vec![jstr("performance"), jstr("optimization")])),
    ]);
    let p = parse_project(&v).unwrap();
    assert_eq!(p.slug, "sodium");
    assert_eq!(p.categories, vec!["performance".to_string(), "optimization".to_string()]);
}

#[test]
fn parse_project_errors_name_the_key() {
    assert_eq!(parse_project(&jstr("nope")).unwrap_err(), "api response was not an object");
    let v = obj(vec![("categories", JsonValue::Arr(vec![]))]);
    assert_eq!(parse_project(&v).unwrap_err(), "api response did not contain key `slug`");
    let v = obj(vec![("slug", JsonValue::Bool(true))]);
    assert_eq!(
        parse_project(&v).unwrap_err(),
        "api response contained key `slug` but was not a string"
    );
    let v = obj(vec![("slug", jstr("s")), ("categories", jstr("x"))]);
    assert_eq!(
        parse_project(&v).unwrap_err(),
        "api response contained key `categories` but was not an array"
    );
}

fn version_json(deps: Vec<JsonValue>) -> JsonValue {
    obj(vec![
        ("id", jstr("ver1")),
        (
            "files",
            JsonValue::Arr(vec![obj(vec![
                ("url", jstr("https://cdn/x.jar")),
                ("filename", jstr("x.jar")),
                ("hashes", obj(vec![("sha512", jstr("dd00ff"))])),
            ])]),
        ),
        ("dependencies", JsonValue::Arr(deps)),
    ])
}

#[test]
fn parse_version_reads_first_file_and_required_deps() {
    let deps = vec![
        obj(vec![
            ("dependency_type", jstr("required")),
            ("project_id", jstr("DEP1")),
            ("version_id", jstr("DEPV")),
        ]),
        obj(vec![
            ("dependency_type", jstr("optional")),
            ("project_id", jstr("OPT1")),
            ("version_id", JsonValue::Null),
        ]),
        obj(vec![
            ("dependency_type", jstr("required")),
            ("project_id", jstr("DEP2")),
            ("version_id", JsonValue::Null),
        ]),
    ];
    let v = version_json(deps);
    let info = parse_version(&v).unwrap();
    assert_eq!(info.id, "ver1");
    assert_eq!(info.url, "https://cdn/x.jar");
    assert_eq!(info.file_name, "x.jar");
    assert_eq!(info.sha512, "dd00ff");
    assert_eq!(info.dependencies.len(), 2);
    assert_eq!(info.dependencies[0].project_id, "DEP1");
    assert_eq!(info.dependencies[0].version_id.as_deref(), Some("DEPV"));
    assert_eq!(info.dependencies[1].project_id, "DEP2");
    assert_eq!(info.dependencies[1].version_id, None);
}

#[test]
fn parse_version_errors() {
    let v = obj(vec![("id", jstr("v"))]);
    assert_eq!(parse_version(&v).unwrap_err(), "api response did not contain key `files`");
    let v = obj(vec![("id", jstr("v")), ("files", JsonValue::Arr(vec![]))]);
    assert_eq!(
        parse_version(&v).unwrap_err(),
        "api response contained key `files` but it was empty"
    );
    let v = obj(vec![
        ("id", jstr("v")),
        (
            "files",
            JsonValue::Arr(vec![obj(vec![
                ("url", jstr("u")),
                ("filename", jstr("f")),
                ("hashes", obj(vec![])),
            ])]),
        ),
    ]);
    assert_eq!(
        parse_version(&v).unwrap_err(),
        "in `hashes` api response did not contain key `sha512`"
    );
}

#[test]
fn parse_search_hits_in_order() {
    let hit = |slug: &str, downloads: u64| {
        obj(vec![
            ("project_id", jstr(&format!("id-{slug}"))),
            ("slug", jstr(slug)),
            ("description", jstr("desc")),
            ("author", jstr("auth")),
            ("categories", JsonValue::Arr(vec![jstr("perf")])),
            ("downloads", JsonValue::UInt(downloads)),
        ])
    };
    let v = obj(vec![("hits", JsonValue::Arr(vec![hit("sodium", 9), hit("lithium", 5)]))]);
    let hits = parse_search_hits(&v).unwrap();
    assert_eq!(hits.len(), 2);
    assert_eq!(hits[0].slug, "sodium");
    assert_eq!(hits[0].id, "id-sodium");
    assert_eq!(hits[0].downloads, 9);
    assert_eq!(hits[0].tags, vec!["perf".to_string()]);
    assert_eq!(hits[1].slug, "lithium");
}

#[test]
fn parse_search_errors() {
    let v = obj(vec![]);
    assert_eq!(parse_search_hits(&v).unwrap_err(), "api response did not contain key `hits`");
    let v = obj(vec![("hits", JsonValue::Arr(vec![obj(vec![
        ("project_id", jstr("i")),
        ("slug", jstr("s")),
        ("description", jstr("d")),
        ("author", jstr("a")),
        ("categories", JsonValue::Arr(vec![])),
        ("downloads", jstr("many")),
    ])]))]);
    assert_eq!(
        parse_search_hits(&v).unwrap_err(),
        "api response contained key `downloads` but was not an integer"
    );
}

#[test]
fn find_seen_matches_first_package_id() {
    let seen = vec![
        ("AAA".to_string(), Some("v1".to_string())),
        ("BBB".to_string(), None),
    ];
    assert_eq!(find_seen(&seen, "BBB"), Some(1));
    assert_eq!(find_seen(&seen, "CCC"), None);
}

#[test]
fn install_transitive_links_root_to_dependency() {
    // resolving a slug whose version requires one dependency yields the
    // dependency first, then the root naming it in `depends`
    let dep_version = version_json(vec![]);
    let dep_info = parse_version(&dep_version).unwrap();
    let dep = derivation_for_version("fabric-api", vec![], &dep_info, &vec![]);
    assert_eq!(dep.hash.as_deref(), Some("dd00ff"));

    let root_version = version_json(vec![obj(vec![
        ("dependency_type", jstr("required")),
        ("project_id", jstr("DEPX")),
        ("version_id", JsonValue::Null),
    ])]);
    let root_info = parse_version(&root_version).unwrap();
    let resolved_deps = vec![dep.clone()];
    let root = derivation_for_version(
        "foo",
        vec!["adventure".to_string()],
        &root_info,
        &resolved_deps,
    );
    let ordered = vec![dep, root];
    assert_eq!(ordered[0].name, "fabric-api");
    assert_eq!(ordered[1].name, "foo");
    assert!(ordered[1].depends.contains(&"fabric-api".to_string()));
    assert_eq!(ordered[1].hash.as_deref(), Some("dd00ff"));
    assert_eq!(ordered[1].tags, vec!["adventure".to_string()]);
    assert_eq!(ordered[1].url, "https://cdn/x.jar");
    assert_eq!(ordered[1].file_name, "x.jar");
    assert!(!ordered[1].extract);
}

#[test]
fn derivation_for_version_collects_dependency_names() {
    let info = parse_version(&version_json(vec![])).unwrap();
    let deps = vec![
        Derivation::new("u1", "a", "a.jar", false, None, None, vec![], vec![], ""),
        Derivation::new("u2", "b", "b.jar", false, None, None, vec![], vec![], ""),
    ];
    let d = derivation_for_version("root", vec![], &info, &deps);
    assert_eq!(d.depends, vec!["a".to_string(), "b".to_string()]);
    assert_eq!(d.backing_file, "");
}
