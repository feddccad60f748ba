use jade::composer::{JadeError, Package};
use jade::manifest::{select_derives_dir, select_manifest_path, Manifest};
use jade::packwiz_compat::{Download, PackWizMod};
use jade::text::i64_to_string;
use jade::util::{interpret_confirm, interpret_index_response, parse_i64, trim_response, IndexResponse};

#[test]
fn init_fills_defaults() {
    let m = Manifest::init("vanilla+", None, Some("modrinth".to_string()), None);
    assert_eq!(m.main.name, "vanilla+");
    assert_eq!(m.main.pack_version, "0.1");
    assert_eq!(m.main.api.as_deref(), Some("modrinth"));
    assert_eq!(m.main.derives, None);
    assert!(m.main.enable_all);
    assert!(m.enabled.is_none());
    assert!(m.api_cfg.is_empty());
}

#[test]
fn manifest_path_prefers_flag_then_convention() {
    let flag = Some("/custom/manifest.toml".to_string());
    assert_eq!(select_manifest_path(&flag, ".", false).unwrap(), "/custom/manifest.toml");
    assert_eq!(select_manifest_path(&None, ".", true).unwrap(), "./manifest.jade.toml");
    let e = select_manifest_path(&None, ".", false).unwrap_err();
    assert_eq!(
        e,
        "could not locate manifest ./manifest.jade.toml: try passing the --manifest flag to manually specify pack manifest"
    );
}

#[test]
fn derives_dir_precedence() {
    let flag = Some("/flagged".to_string());
    let from_manifest = Some("/from/manifest".to_string());
    assert_eq!(select_derives_dir(&flag, &from_manifest, ".", true).unwrap(), "/flagged");
    assert_eq!(select_derives_dir(&None, &from_manifest, ".", false).unwrap(), "/from/manifest");
    assert_eq!(select_derives_dir(&None, &None, ".", true).unwrap(), "./derives/");
    assert!(select_derives_dir(&None, &None, ".", false).is_err());
}

#[test]
fn confirm_interprets_yes_no_default() {
    assert!(interpret_confirm("y\n", false));
    assert!(interpret_confirm(" Y ", false));
    assert!(!interpret_confirm("n\n", true));
    assert!(!interpret_confirm("N", true));
    assert!(interpret_confirm("\n", true));
    assert!(!interpret_confirm("", false));
    assert!(interpret_confirm("maybe", true));
    assert!(!interpret_confirm("maybe", false));
}

#[test]
fn trim_strips_ascii_whitespace() {
    assert_eq!(trim_response("  5\n"), "5");
    assert_eq!(trim_response("\t\r\n"), "");
    assert_eq!(trim_response("a b"), "a b");
}

#[test]
fn parse_i64_accepts_signed_decimals() {
    assert_eq!(parse_i64("0"), Ok(0));
    assert_eq!(parse_i64("42"), Ok(42));
    assert_eq!(parse_i64("+7"), Ok(7));
    assert_eq!(parse_i64("-13"), Ok(-13));
    assert_eq!(parse_i64("9223372036854775807"), Ok(i64::MAX));
    assert_eq!(parse_i64("-9223372036854775808"), Ok(i64::MIN));
}

#[test]
fn parse_i64_rejects_junk_and_overflow() {
    let msg = "response must be an integer".to_string();
    assert_eq!(parse_i64(""), Err(msg.clone()));
    assert_eq!(parse_i64("-"), Err(msg.clone()));
    assert_eq!(parse_i64("12a"), Err(msg.clone()));
    assert_eq!(parse_i64("9223372036854775808"), Err(msg.clone()));
    assert_eq!(parse_i64("-9223372036854775809"), Err(msg.clone()));
    assert_eq!(parse_i64("99999999999999999999"), Err(msg));
}

#[test]
fn index_response_interprets_each_case() {
    assert_eq!(interpret_index_response("\n", 0, 4), IndexResponse::UseDefault);
    assert_eq!(interpret_index_response("abc\n", 0, 4), IndexResponse::Invalid);
    assert_eq!(interpret_index_response(" 2 \n", 0, 4), IndexResponse::Accept(2));
    assert_eq!(interpret_index_response("7", 0, 4), IndexResponse::OutOfRange);
    assert_eq!(interpret_index_response("-1", 0, 4), IndexResponse::OutOfRange);
}

#[test]
fn i64_rendering() {
    assert_eq!(i64_to_string(0), "0");
    assert_eq!(i64_to_string(123), "123");
    assert_eq!(i64_to_string(-45), "-45");
    assert_eq!(i64_to_string(i64::MIN), "-9223372036854775808");
}

fn packwiz(fmt: &str) -> PackWizMod {
    PackWizMod {
        filename: "sodium-0.5.jar".to_string(),
        name: "Sodium".to_string(),
        side: "client".to_string(),
        download: Download {
            hash_format: fmt.to_string(),
            hash: "cafe".to_string(),
            url: "https://cdn/sodium.jar".to_string(),
        },
        option: None,
    }
}

#[test]
fn packwiz_import_carries_hash_and_names() {
    let p = Package::from_packwiz(packwiz("sha512")).unwrap();
    assert_eq!(p.name, "Sodium");
    assert_eq!(p.file_name, "sodium-0.5.jar");
    assert_eq!(p.url, "https://cdn/sodium.jar");
    assert_eq!(p.hash.as_deref(), Some("cafe"));
    assert!(p.dep.is_empty());
    assert!(p.tags.is_none());
}

#[test]
fn packwiz_import_rejects_unknown_format() {
    match Package::from_packwiz(packwiz("md5")) {
        Err(JadeError::Error(m)) => {
            assert_eq!(m, "md5 is not a supported hash format, supported are sha256, sha512");
        }
        _ => panic!("expected an error"),
    }
}

#[test]
fn store_location_needs_hash() {
    let mut p = Package::from_packwiz(packwiz("sha256")).unwrap();
    assert_eq!(
        p.get_store_location("/root").as_deref(),
        Some("/root/store/cafe-Sodium")
    );
    p.hash = None;
    assert_eq!(p.get_store_location("/root"), None);
}

#[test]
fn backup_archive_name_shape() {
    assert_eq!(
        jade::util::backup_archive_name("/backups", "vanilla+", "01-02-26_10-30"),
        "/backups/vanilla+-01-02-26_10-30.zip"
    );
}
