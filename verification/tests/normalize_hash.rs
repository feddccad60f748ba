use jade::composer::{HashFmt, JadeError};
use jade::util::{hash_stream, normalize, verify_hash};

#[test]
fn normalize_lowers_and_strips() {
    assert_eq!(normalize("Sodium"), "sodium");
    assert_eq!(normalize("Fabric-API_0.92"), "fabricapi092");
    assert_eq!(normalize("  Lithium! "), "lithium");
    assert_eq!(normalize(""), "");
    assert_eq!(normalize("äöü"), "");
}

#[test]
fn normalize_idempotent_concrete() {
    for s in ["Sodium", "Fabric-API_0.92", "MiXeD CaSe 123", "", "!!!"] {
        let once = normalize(s);
        let twice = normalize(&once);
        assert_eq!(once, twice);
    }
}

#[test]
fn normalized_chars_are_lower_alnum() {
    let n = normalize("Some Mod-Name 2.0 ÄË");
    for c in n.chars() {
        assert!(c.is_ascii_lowercase() || c.is_ascii_digit());
    }
}

#[test]
fn hash_stream_is_base32_sha256() {
    let h = hash_stream(b"some served bytes");
    assert_eq!(h.len(), 52);
    for c in h.chars() {
        assert!(c.is_ascii_digit() || (c.is_ascii_lowercase() && !"eout".contains(c)));
    }
    let h2 = hash_stream(b"some served bytes");
    assert_eq!(h, h2);
    let other = hash_stream(b"other bytes");
    assert_ne!(h, other);
}

#[test]
fn verify_hash_nix_round() {
    let bytes = b"artifact contents";
    let h = hash_stream(bytes);
    assert_eq!(verify_hash(bytes, &h, "nix"), Ok(true));
    assert_eq!(verify_hash(bytes, "0000000000000000000000000000000000000000000000000000", "nix"), Ok(false));
}

#[test]
fn verify_hash_sha512_known_vector() {
    let expected = "ddaf35a193617abacc417349ae20413112e6fa4e89a97ea20a9eeee64b55d39a2192992a274fc1a836ba3c23a3feebbd454d4423643ce80e2a9ac94fa54ca49f";
    assert_eq!(verify_hash(b"abc", expected, "sha512"), Ok(true));
    assert_eq!(verify_hash(b"abd", expected, "sha512"), Ok(false));
}

#[test]
fn verify_hash_unknown_format() {
    let r = verify_hash(b"x", "whatever", "md5");
    assert_eq!(r, Err("unknown hash format md5".to_string()));
}

#[test]
fn hash_fmt_from_string() {
    assert!(matches!(HashFmt::from_string("sha256"), Ok(HashFmt::Sha256)));
    assert!(matches!(HashFmt::from_string("sha512"), Ok(HashFmt::Sha512)));
    match HashFmt::from_string("crc32") {
        Err(JadeError::Error(m)) => {
            assert_eq!(m, "crc32 is not a supported hash format, supported are sha256, sha512");
        }
        _ => panic!("expected an error"),
    }
}

#[test]
fn hash_fmt_digest_lengths() {
    let f256 = HashFmt::Sha256;
    let f512 = HashFmt::Sha512;
    assert_eq!(f256.hash(b"abc").len(), 52);
    assert_eq!(f512.hash(b"abc").len(), 103);
    assert_ne!(f256.hash(b"abc"), f512.hash(b"abc"));
}

#[test]
fn hash_fmt_check_reports_mismatch() {
    let f = HashFmt::Sha256;
    let good = f.hash(b"payload");
    match f.check("payload.jar", b"payload", &good) {
        Ok(h) => assert_eq!(h, good),
        Err(_) => panic!("expected the matching digest to pass"),
    }
    match f.check("payload.jar", b"payload", "wrong") {
        Err(JadeError::CheckSumError { expected_sum, real_sum, package }) => {
            assert_eq!(expected_sum, "wrong");
            assert_eq!(real_sum, good);
            assert_eq!(package, "payload.jar");
        }
        _ => panic!("expected a checksum error"),
    }
}
