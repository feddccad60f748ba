use jade::composer::JadeError;
use jade::package::Derivation;
use jade::store::{RealizeAction, RealizeEvent, RealizeState, Store};
use jade::util::hash_stream;

fn store() -> Store {
    Store::new("/js/store", "/js/staging")
}

fn unhashed() -> Derivation {
    Derivation::new("http://h/x.jar", "x", "x.jar", false, None, None, vec![], vec![], "")
}

fn hashed(h: &str) -> Derivation {
    Derivation::new(
        "http://h/x.jar",
        "x",
        "x.jar",
        false,
        None,
        Some(h.to_string()),
        vec![],
        vec![],
        "",
    )
}

#[test]
fn fresh_realize_downloads_then_commits() {
    let st = store();
    let d = unhashed();
    let (state, action) = st.realize_start(&d);
    assert!(matches!(state, RealizeState::Downloading));
    match action {
        RealizeAction::Download { url, dest } => {
            assert_eq!(url, "http://h/x.jar");
            assert_eq!(dest, "/js/staging/x.jar");
        }
        _ => panic!("expected a download"),
    }
    let served = b"served bytes";
    let h = hash_stream(served);
    let sha512 = "unused-here".to_string();
    let (state, action) = st.realize_step(
        &d,
        state,
        RealizeEvent::Downloaded { sha256_nix: h.clone(), sha512_hex: sha512 },
    );
    match &state {
        RealizeState::Committing { updated, source } => {
            assert_eq!(updated.hash.as_deref(), Some(h.as_str()));
            assert_eq!(source, "/js/staging/x.jar");
        }
        _ => panic!("expected to be committing"),
    }
    match action {
        Some(RealizeAction::Commit { source, store_dir, artifact }) => {
            assert_eq!(source, "/js/staging/x.jar");
            assert_eq!(store_dir, format!("/js/store/{h}-x"));
            assert_eq!(artifact, format!("/js/store/{h}-x/artifact"));
        }
        _ => panic!("expected a commit"),
    }
    let (state, action) = st.realize_step(&d, state, RealizeEvent::Committed {
        already_existed: false,
    });
    assert!(action.is_none());
    match state {
        RealizeState::Done { path, updated } => {
            assert_eq!(path.render(), format!("/js/store/{h}-x"));
            assert_eq!(path.get_artifact(), format!("/js/store/{h}-x/artifact"));
            assert_eq!(updated.hash.as_deref(), Some(h.as_str()));
        }
        _ => panic!("expected to be done"),
    }
}

#[test]
fn cached_realize_checks_store_and_skips_network() {
    let st = store();
    let served = b"served bytes";
    let h = hash_stream(served);
    let d = hashed(&h);
    let (state, action) = st.realize_start(&d);
    assert!(matches!(state, RealizeState::CheckingStore));
    match action {
        RealizeAction::CheckStore { path } => {
            assert_eq!(path, format!("/js/store/{h}-x"));
        }
        _ => panic!("expected a store check"),
    }
    let (state, action) = st.realize_step(&d, state, RealizeEvent::StoreChecked { present: true });
    assert!(action.is_none());
    match state {
        RealizeState::Done { path, updated } => {
            assert_eq!(path.render(), format!("/js/store/{h}-x"));
            assert_eq!(updated.hash.as_deref(), Some(h.as_str()));
        }
        _ => panic!("expected a cache hit"),
    }
}

#[test]
fn absent_entry_falls_back_to_download() {
    let st = store();
    let d = hashed("somehash");
    let (state, _) = st.realize_start(&d);
    let (state, action) = st.realize_step(&d, state, RealizeEvent::StoreChecked { present: false });
    assert!(matches!(state, RealizeState::Downloading));
    assert!(matches!(action, Some(RealizeAction::Download { .. })));
}

#[test]
fn hash_mismatch_fails_and_never_commits() {
    let st = store();
    let preset = "AAAAAAAAAAAAAAAAAAAAAAAAAAAAAAAAAAAAAAAAAAAAAAAAAAAA";
    let d = hashed(preset);
    let (state, _) = st.realize_start(&d);
    let (state, action) = st.realize_step(&d, state, RealizeEvent::StoreChecked { present: false });
    assert!(matches!(action, Some(RealizeAction::Download { .. })));
    let real = hash_stream(b"actual bytes");
    let (state, action) = st.realize_step(
        &d,
        state,
        RealizeEvent::Downloaded { sha256_nix: real.clone(), sha512_hex: "ff".to_string() },
    );
    assert!(action.is_none());
    match &state {
        RealizeState::Failed { error: JadeError::CheckSumError { expected_sum, real_sum, package } } => {
            assert_eq!(expected_sum, preset);
            assert_eq!(real_sum, &real);
            assert_eq!(package, "x");
        }
        _ => panic!("expected a checksum failure"),
    }
    // the failure is terminal: further events change nothing and ask for nothing
    let (state, action) = st.realize_step(&d, state, RealizeEvent::Committed {
        already_existed: false,
    });
    assert!(action.is_none());
    assert!(matches!(state, RealizeState::Failed { .. }));
}

#[test]
fn preset_sha512_is_replaced_by_canonical_hash() {
    let st = store();
    let sha512_hex = "dd00".to_string();
    let d = hashed("dd00");
    let (state, _) = st.realize_start(&d);
    let (state, _) = st.realize_step(&d, state, RealizeEvent::StoreChecked { present: false });
    let canonical = hash_stream(b"driver bytes");
    let (state, _) = st.realize_step(
        &d,
        state,
        RealizeEvent::Downloaded { sha256_nix: canonical.clone(), sha512_hex },
    );
    match &state {
        RealizeState::Committing { updated, .. } => {
            assert_eq!(updated.hash.as_deref(), Some(canonical.as_str()));
        }
        _ => panic!("expected the preset driver hash to verify and be replaced"),
    }
}

#[test]
fn extract_flow_unpacks_before_commit() {
    let st = store();
    let d = Derivation::new("http://h/x.zip", "x", "x.zip", true, None, None, vec![], vec![], "");
    let (state, _) = st.realize_start(&d);
    let h = hash_stream(b"zip bytes");
    let (state, action) = st.realize_step(
        &d,
        state,
        RealizeEvent::Downloaded { sha256_nix: h.clone(), sha512_hex: "x".to_string() },
    );
    assert!(matches!(state, RealizeState::Extracting { .. }));
    match action {
        Some(RealizeAction::Extract { archive, dest }) => {
            assert_eq!(archive, "/js/staging/x.zip");
            assert_eq!(dest, "/js/staging/x.zip.extracted");
        }
        _ => panic!("expected an extraction"),
    }
    let (state, action) = st.realize_step(&d, state, RealizeEvent::Extracted);
    match action {
        Some(RealizeAction::Commit { source, store_dir, artifact }) => {
            assert_eq!(source, "/js/staging/x.zip.extracted");
            assert_eq!(store_dir, format!("/js/store/{h}-x"));
            assert_eq!(artifact, format!("/js/store/{h}-x/artifact"));
        }
        _ => panic!("expected a commit"),
    }
    let (state, _) = st.realize_step(&d, state, RealizeEvent::Committed { already_existed: false });
    assert!(matches!(state, RealizeState::Done { .. }));
}

#[test]
fn losing_the_commit_race_counts_as_realized() {
    let st = store();
    let d = unhashed();
    let (state, _) = st.realize_start(&d);
    let h = hash_stream(b"bytes");
    let (state, _) = st.realize_step(
        &d,
        state,
        RealizeEvent::Downloaded { sha256_nix: h, sha512_hex: "x".to_string() },
    );
    let (state, _) = st.realize_step(&d, state, RealizeEvent::Committed { already_existed: true });
    assert!(matches!(state, RealizeState::Done { .. }));
}

#[test]
fn failed_commit_leaves_failure_and_retry_succeeds() {
    let st = store();
    let d = unhashed();
    let (state, _) = st.realize_start(&d);
    let h = hash_stream(b"bytes");
    let (state, _) = st.realize_step(
        &d,
        state,
        RealizeEvent::Downloaded { sha256_nix: h.clone(), sha512_hex: "x".to_string() },
    );
    let (state, _) = st.realize_step(&d, state, RealizeEvent::CommitFailed {
        message: "disk full".to_string(),
    });
    match &state {
        RealizeState::Failed { error: JadeError::IOError { package, io_error } } => {
            assert_eq!(package, "x");
            assert_eq!(io_error, "disk full");
        }
        _ => panic!("expected an io failure"),
    }
    // a fresh realization afterwards goes through untouched
    let (state, _) = st.realize_start(&d);
    let (state, _) = st.realize_step(
        &d,
        state,
        RealizeEvent::Downloaded { sha256_nix: h.clone(), sha512_hex: "x".to_string() },
    );
    let (state, _) = st.realize_step(&d, state, RealizeEvent::Committed { already_existed: false });
    match state {
        RealizeState::Done { path, .. } => assert_eq!(path.render(), format!("/js/store/{h}-x")),
        _ => panic!("expected the retry to succeed"),
    }
}

#[test]
fn download_failure_carries_url_and_code() {
    let st = store();
    let d = unhashed();
    let (state, _) = st.realize_start(&d);
    let (state, _) = st.realize_step(&d, state, RealizeEvent::DownloadFailed { return_code: 404 });
    match &state {
        RealizeState::Failed { error: JadeError::FailedDownload { url, return_code, package } } => {
            assert_eq!(url, "http://h/x.jar");
            assert_eq!(*return_code, 404);
            assert_eq!(package, "x");
        }
        _ => panic!("expected a download failure"),
    }
}

#[test]
fn out_of_order_event_fails() {
    let st = store();
    let d = unhashed();
    let (state, _) = st.realize_start(&d);
    let (state, action) = st.realize_step(&d, state, RealizeEvent::Extracted);
    assert!(action.is_none());
    match &state {
        RealizeState::Failed { error: JadeError::Error(m) } => {
            assert_eq!(m, "realization event out of order");
        }
        _ => panic!("expected an out-of-order failure"),
    }
}
