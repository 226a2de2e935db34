use zeckit::backend::{detect_backend, parse_backend, BackendError, BackendKind};

#[test]
fn zaino_container_selects_zaino_endpoint() {
    let k = detect_backend("devnet-zaino\n").unwrap();
    assert_eq!(k, BackendKind::Zaino);
    assert_eq!(k.uri(), "http://zaino:9067");
}

#[test]
fn no_matching_container_is_an_error() {
    assert_eq!(detect_backend(""), Err(BackendError::NoBackendDetected));
    assert_eq!(detect_backend("zeckit-zebra\nzeckit-faucet\n"), Err(BackendError::NoBackendDetected));
}

#[test]
fn lightwalletd_container_selected_when_no_zaino() {
    let k = detect_backend("zeckit-zebra\nzeckit-lightwalletd\n").unwrap();
    assert_eq!(k, BackendKind::Lightwalletd);
    assert_eq!(k.uri(), "http://lightwalletd:9067");
}

#[test]
fn zaino_wins_when_both_run() {
    assert_eq!(detect_backend("zeckit-lightwalletd\nzeckit-zaino\n"), Ok(BackendKind::Zaino));
}

#[test]
fn backend_flags() {
    assert_eq!(parse_backend("lwd"), Ok(BackendKind::Lightwalletd));
    assert_eq!(parse_backend("zaino"), Ok(BackendKind::Zaino));
    assert_eq!(parse_backend("none"), Ok(BackendKind::NoBackend));
    assert_eq!(parse_backend("zebra"), Err(BackendError::InvalidBackend("zebra".to_string())));
}

#[test]
fn backend_profiles_and_requests() {
    assert_eq!(BackendKind::NoBackend.profile(), None);
    assert_eq!(BackendKind::Zaino.profile(), Some("zaino"));
    assert_eq!(BackendKind::Lightwalletd.profile(), Some("lwd"));
    assert!(!BackendKind::NoBackend.requested());
    assert!(BackendKind::Zaino.requested());
    assert_eq!(BackendKind::NoBackend.uri(), "http://lightwalletd:9067");
}
