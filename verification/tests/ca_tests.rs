use anime_games_proxy::ca::{generate_ca_material, material_ok, ca_load_step, CaLoadOutcome,
    CertificateAuthority, IssueError};

#[test]
fn generated_material_is_loadable() {
    let (key, cert) = generate_ca_material().expect("generation");
    assert!(material_ok(&key, &cert));
}

#[test]
fn generated_root_is_self_consistent() {
    let (_key, cert) = generate_ca_material().expect("generation");
    let x509 = openssl::x509::X509::from_pem(&cert).expect("parse");
    let public_key = x509.public_key().expect("public key");
    assert!(x509.verify(&public_key).expect("verify"));
}

#[test]
fn loader_reaches_ready_on_good_material() {
    let (key, cert) = generate_ca_material().expect("generation");
    match ca_load_step(false, Some(key), Some(cert), 1000) {
        CaLoadOutcome::Ready(_) => {}
        _ => panic!("expected the authority to come up"),
    }
}

#[test]
fn loader_regenerates_on_missing_files_then_fails_only_after_retry() {
    assert!(matches!(ca_load_step(false, None, None, 1000), CaLoadOutcome::Regenerate));
    assert!(matches!(ca_load_step(true, None, None, 1000), CaLoadOutcome::Fatal));
}

#[test]
fn loader_regenerates_on_garbage_material() {
    let garbage = b"not a pem at all".to_vec();
    assert!(!material_ok(&garbage, &garbage));
    assert!(matches!(
        ca_load_step(false, Some(garbage.clone()), Some(garbage), 1000),
        CaLoadOutcome::Regenerate
    ));
}

#[test]
fn leaves_are_bound_to_their_hosts() {
    let (key, cert) = generate_ca_material().expect("generation");
    let mut ca = CertificateAuthority::new(key, cert, 1000);
    let hosts = [
        "a.example.net",
        "b.example.net",
        "c.example.net",
        "d.example.net",
        "e.example.net",
    ];
    for host in hosts {
        let leaf = ca.issue_leaf(host).expect("issuance");
        assert_eq!(leaf.host, host);
        let x509 = openssl::x509::X509::from_pem(leaf.cert_pem.as_bytes()).expect("leaf parse");
        let cn_entry = x509
            .subject_name()
            .entries_by_nid(openssl::nid::Nid::COMMONNAME)
            .next()
            .expect("common name");
        let cn = String::from_utf8_lossy(cn_entry.data().as_slice()).to_string();
        assert_eq!(cn, host);
    }
}

#[test]
fn issuance_cap_degrades_gracefully() {
    let (key, cert) = generate_ca_material().expect("generation");
    let mut ca = CertificateAuthority::new(key, cert, 2);
    assert!(ca.issue_leaf("one.example.net").is_ok());
    assert!(ca.issue_leaf("two.example.net").is_ok());
    assert!(matches!(
        ca.issue_leaf("three.example.net"),
        Err(IssueError::Exhausted)
    ));
    // The authority keeps running: the refusal repeats, it does not crash.
    assert!(matches!(
        ca.issue_leaf("four.example.net"),
        Err(IssueError::Exhausted)
    ));
}

#[test]
fn zero_cap_refuses_immediately() {
    let (key, cert) = generate_ca_material().expect("generation");
    let mut ca = CertificateAuthority::new(key, cert, 0);
    assert!(matches!(ca.issue_leaf("x.example.net"), Err(IssueError::Exhausted)));
}
