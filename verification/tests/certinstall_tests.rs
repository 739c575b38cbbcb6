use anime_games_proxy::certinstall::{hex_pairs, wrap78, build_reg_script, utf16le_with_bom,
    prepare_registry_import, CertScriptError};
use anime_games_proxy::ca::generate_ca_material;

#[test]
fn hex_pairs_join_with_commas() {
    assert_eq!(hex_pairs(&vec![0xbe, 0xef, 0x01]), "be,ef,01");
    assert_eq!(hex_pairs(&vec![0x7f]), "7f");
    assert_eq!(hex_pairs(&Vec::new()), "");
}

#[test]
fn short_blobs_are_not_wrapped() {
    let s = "ab,cd";
    assert_eq!(wrap78(s), s);
    let exactly: String = "x".repeat(78);
    assert_eq!(wrap78(&exactly), exactly);
}

#[test]
fn long_blobs_wrap_at_78_with_continuations() {
    let s: String = "y".repeat(80);
    let expected = format!("{}\\\n  {}", "y".repeat(78), "y".repeat(2));
    assert_eq!(wrap78(&s), expected);
}

#[test]
fn registry_script_layout() {
    let script = build_reg_script("ABCD", "de,ad");
    let expected = "Windows Registry Editor Version 5.00\n\n[HKEY_CURRENT_USER\\Software\\Microsoft\\SystemCertificates\\My\\Certificates\\ABCD]\n\n\"Blob\"=hex:de,ad\n\n\n";
    assert_eq!(script, expected);
}

#[test]
fn utf16_encoding_prefixes_the_byte_order_mark() {
    assert_eq!(utf16le_with_bom("AB"), Some(vec![0xFF, 0xFE, 0x41, 0x00, 0x42, 0x00]));
    assert_eq!(utf16le_with_bom(""), Some(vec![0xFF, 0xFE]));
    assert_eq!(utf16le_with_bom("é"), None);
}

#[test]
fn real_certificate_yields_an_import_script() {
    let (_key, cert) = generate_ca_material().expect("generation");
    let (bytes, fingerprint) = prepare_registry_import(&cert).expect("script");
    assert_eq!(fingerprint.len(), 40);
    assert!(fingerprint.chars().all(|c| c.is_ascii_hexdigit() && !c.is_ascii_lowercase()));
    assert_eq!(&bytes[0..2], &[0xFF, 0xFE]);
    // Decode the UTF-16 text back and check the key line carries the fingerprint.
    let units: Vec<u16> = bytes[2..]
        .chunks(2)
        .map(|c| u16::from_le_bytes([c[0], c[1]]))
        .collect();
    let text = String::from_utf16(&units).expect("utf16");
    assert!(text.starts_with("Windows Registry Editor Version 5.00"));
    assert!(text.contains(&fingerprint));
    assert!(text.contains("\"Blob\"=hex:"));
}

#[test]
fn fingerprint_matches_an_independent_digest() {
    let (_key, cert) = generate_ca_material().expect("generation");
    let (_bytes, fingerprint) = prepare_registry_import(&cert).expect("script");
    let x509 = openssl::x509::X509::from_pem(&cert).expect("parse");
    let digest = x509.digest(openssl::hash::MessageDigest::sha1()).expect("digest");
    assert_eq!(fingerprint, hex::encode_upper(&digest));
}

#[test]
fn garbage_input_is_unparsable() {
    let garbage = b"definitely not a certificate".to_vec();
    assert!(matches!(
        prepare_registry_import(&garbage),
        Err(CertScriptError::Unparsable)
    ));
}
