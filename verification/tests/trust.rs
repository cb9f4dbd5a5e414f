use yzendris::config::{format_trusted_peers, parse_trusted_peers};
use yzendris::fingerprint::{fingerprint, fingerprint_text, load_trusted, read_fingerprint, FingerprintVerifier};

const ABC_SHA256: &str = "sha256:ba:78:16:bf:8f:01:cf:ea:41:41:40:de:5d:ae:22:23:b0:03:61:a3:96:17:7a:9c:b4:10:ff:61:f2:00:15:ad";

#[test]
fn fingerprints_are_colon_separated_hex_pairs() {
    assert_eq!(fingerprint_text(&[0x00, 0xff, 0x0a]), "sha256:00:ff:0a");
    assert_eq!(fingerprint_text(&[]), "sha256:");
    assert_eq!(fingerprint(b"abc"), ABC_SHA256);
    assert_eq!(fingerprint(b"abc").len(), 102);
    assert_ne!(fingerprint(b"abc"), fingerprint(b"abd"));
}

#[test]
fn the_verifier_accepts_exactly_the_trusted_fingerprints() {
    let v = FingerprintVerifier::new(vec!["sha256:00".into(), ABC_SHA256.into()]);
    assert!(v.is_trusted(b"abc"));
    assert!(v.verify_server_cert(b"abc").is_ok());
    assert!(!v.is_trusted(b"abd"));
    let err = v.verify_server_cert(b"abd").unwrap_err();
    assert_eq!(err, format!("untrusted server fingerprint: {}", fingerprint(b"abd")));
    let empty = FingerprintVerifier::new(Vec::new());
    assert!(!empty.is_trusted(b"abc"));
}

#[test]
fn trusted_peer_files_skip_comments_and_blanks() {
    let text = "# peers\n  sha256:aa  \n\n#sha256:bb\r\nsha256:cc";
    assert_eq!(load_trusted(Some(text)), vec!["sha256:aa", "sha256:cc"]);
    assert!(load_trusted(None).is_empty());
    assert_eq!(parse_trusted_peers(text), vec!["sha256:aa", "sha256:cc"]);
    let saved = format_trusted_peers(&["a".to_string(), "b".to_string()]);
    assert_eq!(saved, "a\nb\n");
    assert_eq!(format_trusted_peers(&[]), "");
    assert_eq!(parse_trusted_peers(&saved), vec!["a", "b"]);
}

#[test]
fn the_certificate_fingerprint_is_read_from_pem() {
    // The DER bytes 61 62 63 ("abc") wrapped as a PEM certificate.
    let pem = b"-----BEGIN CERTIFICATE-----\nYWJj\n-----END CERTIFICATE-----\n";
    assert_eq!(read_fingerprint(pem), Some(ABC_SHA256.to_string()));
    assert_eq!(read_fingerprint(b"no certificate here"), None);
}
