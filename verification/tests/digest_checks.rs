use lynara::digest::{digest_matches, sha1_matches, StreamDigest};
use lynara::minecraft::downloader::{check_digest, verify_download};
use lynara::minecraft::McError;

const ABC_SHA1: &str = "a9993e364706816aba3e25717850c26c9cd0d89d";

#[test]
fn sha1_of_known_text() {
    assert!(sha1_matches(b"abc", ABC_SHA1));
    assert!(!sha1_matches(b"abd", ABC_SHA1));
}

#[test]
fn sha1_accepts_upper_case_digest() {
    assert!(sha1_matches(b"abc", &ABC_SHA1.to_uppercase()));
}

#[test]
fn digest_matches_compares_hex_text() {
    assert!(digest_matches(&[0x01, 0xab, 0xff], "01abff"));
    assert!(digest_matches(&[0x01, 0xab, 0xff], "01ABFF"));
    assert!(!digest_matches(&[0x01, 0xab, 0xff], "01abfe"));
    assert!(!digest_matches(&[0x01], "1"));
}

#[test]
fn verify_download_without_expected_digest() {
    assert!(check_digest("http://x", &[1, 2], None).is_ok());
}

#[test]
fn verify_download_mismatch_message() {
    match check_digest("http://x/f", &[0xde, 0xad], Some("beef")) {
        Err(McError::Custom(m)) => {
            assert_eq!(m, "SHA-1 mismatch for http://x/f: expected beef, got dead")
        }
        other => panic!("unexpected {:?}", other),
    }
    assert!(check_digest("http://x/f", &[0xde, 0xad], Some("DEAD")).is_ok());
}

#[test]
fn error_messages() {
    assert_eq!(McError::Network("dns".to_string()).message(), "Erreur réseau: dns");
    assert_eq!(McError::Json("eof".to_string()).message(), "Erreur JSON: eof");
    assert_eq!(McError::Io("denied".to_string()).message(), "Erreur fichier: denied");
    assert_eq!(McError::VersionNotFound("9.9".to_string()).message(), "Version introuvable: 9.9");
    assert_eq!(
        McError::JavaVersionMismatch { required: 21, found: 17 }.message(),
        "Java incompatible: requiert 21, trouvé 17"
    );
    assert_eq!(McError::JavaNotFound.message(), "Java introuvable");
    assert_eq!(McError::Custom("x".to_string()).message(), "Erreur: x");
}

#[test]
fn streamed_digest_is_checked() {
    let mut d = StreamDigest::new();
    d.update(b"a");
    d.update(b"bc");
    assert!(verify_download("http://x/abc", d, Some(ABC_SHA1)).is_ok());
    let mut d = StreamDigest::new();
    d.update(b"ab");
    match verify_download("http://x/ab", d, Some(ABC_SHA1)) {
        Err(McError::Custom(m)) => assert!(m.starts_with("SHA-1 mismatch for http://x/ab: expected a9993e")),
        other => panic!("unexpected {:?}", other),
    }
    let mut d = StreamDigest::new();
    d.update(b"abc");
    assert_eq!(d.finish().len(), 20);
}
