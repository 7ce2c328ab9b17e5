use intake_core::digest::{sha256_hex, ContentHasher};
use intake_core::error::IntakeError;
use intake_core::integrity::{manifest_to_pretty_json, parse_manifest, verify};
use intake_core::manifest::{build_manifest, manifest_label, Manifest};

fn pairs(v: &[(&str, &str)]) -> Vec<(String, String)> {
    v.iter().map(|(a, b)| (a.to_string(), b.to_string())).collect()
}

#[test]
fn manifest_then_verify_detects_tampering() {
    // manifest of two local files a.bin = "hello", b.bin = "world"
    let files = vec![
        ("a.bin".to_string(), sha256_hex(b"hello")),
        ("b.bin".to_string(), sha256_hex(b"world")),
    ];
    let manifest = build_manifest(&files);
    assert_eq!(manifest.len(), 2);

    // "downloaded" objects: same bytes, keys carry a data/ prefix + timestamp
    let downloaded = vec![
        ("data/1699999999-a.bin".to_string(), sha256_hex(b"hello")),
        ("data/1699999999-b.bin".to_string(), sha256_hex(b"world")),
    ];
    let ok = verify(&downloaded, &manifest);
    assert!(ok.is_ok(), "expected OK: {ok:?}");
    assert_eq!(ok.matched.len(), 2);

    // tamper a received object -> MISSING + UNEXPECTED
    let tampered = vec![
        ("data/1699999999-a.bin".to_string(), sha256_hex(b"hello")),
        ("data/1699999999-b.bin".to_string(), sha256_hex(b"tampered")),
    ];
    let bad = verify(&tampered, &manifest);
    assert!(!bad.is_ok());
    assert_eq!(bad.unexpected.len(), 1);
    assert_eq!(bad.missing.len(), 1);
}

#[test]
fn sha256_of_known_content() {
    assert_eq!(
        sha256_hex(b"hello"),
        "2cf24dba5fb0a30e26e83b2ac5b9e29e1b161e5c1fa7425e73043362938b9824"
    );
    assert_eq!(
        sha256_hex(b""),
        "e3b0c44298fc1c149afbf4c8996fb92427ae41e4649b934ca495991b7852b855"
    );
}

#[test]
fn hashing_in_chunks_equals_hashing_at_once() {
    let mut h = ContentHasher::new();
    h.update(b"hel");
    h.update(b"");
    h.update(b"lo");
    assert_eq!(h.finalize_hex(), sha256_hex(b"hello"));
}

#[test]
fn verify_reports_matched_labels_and_digests() {
    let m = build_manifest(&pairs(&[
        ("copy1.raw", "ABCDEF"),
        ("copy2.raw", "abcdef"),
        ("other.raw", "0123"),
    ]));
    let d = pairs(&[("data/1-x", "abcdef"), ("data/2-y", "FFFF")]);
    let r = verify(&d, &m);
    assert_eq!(r.matched, pairs(&[("data/1-x", "copy1.raw, copy2.raw")]));
    assert_eq!(r.unexpected, pairs(&[("data/2-y", "ffff")]));
    assert_eq!(r.missing, pairs(&[("other.raw", "0123")]));
    assert!(!r.is_ok());
}

#[test]
fn verify_is_case_insensitive_on_digests() {
    let m = build_manifest(&pairs(&[("a", "ABC123")]));
    let r = verify(&pairs(&[("k", "abc123")]), &m);
    assert!(r.is_ok());
    assert_eq!(r.matched, pairs(&[("k", "a")]));
}

#[test]
fn verify_of_nothing_against_empty_manifest_is_ok() {
    let m = Manifest::new();
    let r = verify(&[], &m);
    assert!(r.is_ok());
    assert!(r.matched.is_empty());
}

#[test]
fn verify_missing_only() {
    let m = build_manifest(&pairs(&[("a", "11"), ("b", "22")]));
    let r = verify(&pairs(&[("x", "22")]), &m);
    assert_eq!(r.missing, pairs(&[("a", "11")]));
    assert!(r.unexpected.is_empty());
    assert!(!r.is_ok());
}

#[test]
fn manifest_keeps_labels_sorted_and_last_digest_wins() {
    let m = build_manifest(&pairs(&[("b", "2"), ("a", "1"), ("c", "3"), ("b", "4")]));
    assert_eq!(m.len(), 3);
    assert_eq!(m.entries(), &pairs(&[("a", "1"), ("b", "4"), ("c", "3")]));
    assert_eq!(m.get("b"), Some("4".to_string()));
    assert_eq!(m.get("z"), None);
    assert!(!m.is_empty());
}

#[test]
fn manifest_orders_labels_by_code_point() {
    let mut m = Manifest::new();
    m.insert("é".to_string(), "1".to_string());
    m.insert("z".to_string(), "2".to_string());
    m.insert("Z".to_string(), "3".to_string());
    m.insert("dir/a".to_string(), "4".to_string());
    let labels: Vec<&str> = m.entries().iter().map(|e| e.0.as_str()).collect();
    assert_eq!(labels, vec!["Z", "dir/a", "z", "é"]);
}

#[test]
fn manifest_pretty_json_text() {
    let m = build_manifest(&pairs(&[("memory.img", "3ad0"), ("dump.raw", "9f2b")]));
    let json = manifest_to_pretty_json(&m).unwrap();
    assert_eq!(json, "{\n  \"dump.raw\": \"9f2b\",\n  \"memory.img\": \"3ad0\"\n}");
    assert_eq!(manifest_to_pretty_json(&Manifest::new()).unwrap(), "{}");
}

#[test]
fn manifest_pretty_json_escapes_labels() {
    let m = build_manifest(&pairs(&[("a\"b\\c", "00")]));
    let json = manifest_to_pretty_json(&m).unwrap();
    assert_eq!(json, "{\n  \"a\\\"b\\\\c\": \"00\"\n}");
}

#[test]
fn manifest_json_round_trip() {
    let m = build_manifest(&pairs(&[("b.bin", "22"), ("a.bin", "11")]));
    let json = manifest_to_pretty_json(&m).unwrap();
    let back = parse_manifest(json.as_bytes()).unwrap();
    assert_eq!(back.entries(), m.entries());
}

#[test]
fn manifest_parse_reads_object_of_strings() {
    let m = parse_manifest(br#"{ "dump.raw": "9F2B", "memory.img": "3ad0" }"#).unwrap();
    assert_eq!(m.entries(), &pairs(&[("dump.raw", "9F2B"), ("memory.img", "3ad0")]));
}

#[test]
fn manifest_parse_rejects_bad_json() {
    match parse_manifest(b"[1, 2]") {
        Err(IntakeError::Json(msg)) => assert!(!msg.is_empty()),
        other => panic!("expected a JSON error, got {other:?}", other = other.is_ok()),
    }
    assert!(parse_manifest(b"{\"a\": 1}").is_err());
    assert!(parse_manifest(b"not json").is_err());
}

#[test]
fn verify_ignores_object_keys() {
    let m = build_manifest(&pairs(&[("a.bin", "11"), ("b.bin", "22")]));
    let one = verify(&pairs(&[("data/1-a.bin", "11"), ("data/1-zzz", "33")]), &m);
    let two = verify(&pairs(&[("elsewhere", "11"), ("data/2-b.bin", "33")]), &m);
    assert_eq!(one.missing, two.missing);
    assert_eq!(one.matched.len(), two.matched.len());
    assert_eq!(one.unexpected.len(), two.unexpected.len());
    assert_eq!(one.is_ok(), two.is_ok());
    assert_eq!(two.matched, pairs(&[("elsewhere", "a.bin")]));
}

#[test]
fn verify_own_digests_pass() {
    let m = build_manifest(&pairs(&[("x", "ab"), ("y", "cd")]));
    let same: Vec<(String, String)> = m
        .entries()
        .iter()
        .map(|(l, h)| (format!("data/{l}"), h.clone()))
        .collect();
    assert!(verify(&same, &m).is_ok());
}

#[test]
fn default_report_is_ok() {
    let r = intake_core::integrity::VerifyReport::default();
    assert!(r.is_ok());
    assert!(r.matched.is_empty());
}

#[test]
fn written_manifest_reads_back_unchanged() {
    let m = build_manifest(&pairs(&[
        ("dir/é.bin", &sha256_hex(b"x")),
        ("a\"q\\uote\t.bin", &sha256_hex(b"y")),
        ("\u{1}ctl", &sha256_hex(b"")),
    ]));
    let json = manifest_to_pretty_json(&m).unwrap();
    let back = parse_manifest(json.as_bytes()).unwrap();
    assert_eq!(back.entries(), m.entries());
    assert!(json.contains("\\u0001ctl"));
    assert!(json.contains("a\\\"q\\\\uote\\t.bin"));
}

#[test]
fn digest_text_is_sixty_four_lowercase_hex_digits() {
    let h = sha256_hex(b"evidence");
    assert_eq!(h.len(), 64);
    assert!(h.chars().all(|c| c.is_ascii_digit() || ('a'..='f').contains(&c)));
}

#[test]
fn manifest_labels_follow_the_rule() {
    assert_eq!(manifest_label(None, Some("dump.raw"), "/evidence/dump.raw"), "dump.raw");
    assert_eq!(manifest_label(None, None, ".."), "..");
    assert_eq!(manifest_label(Some("sub\\a.bin"), Some("a.bin"), "d/sub/a.bin"), "sub/a.bin");
    assert_eq!(manifest_label(Some("sub/a.bin"), None, "x"), "sub/a.bin");
}
