use intake_core::case::{case_file_name, teardown_outcome, Case, CaseState};
use intake_core::config::Config;
use intake_core::error::IntakeError;
use intake_core::minio_iam::{
    mc_add_args, mc_rm_args, policy_file_name, scoped_upload_policy, MinioIam,
};
use intake_core::ops::{
    bucket_name, plan_case, rand_suffix, site_config_json, site_url, slug, suffix_from_bytes,
    CreateResult,
};

fn default_config() -> Config {
    Config::from_vars(None, None, None, None, None, None, None, None)
}

#[test]
fn config_defaults() {
    let c = default_config();
    assert_eq!(c.endpoint, "http://localhost:9000");
    assert_eq!(c.region, "us-east-1");
    assert_eq!(c.admin_access_key, "minioadmin");
    assert_eq!(c.admin_secret_key, "minioadmin");
    assert_eq!(c.mc_alias, "myminio");
    assert_eq!(c.mc_parent, "minioadmin");
    assert_eq!(c.site_dir, "./site");
    assert_eq!(c.cases_dir, "./cases");
}

#[test]
fn config_values_override_defaults() {
    let c = Config::from_vars(
        Some("https://s3.example".to_string()),
        Some("fr-par".to_string()),
        None,
        None,
        Some("prod".to_string()),
        None,
        None,
        Some("/var/cases".to_string()),
    );
    assert_eq!(c.endpoint, "https://s3.example");
    assert_eq!(c.region, "fr-par");
    assert_eq!(c.admin_access_key, "minioadmin");
    assert_eq!(c.mc_alias, "prod");
    assert_eq!(c.cases_dir, "/var/cases");
}

#[test]
fn slug_lowers_and_dashes() {
    assert_eq!(slug("e2e-0001"), "e2e-0001");
    assert_eq!(slug("ACME Corp/2026"), "acme-corp-2026");
    assert_eq!(slug("café_1"), "caf--1");
    assert_eq!(slug(""), "");
}

#[test]
fn bucket_name_of_case() {
    let b = bucket_name("e2e-0001", "2c2e6987");
    assert_eq!(b, "intake-e2e-0001-2c2e6987");
    assert!(b.starts_with("intake-e2e-0001-"));
    assert_eq!(bucket_name("Demo Case", "00ff"), "intake-demo-case-00ff");
}

#[test]
fn suffix_is_hex_of_bytes() {
    assert_eq!(suffix_from_bytes([0xde, 0xad, 0xbe, 0xef]), "deadbeef");
    assert_eq!(suffix_from_bytes([0, 1, 0x10, 0xff]), "000110ff");
}

#[test]
fn random_suffix_is_eight_hex_digits() {
    let s = rand_suffix().unwrap();
    assert_eq!(s.len(), 8);
    assert!(s.chars().all(|c| c.is_ascii_digit() || ('a'..='f').contains(&c)));
}

#[test]
fn site_url_is_path_style() {
    assert_eq!(
        site_url("http://localhost:9000", "intake-demo-2c2e6987"),
        "http://localhost:9000/intake-demo-2c2e6987/site/index.html"
    );
}

#[test]
fn site_config_is_compact_sorted_json() {
    let j = site_config_json("http://localhost:9000", "us-east-1", "intake-demo-2c2e6987");
    assert_eq!(
        j,
        "{\"dataBucket\":\"intake-demo-2c2e6987\",\"endpoint\":\"http://localhost:9000\",\"region\":\"us-east-1\",\"usePathStyle\":true}"
    );
    let v: serde_json::Value = serde_json::from_str(&j).unwrap();
    assert_eq!(v["dataBucket"], "intake-demo-2c2e6987");
    assert_eq!(v["usePathStyle"], true);
    assert_eq!(serde_json::to_string(&v).unwrap(), j);
}

#[test]
fn plan_of_a_case() {
    let cfg = default_config();
    let p = plan_case(&cfg, "demo", "2c2e6987");
    assert_eq!(p.bucket, "intake-demo-2c2e6987");
    assert_eq!(p.site_url, "http://localhost:9000/intake-demo-2c2e6987/site/index.html");
    assert_eq!(
        p.site_config,
        site_config_json("http://localhost:9000", "us-east-1", "intake-demo-2c2e6987")
    );
    assert_eq!(p.site_config_key, "site/config.json");
    assert_eq!(p.site_prefix, "site/");
    assert_eq!(p.upload_prefix, "data/");
    assert_eq!(p.cors_origin, "*");
    assert_eq!(
        p.public_policy,
        intake_core::s3_dataplane::public_read_policy("intake-demo-2c2e6987", "site/")
    );
    assert!(p.public_policy.contains("arn:aws:s3:::intake-demo-2c2e6987/site/*"));
    assert_eq!(p.upload_policy, scoped_upload_policy("intake-demo-2c2e6987", "data/"));
    assert!(p.upload_policy.contains("arn:aws:s3:::intake-demo-2c2e6987/data/*"));
}

#[test]
fn scoped_policy_is_write_only_under_prefix() {
    let p = scoped_upload_policy("intake-test-scoped-0001", "data/");
    let v: serde_json::Value = serde_json::from_str(&p).unwrap();
    assert_eq!(v["Version"], "2012-10-17");
    let st = &v["Statement"][0];
    assert_eq!(st["Effect"], "Allow");
    assert_eq!(
        st["Action"],
        serde_json::Value::Array(vec![
            "s3:PutObject".into(),
            "s3:AbortMultipartUpload".into(),
            "s3:ListMultipartUploadParts".into(),
        ])
    );
    assert_eq!(st["Resource"][0], "arn:aws:s3:::intake-test-scoped-0001/data/*");
    // same text as serde_json's pretty printer would write
    assert_eq!(serde_json::to_string_pretty(&v).unwrap(), p);
}

#[test]
fn mc_invocations() {
    assert_eq!(
        mc_add_args("/tmp/intake-pol-b.json", "myminio", "minioadmin"),
        vec![
            "--json", "admin", "user", "svcacct", "add", "--policy", "/tmp/intake-pol-b.json",
            "myminio", "minioadmin"
        ]
    );
    assert_eq!(
        mc_rm_args("myminio", "AKIAEXAMPLE"),
        vec!["admin", "user", "svcacct", "rm", "myminio", "AKIAEXAMPLE"]
    );
    assert_eq!(policy_file_name("intake-demo-1"), "intake-pol-intake-demo-1.json");
}

#[test]
fn minio_iam_from_config() {
    let iam = MinioIam::from_config(&default_config());
    assert_eq!(iam.alias, "myminio");
    assert_eq!(iam.parent, "minioadmin");
}

#[test]
fn case_lifecycle_states() {
    let c = Case::active(
        "acme-2026",
        "intake-acme-2026-abcd".to_string(),
        "AKIAEXAMPLE".to_string(),
        "http://localhost:9000/intake-acme-2026-abcd/site/index.html".to_string(),
    );
    assert!(c.is_active());
    assert!(matches!(c.state, CaseState::Active));
    let t = c.clone().torn_down();
    assert!(!t.is_active());
    assert_eq!(t.state, CaseState::TornDown);
    assert_eq!(t.id, "acme-2026");
    assert_eq!(t.bucket, c.bucket);
    assert_eq!(t.scoped_access_key, "AKIAEXAMPLE");
    let twice = t.clone().torn_down();
    assert_eq!(twice.state, CaseState::TornDown);
    assert_eq!(twice.site_url, t.site_url);
    let r = CreateResult { case: t, scoped_secret_key: "secret".to_string() };
    assert_eq!(r.scoped_secret_key, "secret");
}

#[test]
fn case_file_is_named_after_id() {
    assert_eq!(case_file_name("acme-2026"), "acme-2026.json");
}

#[test]
fn errors_describe_themselves() {
    assert_eq!(IntakeError::Rng.describe(), "random number generator failure");
    assert_eq!(IntakeError::Json("eof".to_string()).describe(), "eof");
}

#[test]
fn bucket_names_are_dns_compatible() {
    let s = rand_suffix().unwrap();
    let b = bucket_name("Case #42 (ACME)", &s);
    assert!(b.starts_with("intake-case--42--acme--"));
    assert!(b.chars().all(|c| c.is_ascii_lowercase() || c.is_ascii_digit() || c == '-'));
    assert_eq!(slug(&slug("Case #42")), slug("Case #42"));
}

#[test]
fn site_config_escapes_like_serde_json() {
    let j = site_config_json("http://h\u{1f}", "r\"\\\u{8}\u{c}\n\r\t", "b");
    assert_eq!(
        j,
        "{\"dataBucket\":\"b\",\"endpoint\":\"http://h\\u001f\",\"region\":\"r\\\"\\\\\\b\\f\\n\\r\\t\",\"usePathStyle\":true}"
    );
}

fn sample_case(key: &str) -> Case {
    Case::active(
        "acme",
        "intake-acme-00".to_string(),
        key.to_string(),
        "http://h/intake-acme-00/site/index.html".to_string(),
    )
}

#[test]
fn teardown_records_torn_down_once_bucket_is_gone() {
    let out = teardown_outcome(sample_case("AK"), true, true);
    let rec = out.record.unwrap();
    assert_eq!(rec.state, CaseState::TornDown);
    assert_eq!(rec.bucket, "intake-acme-00");
    assert!(out.error.is_none());
    assert!(out.warning.is_none());
}

#[test]
fn teardown_tolerates_a_key_already_gone() {
    let out = teardown_outcome(sample_case("AK"), false, true);
    assert_eq!(out.record.unwrap().state, CaseState::TornDown);
    assert!(out.error.is_none());
    assert_eq!(out.warning.unwrap(), "scoped key AK could not be revoked (already removed?)");
}

#[test]
fn teardown_keeps_case_active_when_bucket_remains() {
    let out = teardown_outcome(sample_case("AK"), true, false);
    assert!(out.record.is_none());
    assert_eq!(
        out.error.unwrap(),
        "bucket intake-acme-00 could not be deleted; the case stays active: run teardown-case again"
    );
}

#[test]
fn pending_case_has_no_key() {
    assert!(!sample_case("").has_scoped_key());
    assert!(sample_case("AK").has_scoped_key());
}
