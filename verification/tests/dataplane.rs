use intake_core::display::short;
use intake_core::s3_dataplane::{
    content_type_for, cors_error_tolerated, cors_rule, download_step, normalize_path, object_arn,
    public_read_policy, purge_step, site_object_key, ListingNext, ObjectListingPage, PurgeNext,
    VersionListingPage, DATA_PREFIX, SITE_CONFIG_KEY, SITE_PREFIX,
};
use intake_core::text::{str_equals, str_lt};

fn s(x: &str) -> Option<String> {
    Some(x.to_string())
}

#[test]
fn layout_prefixes() {
    assert_eq!(SITE_PREFIX, "site/");
    assert_eq!(DATA_PREFIX, "data/");
    assert_eq!(SITE_CONFIG_KEY, "site/config.json");
    assert!(SITE_CONFIG_KEY.starts_with(SITE_PREFIX));
}

#[test]
fn public_policy_covers_only_the_prefix() {
    assert_eq!(object_arn("b", "site/"), "arn:aws:s3:::b/site/*");
    let p = public_read_policy("intake-test-site-0001", "site/");
    assert_eq!(
        p,
        "{\"Statement\":[{\"Action\":[\"s3:GetObject\"],\"Effect\":\"Allow\",\"Principal\":{\"AWS\":[\"*\"]},\"Resource\":[\"arn:aws:s3:::intake-test-site-0001/site/*\"]}],\"Version\":\"2012-10-17\"}"
    );
    let v: serde_json::Value = serde_json::from_str(&p).unwrap();
    assert_eq!(serde_json::to_string(&v).unwrap(), p);
}

#[test]
fn content_types_by_extension() {
    assert_eq!(content_type_for(Some("html")), "text/html; charset=utf-8");
    assert_eq!(content_type_for(Some("js")), "application/javascript");
    assert_eq!(content_type_for(Some("css")), "text/css");
    assert_eq!(content_type_for(Some("json")), "application/json");
    assert_eq!(content_type_for(Some("svg")), "image/svg+xml");
    assert_eq!(content_type_for(Some("HTML")), "application/octet-stream");
    assert_eq!(content_type_for(Some("png")), "application/octet-stream");
    assert_eq!(content_type_for(None), "application/octet-stream");
}

#[test]
fn site_keys_use_forward_slashes() {
    assert_eq!(normalize_path("css\\main.css"), "css/main.css");
    assert_eq!(site_object_key("site/", "index.html"), "site/index.html");
    assert_eq!(site_object_key("site/", "js\\upload.js"), "site/js/upload.js");
}

#[test]
fn cors_rule_for_uploads() {
    let r = cors_rule("*");
    assert_eq!(r.allowed_methods, vec!["PUT", "POST", "GET", "HEAD"]);
    assert_eq!(r.allowed_origins, vec!["*"]);
    assert_eq!(r.allowed_headers, vec!["*"]);
    assert_eq!(r.expose_headers, vec!["ETag"]);
    assert_eq!(r.max_age_seconds, 3000);
    assert!(cors_error_tolerated(Some("NotImplemented")));
    assert!(!cors_error_tolerated(Some("AccessDenied")));
    assert!(!cors_error_tolerated(None));
}

#[test]
fn download_listing_pages() {
    let page = ObjectListingPage {
        keys: vec![s("data/a.bin"), None, s("data/b.bin")],
        is_truncated: Some(true),
        next_continuation_token: s("tok"),
    };
    let (keys, next) = download_step(&page);
    assert_eq!(keys, vec!["data/a.bin", "data/b.bin"]);
    assert!(matches!(next, ListingNext::Continue(Some(ref t)) if t == "tok"));

    let last = ObjectListingPage { keys: vec![], is_truncated: None, next_continuation_token: s("x") };
    let (keys, next) = download_step(&last);
    assert!(keys.is_empty());
    assert!(matches!(next, ListingNext::Done));
}

#[test]
fn purge_listing_pages() {
    let page = VersionListingPage {
        versions: vec![(s("obj.txt"), s("v2")), (s("obj.txt"), None), (s("obj.txt"), s("v1"))],
        delete_markers: vec![(s("gone.txt"), s("m1")), (None, s("m2"))],
        is_truncated: Some(false),
        next_key_marker: s("k"),
        next_version_id_marker: None,
    };
    let (dels, next) = purge_step(&page);
    let expect: Vec<(String, String)> = vec![
        ("obj.txt".into(), "v2".into()),
        ("obj.txt".into(), "v1".into()),
        ("gone.txt".into(), "m1".into()),
    ];
    assert_eq!(dels, expect);
    assert!(matches!(next, PurgeNext::Done));

    let more = VersionListingPage {
        versions: vec![],
        delete_markers: vec![],
        is_truncated: Some(true),
        next_key_marker: s("k"),
        next_version_id_marker: s("v"),
    };
    let (dels, next) = purge_step(&more);
    assert!(dels.is_empty());
    match next {
        PurgeNext::Continue { key_marker, version_id_marker } => {
            assert_eq!(key_marker, s("k"));
            assert_eq!(version_id_marker, s("v"));
        }
        PurgeNext::Done => panic!("expected another page"),
    }
}

#[test]
fn short_digest_for_reports() {
    assert_eq!(short("2cf24dba5fb0a30e26e83b2ac5b9e29e"), "2cf24dba5fb0");
    assert_eq!(short("abc"), "abc");
    assert_eq!(short(""), "");
}

#[test]
fn text_comparisons() {
    assert!(str_equals("abc", "abc"));
    assert!(!str_equals("abc", "abd"));
    assert!(str_lt("a", "b"));
    assert!(str_lt("ab", "abc"));
    assert!(!str_lt("abc", "ab"));
    assert!(!str_lt("x", "x"));
    assert!(str_lt("", "a"));
}

#[test]
fn site_and_data_prefixes_never_overlap() {
    for key in ["data/site/x", "data/", "site/data/x", "site/index.html"] {
        assert!(!(key.starts_with(SITE_PREFIX) && key.starts_with(DATA_PREFIX)));
    }
}
