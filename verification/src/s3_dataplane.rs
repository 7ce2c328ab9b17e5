//! Decisions of the S3 data plane: the bucket layout (public `site/`,
//! private `data/`), the bucket policy that publishes the site, the CORS
//! rule, object keys and content types of the deployed site, and how the
//! paginated listings are walked when downloading or purging a bucket.
use vstd::prelude::*;
use crate::text::{json_quote, json_quoted, owned, push_char, starts_with, str_equals};

verus! {

/// Prefix of the upload site's objects: readable by anyone.
pub const SITE_PREFIX: &'static str = "site/";
/// Prefix of the uploaded evidence: private, written only by the case's
/// scoped key.
pub const DATA_PREFIX: &'static str = "data/";
/// Key of the site's non-secret configuration.
pub const SITE_CONFIG_KEY: &'static str = "site/config.json";
/// Content type of the site's configuration.
pub const JSON_CONTENT_TYPE: &'static str = "application/json";
/// Origin allowed by the data bucket's CORS rule.
pub const CORS_ALLOWED_ORIGIN: &'static str = "*";

/// Law: no key lies under both prefixes, so the public `site/` policy never
/// covers an uploaded `data/` object, and the scoped key, limited to
/// `data/`, can never overwrite the site.
pub proof fn lemma_site_and_data_disjoint(key: Seq<char>)
    ensures
        !(starts_with(key, SITE_PREFIX@) && starts_with(key, DATA_PREFIX@)),
{
    reveal_strlit("site/");
    reveal_strlit("data/");
    if starts_with(key, SITE_PREFIX@) && starts_with(key, DATA_PREFIX@) {
        assert(key[0] == SITE_PREFIX@[0]);
        assert(key[0] == DATA_PREFIX@[0]);
    }
}

/// The ARN covering the objects of `bucket` whose key starts with `prefix`.
pub open spec fn object_arn_spec(bucket: Seq<char>, prefix: Seq<char>) -> Seq<char> {
    "arn:aws:s3:::"@ + bucket + "/"@ + prefix + "*"@
}

/// The ARN covering the objects of `bucket` whose key starts with `prefix`.
pub fn object_arn(bucket: &str, prefix: &str) -> (r: String)
    ensures
        r@ == object_arn_spec(bucket@, prefix@),
{
    let mut r = owned("arn:aws:s3:::");
    r.append(bucket);
    r.append("/");
    r.append(prefix);
    r.append("*");
    r
}

/// The bucket policy (compact JSON, keys in serde_json's sorted order)
/// letting anyone read the objects under `prefix`, and nothing else.
pub open spec fn public_read_policy_spec(bucket: Seq<char>, prefix: Seq<char>) -> Seq<char> {
    "{\"Statement\":[{\"Action\":[\"s3:GetObject\"],\"Effect\":\"Allow\",\"Principal\":{\"AWS\":[\"*\"]},\"Resource\":["@
        + json_quote(object_arn_spec(bucket, prefix)) + "]}],\"Version\":\"2012-10-17\"}"@
}

/// The bucket policy making **only** the objects under `prefix` (such as
/// `site/`) publicly readable; other prefixes (such as `data/`) stay private.
pub fn public_read_policy(bucket: &str, prefix: &str) -> (r: String)
    ensures
        r@ == public_read_policy_spec(bucket@, prefix@),
{
    let arn = object_arn(bucket, prefix);
    let mut r = owned(
        "{\"Statement\":[{\"Action\":[\"s3:GetObject\"],\"Effect\":\"Allow\",\"Principal\":{\"AWS\":[\"*\"]},\"Resource\":[",
    );
    r.append(json_quoted(arn.as_str()).as_str());
    r.append("]}],\"Version\":\"2012-10-17\"}");
    r
}

/// The content type served for a site file with extension `ext`.
pub open spec fn content_type_spec(ext: Option<Seq<char>>) -> Seq<char> {
    match ext {
        Some(e) => if e == "html"@ {
            "text/html; charset=utf-8"@
        } else if e == "js"@ {
            "application/javascript"@
        } else if e == "css"@ {
            "text/css"@
        } else if e == "json"@ {
            "application/json"@
        } else if e == "svg"@ {
            "image/svg+xml"@
        } else {
            "application/octet-stream"@
        },
        None => "application/octet-stream"@,
    }
}

/// The content type served for a site file, from its extension.
pub fn content_type_for(ext: Option<&str>) -> (r: &'static str)
    ensures
        r@ == content_type_spec(
            match ext {
                Some(e) => Some(e@),
                None => None,
            },
        ),
{
    match ext {
        Some(e) => {
            if str_equals(e, "html") {
                "text/html; charset=utf-8"
            } else if str_equals(e, "js") {
                "application/javascript"
            } else if str_equals(e, "css") {
                "text/css"
            } else if str_equals(e, "json") {
                "application/json"
            } else if str_equals(e, "svg") {
                "image/svg+xml"
            } else {
                "application/octet-stream"
            }
        },
        None => "application/octet-stream",
    }
}

/// A relative path with every `\` turned into `/`.
pub open spec fn slash_path(s: Seq<char>) -> Seq<char> {
    s.map_values(|c: char| if c == '\\' { '/' } else { c })
}

/// A relative path with every `\` turned into `/`, as object keys and
/// manifest labels write it.
pub fn normalize_path(rel: &str) -> (r: String)
    ensures
        r@ == slash_path(rel@),
{
    let cs = crate::text::chars_of(rel);
    let mut r = String::new();
    let n = cs.len();
    let mut i: usize = 0;
    while i < n
        invariant
            n == cs@.len(),
            cs@ == rel@,
            i <= n,
            r@ == slash_path(rel@.take(i as int)),
        decreases n - i,
    {
        let c = cs[i];
        if c == '\\' {
            push_char(&mut r, '/');
        } else {
            push_char(&mut r, c);
        }
        assert(slash_path(rel@.take(i + 1)) =~= slash_path(rel@.take(i as int)).push(
            if c == '\\' { '/' } else { c },
        ));
        i = i + 1;
    }
    assert(rel@.take(n as int) =~= rel@);
    r
}

/// Key of a deployed site file: the key prefix, then its path relative to
/// the site directory with `/` separators.
pub fn site_object_key(key_prefix: &str, rel: &str) -> (r: String)
    ensures
        r@ == key_prefix@ + slash_path(rel@),
{
    let mut r = owned(key_prefix);
    let p = normalize_path(rel);
    r.append(p.as_str());
    r
}

/// The CORS rule set on the data bucket.
#[derive(Debug)]
pub struct CorsRulePlan {
    pub allowed_methods: Vec<String>,
    pub allowed_origins: Vec<String>,
    pub allowed_headers: Vec<String>,
    pub expose_headers: Vec<String>,
    pub max_age_seconds: i32,
}

/// The CORS rule for `origin`: PUT, POST, GET and HEAD from that origin,
/// any request header, `ETag` exposed (multipart uploads need it), and
/// preflight answers cached for 3000 seconds.
pub fn cors_rule(origin: &str) -> (r: CorsRulePlan)
    ensures
        r.allowed_methods@.map_values(|s: String| s@) == seq!["PUT"@, "POST"@, "GET"@, "HEAD"@],
        r.allowed_origins@.map_values(|s: String| s@) == seq![origin@],
        r.allowed_headers@.map_values(|s: String| s@) == seq!["*"@],
        r.expose_headers@.map_values(|s: String| s@) == seq!["ETag"@],
        r.max_age_seconds == 3000,
{
    let mut methods: Vec<String> = Vec::new();
    methods.push(owned("PUT"));
    methods.push(owned("POST"));
    methods.push(owned("GET"));
    methods.push(owned("HEAD"));
    let mut origins: Vec<String> = Vec::new();
    origins.push(owned(origin));
    let mut headers: Vec<String> = Vec::new();
    headers.push(owned("*"));
    let mut expose: Vec<String> = Vec::new();
    expose.push(owned("ETag"));
    let r = CorsRulePlan {
        allowed_methods: methods,
        allowed_origins: origins,
        allowed_headers: headers,
        expose_headers: expose,
        max_age_seconds: 3000,
    };
    assert(r.allowed_methods@.map_values(|s: String| s@) =~= seq![
        "PUT"@,
        "POST"@,
        "GET"@,
        "HEAD"@,
    ]);
    assert(r.allowed_origins@.map_values(|s: String| s@) =~= seq![origin@]);
    assert(r.allowed_headers@.map_values(|s: String| s@) =~= seq!["*"@]);
    assert(r.expose_headers@.map_values(|s: String| s@) =~= seq!["ETag"@]);
    r
}

/// Whether a failure to set CORS is accepted: only when the server answers
/// `NotImplemented` (MinIO does), since the site is then served from the
/// same origin and needs no CORS.
pub fn cors_error_tolerated(code: Option<&str>) -> (r: bool)
    ensures
        r == (match code {
            Some(c) => c@ == "NotImplemented"@,
            None => false,
        }),
{
    match code {
        Some(c) => str_equals(c, "NotImplemented"),
        None => false,
    }
}

// ---------------------------------------------------------------------------
// Walking paginated listings
// ---------------------------------------------------------------------------

/// An optional string seen as text.
pub open spec fn opt_view(o: Option<String>) -> Option<Seq<char>> {
    match o {
        Some(s) => Some(s@),
        None => None,
    }
}

/// The present values, in order.
pub open spec fn present(s: Seq<Option<String>>) -> Seq<Seq<char>>
    decreases s.len(),
{
    if s.len() == 0 {
        Seq::<Seq<char>>::empty()
    } else {
        let prev = present(s.drop_last());
        match s.last() {
            Some(k) => prev.push(k@),
            None => prev,
        }
    }
}

/// The pairs whose two halves are both present, in order.
pub open spec fn present_pairs(s: Seq<(Option<String>, Option<String>)>) -> Seq<
    (Seq<char>, Seq<char>),
>
    decreases s.len(),
{
    if s.len() == 0 {
        Seq::<(Seq<char>, Seq<char>)>::empty()
    } else {
        let prev = present_pairs(s.drop_last());
        match s.last() {
            (Some(k), Some(v)) => prev.push((k@, v@)),
            _ => prev,
        }
    }
}

/// One page of an object listing (`ListObjectsV2`).
pub struct ObjectListingPage {
    /// Key of each listed object (the service may omit one).
    pub keys: Vec<Option<String>>,
    pub is_truncated: Option<bool>,
    pub next_continuation_token: Option<String>,
}

/// What to do after a listing page.
#[derive(Debug)]
pub enum ListingNext {
    /// Ask for the next page, with this continuation token if any.
    Continue(Option<String>),
    /// The listing is complete.
    Done,
}

/// The objects of a page to download (those with a key, in order), and
/// whether to ask for another page: only when the page says it is truncated,
/// then with the token it gave.
pub fn download_step(page: &ObjectListingPage) -> (r: (Vec<String>, ListingNext))
    ensures
        r.0@.map_values(|s: String| s@) == present(page.keys@),
        match r.1 {
            ListingNext::Continue(t) => page.is_truncated == Some(true) && opt_view(t) == opt_view(
                page.next_continuation_token,
            ),
            ListingNext::Done => page.is_truncated != Some(true),
        },
{
    let mut keys: Vec<String> = Vec::new();
    let n = page.keys.len();
    let mut i: usize = 0;
    while i < n
        invariant
            n == page.keys@.len(),
            i <= n,
            keys@.map_values(|s: String| s@) == present(page.keys@.take(i as int)),
        decreases n - i,
    {
        proof {
            let t = page.keys@.take(i + 1);
            assert(t.drop_last() =~= page.keys@.take(i as int));
        }
        match &page.keys[i] {
            Some(k) => {
                keys.push(k.clone());
                assert(keys@.map_values(|s: String| s@) =~= present(page.keys@.take(i as int)).push(
                    k@,
                ));
            },
            None => {},
        }
        i = i + 1;
    }
    assert(page.keys@.take(n as int) =~= page.keys@);
    let next = match page.is_truncated {
        Some(true) => ListingNext::Continue(
            match &page.next_continuation_token {
                Some(t) => Some(t.clone()),
                None => None,
            },
        ),
        _ => ListingNext::Done,
    };
    (keys, next)
}

/// One page of a version listing (`ListObjectVersions`).
pub struct VersionListingPage {
    /// (key, version id) of each object version.
    pub versions: Vec<(Option<String>, Option<String>)>,
    /// (key, version id) of each delete marker.
    pub delete_markers: Vec<(Option<String>, Option<String>)>,
    pub is_truncated: Option<bool>,
    pub next_key_marker: Option<String>,
    pub next_version_id_marker: Option<String>,
}

/// What to do after a version listing page.
#[derive(Debug)]
pub enum PurgeNext {
    /// Ask for the next page from these markers.
    Continue { key_marker: Option<String>, version_id_marker: Option<String> },
    /// Every version has been listed.
    Done,
}

fn collect_present_pairs(s: &Vec<(Option<String>, Option<String>)>, out: &mut Vec<(String, String)>)
    ensures
        final(out)@.map_values(|p: (String, String)| (p.0@, p.1@)) == old(out)@.map_values(
            |p: (String, String)| (p.0@, p.1@),
        ) + present_pairs(s@),
{
    let ghost start = out@.map_values(|p: (String, String)| (p.0@, p.1@));
    let n = s.len();
    let mut i: usize = 0;
    assert(start + present_pairs(s@.take(0)) =~= start);
    while i < n
        invariant
            n == s@.len(),
            i <= n,
            out@.map_values(|p: (String, String)| (p.0@, p.1@)) == start + present_pairs(
                s@.take(i as int),
            ),
        decreases n - i,
    {
        proof {
            let t = s@.take(i + 1);
            assert(t.drop_last() =~= s@.take(i as int));
        }
        match &s[i] {
            (Some(k), Some(v)) => {
                let ghost before = out@;
                out.push((k.clone(), v.clone()));
                assert(out@.map_values(|p: (String, String)| (p.0@, p.1@)) =~= before.map_values(
                    |p: (String, String)| (p.0@, p.1@),
                ).push((k@, v@)));
                assert(s@.take(i + 1).last() == s@[i as int]);
                assert(present_pairs(s@.take(i + 1)) == present_pairs(s@.take(i as int)).push(
                    (k@, v@),
                ));
                assert(out@.map_values(|p: (String, String)| (p.0@, p.1@)) =~= start
                    + present_pairs(s@.take(i + 1)));
            },
            _ => {},
        }
        i = i + 1;
    }
    assert(s@.take(n as int) =~= s@);
}

/// The object versions of a page to delete before the bucket can go: every
/// version, then every delete marker, that has both a key and a version id,
/// in listing order; and whether to ask for another page: only when the page
/// says it is truncated, then from the markers it gave.
pub fn purge_step(page: &VersionListingPage) -> (r: (Vec<(String, String)>, PurgeNext))
    ensures
        r.0@.map_values(|p: (String, String)| (p.0@, p.1@)) == present_pairs(page.versions@)
            + present_pairs(page.delete_markers@),
        match r.1 {
            PurgeNext::Continue { key_marker, version_id_marker } => page.is_truncated == Some(
                true,
            ) && opt_view(key_marker) == opt_view(page.next_key_marker) && opt_view(
                version_id_marker,
            ) == opt_view(page.next_version_id_marker),
            PurgeNext::Done => page.is_truncated != Some(true),
        },
{
    let mut out: Vec<(String, String)> = Vec::new();
    assert(out@.map_values(|p: (String, String)| (p.0@, p.1@)) =~= Seq::<
        (Seq<char>, Seq<char>),
    >::empty());
    collect_present_pairs(&page.versions, &mut out);
    collect_present_pairs(&page.delete_markers, &mut out);
    assert(Seq::<(Seq<char>, Seq<char>)>::empty() + present_pairs(page.versions@)
        =~= present_pairs(page.versions@));
    let next = match page.is_truncated {
        Some(true) => PurgeNext::Continue {
            key_marker: match &page.next_key_marker {
                Some(t) => Some(t.clone()),
                None => None,
            },
            version_id_marker: match &page.next_version_id_marker {
                Some(t) => Some(t.clone()),
                None => None,
            },
        },
        _ => PurgeNext::Done,
    };
    (out, next)
}

// ---------------------------------------------------------------------------
// Laws of the path and listing decisions
// ---------------------------------------------------------------------------

/// Law: normalising a relative path changes nothing but its backslashes:
/// it keeps the length, turns each `\` into `/`, and keeps every other
/// character (case included) where it was.
pub proof fn lemma_slash_path_changes_only_backslashes(rel: Seq<char>)
    ensures
        slash_path(rel).len() == rel.len(),
        forall|i: int| 0 <= i < rel.len() && rel[i] == '\\' ==> #[trigger] slash_path(rel)[i] == '/',
        forall|i: int| 0 <= i < rel.len() && rel[i] != '\\' ==> #[trigger] slash_path(rel)[i] == rel[i],
        (forall|i: int| 0 <= i < rel.len() ==> rel[i] != '\\') ==> slash_path(rel) == rel,
{
    if forall|i: int| 0 <= i < rel.len() ==> rel[i] != '\\' {
        assert(slash_path(rel) =~= rel);
    }
}

/// Whether a listed key is present.
pub open spec fn is_present(o: Option<String>) -> bool {
    o is Some
}

/// The test `is_present`, as a predicate on listed keys.
pub open spec fn present_pred() -> spec_fn(Option<String>) -> bool {
    |o: Option<String>| is_present(o)
}

/// Whether both halves of a listed (key, version id) pair are present.
pub open spec fn both_present(p: (Option<String>, Option<String>)) -> bool {
    p.0 is Some && p.1 is Some
}

proof fn lemma_present_is_filter(s: Seq<Option<String>>)
    ensures
        present(s) == s.filter(present_pred()).map_values(
            |o: Option<String>| o->0@,
        ),
    decreases s.len(),
{
    reveal(Seq::filter);
    if s.len() > 0 {
        lemma_present_is_filter(s.drop_last());
        let f = s.drop_last().filter(present_pred());
        assert(f.push(s.last()).map_values(|o: Option<String>| o->0@) =~= f.map_values(
            |o: Option<String>| o->0@,
        ).push(s.last()->0@));
    }
}

/// Law: a listing page's keys to download are exactly its present keys, in
/// listing order: every present key is downloaded, nothing else is, and
/// there are as many as there are present keys.
pub proof fn lemma_download_keys_are_present_keys(s: Seq<Option<String>>)
    ensures
        present(s) == s.filter(present_pred()).map_values(
            |o: Option<String>| o->0@,
        ),
        present(s).len() == s.filter(present_pred()).len(),
        forall|i: int| 0 <= i < s.len() && (#[trigger] s[i]) is Some ==> present(s).contains(s[i]->0@),
        forall|k: int|
            0 <= k < present(s).len() ==> (#[trigger] s.filter(present_pred())[k]) is Some
                && s.contains(s.filter(present_pred())[k]) && present(s)[k] == s.filter(
                present_pred(),
            )[k]->0@,
{
    lemma_present_is_filter(s);
    let pred = present_pred();
    let f = s.filter(pred);
    assert forall|i: int| 0 <= i < s.len() && (#[trigger] s[i]) is Some implies present(s).contains(
        s[i]->0@,
    ) by {
        s.lemma_filter_contains(pred, i);
        assert(f.contains(s[i]));
        let j = choose|j: int| 0 <= j < f.len() && f[j] == s[i];
        assert(0 <= j < present(s).len());
        assert(present(s)[j] == s[i]->0@);
    }
    assert forall|k: int| 0 <= k < present(s).len() implies (#[trigger] s.filter(
        present_pred(),
    )[k]) is Some && s.contains(s.filter(present_pred())[k]) && present(s)[k] == s.filter(
        present_pred(),
    )[k]->0@ by {
        s.lemma_filter_pred(pred, k);
        assert(f.contains(f[k]));
        s.lemma_filter_contains_rev(pred, f[k]);
    }
}

proof fn lemma_present_pairs_is_filter(s: Seq<(Option<String>, Option<String>)>)
    ensures
        present_pairs(s) == s.filter(|p: (Option<String>, Option<String>)| both_present(p)).map_values(
            |p: (Option<String>, Option<String>)| (p.0->0@, p.1->0@),
        ),
    decreases s.len(),
{
    reveal(Seq::filter);
    if s.len() > 0 {
        lemma_present_pairs_is_filter(s.drop_last());
        let f = s.drop_last().filter(|p: (Option<String>, Option<String>)| both_present(p));
        assert(f.push(s.last()).map_values(
            |p: (Option<String>, Option<String>)| (p.0->0@, p.1->0@),
        ) =~= f.map_values(|p: (Option<String>, Option<String>)| (p.0->0@, p.1->0@)).push(
            (s.last().0->0@, s.last().1->0@),
        ));
    }
}

/// Law: the versions a listing page schedules for deletion are exactly its
/// (key, version id) pairs with both halves present, in listing order:
/// every such pair is deleted, nothing else is, and there are as many as
/// there are such pairs.
pub proof fn lemma_purge_pairs_are_complete_pairs(s: Seq<(Option<String>, Option<String>)>)
    ensures
        present_pairs(s) == s.filter(|p: (Option<String>, Option<String>)| both_present(p)).map_values(
            |p: (Option<String>, Option<String>)| (p.0->0@, p.1->0@),
        ),
        present_pairs(s).len() == s.filter(
            |p: (Option<String>, Option<String>)| both_present(p),
        ).len(),
        forall|i: int|
            0 <= i < s.len() && (#[trigger] s[i]).0 is Some && s[i].1 is Some ==> present_pairs(
                s,
            ).contains((s[i].0->0@, s[i].1->0@)),
        forall|k: int|
            #![trigger present_pairs(s)[k]]
            0 <= k < present_pairs(s).len() ==> exists|i: int|
                0 <= i < s.len() && (#[trigger] s[i]).0 is Some && s[i].1 is Some && (
                s[i].0->0@,
                s[i].1->0@,
            ) == present_pairs(s)[k],
{
    lemma_present_pairs_is_filter(s);
    let pred = |p: (Option<String>, Option<String>)| both_present(p);
    let f = s.filter(pred);
    assert forall|i: int|
        0 <= i < s.len() && (#[trigger] s[i]).0 is Some && s[i].1 is Some implies present_pairs(
        s,
    ).contains((s[i].0->0@, s[i].1->0@)) by {
        s.lemma_filter_contains(pred, i);
        let j = choose|j: int| 0 <= j < f.len() && f[j] == s[i];
        assert(present_pairs(s)[j] == (s[i].0->0@, s[i].1->0@));
    }
    assert forall|k: int|
        #![trigger present_pairs(s)[k]]
        0 <= k < present_pairs(s).len() implies exists|i: int|
        0 <= i < s.len() && (#[trigger] s[i]).0 is Some && s[i].1 is Some && (
        s[i].0->0@,
        s[i].1->0@,
    ) == present_pairs(s)[k] by {
        s.lemma_filter_pred(pred, k);
        assert(f.contains(f[k]));
        s.lemma_filter_contains_rev(pred, f[k]);
        let i = choose|i: int| 0 <= i < s.len() && s[i] == f[k];
        assert(both_present(s[i]));
    }
}

} // verus!
