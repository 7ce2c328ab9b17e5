//! Case operations: naming a case's bucket, the site's address and
//! configuration, and what a created case hands back.
use vstd::prelude::*;
use crate::case::Case;
use crate::config::Config;
use crate::error::IntakeError;
use crate::minio_iam::{scoped_upload_policy, scoped_upload_policy_spec};
use crate::s3_dataplane::{
    public_read_policy, public_read_policy_spec, CORS_ALLOWED_ORIGIN, DATA_PREFIX, SITE_CONFIG_KEY,
    SITE_PREFIX,
};
use crate::text::{ascii_lower, chars_of, hex_lower, json_quote, json_quoted, owned, push_char, to_hex_lower};

verus! {

/// What creating a case hands back: the recorded case and the scoped key's
/// secret, to give to the client out of band (it is never recorded).
pub struct CreateResult {
    pub case: Case,
    pub scoped_secret_key: String,
}

// ---------------------------------------------------------------------------
// Slugs
// ---------------------------------------------------------------------------

/// ASCII letter or digit.
pub open spec fn is_ascii_alnum(c: char) -> bool {
    ('0' <= c && c <= '9') || ('a' <= c && c <= 'z') || ('A' <= c && c <= 'Z')
}

/// A character of a slug: ASCII letters and digits, lowered; anything else
/// becomes `-`.
pub open spec fn slug_char(c: char) -> char {
    if is_ascii_alnum(c) {
        ascii_lower(c)
    } else {
        '-'
    }
}

/// The slug of a case id, one character for each of the id's.
pub open spec fn slug_spec(id: Seq<char>) -> Seq<char> {
    id.map_values(|c: char| slug_char(c))
}

/// A character allowed in a bucket name built here: lowercase ASCII letter,
/// digit or `-`.
pub open spec fn is_bucket_char(c: char) -> bool {
    ('0' <= c && c <= '9') || ('a' <= c && c <= 'z') || c == '-'
}

fn slug_char_exec(c: char) -> (r: char)
    ensures
        r == slug_char(c),
{
    if ('0' <= c && c <= '9') || ('a' <= c && c <= 'z') {
        c
    } else if 'A' <= c && c <= 'Z' {
        ((c as u8) + 32) as char
    } else {
        '-'
    }
}

/// The case id made DNS-friendly: ASCII letters and digits lowered, every
/// other character replaced by `-`.
pub fn slug(id: &str) -> (r: String)
    ensures
        r@ == slug_spec(id@),
{
    let cs = chars_of(id);
    let mut r = String::new();
    let n = cs.len();
    let mut i: usize = 0;
    while i < n
        invariant
            n == cs@.len(),
            cs@ == id@,
            i <= n,
            r@ == slug_spec(id@.take(i as int)),
        decreases n - i,
    {
        let c = slug_char_exec(cs[i]);
        push_char(&mut r, c);
        assert(slug_spec(id@.take(i + 1)) =~= slug_spec(id@.take(i as int)).push(c));
        i = i + 1;
    }
    assert(id@.take(n as int) =~= id@);
    r
}

/// Law: a slug has as many characters as the id, uses only lowercase ASCII
/// letters, digits and `-`, and is its own slug.
pub proof fn lemma_slug_shape(id: Seq<char>)
    ensures
        slug_spec(id).len() == id.len(),
        forall|i: int| 0 <= i < id.len() ==> is_bucket_char(#[trigger] slug_spec(id)[i]),
        slug_spec(slug_spec(id)) == slug_spec(id),
{
    assert forall|i: int| 0 <= i < id.len() implies is_bucket_char(#[trigger] slug_spec(id)[i]) by {
        let c = id[i];
        if 'A' <= c && c <= 'Z' {
            assert(((c as u8) + 32) as char == ascii_lower(c));
        }
    }
    assert(slug_spec(slug_spec(id)) =~= slug_spec(id)) by {
        assert forall|i: int| 0 <= i < id.len() implies slug_spec(slug_spec(id))[i] == slug_spec(
            id,
        )[i] by {
            assert(is_bucket_char(slug_spec(id)[i]));
        }
    }
}

/// Law: a slug keeps every ASCII digit and lowercase letter of the id in
/// place, puts the lowercase letter in place of each uppercase one, and puts
/// `-` in place of every other character; it has as many characters as the
/// id.
pub proof fn lemma_slug_per_character(id: Seq<char>)
    ensures
        slug_spec(id).len() == id.len(),
        forall|i: int|
            0 <= i < id.len() && (('0' <= id[i] && id[i] <= '9') || ('a' <= id[i] && id[i] <= 'z'))
                ==> #[trigger] slug_spec(id)[i] == id[i],
        forall|i: int|
            0 <= i < id.len() && 'A' <= id[i] && id[i] <= 'Z' ==> #[trigger] slug_spec(id)[i]
                == ((id[i] as u8) + 32) as char && 'a' <= slug_spec(id)[i] && slug_spec(id)[i]
                <= 'z',
        forall|i: int|
            0 <= i < id.len() && !('0' <= id[i] && id[i] <= '9') && !('a' <= id[i] && id[i]
                <= 'z') && !('A' <= id[i] && id[i] <= 'Z') ==> #[trigger] slug_spec(id)[i] == '-',
{
}

// ---------------------------------------------------------------------------
// Random suffix
// ---------------------------------------------------------------------------

#[verifier::external_type_specification]
#[verifier::external_body]
pub struct ExRandomError(getrandom::Error);

/// `getrandom::getrandom` on a four-byte buffer: four bytes from the
/// operating system's random source, or its error. Nothing is stated of the
/// bytes.
#[verifier::external_body]
fn random_four_bytes() -> (r: Result<[u8; 4], getrandom::Error>) {
    let mut b = [0u8; 4];
    match getrandom::getrandom(&mut b) {
        Ok(()) => Ok(b),
        Err(e) => Err(e),
    }
}

/// The suffix made of four bytes: eight lowercase hexadecimal digits.
pub fn suffix_from_bytes(b: [u8; 4]) -> (r: String)
    ensures
        r@ == hex_lower(b@),
{
    to_hex_lower(&b)
}

/// A random, hard to guess suffix for a bucket name: four random bytes in
/// lowercase hexadecimal.
pub fn rand_suffix() -> (r: Result<String, IntakeError>)
    ensures
        r matches Ok(s) ==> exists|b: Seq<u8>| b.len() == 4 && s@ == hex_lower(b),
        r matches Err(e) ==> e is Rng,
{
    match random_four_bytes() {
        Ok(b) => {
            let s = suffix_from_bytes(b);
            assert(b@.len() == 4);
            Ok(s)
        },
        Err(_) => Err(IntakeError::Rng),
    }
}

// ---------------------------------------------------------------------------
// Naming and addressing a case
// ---------------------------------------------------------------------------

/// The bucket of a case: `intake-<slug of the id>-<suffix>`.
pub open spec fn bucket_name_spec(id: Seq<char>, suffix: Seq<char>) -> Seq<char> {
    "intake-"@ + slug_spec(id) + "-"@ + suffix
}

/// The bucket of a case: `intake-<slug of the id>-<suffix>`.
pub fn bucket_name(id: &str, suffix: &str) -> (r: String)
    ensures
        r@ == bucket_name_spec(id@, suffix@),
{
    let mut r = owned("intake-");
    let s = slug(id);
    r.append(s.as_str());
    r.append("-");
    r.append(suffix);
    r
}

/// Law: a case's bucket name starts with `intake-`, the slug of the id and
/// a dash, and, with a hexadecimal suffix, holds only lowercase ASCII
/// letters, digits and dashes (it is DNS-compatible).
pub proof fn lemma_bucket_name_shape(id: Seq<char>, suffix: Seq<char>)
    requires
        forall|i: int| 0 <= i < suffix.len() ==> crate::text::is_hex_lower_char(#[trigger] suffix[i]),
    ensures
        crate::text::starts_with(bucket_name_spec(id, suffix), "intake-"@ + slug_spec(id) + "-"@),
        forall|i: int|
            0 <= i < bucket_name_spec(id, suffix).len() ==> is_bucket_char(
                #[trigger] bucket_name_spec(id, suffix)[i],
            ),
{
    reveal_strlit("intake-");
    reveal_strlit("-");
    lemma_slug_shape(id);
    let b = bucket_name_spec(id, suffix);
    let head = "intake-"@ + slug_spec(id) + "-"@;
    assert(b.subrange(0, head.len() as int) =~= head);
    assert forall|i: int| 0 <= i < b.len() implies is_bucket_char(#[trigger] b[i]) by {
        if i < 7 {
            assert(b[i] == "intake-"@[i]);
        } else if i < 7 + slug_spec(id).len() {
            assert(b[i] == slug_spec(id)[i - 7]);
        } else if i == 7 + slug_spec(id).len() {
            assert(b[i] == '-');
        } else {
            assert(b[i] == suffix[i - 8 - slug_spec(id).len()]);
        }
    }
}

/// Law: a suffix drawn by `rand_suffix` is eight lowercase hexadecimal
/// digits, so the bucket it names is DNS-compatible.
pub proof fn lemma_suffix_shape(b: Seq<u8>)
    requires
        b.len() == 4,
    ensures
        hex_lower(b).len() == 8,
        forall|i: int| 0 <= i < 8 ==> crate::text::is_hex_lower_char(#[trigger] hex_lower(b)[i]),
{
    crate::text::lemma_hex_lower_shape(b);
}

/// Address of the case's upload page: `<endpoint>/<bucket>/site/index.html`
/// (path-style).
pub open spec fn site_url_spec(endpoint: Seq<char>, bucket: Seq<char>) -> Seq<char> {
    endpoint + "/"@ + bucket + "/site/index.html"@
}

/// Address of the case's upload page (path-style addressing).
pub fn site_url(endpoint: &str, bucket: &str) -> (r: String)
    ensures
        r@ == site_url_spec(endpoint@, bucket@),
{
    let mut r = owned(endpoint);
    r.append("/");
    r.append(bucket);
    r.append("/site/index.html");
    r
}

/// The site's non-secret configuration (compact JSON, keys in serde_json's
/// sorted order): endpoint, region, bucket receiving the data, path-style.
pub open spec fn site_config_json_spec(
    endpoint: Seq<char>,
    region: Seq<char>,
    bucket: Seq<char>,
) -> Seq<char> {
    "{\"dataBucket\":"@ + json_quote(bucket) + ",\"endpoint\":"@ + json_quote(endpoint)
        + ",\"region\":"@ + json_quote(region) + ",\"usePathStyle\":true}"@
}

/// The site's non-secret configuration, stored next to it as `config.json`.
pub fn site_config_json(endpoint: &str, region: &str, bucket: &str) -> (r: String)
    ensures
        r@ == site_config_json_spec(endpoint@, region@, bucket@),
{
    let mut r = owned("{\"dataBucket\":");
    r.append(json_quoted(bucket).as_str());
    r.append(",\"endpoint\":");
    r.append(json_quoted(endpoint).as_str());
    r.append(",\"region\":");
    r.append(json_quoted(region).as_str());
    r.append(",\"usePathStyle\":true}");
    r
}

/// What creating a case sets up, before any call to the storage.
pub struct CasePlan {
    /// The case's bucket.
    pub bucket: String,
    /// Address of the upload page.
    pub site_url: String,
    /// Content of `site/config.json`.
    pub site_config: String,
    /// Key under which the site configuration is stored.
    pub site_config_key: String,
    /// Prefix under which the upload site is deployed, the only public one.
    pub site_prefix: String,
    /// Prefix the client's key may write, private.
    pub upload_prefix: String,
    /// Bucket policy making the site, and only the site, publicly readable.
    pub public_policy: String,
    /// Policy of the client's write-only key.
    pub upload_policy: String,
    /// Origin allowed by the bucket's CORS rule.
    pub cors_origin: String,
}

/// The bucket, upload page address and site configuration of case `id`
/// with random `suffix`, and the bucket's layout: `site/` public (its bucket
/// policy covers `site/` alone) and `data/` writable only by the client's
/// write-only key (its policy covers `data/` alone).
pub fn plan_case(cfg: &Config, id: &str, suffix: &str) -> (r: CasePlan)
    ensures
        r.bucket@ == bucket_name_spec(id@, suffix@),
        r.site_url@ == site_url_spec(cfg.endpoint@, r.bucket@),
        r.site_config@ == site_config_json_spec(cfg.endpoint@, cfg.region@, r.bucket@),
        r.site_config_key@ == SITE_CONFIG_KEY@,
        r.site_prefix@ == SITE_PREFIX@,
        r.upload_prefix@ == DATA_PREFIX@,
        r.public_policy@ == public_read_policy_spec(r.bucket@, SITE_PREFIX@),
        r.upload_policy@ == scoped_upload_policy_spec(r.bucket@, DATA_PREFIX@),
        r.cors_origin@ == CORS_ALLOWED_ORIGIN@,
{
    let bucket = bucket_name(id, suffix);
    let url = site_url(cfg.endpoint.as_str(), bucket.as_str());
    let config = site_config_json(cfg.endpoint.as_str(), cfg.region.as_str(), bucket.as_str());
    let public_policy = public_read_policy(bucket.as_str(), SITE_PREFIX);
    let upload_policy = scoped_upload_policy(bucket.as_str(), DATA_PREFIX);
    CasePlan {
        bucket,
        site_url: url,
        site_config: config,
        site_config_key: owned(SITE_CONFIG_KEY),
        site_prefix: owned(SITE_PREFIX),
        upload_prefix: owned(DATA_PREFIX),
        public_policy,
        upload_policy,
        cors_origin: owned(CORS_ALLOWED_ORIGIN),
    }
}

} // verus!
