//! MinIO-specific IAM control plane, driven through the `mc` client: the
//! write-only policy of a case's scoped key and the `mc` invocations that
//! create and revoke it.
use vstd::prelude::*;
use crate::config::Config;
use crate::s3_dataplane::{object_arn, object_arn_spec};
use crate::text::{json_quote, json_quoted, owned};

verus! {

/// Where and as whom scoped keys are created.
pub struct MinioIam {
    pub alias: String,
    pub parent: String,
}

/// A scoped key's credentials.
pub struct ScopedCreds {
    pub access_key: String,
    pub secret_key: String,
}

impl MinioIam {
    /// The `mc` alias and parent user of the configuration.
    pub fn from_config(cfg: &Config) -> (r: MinioIam)
        ensures
            r.alias == cfg.mc_alias,
            r.parent == cfg.mc_parent,
    {
        MinioIam { alias: cfg.mc_alias.clone(), parent: cfg.mc_parent.clone() }
    }
}

/// The policy of a write-only key limited to `bucket/prefix*` (pretty JSON,
/// keys in serde_json's sorted order): it may put objects (multipart
/// included) there, and nothing else — no read, no listing, no deletion, no
/// other prefix or bucket.
pub open spec fn scoped_upload_policy_spec(bucket: Seq<char>, prefix: Seq<char>) -> Seq<char> {
    "{\n  \"Statement\": [\n    {\n      \"Action\": [\n        \"s3:PutObject\",\n        \"s3:AbortMultipartUpload\",\n        \"s3:ListMultipartUploadParts\"\n      ],\n      \"Effect\": \"Allow\",\n      \"Resource\": [\n        "@
        + json_quote(object_arn_spec(bucket, prefix))
        + "\n      ]\n    }\n  ],\n  \"Version\": \"2012-10-17\"\n}"@
}

/// The policy of the scoped upload key for `bucket`, limited to `prefix`
/// (for instance `data/`: the key can write only under `data/`, not the site).
pub fn scoped_upload_policy(bucket: &str, prefix: &str) -> (r: String)
    ensures
        r@ == scoped_upload_policy_spec(bucket@, prefix@),
{
    let arn = object_arn(bucket, prefix);
    let mut r = owned(
        "{\n  \"Statement\": [\n    {\n      \"Action\": [\n        \"s3:PutObject\",\n        \"s3:AbortMultipartUpload\",\n        \"s3:ListMultipartUploadParts\"\n      ],\n      \"Effect\": \"Allow\",\n      \"Resource\": [\n        ",
    );
    r.append(json_quoted(arn.as_str()).as_str());
    r.append("\n      ]\n    }\n  ],\n  \"Version\": \"2012-10-17\"\n}");
    r
}

/// Name of the temporary file holding the policy for `bucket`.
pub fn policy_file_name(bucket: &str) -> (r: String)
    ensures
        r@ == "intake-pol-"@ + bucket@ + ".json"@,
{
    let mut r = owned("intake-pol-");
    r.append(bucket);
    r.append(".json");
    r
}

/// The texts of a list of strings.
pub open spec fn texts(v: Seq<String>) -> Seq<Seq<char>> {
    v.map_values(|s: String| s@)
}

/// Arguments of `mc` creating a service account under `parent` on `alias`
/// with the policy in `policy_path`, answering in JSON.
pub fn mc_add_args(policy_path: &str, alias: &str, parent: &str) -> (r: Vec<String>)
    ensures
        texts(r@) == seq![
            "--json"@,
            "admin"@,
            "user"@,
            "svcacct"@,
            "add"@,
            "--policy"@,
            policy_path@,
            alias@,
            parent@,
        ],
{
    let mut r: Vec<String> = Vec::new();
    r.push(owned("--json"));
    r.push(owned("admin"));
    r.push(owned("user"));
    r.push(owned("svcacct"));
    r.push(owned("add"));
    r.push(owned("--policy"));
    r.push(owned(policy_path));
    r.push(owned(alias));
    r.push(owned(parent));
    assert(texts(r@) =~= seq![
        "--json"@,
        "admin"@,
        "user"@,
        "svcacct"@,
        "add"@,
        "--policy"@,
        policy_path@,
        alias@,
        parent@,
    ]);
    r
}

/// Arguments of `mc` removing the service account `access_key` from `alias`.
pub fn mc_rm_args(alias: &str, access_key: &str) -> (r: Vec<String>)
    ensures
        texts(r@) == seq!["admin"@, "user"@, "svcacct"@, "rm"@, alias@, access_key@],
{
    let mut r: Vec<String> = Vec::new();
    r.push(owned("admin"));
    r.push(owned("user"));
    r.push(owned("svcacct"));
    r.push(owned("rm"));
    r.push(owned(alias));
    r.push(owned(access_key));
    assert(texts(r@) =~= seq!["admin"@, "user"@, "svcacct"@, "rm"@, alias@, access_key@]);
    r
}

} // verus!
