//! Service configuration: where the object storage is, the administrator's
//! credentials, the MinIO client alias, and the local directories.
use vstd::prelude::*;
use crate::text::owned;

verus! {

/// Environment variable naming the S3 endpoint.
pub const ENV_ENDPOINT: &'static str = "INTAKE_ENDPOINT";
/// Environment variable naming the region.
pub const ENV_REGION: &'static str = "INTAKE_REGION";
/// Environment variable holding the administrator's access key.
pub const ENV_ADMIN_ACCESS_KEY: &'static str = "INTAKE_ADMIN_ACCESS_KEY";
/// Environment variable holding the administrator's secret key.
pub const ENV_ADMIN_SECRET_KEY: &'static str = "INTAKE_ADMIN_SECRET_KEY";
/// Environment variable naming the `mc` alias of the server.
pub const ENV_MC_ALIAS: &'static str = "INTAKE_MC_ALIAS";
/// Environment variable naming the parent user of scoped keys.
pub const ENV_MC_PARENT: &'static str = "INTAKE_MC_PARENT";
/// Environment variable naming the directory of the upload site.
pub const ENV_SITE_DIR: &'static str = "INTAKE_SITE_DIR";
/// Environment variable naming the directory where cases are recorded.
pub const ENV_CASES_DIR: &'static str = "INTAKE_CASES_DIR";

/// Endpoint used when none is configured.
pub const DEFAULT_ENDPOINT: &'static str = "http://localhost:9000";
/// Region used when none is configured.
pub const DEFAULT_REGION: &'static str = "us-east-1";
/// Administrator access key used when none is configured.
pub const DEFAULT_ADMIN_ACCESS_KEY: &'static str = "minioadmin";
/// Administrator secret key used when none is configured.
pub const DEFAULT_ADMIN_SECRET_KEY: &'static str = "minioadmin";
/// `mc` alias used when none is configured.
pub const DEFAULT_MC_ALIAS: &'static str = "myminio";
/// Parent user used when none is configured.
pub const DEFAULT_MC_PARENT: &'static str = "minioadmin";
/// Site directory used when none is configured.
pub const DEFAULT_SITE_DIR: &'static str = "./site";
/// Cases directory used when none is configured.
pub const DEFAULT_CASES_DIR: &'static str = "./cases";

/// The configured value, or `default` when there is none.
pub open spec fn value_or(value: Option<String>, default: Seq<char>) -> Seq<char> {
    match value {
        Some(v) => v@,
        None => default,
    }
}

/// The configured value, or `default` when there is none.
pub fn env_or(value: Option<String>, default: &str) -> (r: String)
    ensures
        r@ == value_or(value, default@),
{
    match value {
        Some(v) => v,
        None => owned(default),
    }
}

/// Service configuration.
#[derive(Clone, Debug)]
pub struct Config {
    pub endpoint: String,
    pub region: String,
    pub admin_access_key: String,
    pub admin_secret_key: String,
    pub mc_alias: String,
    pub mc_parent: String,
    pub site_dir: String,
    pub cases_dir: String,
}

impl Config {
    /// The configuration from the values of the `INTAKE_*` variables (in the
    /// order of the fields), each absent one taking its default.
    pub fn from_vars(
        endpoint: Option<String>,
        region: Option<String>,
        admin_access_key: Option<String>,
        admin_secret_key: Option<String>,
        mc_alias: Option<String>,
        mc_parent: Option<String>,
        site_dir: Option<String>,
        cases_dir: Option<String>,
    ) -> (r: Config)
        ensures
            r.endpoint@ == value_or(endpoint, DEFAULT_ENDPOINT@),
            r.region@ == value_or(region, DEFAULT_REGION@),
            r.admin_access_key@ == value_or(admin_access_key, DEFAULT_ADMIN_ACCESS_KEY@),
            r.admin_secret_key@ == value_or(admin_secret_key, DEFAULT_ADMIN_SECRET_KEY@),
            r.mc_alias@ == value_or(mc_alias, DEFAULT_MC_ALIAS@),
            r.mc_parent@ == value_or(mc_parent, DEFAULT_MC_PARENT@),
            r.site_dir@ == value_or(site_dir, DEFAULT_SITE_DIR@),
            r.cases_dir@ == value_or(cases_dir, DEFAULT_CASES_DIR@),
    {
        Config {
            endpoint: env_or(endpoint, DEFAULT_ENDPOINT),
            region: env_or(region, DEFAULT_REGION),
            admin_access_key: env_or(admin_access_key, DEFAULT_ADMIN_ACCESS_KEY),
            admin_secret_key: env_or(admin_secret_key, DEFAULT_ADMIN_SECRET_KEY),
            mc_alias: env_or(mc_alias, DEFAULT_MC_ALIAS),
            mc_parent: env_or(mc_parent, DEFAULT_MC_PARENT),
            site_dir: env_or(site_dir, DEFAULT_SITE_DIR),
            cases_dir: env_or(cases_dir, DEFAULT_CASES_DIR),
        }
    }
}

} // verus!
