//! A case: one bucket per incident, the scoped key handed to the client,
//! the upload site's address, and whether the case is still open.
use vstd::prelude::*;
use crate::text::owned;

verus! {

/// Whether a case is open or has been destroyed.
#[derive(Clone, Copy, Debug, PartialEq, Eq, Structural)]
pub enum CaseState {
    Active,
    TornDown,
}

/// A case as recorded locally (one file per case).
#[derive(Clone, Debug)]
pub struct Case {
    pub id: String,
    pub bucket: String,
    pub scoped_access_key: String,
    pub site_url: String,
    pub state: CaseState,
}

/// Name of the file that records case `id`: the id followed by `.json`.
pub open spec fn case_file_name_spec(id: Seq<char>) -> Seq<char> {
    id + ".json"@
}

/// Name of the file that records case `id` in the cases directory.
pub fn case_file_name(id: &str) -> (r: String)
    ensures
        r@ == case_file_name_spec(id@),
{
    let mut r = owned(id);
    r.append(".json");
    r
}

impl Case {
    /// A freshly created case, open.
    pub fn active(id: &str, bucket: String, scoped_access_key: String, site_url: String) -> (r: Case)
        ensures
            r.id@ == id@,
            r.bucket == bucket,
            r.scoped_access_key == scoped_access_key,
            r.site_url == site_url,
            r.state == CaseState::Active,
    {
        Case { id: owned(id), bucket, scoped_access_key, site_url, state: CaseState::Active }
    }

    /// The same case, marked destroyed.
    pub open spec fn torn_down_spec(self) -> Case {
        Case { state: CaseState::TornDown, ..self }
    }

    /// The same case once its key and bucket are destroyed: every field
    /// kept but the state, which becomes `TornDown`.
    pub fn torn_down(self) -> (r: Case)
        ensures
            r == self.torn_down_spec(),
    {
        Case { state: CaseState::TornDown, ..self }
    }

    /// Whether a scoped key has been recorded for the case (a case whose
    /// creation stopped before the key was made has none).
    pub fn has_scoped_key(&self) -> (r: bool)
        ensures
            r == (self.scoped_access_key@.len() > 0),
    {
        !self.scoped_access_key.as_str().is_empty()
    }

    /// Whether the case is still open.
    pub fn is_active(&self) -> (r: bool)
        ensures
            r == (self.state == CaseState::Active),
    {
        match self.state {
            CaseState::Active => true,
            CaseState::TornDown => false,
        }
    }
}

/// What tearing a case down leads to, once the key revocation and the
/// bucket deletion have been tried.
pub struct TeardownOutcome {
    /// The case to record, if the record changes.
    pub record: Option<Case>,
    /// A failure the operator must act on: the command fails.
    pub error: Option<String>,
    /// A failure reported but tolerated.
    pub warning: Option<String>,
}

/// The message for a bucket that could not be deleted.
pub open spec fn bucket_kept_message(bucket: Seq<char>) -> Seq<char> {
    "bucket "@ + bucket + " could not be deleted; the case stays active: run teardown-case again"@
}

/// The message for a scoped key that could not be revoked.
pub open spec fn key_kept_message(key: Seq<char>) -> Seq<char> {
    "scoped key "@ + key + " could not be revoked (already removed?)"@
}

/// The outcome of tearing down an open case, given whether its scoped key
/// was revoked and whether its bucket (and every version in it) was
/// deleted. Once the bucket is gone the case is recorded as torn down; a key
/// that could not be revoked is reported but tolerated, since it may be
/// gone already and its bucket no longer exists. When the bucket could not
/// be deleted the record stays as it was (the case is still active, so a
/// later teardown tries again) and the command fails with a message saying
/// so.
pub fn teardown_outcome(case: Case, key_revoked: bool, bucket_deleted: bool) -> (r: TeardownOutcome)
    ensures
        bucket_deleted ==> r.record == Some(case.torn_down_spec()) && r.error is None,
        !bucket_deleted ==> r.record is None && (r.error matches Some(e) && e@ == bucket_kept_message(
            case.bucket@,
        )),
        r.warning is Some <==> !key_revoked,
        r.warning matches Some(w) ==> w@ == key_kept_message(case.scoped_access_key@),
{
    let warning = if key_revoked {
        None
    } else {
        let mut w = owned("scoped key ");
        w.append(case.scoped_access_key.as_str());
        w.append(" could not be revoked (already removed?)");
        Some(w)
    };
    if bucket_deleted {
        TeardownOutcome { record: Some(case.torn_down()), error: None, warning }
    } else {
        let mut e = owned("bucket ");
        e.append(case.bucket.as_str());
        e.append(" could not be deleted; the case stays active: run teardown-case again");
        TeardownOutcome { record: None, error: Some(e), warning }
    }
}

/// Law: tearing a case down twice is the same as tearing it down once,
/// and tearing down keeps what identifies the case.
pub proof fn lemma_torn_down_idempotent(c: Case)
    ensures
        c.torn_down_spec().torn_down_spec() == c.torn_down_spec(),
        c.torn_down_spec().id == c.id,
        c.torn_down_spec().bucket == c.bucket,
        c.torn_down_spec().scoped_access_key == c.scoped_access_key,
{
}

} // verus!
