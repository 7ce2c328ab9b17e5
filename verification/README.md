# intake-core

Discreet incident-data intake: one S3-compatible bucket per case, a public
upload page under `site/`, a private `data/` prefix that only the case's
write-only key can fill, and a SHA-256 manifest to check what was received.

The library under `src/` is written in Verus and proved:

- `manifest` — the label -> digest manifest, kept sorted and free of duplicate
  labels, with the laws of recording a digest (lookup, order, size).
- `integrity` — the by-content check of received objects against a manifest
  (matched / unexpected / missing), its laws, and the manifest's JSON form.
- `digest` — chunked SHA-256 (sha2) rendered as lowercase hexadecimal.
- `ops`, `case`, `config` — case naming (slug, bucket, random suffix), the
  site's address and configuration, the case record and its states.
- `minio_iam`, `s3_dataplane` — the scoped key's write-only policy and `mc`
  arguments, the public `site/` policy, CORS rule, content types, and the
  decisions taken on each page when listing a bucket to download or purge it.
- `text`, `display` — string building blocks and report helpers.

`app/` is the `intake` command line: environment, files, the `mc` process and
the S3 calls (aws-sdk-s3). The bucket layout and policies come from
`plan_case`, manifest labels from `manifest_label`, and the teardown outcome
from `teardown_outcome`.
