//! SHA-256 of content, fed in chunks so that a file of several gigabytes is
//! hashed in constant memory, and rendered as lowercase hexadecimal.
use vstd::prelude::*;
use crate::text::{hex_lower, is_hex_lower_char, lemma_hex_lower_shape, to_hex_lower};

verus! {

#[verifier::external_type_specification]
#[verifier::external_body]
pub struct ExSha256(sha2::Sha256);

/// The bytes that a `sha2::Sha256` hasher has absorbed so far, in order.
pub uninterp spec fn sha256_absorbed(h: sha2::Sha256) -> Seq<u8>;

/// The SHA-256 digest of a byte string, as sha2 computes it.
pub uninterp spec fn sha256_digest(data: Seq<u8>) -> Seq<u8>;

/// `Digest::new` for `sha2::Sha256`: a hasher that has absorbed nothing.
#[verifier::external_body]
fn sha256_new() -> (h: sha2::Sha256)
    ensures
        sha256_absorbed(h) == Seq::<u8>::empty(),
{
    <sha2::Sha256 as sha2::Digest>::new()
}

/// `Digest::update` for `sha2::Sha256`: the hasher absorbs `data` after
/// what it held.
#[verifier::external_body]
fn sha256_update(h: &mut sha2::Sha256, data: &[u8])
    ensures
        sha256_absorbed(*final(h)) == sha256_absorbed(*old(h)) + data@,
{
    sha2::Digest::update(h, data)
}

/// `Digest::finalize` for `sha2::Sha256`: the 32-byte digest of all the
/// bytes absorbed.
#[verifier::external_body]
fn sha256_finalize(h: sha2::Sha256) -> (d: Vec<u8>)
    ensures
        d@ == sha256_digest(sha256_absorbed(h)),
        d@.len() == 32,
{
    sha2::Digest::finalize(h).to_vec()
}

/// The lowercase hexadecimal SHA-256 of `data`, as the manifest records it.
pub open spec fn sha256_hex_spec(data: Seq<u8>) -> Seq<char> {
    hex_lower(sha256_digest(data))
}

/// Incremental SHA-256 of content fed chunk by chunk.
pub struct ContentHasher {
    state: sha2::Sha256,
}

impl ContentHasher {
    /// All the bytes fed so far, in order.
    pub closed spec fn absorbed(&self) -> Seq<u8> {
        sha256_absorbed(self.state)
    }

    /// A hasher that has been fed nothing.
    pub fn new() -> (r: ContentHasher)
        ensures
            r.absorbed() == Seq::<u8>::empty(),
    {
        ContentHasher { state: sha256_new() }
    }

    /// Feeds the next chunk of content.
    pub fn update(&mut self, chunk: &[u8])
        ensures
            final(self).absorbed() == old(self).absorbed() + chunk@,
    {
        sha256_update(&mut self.state, chunk);
    }

    /// The lowercase hexadecimal SHA-256 of everything fed: 64 digits.
    pub fn finalize_hex(self) -> (r: String)
        ensures
            r@ == sha256_hex_spec(self.absorbed()),
            r@.len() == 64,
            forall|i: int| 0 <= i < r@.len() ==> is_hex_lower_char(#[trigger] r@[i]),
    {
        let d = sha256_finalize(self.state);
        proof {
            lemma_hex_lower_shape(d@);
        }
        to_hex_lower(d.as_slice())
    }
}

/// The lowercase hexadecimal SHA-256 of `data`.
pub fn sha256_hex(data: &[u8]) -> (r: String)
    ensures
        r@ == sha256_hex_spec(data@),
        r@.len() == 64,
        forall|i: int| 0 <= i < r@.len() ==> is_hex_lower_char(#[trigger] r@[i]),
{
    let mut h = ContentHasher::new();
    h.update(data);
    assert(Seq::<u8>::empty() + data@ =~= data@);
    h.finalize_hex()
}

} // verus!
