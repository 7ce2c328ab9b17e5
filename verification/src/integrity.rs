//! Chain-of-custody check: objects received from the bucket are matched to a
//! manifest sent out of band **by content** (their SHA-256), whatever key
//! they were stored under; and the manifest's JSON form.
use vstd::prelude::*;
use crate::error::IntakeError;
use crate::manifest::{
    build_manifest, insert_all, labels_sorted, lemma_insert_all_sorted, pairs_view, Manifest,
};
use crate::text::{join_with, json_quote, lowercase, to_lowercase};

verus! {

// ---------------------------------------------------------------------------
// What the check reports
// ---------------------------------------------------------------------------

/// The lowercased digests of a list of (name, digest) pairs, in order.
pub open spec fn lc_hashes(s: Seq<(Seq<char>, Seq<char>)>) -> Seq<Seq<char>> {
    s.map_values(|e: (Seq<char>, Seq<char>)| lowercase(e.1))
}

/// The manifest labels whose lowercased digest is `h`, in manifest order.
pub open spec fn labels_with_hash(m: Seq<(Seq<char>, Seq<char>)>, h: Seq<char>) -> Seq<Seq<char>>
    decreases m.len(),
{
    if m.len() == 0 {
        Seq::<Seq<char>>::empty()
    } else {
        let prev = labels_with_hash(m.drop_last(), h);
        if lowercase(m.last().1) == h {
            prev.push(m.last().0)
        } else {
            prev
        }
    }
}

/// Received objects whose content is in the manifest, in the order
/// received, each with the manifest label(s) of that content joined by ", ".
pub open spec fn matched_spec(
    d: Seq<(Seq<char>, Seq<char>)>,
    m: Seq<(Seq<char>, Seq<char>)>,
) -> Seq<(Seq<char>, Seq<char>)>
    decreases d.len(),
{
    if d.len() == 0 {
        Seq::<(Seq<char>, Seq<char>)>::empty()
    } else {
        let prev = matched_spec(d.drop_last(), m);
        let h = lowercase(d.last().1);
        if lc_hashes(m).contains(h) {
            prev.push((d.last().0, join_with(labels_with_hash(m, h), ", "@)))
        } else {
            prev
        }
    }
}

/// Received objects whose content is not in the manifest, in the order
/// received, each with its lowercased digest.
pub open spec fn unexpected_spec(
    d: Seq<(Seq<char>, Seq<char>)>,
    m: Seq<(Seq<char>, Seq<char>)>,
) -> Seq<(Seq<char>, Seq<char>)>
    decreases d.len(),
{
    if d.len() == 0 {
        Seq::<(Seq<char>, Seq<char>)>::empty()
    } else {
        let prev = unexpected_spec(d.drop_last(), m);
        let h = lowercase(d.last().1);
        if lc_hashes(m).contains(h) {
            prev
        } else {
            prev.push((d.last().0, h))
        }
    }
}

/// Manifest entries whose content was not received, in manifest order,
/// each with its digest as the manifest wrote it.
pub open spec fn missing_spec(
    d: Seq<(Seq<char>, Seq<char>)>,
    m: Seq<(Seq<char>, Seq<char>)>,
) -> Seq<(Seq<char>, Seq<char>)>
    decreases m.len(),
{
    if m.len() == 0 {
        Seq::<(Seq<char>, Seq<char>)>::empty()
    } else {
        let prev = missing_spec(d, m.drop_last());
        if lc_hashes(d).contains(lowercase(m.last().1)) {
            prev
        } else {
            prev.push(m.last())
        }
    }
}

/// Outcome of checking received objects against a manifest.
#[derive(Debug)]
pub struct VerifyReport {
    /// (object key, matching manifest label(s))
    pub matched: Vec<(String, String)>,
    /// received objects whose digest is not in the manifest (key, sha256)
    pub unexpected: Vec<(String, String)>,
    /// manifest entries whose digest was not received (label, sha256)
    pub missing: Vec<(String, String)>,
}

impl Default for VerifyReport {
    /// An empty report: nothing matched, unexpected or missing.
    fn default() -> (r: VerifyReport)
        ensures
            r.matched@.len() == 0,
            r.unexpected@.len() == 0,
            r.missing@.len() == 0,
    {
        VerifyReport { matched: Vec::new(), unexpected: Vec::new(), missing: Vec::new() }
    }
}

impl VerifyReport {
    /// Nothing unexpected was received and nothing expected is missing.
    pub fn is_ok(&self) -> (r: bool)
        ensures
            r == (self.unexpected@.len() == 0 && self.missing@.len() == 0),
    {
        self.unexpected.len() == 0 && self.missing.len() == 0
    }
}

fn lowercase_digests(s: &[(String, String)]) -> (v: Vec<String>)
    ensures
        v@.len() == s@.len(),
        forall|i: int| 0 <= i < s@.len() ==> (#[trigger] v@[i])@ == lowercase(s@[i].1@),
{
    let mut v: Vec<String> = Vec::new();
    let n = s.len();
    let mut i: usize = 0;
    while i < n
        invariant
            n == s@.len(),
            i <= n,
            v@.len() == i,
            forall|j: int| 0 <= j < i ==> (#[trigger] v@[j])@ == lowercase(s@[j].1@),
        decreases n - i,
    {
        v.push(to_lowercase(s[i].1.as_str()));
        i = i + 1;
    }
    v
}

fn contains_text(v: &Vec<String>, x: &String) -> (r: bool)
    ensures
        r == exists|j: int| 0 <= j < v@.len() && (#[trigger] v@[j])@ == x@,
{
    let n = v.len();
    let mut i: usize = 0;
    while i < n
        invariant
            n == v@.len(),
            i <= n,
            forall|j: int| 0 <= j < i ==> (#[trigger] v@[j])@ != x@,
        decreases n - i,
    {
        if v[i] == *x {
            return true;
        }
        i = i + 1;
    }
    false
}

proof fn lemma_contains_lc(s: Seq<(Seq<char>, Seq<char>)>, v: Seq<String>, h: Seq<char>)
    requires
        v.len() == s.len(),
        forall|i: int| 0 <= i < s.len() ==> (#[trigger] v[i])@ == lowercase(s[i].1),
    ensures
        lc_hashes(s).contains(h) == exists|j: int| 0 <= j < v.len() && (#[trigger] v[j])@ == h,
{
    if lc_hashes(s).contains(h) {
        let j = choose|j: int| 0 <= j < lc_hashes(s).len() && lc_hashes(s)[j] == h;
        assert(v[j]@ == h);
    }
    if exists|j: int| 0 <= j < v.len() && (#[trigger] v[j])@ == h {
        let j = choose|j: int| 0 <= j < v.len() && (#[trigger] v[j])@ == h;
        assert(lc_hashes(s)[j] == h);
    }
}

fn joined_labels(m: &Vec<(String, String)>, m_lc: &Vec<String>, h: &String) -> (r: String)
    requires
        m_lc@.len() == m@.len(),
        forall|i: int| 0 <= i < m@.len() ==> (#[trigger] m_lc@[i])@ == lowercase(m@[i].1@),
    ensures
        r@ == join_with(labels_with_hash(pairs_view(m@), h@), ", "@),
{
    let ghost mv = pairs_view(m@);
    let mut r = String::new();
    let mut count: usize = 0;
    let n = m.len();
    let mut i: usize = 0;
    while i < n
        invariant
            n == m@.len(),
            mv == pairs_view(m@),
            m_lc@.len() == m@.len(),
            forall|j: int| 0 <= j < m@.len() ==> (#[trigger] m_lc@[j])@ == lowercase(m@[j].1@),
            i <= n,
            count <= i,
            count == labels_with_hash(mv.take(i as int), h@).len(),
            r@ == join_with(labels_with_hash(mv.take(i as int), h@), ", "@),
        decreases n - i,
    {
        let ghost prev = labels_with_hash(mv.take(i as int), h@);
        proof {
            let t = mv.take(i + 1);
            assert(t.drop_last() =~= mv.take(i as int));
            assert(t.last() == (m@[i as int].0@, m@[i as int].1@));
        }
        if m_lc[i] == *h {
            if count > 0 {
                r.append(", ");
            }
            r.append(m[i].0.as_str());
            count = count + 1;
            proof {
                let np = prev.push(m@[i as int].0@);
                assert(np.drop_last() =~= prev);
                assert(labels_with_hash(mv.take(i + 1), h@) == np);
            }
        }
        i = i + 1;
    }
    proof {
        assert(mv.take(n as int) =~= mv);
    }
    r
}

/// Checks received objects against a manifest by content.
///
/// `downloaded` lists each received object as (object key, SHA-256 of its
/// content in hexadecimal). Digests are compared in lowercase. An object
/// whose digest is in the manifest is matched to every label carrying that
/// digest; one whose digest is not is unexpected; a manifest entry whose
/// digest was not received is missing. The object keys play no part in the
/// matching.
pub fn verify(downloaded: &[(String, String)], manifest: &Manifest) -> (r: VerifyReport)
    ensures
        pairs_view(r.matched@) == matched_spec(pairs_view(downloaded@), manifest@),
        pairs_view(r.unexpected@) == unexpected_spec(pairs_view(downloaded@), manifest@),
        pairs_view(r.missing@) == missing_spec(pairs_view(downloaded@), manifest@),
{
    let entries = manifest.entries();
    let ghost mv = manifest@;
    let ghost dv = pairs_view(downloaded@);
    let m_lc = lowercase_digests(entries.as_slice());
    let d_lc = lowercase_digests(downloaded);
    let mut matched: Vec<(String, String)> = Vec::new();
    let mut unexpected: Vec<(String, String)> = Vec::new();
    let n = downloaded.len();
    let mut i: usize = 0;
    while i < n
        invariant
            n == downloaded@.len(),
            mv == pairs_view(entries@),
            dv == pairs_view(downloaded@),
            m_lc@.len() == entries@.len(),
            forall|j: int| 0 <= j < entries@.len() ==> (#[trigger] m_lc@[j])@ == lowercase(entries@[j].1@),
            d_lc@.len() == downloaded@.len(),
            forall|j: int| 0 <= j < downloaded@.len() ==> (#[trigger] d_lc@[j])@ == lowercase(downloaded@[j].1@),
            i <= n,
            pairs_view(matched@) == matched_spec(dv.take(i as int), mv),
            pairs_view(unexpected@) == unexpected_spec(dv.take(i as int), mv),
        decreases n - i,
    {
        let h = &d_lc[i];
        proof {
            let t = dv.take(i + 1);
            assert(t.drop_last() =~= dv.take(i as int));
            assert(t.last() == (downloaded@[i as int].0@, downloaded@[i as int].1@));
            lemma_contains_lc(mv, m_lc@, h@);
        }
        if contains_text(&m_lc, h) {
            let labels = joined_labels(entries, &m_lc, h);
            matched.push((downloaded[i].0.clone(), labels));
            proof {
                assert(pairs_view(matched@) =~= matched_spec(dv.take(i as int), mv).push(
                    (downloaded@[i as int].0@, labels@),
                ));
            }
        } else {
            unexpected.push((downloaded[i].0.clone(), h.clone()));
            proof {
                assert(pairs_view(unexpected@) =~= unexpected_spec(dv.take(i as int), mv).push(
                    (downloaded@[i as int].0@, h@),
                ));
            }
        }
        i = i + 1;
    }
    proof {
        assert(dv.take(n as int) =~= dv);
    }
    let mut missing: Vec<(String, String)> = Vec::new();
    let k = entries.len();
    let mut j: usize = 0;
    while j < k
        invariant
            k == entries@.len(),
            mv == pairs_view(entries@),
            dv == pairs_view(downloaded@),
            m_lc@.len() == entries@.len(),
            forall|x: int| 0 <= x < entries@.len() ==> (#[trigger] m_lc@[x])@ == lowercase(entries@[x].1@),
            d_lc@.len() == downloaded@.len(),
            forall|x: int| 0 <= x < downloaded@.len() ==> (#[trigger] d_lc@[x])@ == lowercase(downloaded@[x].1@),
            j <= k,
            pairs_view(missing@) == missing_spec(dv, mv.take(j as int)),
        decreases k - j,
    {
        proof {
            let t = mv.take(j + 1);
            assert(t.drop_last() =~= mv.take(j as int));
            assert(t.last() == (entries@[j as int].0@, entries@[j as int].1@));
            lemma_contains_lc(dv, d_lc@, m_lc@[j as int]@);
        }
        if !contains_text(&d_lc, &m_lc[j]) {
            missing.push((entries[j].0.clone(), entries[j].1.clone()));
            proof {
                assert(pairs_view(missing@) =~= missing_spec(dv, mv.take(j as int)).push(
                    (entries@[j as int].0@, entries@[j as int].1@),
                ));
            }
        }
        j = j + 1;
    }
    proof {
        assert(mv.take(k as int) =~= mv);
    }
    VerifyReport { matched, unexpected, missing }
}

// ---------------------------------------------------------------------------
// Laws of the check
// ---------------------------------------------------------------------------

/// Whether an entry's lowercased digest is among the lowercased digests of `s`.
pub open spec fn digest_in(s: Seq<(Seq<char>, Seq<char>)>) -> spec_fn((Seq<char>, Seq<char>)) -> bool {
    |e: (Seq<char>, Seq<char>)| lc_hashes(s).contains(lowercase(e.1))
}

/// Whether an entry's lowercased digest is not among the lowercased digests
/// of `s`.
pub open spec fn digest_not_in(s: Seq<(Seq<char>, Seq<char>)>) -> spec_fn(
    (Seq<char>, Seq<char>),
) -> bool {
    |e: (Seq<char>, Seq<char>)| !lc_hashes(s).contains(lowercase(e.1))
}

/// Whether an entry's lowercased digest is `h`.
pub open spec fn digest_is(h: Seq<char>) -> spec_fn((Seq<char>, Seq<char>)) -> bool {
    |e: (Seq<char>, Seq<char>)| lowercase(e.1) == h
}

/// A received object as reported unexpected: its key and lowercased digest.
pub open spec fn as_unexpected() -> spec_fn((Seq<char>, Seq<char>)) -> (Seq<char>, Seq<char>) {
    |e: (Seq<char>, Seq<char>)| (e.0, lowercase(e.1))
}

/// A received object as reported matched: its key and the labels of the
/// manifest entries with its digest, joined by ", ".
pub open spec fn as_matched(m: Seq<(Seq<char>, Seq<char>)>) -> spec_fn((Seq<char>, Seq<char>)) -> (
    Seq<char>,
    Seq<char>,
) {
    |e: (Seq<char>, Seq<char>)| (e.0, join_with(labels_with_hash(m, lowercase(e.1)), ", "@))
}

/// The label of an entry.
pub open spec fn label_of() -> spec_fn((Seq<char>, Seq<char>)) -> Seq<char> {
    |e: (Seq<char>, Seq<char>)| e.0
}

proof fn lemma_missing_is_filter(d: Seq<(Seq<char>, Seq<char>)>, m: Seq<(Seq<char>, Seq<char>)>)
    ensures
        missing_spec(d, m) == m.filter(digest_not_in(d)),
    decreases m.len(),
{
    reveal(Seq::filter);
    if m.len() > 0 {
        lemma_missing_is_filter(d, m.drop_last());
    }
}

proof fn lemma_unexpected_is_filter(d: Seq<(Seq<char>, Seq<char>)>, m: Seq<(Seq<char>, Seq<char>)>)
    ensures
        unexpected_spec(d, m) == d.filter(digest_not_in(m)).map_values(as_unexpected()),
    decreases d.len(),
{
    reveal(Seq::filter);
    if d.len() > 0 {
        lemma_unexpected_is_filter(d.drop_last(), m);
        let f = d.drop_last().filter(digest_not_in(m));
        assert(f.push(d.last()).map_values(as_unexpected()) =~= f.map_values(as_unexpected()).push(
            as_unexpected()(d.last()),
        ));
    }
}

proof fn lemma_matched_is_filter(d: Seq<(Seq<char>, Seq<char>)>, m: Seq<(Seq<char>, Seq<char>)>)
    ensures
        matched_spec(d, m) == d.filter(digest_in(m)).map_values(as_matched(m)),
    decreases d.len(),
{
    reveal(Seq::filter);
    if d.len() > 0 {
        lemma_matched_is_filter(d.drop_last(), m);
        let f = d.drop_last().filter(digest_in(m));
        assert(f.push(d.last()).map_values(as_matched(m)) =~= f.map_values(as_matched(m)).push(
            as_matched(m)(d.last()),
        ));
    }
}

proof fn lemma_labels_is_filter(m: Seq<(Seq<char>, Seq<char>)>, h: Seq<char>)
    ensures
        labels_with_hash(m, h) == m.filter(digest_is(h)).map_values(label_of()),
    decreases m.len(),
{
    reveal(Seq::filter);
    if m.len() > 0 {
        lemma_labels_is_filter(m.drop_last(), h);
        let f = m.drop_last().filter(digest_is(h));
        assert(f.push(m.last()).map_values(label_of()) =~= f.map_values(label_of()).push(
            m.last().0,
        ));
    }
}

/// Law: the missing entries are exactly the manifest entries whose content
/// was not received, in manifest order. Every manifest entry whose
/// lowercased digest is not among the received lowercased digests is
/// reported missing, no entry whose content was received is, and there are
/// as many missing entries as unreceived ones.
pub proof fn lemma_missing_exactly_unreceived(
    d: Seq<(Seq<char>, Seq<char>)>,
    m: Seq<(Seq<char>, Seq<char>)>,
)
    ensures
        missing_spec(d, m) == m.filter(digest_not_in(d)),
        missing_spec(d, m).len() == m.filter(digest_not_in(d)).len(),
        forall|j: int|
            0 <= j < m.len() ==> (missing_spec(d, m).contains(#[trigger] m[j]) <==> !lc_hashes(
                d,
            ).contains(lowercase(m[j].1))),
        forall|k: int|
            0 <= k < missing_spec(d, m).len() ==> m.contains(#[trigger] missing_spec(d, m)[k])
                && !lc_hashes(d).contains(lowercase(missing_spec(d, m)[k].1)),
{
    lemma_missing_is_filter(d, m);
    let p = digest_not_in(d);
    let f = m.filter(p);
    assert forall|j: int| 0 <= j < m.len() implies (missing_spec(d, m).contains(#[trigger] m[j])
        <==> !lc_hashes(d).contains(lowercase(m[j].1))) by {
        if !lc_hashes(d).contains(lowercase(m[j].1)) {
            m.lemma_filter_contains(p, j);
        }
        if f.contains(m[j]) {
            let k = choose|k: int| 0 <= k < f.len() && f[k] == m[j];
            m.lemma_filter_pred(p, k);
        }
    }
    assert forall|k: int| 0 <= k < missing_spec(d, m).len() implies m.contains(
        #[trigger] missing_spec(d, m)[k],
    ) && !lc_hashes(d).contains(lowercase(missing_spec(d, m)[k].1)) by {
        m.lemma_filter_pred(p, k);
        assert(f.contains(f[k]));
        m.lemma_filter_contains_rev(p, f[k]);
    }
}

/// Law: each received object is reported by its key: as matched, with the
/// labels of every manifest entry of the same content, when its lowercased
/// digest is in the manifest; as unexpected, with its lowercased digest,
/// when it is not. The matched and unexpected lists are the received
/// objects of each kind, in the order received, one report per object.
pub proof fn lemma_received_exactly_classified(
    d: Seq<(Seq<char>, Seq<char>)>,
    m: Seq<(Seq<char>, Seq<char>)>,
)
    ensures
        matched_spec(d, m) == d.filter(digest_in(m)).map_values(as_matched(m)),
        unexpected_spec(d, m) == d.filter(digest_not_in(m)).map_values(as_unexpected()),
        matched_spec(d, m).len() == d.filter(digest_in(m)).len(),
        unexpected_spec(d, m).len() == d.filter(digest_not_in(m)).len(),
        forall|i: int|
            0 <= i < d.len() && lc_hashes(m).contains(lowercase((#[trigger] d[i]).1))
                ==> matched_spec(d, m).contains(
                (d[i].0, join_with(labels_with_hash(m, lowercase(d[i].1)), ", "@)),
            ),
        forall|i: int|
            0 <= i < d.len() && !lc_hashes(m).contains(lowercase((#[trigger] d[i]).1))
                ==> unexpected_spec(d, m).contains((d[i].0, lowercase(d[i].1))),
        forall|k: int|
            0 <= k < unexpected_spec(d, m).len() ==> !lc_hashes(m).contains(
                (#[trigger] unexpected_spec(d, m)[k]).1,
            ),
{
    lemma_matched_is_filter(d, m);
    lemma_unexpected_is_filter(d, m);
    let pi = digest_in(m);
    let po = digest_not_in(m);
    let fi = d.filter(pi);
    let fo = d.filter(po);
    assert forall|i: int|
        0 <= i < d.len() && lc_hashes(m).contains(lowercase((#[trigger] d[i]).1))
        implies matched_spec(d, m).contains(
        (d[i].0, join_with(labels_with_hash(m, lowercase(d[i].1)), ", "@)),
    ) by {
        d.lemma_filter_contains(pi, i);
        let j = choose|j: int| 0 <= j < fi.len() && fi[j] == d[i];
        assert(matched_spec(d, m)[j] == as_matched(m)(d[i]));
    }
    assert forall|i: int|
        0 <= i < d.len() && !lc_hashes(m).contains(lowercase((#[trigger] d[i]).1))
        implies unexpected_spec(d, m).contains((d[i].0, lowercase(d[i].1))) by {
        d.lemma_filter_contains(po, i);
        let j = choose|j: int| 0 <= j < fo.len() && fo[j] == d[i];
        assert(unexpected_spec(d, m)[j] == as_unexpected()(d[i]));
    }
    assert forall|k: int| 0 <= k < unexpected_spec(d, m).len() implies !lc_hashes(m).contains(
        (#[trigger] unexpected_spec(d, m)[k]).1,
    ) by {
        d.lemma_filter_pred(po, k);
        assert(unexpected_spec(d, m)[k] == as_unexpected()(fo[k]));
    }
}

/// Law: the labels joined for a digest are exactly the labels of the
/// manifest entries with that lowercased digest, in manifest order: each
/// such label is there, and each label there has that digest.
pub proof fn lemma_labels_exactly_same_digest(m: Seq<(Seq<char>, Seq<char>)>, h: Seq<char>)
    ensures
        labels_with_hash(m, h) == m.filter(digest_is(h)).map_values(label_of()),
        labels_with_hash(m, h).len() == m.filter(digest_is(h)).len(),
        forall|j: int|
            0 <= j < m.len() && lowercase((#[trigger] m[j]).1) == h ==> labels_with_hash(
                m,
                h,
            ).contains(m[j].0),
{
    lemma_labels_is_filter(m, h);
    let p = digest_is(h);
    let f = m.filter(p);
    assert forall|j: int| 0 <= j < m.len() && lowercase((#[trigger] m[j]).1) == h implies labels_with_hash(
        m,
        h,
    ).contains(m[j].0) by {
        m.lemma_filter_contains(p, j);
        let k = choose|k: int| 0 <= k < f.len() && f[k] == m[j];
        assert(labels_with_hash(m, h)[k] == m[j].0);
    }
}

/// Law: every received object is reported exactly once, as matched or as
/// unexpected.
pub proof fn lemma_verify_partition(d: Seq<(Seq<char>, Seq<char>)>, m: Seq<(Seq<char>, Seq<char>)>)
    ensures
        matched_spec(d, m).len() + unexpected_spec(d, m).len() == d.len(),
    decreases d.len(),
{
    if d.len() > 0 {
        lemma_verify_partition(d.drop_last(), m);
    }
}

proof fn lemma_unexpected_empty_iff(d: Seq<(Seq<char>, Seq<char>)>, m: Seq<(Seq<char>, Seq<char>)>)
    ensures
        unexpected_spec(d, m).len() == 0 <==> forall|i: int|
            0 <= i < d.len() ==> lc_hashes(m).contains(#[trigger] lc_hashes(d)[i]),
    decreases d.len(),
{
    if d.len() > 0 {
        lemma_unexpected_empty_iff(d.drop_last(), m);
        let p = d.drop_last();
        assert forall|i: int| 0 <= i < p.len() implies lc_hashes(p)[i] == lc_hashes(d)[i] by {}
        if unexpected_spec(d, m).len() == 0 {
            assert forall|i: int| 0 <= i < d.len() implies lc_hashes(m).contains(
                #[trigger] lc_hashes(d)[i],
            ) by {
                if i < p.len() {
                    assert(lc_hashes(p)[i] == lc_hashes(d)[i]);
                }
            }
        }
        if forall|i: int| 0 <= i < d.len() ==> lc_hashes(m).contains(#[trigger] lc_hashes(d)[i]) {
            assert(lc_hashes(m).contains(lc_hashes(d)[d.len() - 1]));
            assert forall|i: int| 0 <= i < p.len() implies lc_hashes(m).contains(
                #[trigger] lc_hashes(p)[i],
            ) by {
                assert(lc_hashes(p)[i] == lc_hashes(d)[i]);
            }
        }
    }
}

proof fn lemma_missing_empty_iff(d: Seq<(Seq<char>, Seq<char>)>, m: Seq<(Seq<char>, Seq<char>)>)
    ensures
        missing_spec(d, m).len() == 0 <==> forall|j: int|
            0 <= j < m.len() ==> lc_hashes(d).contains(#[trigger] lc_hashes(m)[j]),
    decreases m.len(),
{
    if m.len() > 0 {
        lemma_missing_empty_iff(d, m.drop_last());
        let p = m.drop_last();
        if missing_spec(d, m).len() == 0 {
            assert forall|j: int| 0 <= j < m.len() implies lc_hashes(d).contains(
                #[trigger] lc_hashes(m)[j],
            ) by {
                if j < p.len() {
                    assert(lc_hashes(p)[j] == lc_hashes(m)[j]);
                }
            }
        }
        if forall|j: int| 0 <= j < m.len() ==> lc_hashes(d).contains(#[trigger] lc_hashes(m)[j]) {
            assert(lc_hashes(d).contains(lc_hashes(m)[m.len() - 1]));
            assert forall|j: int| 0 <= j < p.len() implies lc_hashes(d).contains(
                #[trigger] lc_hashes(p)[j],
            ) by {
                assert(lc_hashes(p)[j] == lc_hashes(m)[j]);
            }
        }
    }
}

/// Law: the check passes exactly when every received digest is in the
/// manifest and every manifest digest was received (digests compared in
/// lowercase).
pub proof fn lemma_verify_ok_iff(d: Seq<(Seq<char>, Seq<char>)>, m: Seq<(Seq<char>, Seq<char>)>)
    ensures
        (unexpected_spec(d, m).len() == 0 && missing_spec(d, m).len() == 0) <==> ((forall|i: int|
            0 <= i < d.len() ==> lc_hashes(m).contains(#[trigger] lc_hashes(d)[i])) && (forall|
            j: int,
        |
            0 <= j < m.len() ==> lc_hashes(d).contains(#[trigger] lc_hashes(m)[j]))),
{
    lemma_unexpected_empty_iff(d, m);
    lemma_missing_empty_iff(d, m);
}

proof fn lemma_missing_depends_on_digests(
    d1: Seq<(Seq<char>, Seq<char>)>,
    d2: Seq<(Seq<char>, Seq<char>)>,
    m: Seq<(Seq<char>, Seq<char>)>,
)
    requires
        lc_hashes(d1) == lc_hashes(d2),
    ensures
        missing_spec(d1, m) == missing_spec(d2, m),
    decreases m.len(),
{
    if m.len() > 0 {
        lemma_missing_depends_on_digests(d1, d2, m.drop_last());
    }
}

/// Law: the object keys play no part in the check. Two lists of received
/// objects with the same digests in the same order get the same missing
/// entries, as many matched and unexpected objects, and the same verdict.
pub proof fn lemma_verify_ignores_keys(
    d1: Seq<(Seq<char>, Seq<char>)>,
    d2: Seq<(Seq<char>, Seq<char>)>,
    m: Seq<(Seq<char>, Seq<char>)>,
)
    requires
        d1.len() == d2.len(),
        forall|i: int| 0 <= i < d1.len() ==> (#[trigger] d1[i]).1 == d2[i].1,
    ensures
        missing_spec(d1, m) == missing_spec(d2, m),
        matched_spec(d1, m).len() == matched_spec(d2, m).len(),
        unexpected_spec(d1, m).len() == unexpected_spec(d2, m).len(),
    decreases d1.len(),
{
    assert(lc_hashes(d1) =~= lc_hashes(d2)) by {
        assert forall|i: int| 0 <= i < d1.len() implies lc_hashes(d1)[i] == lc_hashes(d2)[i] by {
            assert(d1[i].1 == d2[i].1);
        }
    }
    lemma_missing_depends_on_digests(d1, d2, m);
    if d1.len() > 0 {
        let p1 = d1.drop_last();
        let p2 = d2.drop_last();
        assert forall|i: int| 0 <= i < p1.len() implies (#[trigger] p1[i]).1 == p2[i].1 by {
            assert(p1[i] == d1[i] && p2[i] == d2[i]);
        }
        lemma_verify_ignores_keys(p1, p2, m);
        assert(d1.last().1 == d2.last().1);
    }
}

/// Law: a manifest checked against objects carrying exactly its own
/// digests passes, whatever the objects are called.
pub proof fn lemma_verify_own_digests_ok(
    d: Seq<(Seq<char>, Seq<char>)>,
    m: Seq<(Seq<char>, Seq<char>)>,
)
    requires
        d.len() == m.len(),
        forall|i: int| 0 <= i < d.len() ==> (#[trigger] d[i]).1 == m[i].1,
    ensures
        unexpected_spec(d, m).len() == 0,
        missing_spec(d, m).len() == 0,
{
    assert(lc_hashes(d) =~= lc_hashes(m)) by {
        assert forall|i: int| 0 <= i < d.len() implies lc_hashes(d)[i] == lc_hashes(m)[i] by {
            assert(d[i].1 == m[i].1);
        }
    }
    assert forall|i: int| 0 <= i < d.len() implies lc_hashes(m).contains(
        #[trigger] lc_hashes(d)[i],
    ) by {
        assert(lc_hashes(m)[i] == lc_hashes(d)[i]);
    }
    lemma_verify_ok_iff(d, m);
}

// ---------------------------------------------------------------------------
// The manifest as JSON
// ---------------------------------------------------------------------------

/// Law: a manifest written as JSON reads back as the same manifest. When
/// serde_json reads `bytes` as the label-sorted entries `v` (which is what
/// `manifest_to_pretty_json` ensures of its text), the manifest that
/// `parse_manifest` builds from them is `v` itself.
pub proof fn lemma_manifest_json_round_trip(bytes: Seq<u8>, v: Seq<(Seq<char>, Seq<char>)>)
    requires
        labels_sorted(v),
        json_string_map(bytes) == Some(v),
    ensures
        insert_all(Seq::empty(), json_string_map(bytes)->0) == v,
{
    lemma_insert_all_sorted(v);
}

#[verifier::external_type_specification]
#[verifier::external_body]
pub struct ExJsonError(serde_json::Error);

/// What serde_json reads from `bytes` as a JSON object of string values
/// (`from_slice` into a `BTreeMap<String, String>`): its entries in
/// ascending key order, or nothing when the bytes are not such an object.
pub uninterp spec fn json_string_map(bytes: Seq<u8>) -> Option<Seq<(Seq<char>, Seq<char>)>>;

/// `serde_json::from_slice` into a `BTreeMap<String, String>`, handing out
/// the map's entries in its (ascending key) order.
#[verifier::external_body]
fn parse_string_map(bytes: &[u8]) -> (r: Result<Vec<(String, String)>, serde_json::Error>)
    ensures
        r is Ok <==> json_string_map(bytes@) is Some,
        r matches Ok(v) ==> pairs_view(v@) == json_string_map(bytes@)->0,
{
    match serde_json::from_slice::<std::collections::BTreeMap<String, String>>(bytes) {
        Ok(m) => Ok(m.into_iter().collect()),
        Err(e) => Err(e),
    }
}

/// serde_json's message for an error (its `Display`). Nothing is stated of
/// the text.
#[verifier::external_body]
fn json_error_text(e: &serde_json::Error) -> String {
    e.to_string()
}

/// A manifest read from its JSON text: an object mapping each label to its
/// digest.
pub fn parse_manifest(bytes: &[u8]) -> (r: Result<Manifest, IntakeError>)
    ensures
        r is Ok <==> json_string_map(bytes@) is Some,
        r matches Ok(m) ==> labels_sorted(m@) && m@ == insert_all(Seq::empty(), json_string_map(bytes@)->0),
        r matches Ok(m) ==> (labels_sorted(json_string_map(bytes@)->0) ==> m@
            == json_string_map(bytes@)->0),
        r matches Err(e) ==> e is Json,
{
    proof {
        if labels_sorted(json_string_map(bytes@)->0) {
            lemma_insert_all_sorted(json_string_map(bytes@)->0);
        }
    }
    match parse_string_map(bytes) {
        Ok(pairs) => Ok(build_manifest(&pairs)),
        Err(e) => Err(IntakeError::Json(json_error_text(&e))),
    }
}

/// The pretty JSON text of an object of string values, as serde_json writes
/// it: `{}` when empty, otherwise each `"key": "value"` on its own line
/// indented by two spaces, separated by commas.
pub open spec fn pretty_json_object(s: Seq<(Seq<char>, Seq<char>)>) -> Seq<char> {
    if s.len() == 0 {
        "{}"@
    } else {
        "{"@ + pretty_members(s) + "\n}"@
    }
}

/// The members of a pretty JSON object, each preceded by a line break and
/// two spaces of indentation.
pub open spec fn pretty_members(s: Seq<(Seq<char>, Seq<char>)>) -> Seq<char>
    decreases s.len(),
{
    if s.len() == 0 {
        Seq::<char>::empty()
    } else {
        let prev = pretty_members(s.drop_last());
        let member = "\n  "@ + json_quote(s.last().0) + ": "@ + json_quote(s.last().1);
        if s.len() == 1 {
            member
        } else {
            prev + ","@ + member
        }
    }
}

/// `serde_json::to_string_pretty` of the `BTreeMap<&str, &str>` holding
/// `entries`. With keys already strictly ascending the map keeps the
/// entries in the given order, and the text is the pretty JSON object of
/// them (serde_json's `PrettyFormatter`, two-space indentation). Writing a
/// map with string keys and values into memory never fails, and serde_json
/// reads the text back (`from_slice` into a `BTreeMap<String, String>`) as
/// the same entries.
#[verifier::external_body]
fn pretty_string_map(entries: &Vec<(String, String)>) -> (r: Result<String, serde_json::Error>)
    requires
        labels_sorted(pairs_view(entries@)),
    ensures
        r is Ok,
        r matches Ok(s) ==> s@ == pretty_json_object(pairs_view(entries@)),
        r matches Ok(s) ==> json_string_map(vstd::utf8::encode_utf8(s@)) == Some(
            pairs_view(entries@),
        ),
{
    let m: std::collections::BTreeMap<&str, &str> = entries.iter().map(
        |e| (e.0.as_str(), e.1.as_str()),
    ).collect();
    serde_json::to_string_pretty(&m)
}

/// The manifest as pretty JSON: `{ "<label>": "<sha256>", ... }` in label
/// order. It always succeeds, and its UTF-8 bytes read back (through
/// `parse_manifest`) as the same manifest.
pub fn manifest_to_pretty_json(m: &Manifest) -> (r: Result<String, IntakeError>)
    ensures
        r is Ok,
        r matches Ok(s) ==> s@ == pretty_json_object(m@),
        r matches Ok(s) ==> json_string_map(vstd::utf8::encode_utf8(s@)) == Some(m@),
{
    m.labels_are_sorted();
    match pretty_string_map(m.entries()) {
        Ok(s) => Ok(s),
        Err(e) => Err(IntakeError::Json(json_error_text(&e))),
    }
}

} // verus!
