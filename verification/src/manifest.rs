//! The integrity manifest: labels (file names or relative paths) mapped to
//! SHA-256 digests in hexadecimal, kept sorted by label and free of
//! duplicate labels, like an ordered map keyed by the label.
use vstd::prelude::*;
use crate::s3_dataplane::{normalize_path, slash_path};
use crate::text::{owned, lemma_seq_lt_asymmetric, lemma_seq_lt_irreflexive, lemma_seq_lt_total, lemma_seq_lt_transitive, seq_lt, str_equals, str_lt};

verus! {

/// A manifest entry seen as text: (label, digest).
pub open spec fn entry_view(e: (String, String)) -> (Seq<char>, Seq<char>) {
    (e.0@, e.1@)
}

/// A list of (String, String) pairs seen as text.
pub open spec fn pairs_view(v: Seq<(String, String)>) -> Seq<(Seq<char>, Seq<char>)> {
    v.map_values(|e: (String, String)| entry_view(e))
}

/// Labels strictly increase along the list (so no label occurs twice).
pub open spec fn labels_sorted(s: Seq<(Seq<char>, Seq<char>)>) -> bool {
    forall|i: int, j: int| 0 <= i < j < s.len() ==> seq_lt(#[trigger] s[i].0, #[trigger] s[j].0)
}

/// The digest recorded for `label`, if any (the first entry with that label).
pub open spec fn lookup(s: Seq<(Seq<char>, Seq<char>)>, label: Seq<char>) -> Option<Seq<char>>
    decreases s.len(),
{
    if s.len() == 0 {
        None
    } else if s[0].0 == label {
        Some(s[0].1)
    } else {
        lookup(s.drop_first(), label)
    }
}

/// Records `digest` under `label` in a label-sorted list: replaces the entry
/// with that label, or adds one at its place in label order.
pub open spec fn sorted_insert(
    s: Seq<(Seq<char>, Seq<char>)>,
    label: Seq<char>,
    digest: Seq<char>,
) -> Seq<(Seq<char>, Seq<char>)>
    decreases s.len(),
{
    if s.len() == 0 {
        seq![(label, digest)]
    } else if s[0].0 == label {
        seq![(label, digest)] + s.drop_first()
    } else if seq_lt(label, s[0].0) {
        seq![(label, digest)] + s
    } else {
        seq![s[0]] + sorted_insert(s.drop_first(), label, digest)
    }
}

/// Records every pair of `pairs` in turn, starting from `s`.
pub open spec fn insert_all(
    s: Seq<(Seq<char>, Seq<char>)>,
    pairs: Seq<(Seq<char>, Seq<char>)>,
) -> Seq<(Seq<char>, Seq<char>)>
    decreases pairs.len(),
{
    if pairs.len() == 0 {
        s
    } else {
        let prev = insert_all(s, pairs.drop_last());
        sorted_insert(prev, pairs.last().0, pairs.last().1)
    }
}

/// The digest given last for `label` in `pairs`, if any.
pub open spec fn last_for(pairs: Seq<(Seq<char>, Seq<char>)>, label: Seq<char>) -> Option<
    Seq<char>,
>
    decreases pairs.len(),
{
    if pairs.len() == 0 {
        None
    } else if pairs.last().0 == label {
        Some(pairs.last().1)
    } else {
        last_for(pairs.drop_last(), label)
    }
}

/// Number of leading entries whose label is below `label`.
pub open spec fn insert_pos(s: Seq<(Seq<char>, Seq<char>)>, label: Seq<char>) -> int
    decreases s.len(),
{
    if s.len() == 0 || !seq_lt(s[0].0, label) {
        0
    } else {
        1 + insert_pos(s.drop_first(), label)
    }
}

proof fn lemma_insert_pos(s: Seq<(Seq<char>, Seq<char>)>, label: Seq<char>)
    ensures
        0 <= insert_pos(s, label) <= s.len(),
        forall|j: int| 0 <= j < insert_pos(s, label) ==> seq_lt(#[trigger] s[j].0, label),
        insert_pos(s, label) < s.len() ==> !seq_lt(s[insert_pos(s, label)].0, label),
    decreases s.len(),
{
    if s.len() > 0 && seq_lt(s[0].0, label) {
        lemma_insert_pos(s.drop_first(), label);
        assert forall|j: int| 0 <= j < insert_pos(s, label) implies seq_lt(
            #[trigger] s[j].0,
            label,
        ) by {
            if j > 0 {
                assert(s[j] == s.drop_first()[j - 1]);
            }
        }
    }
}

/// Where the new entry lands: if every entry before `p` is below `label` and
/// the entry at `p` (if any) is not, inserting replaces the entry at `p` when
/// it carries `label`, and otherwise puts the new entry at `p`.
proof fn lemma_sorted_insert_at(
    s: Seq<(Seq<char>, Seq<char>)>,
    label: Seq<char>,
    digest: Seq<char>,
    p: int,
)
    requires
        0 <= p <= s.len(),
        forall|j: int| 0 <= j < p ==> seq_lt(#[trigger] s[j].0, label),
        p < s.len() ==> !seq_lt(s[p].0, label),
    ensures
        p < s.len() && s[p].0 == label ==> sorted_insert(s, label, digest) == s.update(
            p,
            (label, digest),
        ),
        !(p < s.len() && s[p].0 == label) ==> sorted_insert(s, label, digest) == s.insert(
            p,
            (label, digest),
        ),
    decreases s.len(),
{
    if s.len() == 0 {
        assert(sorted_insert(s, label, digest) =~= s.insert(p, (label, digest)));
    } else if p == 0 {
        if s[0].0 == label {
            assert(sorted_insert(s, label, digest) =~= s.update(p, (label, digest)));
        } else {
            lemma_seq_lt_total(label, s[0].0);
            assert(sorted_insert(s, label, digest) =~= s.insert(p, (label, digest)));
        }
    } else {
        assert(seq_lt(s[0].0, label));
        lemma_seq_lt_irreflexive(label);
        lemma_seq_lt_asymmetric(s[0].0, label);
        let t = s.drop_first();
        assert forall|j: int| 0 <= j < p - 1 implies seq_lt(#[trigger] t[j].0, label) by {
            assert(t[j] == s[j + 1]);
        }
        lemma_sorted_insert_at(t, label, digest, p - 1);
        if p < s.len() && s[p].0 == label {
            assert(sorted_insert(s, label, digest) =~= s.update(p, (label, digest)));
        } else {
            assert(sorted_insert(s, label, digest) =~= s.insert(p, (label, digest)));
        }
    }
}

/// Law: recording a digest keeps the labels sorted and unique.
pub proof fn lemma_sorted_insert_sorted(
    s: Seq<(Seq<char>, Seq<char>)>,
    label: Seq<char>,
    digest: Seq<char>,
)
    requires
        labels_sorted(s),
    ensures
        labels_sorted(sorted_insert(s, label, digest)),
{
    lemma_insert_pos(s, label);
    let p = insert_pos(s, label);
    lemma_sorted_insert_at(s, label, digest, p);
    let r = sorted_insert(s, label, digest);
    if p < s.len() && s[p].0 == label {
        assert forall|i: int, j: int| 0 <= i < j < r.len() implies seq_lt(
            #[trigger] r[i].0,
            #[trigger] r[j].0,
        ) by {
            assert(r[i].0 == s[i].0);
            assert(r[j].0 == s[j].0);
        }
    } else {
        if p < s.len() {
            lemma_seq_lt_total(label, s[p].0);
        }
        assert forall|i: int, j: int| 0 <= i < j < r.len() implies seq_lt(
            #[trigger] r[i].0,
            #[trigger] r[j].0,
        ) by {
            if j < p {
                assert(r[i] == s[i] && r[j] == s[j]);
            } else if j == p {
                assert(r[i] == s[i]);
            } else if i < p {
                assert(r[i] == s[i] && r[j] == s[j - 1]);
                assert(seq_lt(s[i].0, label));
                if j - 1 > p {
                    assert(seq_lt(s[p].0, s[j - 1].0));
                    lemma_seq_lt_transitive(label, s[p].0, s[j - 1].0);
                }
                lemma_seq_lt_transitive(s[i].0, label, s[j - 1].0);
            } else if i == p {
                assert(r[j] == s[j - 1]);
                if j - 1 > p {
                    assert(seq_lt(s[p].0, s[j - 1].0));
                    lemma_seq_lt_transitive(label, s[p].0, s[j - 1].0);
                }
            } else {
                assert(r[i] == s[i - 1] && r[j] == s[j - 1]);
            }
        }
    }
}

/// Law: after recording `digest` under `label`, looking up `label` gives
/// `digest`, and every other label reads as before.
pub proof fn lemma_sorted_insert_lookup(
    s: Seq<(Seq<char>, Seq<char>)>,
    label: Seq<char>,
    digest: Seq<char>,
    other: Seq<char>,
)
    ensures
        lookup(sorted_insert(s, label, digest), label) == Some(digest),
        other != label ==> lookup(sorted_insert(s, label, digest), other) == lookup(s, other),
    decreases s.len(),
{
    let r = sorted_insert(s, label, digest);
    if s.len() == 0 {
        assert(r[0] == (label, digest));
        assert(r.drop_first() =~= s);
    } else if s[0].0 == label {
        assert(r[0] == (label, digest));
        assert(r.drop_first() =~= s.drop_first());
    } else if seq_lt(label, s[0].0) {
        assert(r[0] == (label, digest));
        assert(r.drop_first() =~= s);
    } else {
        lemma_sorted_insert_lookup(s.drop_first(), label, digest, other);
        assert(r[0] == s[0]);
        assert(r.drop_first() =~= sorted_insert(s.drop_first(), label, digest));
    }
}

/// A label is found exactly when some entry carries it.
pub proof fn lemma_lookup_some_iff(s: Seq<(Seq<char>, Seq<char>)>, label: Seq<char>)
    ensures
        lookup(s, label) is Some <==> exists|j: int| 0 <= j < s.len() && #[trigger] s[j].0 == label,
    decreases s.len(),
{
    if s.len() > 0 {
        lemma_lookup_some_iff(s.drop_first(), label);
        if lookup(s, label) is Some && s[0].0 != label {
            let j = choose|j: int| 0 <= j < s.len() - 1 && #[trigger] s.drop_first()[j].0 == label;
            assert(s[j + 1].0 == label);
        }
        if exists|j: int| 0 <= j < s.len() && #[trigger] s[j].0 == label {
            let j = choose|j: int| 0 <= j < s.len() && #[trigger] s[j].0 == label;
            if j > 0 {
                assert(s.drop_first()[j - 1].0 == label);
            }
        }
    }
}

/// Law: recording a digest adds one entry when the label was new, and keeps
/// the number of entries when it replaced the label's earlier digest.
pub proof fn lemma_sorted_insert_len(
    s: Seq<(Seq<char>, Seq<char>)>,
    label: Seq<char>,
    digest: Seq<char>,
)
    requires
        labels_sorted(s),
    ensures
        sorted_insert(s, label, digest).len() == s.len() + (if lookup(s, label) is Some {
            0int
        } else {
            1int
        }),
{
    lemma_insert_pos(s, label);
    let p = insert_pos(s, label);
    lemma_sorted_insert_at(s, label, digest, p);
    lemma_lookup_some_iff(s, label);
    if !(p < s.len() && s[p].0 == label) {
        if lookup(s, label) is Some {
            let j = choose|j: int| 0 <= j < s.len() && #[trigger] s[j].0 == label;
            if j < p {
                lemma_seq_lt_irreflexive(label);
            } else {
                if j > p {
                    assert(seq_lt(s[p].0, s[j].0));
                }
                lemma_seq_lt_total(label, s[p].0);
                lemma_seq_lt_asymmetric(s[p].0, label);
            }
        }
    }
}

/// Law: building a manifest from a list of (label, digest) pairs keeps, for
/// each label, the digest given last for it, and holds no other label.
pub proof fn lemma_insert_all_lookup(pairs: Seq<(Seq<char>, Seq<char>)>, label: Seq<char>)
    ensures
        lookup(insert_all(Seq::empty(), pairs), label) == last_for(pairs, label),
        labels_sorted(insert_all(Seq::empty(), pairs)),
    decreases pairs.len(),
{
    if pairs.len() > 0 {
        lemma_insert_all_lookup(pairs.drop_last(), label);
        let prev = insert_all(Seq::empty(), pairs.drop_last());
        lemma_sorted_insert_lookup(prev, pairs.last().0, pairs.last().1, label);
        lemma_sorted_insert_sorted(prev, pairs.last().0, pairs.last().1);
    }
}

/// Law: recording, in order, the entries of a list whose labels already
/// strictly increase gives back that very list.
pub proof fn lemma_insert_all_sorted(s: Seq<(Seq<char>, Seq<char>)>)
    requires
        labels_sorted(s),
    ensures
        insert_all(Seq::empty(), s) == s,
    decreases s.len(),
{
    if s.len() > 0 {
        let p = s.drop_last();
        assert(labels_sorted(p)) by {
            assert forall|i: int, j: int| 0 <= i < j < p.len() implies seq_lt(
                #[trigger] p[i].0,
                #[trigger] p[j].0,
            ) by {
                assert(p[i] == s[i] && p[j] == s[j]);
            }
        }
        lemma_insert_all_sorted(p);
        let last = s.last();
        assert forall|j: int| 0 <= j < p.len() implies seq_lt(#[trigger] p[j].0, last.0) by {
            assert(p[j] == s[j]);
        }
        lemma_sorted_insert_at(p, last.0, last.1, p.len() as int);
        assert(p.insert(p.len() as int, (last.0, last.1)) =~= s);
    }
}

/// Label -> SHA-256 digest (lowercase hexadecimal), ordered by label.
pub struct Manifest {
    entries: Vec<(String, String)>,
}

impl View for Manifest {
    type V = Seq<(Seq<char>, Seq<char>)>;

    closed spec fn view(&self) -> Seq<(Seq<char>, Seq<char>)> {
        pairs_view(self.entries@)
    }
}

impl Manifest {
    /// The manifest's invariant: labels strictly increase.
    #[verifier::type_invariant]
    closed spec fn wf(&self) -> bool {
        labels_sorted(self@)
    }

    /// Every manifest keeps its labels strictly increasing.
    pub fn labels_are_sorted(&self)
        ensures
            labels_sorted(self@),
    {
        proof {
            use_type_invariant(self);
        }
    }

    /// An empty manifest.
    pub fn new() -> (r: Manifest)
        ensures
            r@ == Seq::<(Seq<char>, Seq<char>)>::empty(),
    {
        let r = Manifest { entries: Vec::new() };
        assert(r@ =~= Seq::<(Seq<char>, Seq<char>)>::empty());
        r
    }

    /// Number of labels.
    pub fn len(&self) -> (r: usize)
        ensures
            r == self@.len(),
    {
        self.entries.len()
    }

    /// Whether the manifest has no label.
    pub fn is_empty(&self) -> (r: bool)
        ensures
            r == (self@.len() == 0),
    {
        self.entries.len() == 0
    }

    /// The entries, in label order.
    pub fn entries(&self) -> (r: &Vec<(String, String)>)
        ensures
            pairs_view(r@) == self@,
    {
        &self.entries
    }

    /// The digest recorded for `label`.
    pub fn get(&self, label: &str) -> (r: Option<String>)
        ensures
            match r {
                Some(h) => lookup(self@, label@) == Some(h@),
                None => lookup(self@, label@) is None,
            },
    {
        let n = self.entries.len();
        let mut i: usize = 0;
        assert(self@.skip(0) =~= self@);
        while i < n
            invariant
                n == self.entries@.len(),
                i <= n,
                lookup(self@, label@) == lookup(self@.skip(i as int), label@),
            decreases n - i,
        {
            proof {
                let t = self@.skip(i as int);
                assert(t[0] == entry_view(self.entries@[i as int]));
                assert(t.drop_first() =~= self@.skip(i + 1));
            }
            if str_equals(self.entries[i].0.as_str(), label) {
                return Some(self.entries[i].1.clone());
            }
            i = i + 1;
        }
        None
    }

    /// Records `digest` under `label`, replacing an earlier digest for the
    /// same label.
    pub fn insert(&mut self, label: String, digest: String)
        ensures
            labels_sorted(final(self)@),
            final(self)@ == sorted_insert(old(self)@, label@, digest@),
    {
        proof {
            use_type_invariant(&*self);
        }
        let ghost s = self@;
        let mut entries: Vec<(String, String)> = Vec::new();
        std::mem::swap(&mut entries, &mut self.entries);
        assert(pairs_view(entries@) == s);
        let n = entries.len();
        let mut p: usize = 0;
        while p < n
            invariant
                n == entries@.len(),
                s == pairs_view(entries@),
                p <= n,
                forall|j: int| 0 <= j < p ==> seq_lt(#[trigger] s[j].0, label@),
            ensures
                p <= n,
                forall|j: int| 0 <= j < p ==> seq_lt(#[trigger] s[j].0, label@),
                p < n ==> !seq_lt(s[p as int].0, label@),
            decreases n - p,
        {
            if !str_lt(entries[p].0.as_str(), label.as_str()) {
                break;
            }
            p = p + 1;
        }
        proof {
            lemma_sorted_insert_at(s, label@, digest@, p as int);
            lemma_sorted_insert_sorted(s, label@, digest@);
        }
        if p < n && str_equals(entries[p].0.as_str(), label.as_str()) {
            entries.set(p, (label, digest));
        } else {
            entries.insert(p, (label, digest));
        }
        proof {
            if p < n && s[p as int].0 == label@ {
                assert(pairs_view(entries@) =~= s.update(p as int, (label@, digest@)));
            } else {
                assert(pairs_view(entries@) =~= s.insert(p as int, (label@, digest@)));
            }
        }
        self.entries = entries;
    }
}

/// The label of a file in a manifest: for a file found inside a directory
/// given on the command line, its path relative to that directory with `/`
/// separators; for a file given directly, its base name, or its whole path
/// when it has none.
pub open spec fn manifest_label_spec(
    relative_in_dir: Option<Seq<char>>,
    file_name: Option<Seq<char>>,
    whole_path: Seq<char>,
) -> Seq<char> {
    match relative_in_dir {
        Some(rel) => slash_path(rel),
        None => match file_name {
            Some(n) => n,
            None => whole_path,
        },
    }
}

/// The label of a file in a manifest (see `manifest_label_spec`).
pub fn manifest_label(relative_in_dir: Option<&str>, file_name: Option<&str>, whole_path: &str) -> (r:
    String)
    ensures
        r@ == manifest_label_spec(
            match relative_in_dir {
                Some(x) => Some(x@),
                None => None,
            },
            match file_name {
                Some(x) => Some(x@),
                None => None,
            },
            whole_path@,
        ),
{
    match relative_in_dir {
        Some(rel) => normalize_path(rel),
        None => match file_name {
            Some(n) => owned(n),
            None => owned(whole_path),
        },
    }
}

/// Builds a manifest from (label, digest) pairs, in order; when a label
/// occurs more than once, the digest given last wins.
pub fn build_manifest(files: &Vec<(String, String)>) -> (r: Manifest)
    ensures
        labels_sorted(r@),
        r@ == insert_all(Seq::empty(), pairs_view(files@)),
{
    let mut m = Manifest::new();
    let n = files.len();
    let mut i: usize = 0;
    while i < n
        invariant
            n == files@.len(),
            i <= n,
            m@ == insert_all(Seq::empty(), pairs_view(files@).take(i as int)),
        decreases n - i,
    {
        let label = files[i].0.clone();
        let digest = files[i].1.clone();
        m.insert(label, digest);
        proof {
            let t = pairs_view(files@).take(i + 1);
            assert(t.drop_last() =~= pairs_view(files@).take(i as int));
            assert(t.last() == entry_view(files@[i as int]));
        }
        i = i + 1;
    }
    proof {
        assert(pairs_view(files@).take(n as int) =~= pairs_view(files@));
    }
    m.labels_are_sorted();
    m
}

} // verus!
