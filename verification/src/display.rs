//! Text shown to the operator.
use vstd::prelude::*;
use vstd::string::StringSliceAdditionalSpecFns;
use vstd::utf8::is_char_boundary;

verus! {

/// Number of leading bytes of a digest shown in a report line.
pub open spec fn short_len(h: &str) -> int {
    if h.spec_bytes().len() < 12 {
        h.spec_bytes().len() as int
    } else {
        12
    }
}

/// The first twelve bytes of a digest (all of it when shorter), for a
/// report line. The cut must fall between two characters, which it always
/// does for a hexadecimal digest.
pub fn short(h: &str) -> (r: &str)
    requires
        h.spec_bytes().len() <= usize::MAX,
        h.spec_bytes().len() <= 12 || is_char_boundary(h.spec_bytes(), 12),
    ensures
        r.spec_bytes() == h.spec_bytes().subrange(0, short_len(h)),
{
    proof {
        vstd::utf8::encode_utf8_valid_utf8(h@);
        vstd::utf8::is_char_boundary_start_end_of_seq(h.spec_bytes());
    }
    let n: usize = if h.len() < 12 { h.len() } else { 12 };
    h.split_at(n).0
}

} // verus!
