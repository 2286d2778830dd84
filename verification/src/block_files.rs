//! The heights of the Bitcoin blocks kept as `<height>.hex` files, in order.

use crate::text::{parse_u64_bytes, parse_unsigned_spec};
use vstd::prelude::*;
use vstd::seq_lib::{to_multiset_build, to_multiset_insert};
use vstd::utf8::encode_utf8;

verus! {

/// Heights in increasing order (repeats side by side).
pub open spec fn heights_sorted(s: Seq<u64>) -> bool {
    forall|i: int, j: int| 0 <= i <= j < s.len() ==> s[i] <= s[j]
}

/// The heights that the file stems denote, when each is a `u64` in decimal.
pub open spec fn stem_heights(stems: Seq<Seq<u8>>) -> Option<Seq<u64>>
    decreases stems.len(),
{
    if stems.len() == 0 {
        Some(Seq::empty())
    } else {
        match (stem_heights(stems.drop_last()), parse_unsigned_spec(stems.last(), u64::MAX as nat)) {
            (Some(hs), Some(h)) => Some(hs.push(h as u64)),
            _ => None,
        }
    }
}

pub open spec fn stems_bytes(stems: Seq<String>) -> Seq<Seq<u8>> {
    stems.map_values(|s: String| encode_utf8(s@))
}

/// Inserts `x` into sorted heights, after the heights not above it.
fn insert_sorted(r: &mut Vec<u64>, x: u64)
    requires
        heights_sorted(old(r)@),
    ensures
        heights_sorted(final(r)@),
        final(r)@.to_multiset() == old(r)@.to_multiset().insert(x),
{
    let mut p: usize = 0;
    while p < r.len() && r[p] <= x
        invariant
            0 <= p <= r@.len(),
            r@ == old(r)@,
            heights_sorted(r@),
            forall|k: int| 0 <= k < p ==> r@[k] <= x,
        decreases r@.len() - p,
    {
        p = p + 1;
    }
    let ghost before = r@;
    r.insert(p, x);
    proof {
        to_multiset_insert(before, p as int, x);
        assert forall|k: int| p <= k < before.len() implies x < before[k] by {
            assert(x < before[p as int]);
        }
        assert forall|i: int, j: int| 0 <= i <= j < r@.len() implies r@[i] <= r@[j] by {
            if i < p && j < p {
                assert(r@[i] == before[i] && r@[j] == before[j]);
            } else if i < p && j == p {
            } else if i < p {
                assert(r@[i] == before[i] && r@[j] == before[j - 1]);
            } else if i == p && j > p {
                assert(r@[j] == before[j - 1]);
            } else if i > p {
                assert(r@[i] == before[i - 1] && r@[j] == before[j - 1]);
            }
        }
    }
}

/// The heights sorted increasingly, each kept as often as it comes.
pub fn sort_heights(v: &Vec<u64>) -> (r: Vec<u64>)
    ensures
        heights_sorted(r@),
        r@.to_multiset() == v@.to_multiset(),
{
    let mut r: Vec<u64> = Vec::new();
    let mut i: usize = 0;
    proof {
        assert(v@.take(0) =~= r@);
    }
    while i < v.len()
        invariant
            0 <= i <= v@.len(),
            heights_sorted(r@),
            r@.to_multiset() == v@.take(i as int).to_multiset(),
        decreases v@.len() - i,
    {
        insert_sorted(&mut r, v[i]);
        proof {
            assert(v@.take(i + 1) =~= v@.take(i as int).push(v@[i as int]));
            to_multiset_build(v@.take(i as int), v@[i as int]);
        }
        i = i + 1;
    }
    proof {
        assert(v@.take(v@.len() as int) =~= v@);
    }
    r
}

/// The heights of block files from their stems (the names without the
/// `.hex` extension), sorted increasingly; `None` when a stem is not a
/// height.
pub fn find_block_heights(stems: &Vec<String>) -> (r: Option<Vec<u64>>)
    ensures
        match stem_heights(stems_bytes(stems@)) {
            Some(hs) => r matches Some(v) && heights_sorted(v@) && v@.to_multiset() == hs.to_multiset(),
            None => r is None,
        },
{
    let ghost sb = stems_bytes(stems@);
    let mut heights: Vec<u64> = Vec::new();
    let mut i: usize = 0;
    while i < stems.len()
        invariant
            0 <= i <= stems@.len(),
            sb == stems_bytes(stems@),
            stem_heights(sb.take(i as int)) == Some(heights@),
        decreases stems@.len() - i,
    {
        proof {
            assert(sb.take(i + 1).drop_last() =~= sb.take(i as int));
            assert(sb.take(i + 1).last() == encode_utf8(stems@[i as int]@));
        }
        match parse_u64_bytes(stems[i].as_str().as_bytes()) {
            Some(h) => {
                heights.push(h);
            },
            None => {
                proof {
                    lemma_stem_heights_none_extends(sb, i as int + 1);
                }
                return None;
            },
        }
        i = i + 1;
    }
    proof {
        assert(sb.take(sb.len() as int) =~= sb);
    }
    Some(sort_heights(&heights))
}

proof fn lemma_stem_heights_none_extends(sb: Seq<Seq<u8>>, n: int)
    requires
        0 < n <= sb.len(),
        stem_heights(sb.take(n)) is None,
    ensures
        stem_heights(sb) is None,
    decreases sb.len() - n,
{
    if n < sb.len() {
        assert(sb.take(n + 1).drop_last() =~= sb.take(n));
        lemma_stem_heights_none_extends(sb, n + 1);
    } else {
        assert(sb.take(n) =~= sb);
    }
}

} // verus!
