//! The placeholder extractor: scans a template for `{` and `}` occurrences,
//! pairs the i-th opening brace with the i-th closing brace, and takes the
//! text strictly between each pair as a placeholder name. Pairing is by
//! occurrence order, not by nesting depth.

use vstd::prelude::*;
use vstd::string::*;

verus! {

/// Indices, in ascending order, at which character `c` occurs in `s`.
pub open spec fn occurrence_indices(s: Seq<char>, c: char) -> Seq<int>
    decreases s.len(),
{
    if s.len() == 0 {
        Seq::empty()
    } else if s.last() == c {
        occurrence_indices(s.drop_last(), c).push(s.len() - 1)
    } else {
        occurrence_indices(s.drop_last(), c)
    }
}

/// The occurrence list is exactly the ascending list of the positions
/// holding `c`: every entry is in range and holds `c`, entries ascend, and
/// no position holding `c` is missing.
pub proof fn lemma_occurrence_indices(s: Seq<char>, c: char)
    ensures
        forall|k: int|
            0 <= k < occurrence_indices(s, c).len() ==> 0 <= #[trigger] occurrence_indices(s, c)[k]
                < s.len() && s[occurrence_indices(s, c)[k]] == c,
        forall|k1: int, k2: int|
            0 <= k1 < k2 < occurrence_indices(s, c).len() ==> occurrence_indices(s, c)[k1]
                < occurrence_indices(s, c)[k2],
        forall|i: int|
            0 <= i < s.len() && #[trigger] s[i] == c ==> occurrence_indices(s, c).contains(i),
    decreases s.len(),
{
    if s.len() > 0 {
        lemma_occurrence_indices(s.drop_last(), c);
        let pre = occurrence_indices(s.drop_last(), c);
        assert(forall|k: int|
            0 <= k < pre.len() ==> s[#[trigger] pre[k]] == s.drop_last()[pre[k]]);
        assert forall|i: int|
            0 <= i < s.len() && #[trigger] s[i] == c implies occurrence_indices(s, c).contains(
            i,
        ) by {
            if i < s.len() - 1 {
                assert(s.drop_last()[i] == c);
                assert(pre.contains(i));
                let k = choose|k: int| 0 <= k < pre.len() && pre[k] == i;
                assert(occurrence_indices(s, c)[k] == i);
            } else {
                assert(s.last() == c);
                let occ = occurrence_indices(s, c);
                assert(occ[occ.len() - 1] == i);
            }
        }
    }
}

/// Lists the positions of `c` in `t`, in ascending order.
pub fn char_indices(t: &str, c: char) -> (r: Vec<usize>)
    ensures
        r@.len() == occurrence_indices(t@, c).len(),
        forall|k: int| 0 <= k < r@.len() ==> #[trigger] r@[k] as int == occurrence_indices(t@, c)[k],
{
    let n: usize = t.unicode_len();
    let mut r: Vec<usize> = Vec::new();
    let mut i: usize = 0;
    while i < n
        invariant
            n == t@.len(),
            i <= n,
            r@.len() == occurrence_indices(t@.take(i as int), c).len(),
            forall|k: int|
                0 <= k < r@.len() ==> #[trigger] r@[k] as int == occurrence_indices(
                    t@.take(i as int),
                    c,
                )[k],
        decreases n - i,
    {
        proof {
            assert(t@.take(i as int + 1).drop_last() =~= t@.take(i as int));
            assert(t@.take(i as int + 1).last() == t@[i as int]);
        }
        if t.get_char(i) == c {
            r.push(i);
        }
        i += 1;
    }
    proof {
        assert(t@.take(n as int) =~= t@);
    }
    r
}

/// How many placeholder pairs the naive pairing finds: the smaller of the
/// number of opening and of closing braces.
pub open spec fn spec_pair_count(t: Seq<char>) -> nat {
    let o = occurrence_indices(t, '{').len();
    let c = occurrence_indices(t, '}').len();
    if o <= c {
        o
    } else {
        c
    }
}

/// The braces of `t` strictly alternate: as many closing as opening braces,
/// each pair opens before it closes, and each pair closes before the next
/// one opens. Substitution is defined for exactly these templates.
pub open spec fn spec_braces_alternate(t: Seq<char>) -> bool {
    let o = occurrence_indices(t, '{');
    let c = occurrence_indices(t, '}');
    &&& o.len() == c.len()
    &&& forall|i: int| 0 <= i < o.len() ==> #[trigger] o[i] < c[i]
    &&& forall|i: int| 0 < i < o.len() ==> c[i - 1] < #[trigger] o[i]
}

/// The i-th placeholder name: the text strictly between the i-th opening
/// and the i-th closing brace.
pub open spec fn spec_placeholders(t: Seq<char>) -> Seq<Seq<char>> {
    Seq::new(
        spec_pair_count(t),
        |i: int|
            t.subrange(
                occurrence_indices(t, '{')[i] + 1,
                occurrence_indices(t, '}')[i],
            ),
    )
}

/// Extracts the placeholder names of `t` in occurrence order. The naive
/// pairing must not cross: each pair's opening brace must stand before its
/// closing brace.
pub fn extract_placeholders(t: &str) -> (r: Vec<String>)
    requires
        forall|i: int|
            0 <= i < spec_pair_count(t@) ==> #[trigger] occurrence_indices(t@, '{')[i]
                < occurrence_indices(t@, '}')[i],
    ensures
        r.deep_view() =~= spec_placeholders(t@),
{
    proof {
        lemma_occurrence_indices(t@, '{');
        lemma_occurrence_indices(t@, '}');
    }
    let opens = char_indices(t, '{');
    let closes = char_indices(t, '}');
    let n: usize = if opens.len() <= closes.len() {
        opens.len()
    } else {
        closes.len()
    };
    let mut r: Vec<String> = Vec::new();
    let mut k: usize = 0;
    while k < n
        invariant
            n == spec_pair_count(t@),
            forall|i: int|
                0 <= i < n ==> #[trigger] occurrence_indices(t@, '{')[i] < occurrence_indices(
                    t@,
                    '}',
                )[i],
            opens@.len() == occurrence_indices(t@, '{').len(),
            forall|i: int|
                0 <= i < opens@.len() ==> #[trigger] opens@[i] as int == occurrence_indices(
                    t@,
                    '{',
                )[i],
            closes@.len() == occurrence_indices(t@, '}').len(),
            forall|i: int|
                0 <= i < closes@.len() ==> #[trigger] closes@[i] as int == occurrence_indices(
                    t@,
                    '}',
                )[i],
            forall|i: int|
                0 <= i < opens@.len() ==> 0 <= #[trigger] occurrence_indices(t@, '{')[i] < t@.len(),
            forall|i: int|
                0 <= i < closes@.len() ==> 0 <= #[trigger] occurrence_indices(t@, '}')[i]
                    < t@.len(),
            k <= n,
            r@.len() == k,
            forall|i: int| 0 <= i < k ==> #[trigger] r@[i]@ == spec_placeholders(t@)[i],
        decreases n - k,
    {
        let start: usize = opens[k];
        let end: usize = closes[k];
        let name = t.substring_char(start + 1, end).to_owned();
        r.push(name);
        k += 1;
    }
    proof {
        assert forall|i: int| 0 <= i < n implies #[trigger] r.deep_view()[i]
            == spec_placeholders(t@)[i] by {
            assert(r.deep_view()[i] == r@[i]@);
        }
    }
    r
}

} // verus!
