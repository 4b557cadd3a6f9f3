//! The substitution engine: given a template whose braces strictly
//! alternate and one replacement text per brace pair, rebuilds the template
//! with the i-th pair (braces included) replaced by the i-th text.

use vstd::prelude::*;
use vstd::string::*;
use crate::placeholders::char_indices;
use crate::placeholders::lemma_occurrence_indices;
use crate::placeholders::occurrence_indices;
use crate::placeholders::spec_braces_alternate;
use crate::placeholders::spec_pair_count;

verus! {

/// The tail of the substituted text from pair `k` on: the literal text
/// between pair `k - 1` and pair `k`, then the k-th replacement, and so on;
/// after the last pair, the rest of the template.
pub open spec fn spec_substitute_from(t: Seq<char>, values: Seq<Seq<char>>, k: int) -> Seq<char>
    decreases values.len() - k,
    when 0 <= k <= values.len()
{
    let o = occurrence_indices(t, '{');
    let c = occurrence_indices(t, '}');
    let start: int = if k == 0 {
        0
    } else {
        c[k - 1] + 1
    };
    if k == values.len() {
        t.subrange(start, t.len() as int)
    } else {
        t.subrange(start, o[k]) + values[k] + spec_substitute_from(t, values, k + 1)
    }
}

/// The template with the i-th brace pair replaced by the i-th text.
pub open spec fn spec_substitute(t: Seq<char>, values: Seq<Seq<char>>) -> Seq<char> {
    spec_substitute_from(t, values, 0)
}

pub fn substitute(t: &str, values: &Vec<String>) -> (r: String)
    requires
        spec_braces_alternate(t@),
        values@.len() == spec_pair_count(t@),
    ensures
        r@ == spec_substitute(t@, values.deep_view()),
{
    proof {
        lemma_occurrence_indices(t@, '{');
        lemma_occurrence_indices(t@, '}');
    }
    let ghost o = occurrence_indices(t@, '{');
    let ghost c = occurrence_indices(t@, '}');
    let ghost vals = values.deep_view();
    let n: usize = t.unicode_len();
    let opens = char_indices(t, '{');
    let closes = char_indices(t, '}');
    let mut out = String::new();
    let mut cursor: usize = 0;
    let mut k: usize = 0;
    while k < values.len()
        invariant
            spec_braces_alternate(t@),
            o == occurrence_indices(t@, '{'),
            c == occurrence_indices(t@, '}'),
            vals == values.deep_view(),
            values@.len() == spec_pair_count(t@),
            o.len() == c.len() == values@.len(),
            n == t@.len(),
            opens@.len() == o.len(),
            forall|i: int| 0 <= i < opens@.len() ==> #[trigger] opens@[i] as int == o[i],
            closes@.len() == c.len(),
            forall|i: int| 0 <= i < closes@.len() ==> #[trigger] closes@[i] as int == c[i],
            forall|i: int| 0 <= i < o.len() ==> 0 <= #[trigger] o[i] < n && t@[o[i]] == '{',
            forall|i: int| 0 <= i < c.len() ==> 0 <= #[trigger] c[i] < n && t@[c[i]] == '}',
            forall|i: int| 0 <= i < o.len() ==> #[trigger] o[i] < c[i],
            forall|i: int| 0 < i < o.len() ==> c[i - 1] < #[trigger] o[i],
            k <= values@.len(),
            cursor as int == if k == 0 {
                0int
            } else {
                c[k - 1] + 1
            },
            out@ + spec_substitute_from(t@, vals, k as int) == spec_substitute(t@, vals),
        decreases values@.len() - k,
    {
        let ghost out0 = out@;
        let ghost lit = t@.subrange(cursor as int, o[k as int]);
        let ghost rest = spec_substitute_from(t@, vals, k as int + 1);
        let start: usize = opens[k];
        let piece = t.substring_char(cursor, start);
        out.append(piece);
        let value = &values[k];
        out.append(value.as_str());
        proof {
            assert(vals[k as int] == values@[k as int]@);
            assert(out@ == out0 + lit + vals[k as int]);
            assert(spec_substitute_from(t@, vals, k as int) == lit + vals[k as int] + rest);
            assert(out0 + (lit + vals[k as int] + rest) =~= (out0 + lit + vals[k as int]) + rest);
            assert(out@ + rest == spec_substitute(t@, vals));
        }
        cursor = closes[k] + 1;
        k += 1;
    }
    let tail = t.substring_char(cursor, n);
    out.append(tail);
    proof {
        assert(out@ == spec_substitute(t@, vals));
    }
    out
}

} // verus!
