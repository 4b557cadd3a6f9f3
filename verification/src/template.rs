//! The template resolver: computes each case's effective template, and
//! detects the positional placeholder marker `{}`.

use vstd::prelude::*;
use vstd::string::*;
use crate::schema::Arity;
use crate::schema::CaseSpec;

verus! {

/// The effective template of a case: the override text verbatim if one was
/// given; otherwise a single positional placeholder for a positional case,
/// and the bare tag for the other shapes.
pub open spec fn spec_effective_template(c: &CaseSpec) -> Seq<char> {
    match c.override_template {
        Some(t) => t@,
        None => match c.arity {
            Arity::Positional { .. } => seq!['{', '}'],
            _ => c.tag@,
        },
    }
}

pub fn effective_template(c: &CaseSpec) -> (r: String)
    ensures
        r@ == spec_effective_template(c),
{
    match &c.override_template {
        Some(t) => t.clone(),
        None => match &c.arity {
            Arity::Positional { .. } => {
                let r = "{}".to_owned();
                proof {
                    reveal_strlit("{}");
                    assert(r@ =~= seq!['{', '}']);
                }
                r
            },
            _ => c.tag.clone(),
        },
    }
}

/// Whether the text contains the two-character marker `{}` anywhere.
pub open spec fn spec_has_marker(t: Seq<char>) -> bool {
    exists|i: int| 0 <= i && i + 1 < t.len() && #[trigger] t[i] == '{' && t[i + 1] == '}'
}

pub fn contains_marker(t: &str) -> (r: bool)
    ensures
        r == spec_has_marker(t@),
{
    let n: usize = t.unicode_len();
    if n < 2 {
        return false;
    }
    let mut i: usize = 0;
    while i + 1 < n
        invariant
            n == t@.len(),
            i < n,
            forall|j: int| 0 <= j < i ==> !(#[trigger] t@[j] == '{' && t@[j + 1] == '}'),
        decreases n - i,
    {
        if t.get_char(i) == '{' && t.get_char(i + 1) == '}' {
            assert(t@[i as int] == '{' && t@[i as int + 1] == '}');
            return true;
        }
        i += 1;
    }
    false
}

} // verus!
