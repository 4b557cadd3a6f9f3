//! Generation-time validation of a schema: tag and field uniqueness, the
//! attribute flag, and the shape of every template that binds placeholders.
//! A schema that passes is one the synthesized operations are defined for.

use vstd::prelude::*;
use vstd::string::*;
use crate::placeholders::char_indices;
use crate::placeholders::extract_placeholders;
use crate::placeholders::lemma_occurrence_indices;
use crate::placeholders::occurrence_indices;
use crate::placeholders::spec_braces_alternate;
use crate::placeholders::spec_pair_count;
use crate::placeholders::spec_placeholders;
use crate::schema::seqs_distinct;
use crate::schema::Arity;
use crate::schema::CaseSpec;
use crate::schema::EnumSpec;
use crate::template::contains_marker;
use crate::template::effective_template;
use crate::template::spec_effective_template;
use crate::template::spec_has_marker;

verus! {

/// Why generation refused a schema.
#[derive(Debug)]
pub enum GenError {
    /// Two cases share a tag.
    DuplicateTag { tag: String },
    /// A case's attribute flag contradicts the presence of its override.
    InconsistentAttribute { tag: String },
    /// Two fields of a named case share a name.
    DuplicateField { tag: String, name: String },
    /// The braces of a placeholder-bearing template do not alternate.
    MalformedTemplate { tag: String },
    /// A positional template's placeholder count differs from the field count.
    PlaceholderCountMismatch { tag: String },
    /// A positional template carries a named placeholder.
    NamedPlaceholderInPositional { tag: String, name: String },
    /// A placeholder of a named case names no declared field.
    UnknownPlaceholder { tag: String, name: String },
    /// Two placeholders of a named case name the same field.
    DuplicatePlaceholder { tag: String, name: String },
}

/// The template of one case is one the engine can bind:
/// - a positional template containing the marker `{}` must have strictly
///   alternating braces, exactly one pair per field, every pair empty;
/// - a named override containing at least one brace pair must have strictly
///   alternating braces and distinct placeholder names, each naming a field.
pub open spec fn spec_case_templates_ok(c: &CaseSpec) -> bool {
    match c.arity {
        Arity::Unit => true,
        Arity::Positional { count } => {
            let t = spec_effective_template(c);
            spec_has_marker(t) ==> {
                &&& spec_braces_alternate(t)
                &&& spec_pair_count(t) == count
                &&& forall|i: int|
                    0 <= i < spec_pair_count(t) ==> (#[trigger] spec_placeholders(t)[i]).len() == 0
            }
        },
        Arity::Named { fields } => match c.override_template {
            Some(ot) => spec_pair_count(ot@) > 0 ==> {
                &&& spec_braces_alternate(ot@)
                &&& seqs_distinct(spec_placeholders(ot@))
                &&& forall|i: int|
                    0 <= i < spec_placeholders(ot@).len() ==> fields.deep_view().contains(
                        #[trigger] spec_placeholders(ot@)[i],
                    )
            },
            None => true,
        },
    }
}

/// Every case's template is one the engine can bind.
pub open spec fn spec_templates_ok(e: &EnumSpec) -> bool {
    forall|i: int|
        0 <= i < e.cases@.len() ==> spec_case_templates_ok(#[trigger] &e.cases@[i])
}

/// A schema generation accepts: well formed, with bindable templates.
pub open spec fn spec_valid(e: &EnumSpec) -> bool {
    e.wf() && spec_templates_ok(e)
}

/// The violation a refusal reports, of the case it names. A duplicate tag
/// is a property of two cases and is stated at the schema level instead.
pub open spec fn spec_error_describes_case(e: &GenError, c: &CaseSpec) -> bool {
    match e {
        GenError::DuplicateTag { .. } => false,
        GenError::InconsistentAttribute { tag } => tag@ == c.tag@ && c.has_explicit_attribute != (
        c.override_template is Some),
        GenError::DuplicateField { tag, name } => tag@ == c.tag@ && (c.arity matches Arity::Named {
            fields,
        } && exists|i: int, j: int|
            #![trigger fields.deep_view()[i], fields.deep_view()[j]]
            0 <= i < j < fields.deep_view().len() && fields.deep_view()[i]
                == fields.deep_view()[j] && name@ == fields.deep_view()[i]),
        GenError::MalformedTemplate { tag } => tag@ == c.tag@ && {
            ||| (c.arity is Positional && spec_has_marker(spec_effective_template(c))
                && !spec_braces_alternate(spec_effective_template(c)))
            ||| (c.arity is Named && (c.override_template matches Some(ot) && spec_pair_count(ot@)
                > 0 && !spec_braces_alternate(ot@)))
        },
        GenError::PlaceholderCountMismatch { tag } => tag@ == c.tag@ && (
        c.arity matches Arity::Positional { count } && spec_has_marker(spec_effective_template(c))
            && spec_pair_count(spec_effective_template(c)) != count),
        GenError::NamedPlaceholderInPositional { tag, name } => tag@ == c.tag@ && c.arity
            is Positional && spec_has_marker(spec_effective_template(c)) && exists|i: int|
            0 <= i < spec_pair_count(spec_effective_template(c)) && #[trigger] spec_placeholders(
                spec_effective_template(c),
            )[i] == name@ && name@.len() > 0,
        GenError::UnknownPlaceholder { tag, name } => tag@ == c.tag@ && (
        c.arity matches Arity::Named { fields } && (c.override_template matches Some(ot) && exists|
            i: int,
        |
            0 <= i < spec_placeholders(ot@).len() && #[trigger] spec_placeholders(ot@)[i] == name@
                && !fields.deep_view().contains(name@))),
        GenError::DuplicatePlaceholder { tag, name } => tag@ == c.tag@ && (
        c.override_template matches Some(ot) && exists|i: int, j: int|
            #![trigger spec_placeholders(ot@)[i], spec_placeholders(ot@)[j]]
            0 <= i < j < spec_placeholders(ot@).len() && spec_placeholders(ot@)[i]
                == spec_placeholders(ot@)[j] && name@ == spec_placeholders(ot@)[i]),
    }
}

/// Finds a pair of equal entries, if any.
fn find_duplicate(v: &Vec<String>) -> (r: Option<String>)
    ensures
        match r {
            Some(name) => !seqs_distinct(v.deep_view()) && exists|i: int, j: int|
                0 <= i < j < v.deep_view().len() && v.deep_view()[i] == v.deep_view()[j]
                    && name@ == v.deep_view()[i],
            None => seqs_distinct(v.deep_view()),
        },
{
    let n: usize = v.len();
    let mut i: usize = 0;
    while i < n
        invariant
            n == v@.len(),
            i <= n,
            forall|a: int, b: int| 0 <= a < b < v@.len() && a < i ==> v@[a]@ != v@[b]@,
        decreases n - i,
    {
        let mut j: usize = i + 1;
        while j < n
            invariant
                n == v@.len(),
                i < j <= n,
                forall|b: int| i < b < j ==> v@[i as int]@ != #[trigger] v@[b]@,
            decreases n - j,
        {
            if v[i] == v[j] {
                proof {
                    assert(v.deep_view()[i as int] == v.deep_view()[j as int]);
                }
                return Some(v[i].clone());
            }
            j += 1;
        }
        i += 1;
    }
    proof {
        assert forall|a: int, b: int|
            0 <= a < b < v.deep_view().len() implies v.deep_view()[a] != v.deep_view()[b] by {
            assert(v@[a]@ != v@[b]@);
        }
    }
    None
}

/// Whether the braces of `t` strictly alternate.
fn braces_alternate_check(t: &str) -> (r: bool)
    ensures
        r == spec_braces_alternate(t@),
{
    let opens = char_indices(t, '{');
    let closes = char_indices(t, '}');
    if opens.len() != closes.len() {
        return false;
    }
    let n: usize = opens.len();
    let mut i: usize = 0;
    while i < n
        invariant
            n == opens@.len() == closes@.len(),
            opens@.len() == occurrence_indices(t@, '{').len(),
            forall|k: int|
                0 <= k < opens@.len() ==> #[trigger] opens@[k] as int == occurrence_indices(
                    t@,
                    '{',
                )[k],
            closes@.len() == occurrence_indices(t@, '}').len(),
            forall|k: int|
                0 <= k < closes@.len() ==> #[trigger] closes@[k] as int == occurrence_indices(
                    t@,
                    '}',
                )[k],
            i <= n,
            forall|k: int|
                0 <= k < i ==> #[trigger] occurrence_indices(t@, '{')[k] < occurrence_indices(
                    t@,
                    '}',
                )[k],
            forall|k: int|
                0 < k < i ==> occurrence_indices(t@, '}')[k - 1] < #[trigger] occurrence_indices(
                    t@,
                    '{',
                )[k],
        decreases n - i,
    {
        if !(opens[i] < closes[i]) {
            return false;
        }
        if i > 0 && !(closes[i - 1] < opens[i]) {
            return false;
        }
        i += 1;
    }
    true
}

impl EnumSpec {
    /// Accepts exactly the schemas every synthesized operation is defined
    /// for. On refusal the error names a case whose declaration or template
    /// breaks the corresponding rule.
    pub fn validate(&self) -> (r: Result<(), GenError>)
        ensures
            r is Ok <==> spec_valid(self),
            match r {
                Ok(()) => true,
                Err(e) => match e {
                    GenError::DuplicateTag { tag } => exists|a: int, b: int|
                        #![trigger self.cases@[a].tag@, self.cases@[b].tag@]
                        0 <= a < b < self.cases@.len() && self.cases@[a].tag@
                            == self.cases@[b].tag@ && tag@ == self.cases@[a].tag@,
                    _ => exists|i: int|
                        0 <= i < self.cases@.len() && spec_error_describes_case(
                            &e,
                            &(#[trigger] self.cases@[i]),
                        ),
                },
            },
    {
        let ghost cs = self.cases@;
        // Tag uniqueness.
        let mut tags: Vec<String> = Vec::new();
        let mut i: usize = 0;
        while i < self.cases.len()
            invariant
                cs == self.cases@,
                i <= cs.len(),
                tags@.len() == i,
                forall|k: int| 0 <= k < i ==> #[trigger] tags@[k]@ == cs[k].tag@,
            decreases cs.len() - i,
        {
            tags.push(self.cases[i].tag.clone());
            i += 1;
        }
        if let Some(tag) = find_duplicate(&tags) {
            proof {
                let (a, b) = choose|a: int, b: int|
                    0 <= a < b < tags.deep_view().len() && tags.deep_view()[a]
                        == tags.deep_view()[b];
                assert(cs[a].tag@ == cs[b].tag@);
            }
            return Err(GenError::DuplicateTag { tag });
        }
        // Per-case checks.
        let mut i: usize = 0;
        while i < self.cases.len()
            invariant
                cs == self.cases@,
                i <= cs.len(),
                forall|k: int| 0 <= k < cs.len() && k < i ==> (#[trigger] cs[k]).wf(),
                forall|k: int|
                    0 <= k < cs.len() && k < i ==> spec_case_templates_ok(#[trigger] &cs[k]),
            decreases cs.len() - i,
        {
            let c = &self.cases[i];
            match self.check_case(c) {
                Ok(()) => {},
                Err(e) => {
                    return Err(e);
                },
            }
            i += 1;
        }
        proof {
            assert forall|a: int, b: int|
                0 <= a < b < cs.len() implies cs[a].tag@ != cs[b].tag@ by {
                assert(tags.deep_view()[a] == tags@[a]@);
                assert(tags.deep_view()[b] == tags@[b]@);
                assert(tags.deep_view()[a] != tags.deep_view()[b]);
            }
        }
        Ok(())
    }

    /// Checks one case's declaration and template.
    fn check_case(&self, c: &CaseSpec) -> (r: Result<(), GenError>)
        ensures
            r is Ok <==> (c.wf() && spec_case_templates_ok(c)),
            match r {
                Ok(()) => true,
                Err(e) => spec_error_describes_case(&e, c),
            },
    {
        if c.has_explicit_attribute != c.override_template.is_some() {
            return Err(GenError::InconsistentAttribute { tag: c.tag.clone() });
        }
        match &c.arity {
            Arity::Unit => Ok(()),
            Arity::Positional { count } => {
                let t = effective_template(c);
                if !contains_marker(t.as_str()) {
                    return Ok(());
                }
                if !braces_alternate_check(t.as_str()) {
                    return Err(GenError::MalformedTemplate { tag: c.tag.clone() });
                }
                let opens = char_indices(t.as_str(), '{');
                let closes = char_indices(t.as_str(), '}');
                proof {
                    lemma_occurrence_indices(t@, '{');
                    lemma_occurrence_indices(t@, '}');
                }
                if opens.len() != *count {
                    return Err(GenError::PlaceholderCountMismatch { tag: c.tag.clone() });
                }
                let n: usize = opens.len();
                let mut k: usize = 0;
                while k < n
                    invariant
                        c.arity matches Arity::Positional { count: pc } && pc == n,
                        t@ == spec_effective_template(c),
                        spec_has_marker(t@),
                        n == opens@.len() == closes@.len(),
                        spec_braces_alternate(t@),
                        n == spec_pair_count(t@),
                        opens@.len() == occurrence_indices(t@, '{').len(),
                        forall|j: int|
                            0 <= j < opens@.len() ==> #[trigger] opens@[j] as int
                                == occurrence_indices(t@, '{')[j],
                        closes@.len() == occurrence_indices(t@, '}').len(),
                        forall|j: int|
                            0 <= j < closes@.len() ==> #[trigger] closes@[j] as int
                                == occurrence_indices(t@, '}')[j],
                        forall|j: int|
                            0 <= j < occurrence_indices(t@, '{').len() ==> 0
                                <= #[trigger] occurrence_indices(t@, '{')[j] < t@.len(),
                        forall|j: int|
                            0 <= j < occurrence_indices(t@, '}').len() ==> 0
                                <= #[trigger] occurrence_indices(t@, '}')[j] < t@.len(),
                        k <= n,
                        forall|j: int|
                            0 <= j < k ==> (#[trigger] spec_placeholders(t@)[j]).len() == 0,
                    decreases n - k,
                {
                    if closes[k] != opens[k] + 1 {
                        let name = t.as_str().substring_char(opens[k] + 1, closes[k]).to_owned();
                        proof {
                            assert(spec_placeholders(t@)[k as int].len() > 0);
                            let st = spec_effective_template(c);
                            assert(st == t@);
                            assert((spec_placeholders(st)[k as int]).len() != 0);
                            assert(!spec_case_templates_ok(c));
                        }
                        return Err(
                            GenError::NamedPlaceholderInPositional { tag: c.tag.clone(), name },
                        );
                    }
                    proof {
                        assert(spec_placeholders(t@)[k as int].len() == 0);
                    }
                    k += 1;
                }
                Ok(())
            },
            Arity::Named { fields } => {
                if let Some(dup) = find_duplicate(fields) {
                    return Err(GenError::DuplicateField { tag: c.tag.clone(), name: dup });
                }
                match &c.override_template {
                    None => Ok(()),
                    Some(ot) => {
                        let opens = char_indices(ot.as_str(), '{');
                        let closes = char_indices(ot.as_str(), '}');
                        let pairs: usize = if opens.len() <= closes.len() {
                            opens.len()
                        } else {
                            closes.len()
                        };
                        if pairs == 0 {
                            return Ok(());
                        }
                        if !braces_alternate_check(ot.as_str()) {
                            return Err(GenError::MalformedTemplate { tag: c.tag.clone() });
                        }
                        let names = extract_placeholders(ot.as_str());
                        if let Some(dup) = find_duplicate(&names) {
                            return Err(
                                GenError::DuplicatePlaceholder { tag: c.tag.clone(), name: dup },
                            );
                        }
                        let mut k: usize = 0;
                        while k < names.len()
                            invariant
                                c.arity matches Arity::Named { fields: f } && f == *fields,
                                c.override_template matches Some(o) && o@ == ot@,
                                spec_braces_alternate(ot@),
                                spec_pair_count(ot@) > 0,
                                names.deep_view() =~= spec_placeholders(ot@),
                                k <= names@.len(),
                                forall|j: int|
                                    0 <= j < k ==> fields.deep_view().contains(
                                        #[trigger] names.deep_view()[j],
                                    ),
                        decreases names@.len() - k,
                        {
                            if !contains_string(fields, &names[k]) {
                                proof {
                                    assert(names.deep_view()[k as int] == names@[k as int]@);
                                    assert(!fields.deep_view().contains(
                                        spec_placeholders(ot@)[k as int],
                                    ));
                                    assert(!spec_case_templates_ok(c));
                                }
                                return Err(
                                    GenError::UnknownPlaceholder {
                                        tag: c.tag.clone(),
                                        name: names[k].clone(),
                                    },
                                );
                            }
                            k += 1;
                        }
                        Ok(())
                    },
                }
            },
        }
    }
}

/// Whether some entry of `v` equals `name`.
pub(crate) fn contains_string(v: &Vec<String>, name: &String) -> (r: bool)
    ensures
        r == v.deep_view().contains(name@),
{
    let n: usize = v.len();
    let mut i: usize = 0;
    while i < n
        invariant
            n == v@.len(),
            i <= n,
            forall|j: int| 0 <= j < i ==> #[trigger] v@[j]@ != name@,
        decreases n - i,
    {
        if v[i] == *name {
            proof {
                assert(v.deep_view()[i as int] == name@);
            }
            return true;
        }
        i += 1;
    }
    proof {
        assert forall|j: int| 0 <= j < v.deep_view().len() implies #[trigger] v.deep_view()[j]
            != name@ by {
            assert(v@[j]@ != name@);
        }
    }
    false
}

} // verus!
