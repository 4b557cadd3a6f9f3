//! The synthesized operations of the described type: render-to-text,
//! raw template, formatted-argument list, case names, and parse-from-text.
//! Each dispatches on the value's case, as an exhaustive match over the
//! case's shape.

use vstd::prelude::*;
use vstd::string::*;
use crate::placeholders::extract_placeholders;
use crate::placeholders::lemma_occurrence_indices;
use crate::placeholders::spec_pair_count;
use crate::placeholders::spec_placeholders;
use crate::schema::seqs_distinct;
use crate::schema::Arity;
use crate::schema::CaseSpec;
use crate::schema::EnumSpec;
use crate::schema::EnumValue;
use crate::substitute::spec_substitute;
use crate::substitute::substitute;
use crate::template::contains_marker;
use crate::template::effective_template;
use crate::template::spec_effective_template;
use crate::template::spec_has_marker;
use crate::validate::spec_valid;

verus! {

/// The placeholder names bound for a case: those extracted from its
/// override; a case without an override binds none.
pub open spec fn spec_bindings(c: &CaseSpec) -> Seq<Seq<char>> {
    match c.override_template {
        Some(ot) => spec_placeholders(ot@),
        None => Seq::empty(),
    }
}

/// The position of `name` among the declared field names.
pub open spec fn spec_field_index(fields: Seq<Seq<char>>, name: Seq<char>) -> int {
    choose|j: int| 0 <= j < fields.len() && fields[j] == name
}

/// One replacement text per binding: the value of the field each
/// placeholder names, in placeholder occurrence order.
pub open spec fn spec_bound_values(
    fields: Seq<Seq<char>>,
    bindings: Seq<Seq<char>>,
    args: Seq<Seq<char>>,
) -> Seq<Seq<char>> {
    Seq::new(bindings.len(), |i: int| args[spec_field_index(fields, bindings[i])])
}

/// What rendering a value produces:
/// - a case with no data renders its effective template verbatim;
/// - a positional case whose template contains `{}` renders the template
///   with each pair replaced by the corresponding field text, in field
///   order; without `{}` it renders the template verbatim;
/// - a named case with bound placeholders renders the template with each
///   placeholder replaced by the text of the field it names; with none it
///   renders the effective template verbatim.
pub open spec fn spec_render(e: &EnumSpec, v: &EnumValue) -> Seq<char> {
    let c = e.cases@[v.case as int];
    let t = spec_effective_template(&c);
    match c.arity {
        Arity::Unit => t,
        Arity::Positional { .. } => {
            if spec_has_marker(t) {
                spec_substitute(t, v.args.deep_view())
            } else {
                t
            }
        },
        Arity::Named { fields } => {
            let ph = spec_bindings(&c);
            if ph.len() > 0 {
                spec_substitute(t, spec_bound_values(fields.deep_view(), ph, v.args.deep_view()))
            } else {
                t
            }
        },
    }
}

/// The formatted arguments of a value: nothing for a case with no data; the
/// field texts in field order for a positional case whose template consumes
/// them; the bound fields' texts in placeholder occurrence order for a named
/// case with bindings; nothing otherwise.
pub open spec fn spec_arguments(e: &EnumSpec, v: &EnumValue) -> Seq<Seq<char>> {
    let c = e.cases@[v.case as int];
    let t = spec_effective_template(&c);
    match c.arity {
        Arity::Unit => Seq::empty(),
        Arity::Positional { .. } => {
            if spec_has_marker(t) {
                v.args.deep_view()
            } else {
                Seq::empty()
            }
        },
        Arity::Named { fields } => {
            let ph = spec_bindings(&c);
            if ph.len() > 0 {
                spec_bound_values(fields.deep_view(), ph, v.args.deep_view())
            } else {
                Seq::empty()
            }
        },
    }
}

/// The text a case must match to be reconstructed by parsing: its effective
/// template, offered only by cases that carry no data (no-data cases and
/// named cases with an empty field list).
pub open spec fn spec_parse_key(c: &CaseSpec) -> Option<Seq<char>> {
    match c.arity {
        Arity::Unit => Some(spec_effective_template(c)),
        Arity::Named { fields } => {
            if fields@.len() == 0 {
                Some(spec_effective_template(c))
            } else {
                None
            }
        },
        Arity::Positional { .. } => None,
    }
}

/// The first case from position `k` on whose parse key equals `input`.
pub open spec fn spec_parse_index(cases: Seq<CaseSpec>, input: Seq<char>, k: int) -> Option<int>
    decreases cases.len() - k,
    when 0 <= k <= cases.len()
{
    if k == cases.len() {
        None
    } else if spec_parse_key(&cases[k]) == Some(input) {
        Some(k)
    } else {
        spec_parse_index(cases, input, k + 1)
    }
}

/// The case parsing reconstructs from `input`: the first, in declaration
/// order, whose parse key equals `input`; `None` when no key matches.
pub open spec fn spec_parse(e: &EnumSpec, input: Seq<char>) -> Option<int> {
    spec_parse_index(e.cases@, input, 0)
}

/// A successful match is in range, matches, and nothing before it matches;
/// a miss means nothing from `k` on matches.
pub proof fn lemma_parse_index(cases: Seq<CaseSpec>, input: Seq<char>, k: int)
    requires
        0 <= k <= cases.len(),
    ensures
        match spec_parse_index(cases, input, k) {
            Some(idx) => k <= idx < cases.len() && spec_parse_key(&cases[idx]) == Some(input)
                && forall|j: int|
                k <= j < idx ==> spec_parse_key(&(#[trigger] cases[j])) != Some(input),
            None => forall|j: int|
                k <= j < cases.len() ==> spec_parse_key(&(#[trigger] cases[j])) != Some(input),
        },
    decreases cases.len() - k,
{
    if k < cases.len() && spec_parse_key(&cases[k]) != Some(input) {
        lemma_parse_index(cases, input, k + 1);
    }
}

/// The text parsing reports when no case matches: it names the enum and
/// repeats the rejected input.
pub open spec fn spec_parse_error_message(name: Seq<char>, input: Seq<char>) -> Seq<char> {
    "Invalid "@ + name + " variant: "@ + input
}

/// A parse failure: the enum's name and the rejected input.
#[derive(Debug)]
pub struct ParseError {
    pub enum_name: String,
    pub input: String,
}

impl ParseError {
    pub fn message(&self) -> (r: String)
        ensures
            r@ == spec_parse_error_message(self.enum_name@, self.input@),
    {
        let mut r = "Invalid ".to_owned();
        r.append(self.enum_name.as_str());
        r.append(" variant: ");
        r.append(self.input.as_str());
        proof {
            assert(r@ =~= spec_parse_error_message(self.enum_name@, self.input@));
        }
        r
    }
}

/// The position of `name` among the declared fields. The fields must be
/// distinct and must contain `name`.
fn find_field(fields: &Vec<String>, name: &String) -> (idx: usize)
    requires
        seqs_distinct(fields.deep_view()),
        fields.deep_view().contains(name@),
    ensures
        idx < fields.deep_view().len(),
        fields.deep_view()[idx as int] == name@,
        idx as int == spec_field_index(fields.deep_view(), name@),
{
    let n: usize = fields.len();
    let mut i: usize = 0;
    while i < n
        invariant
            n == fields@.len(),
            i <= n,
            fields.deep_view().contains(name@),
            seqs_distinct(fields.deep_view()),
            forall|j: int| 0 <= j < i ==> #[trigger] fields@[j]@ != name@,
        decreases n - i,
    {
        if fields[i] == *name {
            proof {
                assert(fields.deep_view()[i as int] == name@);
                let ci = spec_field_index(fields.deep_view(), name@);
                assert(0 <= ci < fields.deep_view().len() && fields.deep_view()[ci] == name@);
            }
            return i;
        }
        i += 1;
    }
    proof {
        let w = choose|j: int|
            0 <= j < fields.deep_view().len() && fields.deep_view()[j] == name@;
        assert(fields@[w]@ == name@);
        assert(false);
    }
    0
}

/// Builds the replacement texts for a named case: the value of the field
/// each binding names, in binding order.
fn bound_values(fields: &Vec<String>, bindings: &Vec<String>, args: &Vec<String>) -> (r: Vec<
    String,
>)
    requires
        seqs_distinct(fields.deep_view()),
        args.deep_view().len() == fields.deep_view().len(),
        forall|i: int|
            0 <= i < bindings.deep_view().len() ==> fields.deep_view().contains(
                #[trigger] bindings.deep_view()[i],
            ),
    ensures
        r.deep_view() =~= spec_bound_values(
            fields.deep_view(),
            bindings.deep_view(),
            args.deep_view(),
        ),
{
    let n: usize = bindings.len();
    let mut r: Vec<String> = Vec::new();
    let mut k: usize = 0;
    while k < n
        invariant
            n == bindings@.len(),
            seqs_distinct(fields.deep_view()),
            args.deep_view().len() == fields.deep_view().len(),
            forall|i: int|
                0 <= i < bindings.deep_view().len() ==> fields.deep_view().contains(
                    #[trigger] bindings.deep_view()[i],
                ),
            k <= n,
            r@.len() == k,
            forall|i: int|
                0 <= i < k ==> #[trigger] r@[i]@ == args.deep_view()[spec_field_index(
                    fields.deep_view(),
                    bindings.deep_view()[i],
                )],
        decreases n - k,
    {
        proof {
            assert(bindings.deep_view()[k as int] == bindings@[k as int]@);
        }
        let idx = find_field(fields, &bindings[k]);
        r.push(args[idx].clone());
        k += 1;
    }
    proof {
        assert forall|i: int| 0 <= i < n implies #[trigger] r.deep_view()[i] == spec_bound_values(
            fields.deep_view(),
            bindings.deep_view(),
            args.deep_view(),
        )[i] by {
            assert(r.deep_view()[i] == r@[i]@);
        }
    }
    r
}

/// Copies a list of texts.
fn clone_strings(v: &Vec<String>) -> (r: Vec<String>)
    ensures
        r.deep_view() =~= v.deep_view(),
{
    let n: usize = v.len();
    let mut r: Vec<String> = Vec::new();
    let mut i: usize = 0;
    while i < n
        invariant
            n == v@.len(),
            i <= n,
            r@.len() == i,
            forall|j: int| 0 <= j < i ==> #[trigger] r@[j]@ == v@[j]@,
        decreases n - i,
    {
        r.push(v[i].clone());
        i += 1;
    }
    proof {
        assert forall|j: int| 0 <= j < n implies #[trigger] r.deep_view()[j] == v.deep_view()[j] by {
            assert(r.deep_view()[j] == r@[j]@);
        }
    }
    r
}

impl EnumSpec {
    /// Renders a value to text.
    pub fn render(&self, v: &EnumValue) -> (r: String)
        requires
            spec_valid(self),
            v.wf_for(self),
        ensures
            r@ == spec_render(self, v),
    {
        proof {
            assert(spec_case_ok_at(self, v.case as int));
        }
        let c = &self.cases[v.case];
        let t = effective_template(c);
        match &c.arity {
            Arity::Unit => t,
            Arity::Positional { .. } => {
                if contains_marker(t.as_str()) {
                    proof {
                        lemma_occurrence_indices(t@, '{');
                        lemma_occurrence_indices(t@, '}');
                    }
                    substitute(t.as_str(), &v.args)
                } else {
                    t
                }
            },
            Arity::Named { fields } => {
                match &c.override_template {
                    Some(ot) => {
                        let bindings = extract_placeholders(ot.as_str());
                        if bindings.len() > 0 {
                            let values = bound_values(fields, &bindings, &v.args);
                            let out = substitute(ot.as_str(), &values);
                            proof {
                                assert(values.deep_view() =~= spec_bound_values(
                                    fields.deep_view(),
                                    spec_bindings(&self.cases@[v.case as int]),
                                    v.args.deep_view(),
                                ));
                            }
                            out
                        } else {
                            t
                        }
                    },
                    None => t,
                }
            },
        }
    }

    /// The raw, unsubstituted effective template of the value's case.
    pub fn template(&self, v: &EnumValue) -> (r: String)
        requires
            (v.case as int) < self.cases@.len(),
        ensures
            r@ == spec_effective_template(&self.cases@[v.case as int]),
    {
        effective_template(&self.cases[v.case])
    }

    /// The formatted arguments of the value's case, in the order rendering
    /// consumes them.
    pub fn arguments(&self, v: &EnumValue) -> (r: Vec<String>)
        requires
            spec_valid(self),
            v.wf_for(self),
        ensures
            r.deep_view() == spec_arguments(self, v),
    {
        proof {
            assert(spec_case_ok_at(self, v.case as int));
        }
        let c = &self.cases[v.case];
        match &c.arity {
            Arity::Unit => Vec::new(),
            Arity::Positional { .. } => {
                let t = effective_template(c);
                if contains_marker(t.as_str()) {
                    clone_strings(&v.args)
                } else {
                    Vec::new()
                }
            },
            Arity::Named { fields } => {
                match &c.override_template {
                    Some(ot) => {
                        let bindings = extract_placeholders(ot.as_str());
                        if bindings.len() > 0 {
                            let r = bound_values(fields, &bindings, &v.args);
                            proof {
                                assert(r.deep_view() =~= spec_arguments(self, v));
                            }
                            r
                        } else {
                            Vec::new()
                        }
                    },
                    None => Vec::new(),
                }
            },
        }
    }

    /// One entry per declared case, in declaration order, each the case's
    /// bare tag — independent of any template override.
    pub fn names(&self) -> (r: Vec<String>)
        ensures
            r@.len() == self.cases@.len(),
            forall|i: int| 0 <= i < r@.len() ==> #[trigger] r@[i]@ == self.cases@[i].tag@,
    {
        let n: usize = self.cases.len();
        let mut r: Vec<String> = Vec::new();
        let mut i: usize = 0;
        while i < n
            invariant
                n == self.cases@.len(),
                i <= n,
                r@.len() == i,
                forall|j: int| 0 <= j < i ==> #[trigger] r@[j]@ == self.cases@[j].tag@,
            decreases n - i,
        {
            r.push(self.cases[i].tag.clone());
            i += 1;
        }
        r
    }

    /// Reconstructs a value from text: the first case, in declaration
    /// order, whose parse key equals the input. Only cases that carry no
    /// data offer a key; any other text is rejected with the enum's name
    /// and the input.
    pub fn parse(&self, input: &str) -> (r: Result<EnumValue, ParseError>)
        ensures
            match r {
                Ok(v) => {
                    &&& spec_parse(self, input@) == Some(v.case as int)
                    &&& v.args@.len() == 0
                    &&& v.wf_for(self)
                },
                Err(e) => {
                    &&& spec_parse(self, input@) is None
                    &&& e.enum_name@ == self.name@
                    &&& e.input@ == input@
                },
            },
    {
        let ghost cs = self.cases@;
        let owned: String = input.to_owned();
        let n: usize = self.cases.len();
        let mut k: usize = 0;
        while k < n
            invariant
                cs == self.cases@,
                owned@ == input@,
                n == cs.len(),
                k <= n,
                spec_parse_index(cs, input@, 0) == spec_parse_index(cs, input@, k as int),
            decreases n - k,
        {
            let c = &self.cases[k];
            let key_opt: Option<String> = match &c.arity {
                Arity::Unit => Some(effective_template(c)),
                Arity::Named { fields } => {
                    if fields.len() == 0 {
                        Some(effective_template(c))
                    } else {
                        None
                    }
                },
                Arity::Positional { .. } => None,
            };
            proof {
                match &key_opt {
                    Some(key) => {
                        assert(spec_parse_key(&cs[k as int]) == Some(key@));
                    },
                    None => {
                        assert(spec_parse_key(&cs[k as int]) is None);
                    },
                }
            }
            if let Some(key) = key_opt {
                if key == owned {
                    proof {
                        assert(spec_parse_index(cs, input@, k as int) == Some(k as int));
                    }
                    let v = EnumValue { case: k, args: Vec::new() };
                    proof {
                        assert(v.wf_for(self));
                    }
                    return Ok(v);
                }
            }
            k += 1;
        }
        Err(
            ParseError {
                enum_name: self.name.clone(),
                input: input.to_owned(),
            },
        )
    }
}

/// The case at `i` is well formed with a bindable template.
pub open spec fn spec_case_ok_at(e: &EnumSpec, i: int) -> bool {
    &&& e.cases@[i].wf()
    &&& crate::validate::spec_case_templates_ok(&e.cases@[i])
}

} // verus!
