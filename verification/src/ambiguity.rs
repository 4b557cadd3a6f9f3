//! The ambiguity checker: groups data-less cases by effective template and
//! flags every template that two or more cases share. A reversible
//! conversion is offered only for enums whose cases all carry no data, and
//! refuses every input while any such group exists.

use vstd::prelude::*;
use vstd::string::*;
use crate::ops::spec_parse;
use crate::ops::spec_parse_error_message;
use crate::schema::Arity;
use crate::schema::CaseSpec;
use crate::schema::EnumSpec;
use crate::schema::EnumValue;
use crate::template::effective_template;
use crate::template::spec_effective_template;
use crate::validate::contains_string;

verus! {

/// Every case of the enum carries no data.
pub open spec fn spec_unit_only(e: &EnumSpec) -> bool {
    forall|i: int| 0 <= i < e.cases@.len() ==> (#[trigger] e.cases@[i]).arity is Unit
}

pub fn has_only_unit_variants(e: &EnumSpec) -> (r: bool)
    ensures
        r == spec_unit_only(e),
{
    let n: usize = e.cases.len();
    let mut i: usize = 0;
    while i < n
        invariant
            n == e.cases@.len(),
            i <= n,
            forall|j: int| 0 <= j < i ==> (#[trigger] e.cases@[j]).arity is Unit,
        decreases n - i,
    {
        match &e.cases[i].arity {
            Arity::Unit => {},
            _ => {
                return false;
            },
        }
        i += 1;
    }
    true
}

/// The effective templates of the data-less cases, in declaration order.
pub open spec fn spec_unit_templates(cs: Seq<CaseSpec>) -> Seq<Seq<char>>
    decreases cs.len(),
{
    if cs.len() == 0 {
        Seq::empty()
    } else if cs.last().arity is Unit {
        spec_unit_templates(cs.drop_last()).push(spec_effective_template(&cs.last()))
    } else {
        spec_unit_templates(cs.drop_last())
    }
}

/// The tags of the data-less cases, in declaration order.
pub open spec fn spec_unit_tags(cs: Seq<CaseSpec>) -> Seq<Seq<char>>
    decreases cs.len(),
{
    if cs.len() == 0 {
        Seq::empty()
    } else if cs.last().arity is Unit {
        spec_unit_tags(cs.drop_last()).push(cs.last().tag@)
    } else {
        spec_unit_tags(cs.drop_last())
    }
}

/// The entries of `tags` whose position in `ts` holds `t`, in order.
pub open spec fn spec_select_tags(ts: Seq<Seq<char>>, tags: Seq<Seq<char>>, t: Seq<char>) -> Seq<
    Seq<char>,
>
    decreases ts.len(),
    when ts.len() == tags.len()
{
    if ts.len() == 0 {
        Seq::empty()
    } else if ts.last() == t {
        spec_select_tags(ts.drop_last(), tags.drop_last(), t).push(tags.last())
    } else {
        spec_select_tags(ts.drop_last(), tags.drop_last(), t)
    }
}

/// The distinct entries of `s`, each at its first occurrence, in order.
pub open spec fn spec_dedup_first(s: Seq<Seq<char>>) -> Seq<Seq<char>>
    decreases s.len(),
{
    if s.len() == 0 {
        Seq::empty()
    } else if spec_dedup_first(s.drop_last()).contains(s.last()) {
        spec_dedup_first(s.drop_last())
    } else {
        spec_dedup_first(s.drop_last()).push(s.last())
    }
}

/// The entries of `ds` that two or more positions of `ts` hold, in order.
pub open spec fn spec_keep_shared(
    ds: Seq<Seq<char>>,
    ts: Seq<Seq<char>>,
    tags: Seq<Seq<char>>,
) -> Seq<Seq<char>>
    decreases ds.len(),
{
    if ds.len() == 0 {
        Seq::empty()
    } else if spec_select_tags(ts, tags, ds.last()).len() > 1 {
        spec_keep_shared(ds.drop_last(), ts, tags).push(ds.last())
    } else {
        spec_keep_shared(ds.drop_last(), ts, tags)
    }
}

/// The tags of the data-less cases sharing effective template `t`.
pub open spec fn spec_group_tags(e: &EnumSpec, t: Seq<char>) -> Seq<Seq<char>> {
    spec_select_tags(spec_unit_templates(e.cases@), spec_unit_tags(e.cases@), t)
}

/// The effective templates that two or more data-less cases share, each at
/// its first occurrence, in declaration order.
pub open spec fn spec_ambiguous_templates(e: &EnumSpec) -> Seq<Seq<char>> {
    spec_keep_shared(
        spec_dedup_first(spec_unit_templates(e.cases@)),
        spec_unit_templates(e.cases@),
        spec_unit_tags(e.cases@),
    )
}

/// One ambiguous group: an effective template and the tags of every
/// data-less case that shares it.
#[derive(Debug)]
pub struct AmbiguousGroup {
    pub text: String,
    pub tags: Vec<String>,
}

/// Collects the templates and tags of the data-less cases, in declaration
/// order.
fn unit_strings(e: &EnumSpec) -> (r: (Vec<String>, Vec<String>))
    ensures
        r.0.deep_view() =~= spec_unit_templates(e.cases@),
        r.1.deep_view() =~= spec_unit_tags(e.cases@),
        r.0@.len() == r.1@.len(),
{
    let ghost cs = e.cases@;
    let n: usize = e.cases.len();
    let mut ts: Vec<String> = Vec::new();
    let mut tags: Vec<String> = Vec::new();
    let mut i: usize = 0;
    while i < n
        invariant
            cs == e.cases@,
            n == cs.len(),
            i <= n,
            ts@.len() == tags@.len(),
            ts@.len() == spec_unit_templates(cs.take(i as int)).len(),
            tags@.len() == spec_unit_tags(cs.take(i as int)).len(),
            forall|j: int|
                0 <= j < ts@.len() ==> #[trigger] ts@[j]@ == spec_unit_templates(
                    cs.take(i as int),
                )[j],
            forall|j: int|
                0 <= j < tags@.len() ==> #[trigger] tags@[j]@ == spec_unit_tags(
                    cs.take(i as int),
                )[j],
        decreases n - i,
    {
        proof {
            assert(cs.take(i as int + 1).drop_last() =~= cs.take(i as int));
            assert(cs.take(i as int + 1).last() == cs[i as int]);
        }
        let c = &e.cases[i];
        match &c.arity {
            Arity::Unit => {
                ts.push(effective_template(c));
                tags.push(c.tag.clone());
            },
            _ => {},
        }
        i += 1;
    }
    proof {
        assert(cs.take(n as int) =~= cs);
        assert forall|j: int|
            0 <= j < ts.deep_view().len() implies #[trigger] ts.deep_view()[j]
            == spec_unit_templates(cs)[j] by {
            assert(ts.deep_view()[j] == ts@[j]@);
        }
        assert forall|j: int|
            0 <= j < tags.deep_view().len() implies #[trigger] tags.deep_view()[j]
            == spec_unit_tags(cs)[j] by {
            assert(tags.deep_view()[j] == tags@[j]@);
        }
    }
    (ts, tags)
}

/// The entries of `tags` whose position in `ts` holds `t`, in order.
fn select_tags(ts: &Vec<String>, tags: &Vec<String>, t: &String) -> (r: Vec<String>)
    requires
        ts.deep_view().len() == tags.deep_view().len(),
    ensures
        r.deep_view() =~= spec_select_tags(ts.deep_view(), tags.deep_view(), t@),
{
    let ghost tsv = ts.deep_view();
    let ghost tagsv = tags.deep_view();
    let n: usize = ts.len();
    let mut r: Vec<String> = Vec::new();
    let mut i: usize = 0;
    while i < n
        invariant
            tsv == ts.deep_view(),
            tagsv == tags.deep_view(),
            tsv.len() == tagsv.len() == n,
            ts@.len() == tags@.len() == n,
            i <= n,
            r@.len() == spec_select_tags(tsv.take(i as int), tagsv.take(i as int), t@).len(),
            forall|j: int|
                0 <= j < r@.len() ==> #[trigger] r@[j]@ == spec_select_tags(
                    tsv.take(i as int),
                    tagsv.take(i as int),
                    t@,
                )[j],
        decreases n - i,
    {
        proof {
            assert(tsv.take(i as int + 1).drop_last() =~= tsv.take(i as int));
            assert(tagsv.take(i as int + 1).drop_last() =~= tagsv.take(i as int));
            assert(tsv.take(i as int + 1).last() == tsv[i as int]);
            assert(tagsv.take(i as int + 1).last() == tagsv[i as int]);
            assert(tsv[i as int] == ts@[i as int]@);
            assert(tagsv[i as int] == tags@[i as int]@);
        }
        if ts[i] == *t {
            r.push(tags[i].clone());
        }
        i += 1;
    }
    proof {
        assert(tsv.take(n as int) =~= tsv);
        assert(tagsv.take(n as int) =~= tagsv);
        assert forall|j: int|
            0 <= j < r.deep_view().len() implies #[trigger] r.deep_view()[j] == spec_select_tags(
            tsv,
            tagsv,
            t@,
        )[j] by {
            assert(r.deep_view()[j] == r@[j]@);
        }
    }
    r
}

impl EnumSpec {
    /// Groups the data-less cases by effective template and returns every
    /// template that two or more of them share, with the sharing tags, in
    /// first-occurrence order.
    pub fn find_duplicate_strings(&self) -> (r: Vec<AmbiguousGroup>)
        ensures
            r@.len() == spec_ambiguous_templates(self).len(),
            forall|i: int|
                0 <= i < r@.len() ==> (#[trigger] r@[i].text@) == spec_ambiguous_templates(
                    self,
                )[i],
            forall|i: int|
                0 <= i < r@.len() ==> (#[trigger] r@[i].tags.deep_view()) == spec_group_tags(
                    self,
                    spec_ambiguous_templates(self)[i],
                ),
    {
        let ghost cs = self.cases@;
        let (ts, tags) = unit_strings(self);
        let ghost tsv = ts.deep_view();
        let ghost tagsv = tags.deep_view();
        // Distinct templates, each at its first occurrence.
        let n: usize = ts.len();
        let mut distinct: Vec<String> = Vec::new();
        let mut i: usize = 0;
        while i < n
            invariant
                tsv == ts.deep_view(),
                n == ts@.len(),
                i <= n,
                distinct@.len() == spec_dedup_first(tsv.take(i as int)).len(),
                forall|j: int|
                    0 <= j < distinct@.len() ==> #[trigger] distinct@[j]@ == spec_dedup_first(
                        tsv.take(i as int),
                    )[j],
                distinct.deep_view() =~= spec_dedup_first(tsv.take(i as int)),
            decreases n - i,
        {
            proof {
                assert(tsv.take(i as int + 1).drop_last() =~= tsv.take(i as int));
                assert(tsv.take(i as int + 1).last() == tsv[i as int]);
                assert(tsv[i as int] == ts@[i as int]@);
            }
            if !contains_string(&distinct, &ts[i]) {
                distinct.push(ts[i].clone());
            }
            i += 1;
            proof {
                assert forall|j: int|
                    0 <= j < distinct.deep_view().len() implies #[trigger] distinct.deep_view()[j]
                    == spec_dedup_first(tsv.take(i as int))[j] by {
                    assert(distinct.deep_view()[j] == distinct@[j]@);
                }
            }
        }
        proof {
            assert(tsv.take(n as int) =~= tsv);
        }
        // Keep the templates that two or more positions hold.
        let m: usize = distinct.len();
        let ghost dv = distinct.deep_view();
        let mut groups: Vec<AmbiguousGroup> = Vec::new();
        let mut k: usize = 0;
        while k < m
            invariant
                cs == self.cases@,
                tsv == ts.deep_view(),
                tagsv == tags.deep_view(),
                tsv == spec_unit_templates(cs),
                tagsv == spec_unit_tags(cs),
                tsv.len() == tagsv.len(),
                ts@.len() == tags@.len(),
                tsv.len() == ts@.len(),
                dv == distinct.deep_view(),
                dv == spec_dedup_first(tsv),
                m == distinct@.len(),
                m == dv.len(),
                k <= m,
                groups@.len() == spec_keep_shared(dv.take(k as int), tsv, tagsv).len(),
                forall|i2: int|
                    0 <= i2 < groups@.len() ==> (#[trigger] groups@[i2].text@) == spec_keep_shared(
                        dv.take(k as int),
                        tsv,
                        tagsv,
                    )[i2] && groups@[i2].tags.deep_view() == spec_select_tags(
                        tsv,
                        tagsv,
                        groups@[i2].text@,
                    ),
            decreases m - k,
        {
            proof {
                assert(dv.take(k as int + 1).drop_last() =~= dv.take(k as int));
                assert(dv.take(k as int + 1).last() == dv[k as int]);
                assert(dv[k as int] == distinct@[k as int]@);
            }
            let members = select_tags(&ts, &tags, &distinct[k]);
            if members.len() > 1 {
                let g = AmbiguousGroup { text: distinct[k].clone(), tags: members };
                groups.push(g);
            }
            k += 1;
        }
        proof {
            assert(dv.take(m as int) =~= dv);
            assert(spec_ambiguous_templates(self) == spec_keep_shared(dv, tsv, tagsv));
            assert forall|i: int|
                0 <= i < groups@.len() implies (#[trigger] groups@[i].text@)
                == spec_ambiguous_templates(self)[i] by {
                assert(groups@[i].text@ == spec_keep_shared(dv.take(m as int), tsv, tagsv)[i]);
            }
            assert forall|i: int|
                0 <= i < groups@.len() implies (#[trigger] groups@[i].tags.deep_view())
                == spec_group_tags(self, spec_ambiguous_templates(self)[i]) by {
                assert(groups@[i].text@ == spec_ambiguous_templates(self)[i]);
                assert(groups@[i].tags.deep_view() == spec_select_tags(
                    tsv,
                    tagsv,
                    groups@[i].text@,
                ));
            }
        }
        groups
    }
}

/// The parts joined, separated by `sep`.
pub open spec fn spec_join(parts: Seq<Seq<char>>, sep: Seq<char>) -> Seq<char>
    decreases parts.len(),
{
    if parts.len() == 0 {
        Seq::empty()
    } else if parts.len() == 1 {
        parts[0]
    } else {
        spec_join(parts.drop_last(), sep) + sep + parts.last()
    }
}

fn join(parts: &Vec<String>, sep: &str) -> (r: String)
    ensures
        r@ == spec_join(parts.deep_view(), sep@),
{
    let ghost pv = parts.deep_view();
    let n: usize = parts.len();
    let mut r = String::new();
    let mut i: usize = 0;
    while i < n
        invariant
            pv == parts.deep_view(),
            n == parts@.len(),
            i <= n,
            r@ == spec_join(pv.take(i as int), sep@),
        decreases n - i,
    {
        let ghost r0 = r@;
        proof {
            assert(pv.take(i as int + 1).drop_last() =~= pv.take(i as int));
            assert(pv.take(i as int + 1).last() == pv[i as int]);
            assert(pv[i as int] == parts@[i as int]@);
        }
        if i > 0 {
            r.append(sep);
        }
        r.append(parts[i].as_str());
        proof {
            if i == 0 {
                assert(r@ =~= pv[0]);
                assert(pv.take(1).len() == 1);
            } else {
                assert(pv.take(i as int + 1).len() >= 2);
                assert(r@ == r0 + sep@ + pv[i as int]);
                assert(spec_join(pv.take(i as int + 1), sep@) == spec_join(
                    pv.take(i as int),
                    sep@,
                ) + sep@ + pv[i as int]);
            }
        }
        i += 1;
    }
    proof {
        assert(pv.take(n as int) =~= pv);
    }
    r
}

/// The text describing one ambiguous group: the shared template, quoted,
/// and the sharing tags.
pub open spec fn spec_group_text(text: Seq<char>, tags: Seq<Seq<char>>) -> Seq<char> {
    "'"@ + text + "' (used by "@ + spec_join(tags, ", "@) + ")"@
}

/// The text the conversion reports while any ambiguous group exists: every
/// shared template with the tags that share it.
pub open spec fn spec_ambiguity_message(e: &EnumSpec) -> Seq<char> {
    let ds = spec_ambiguous_templates(e);
    "Ambiguous string representation. The following strings are used by multiple variants: "@
        + spec_join(Seq::new(ds.len(), |i: int| spec_group_text(ds[i], spec_group_tags(e, ds[i]))), ", "@)
}

impl EnumSpec {
    /// The failure text reporting every ambiguous group of this schema.
    pub fn ambiguity_message(&self) -> (r: String)
        ensures
            r@ == spec_ambiguity_message(self),
    {
        let ghost ds = spec_ambiguous_templates(self);
        let groups = self.find_duplicate_strings();
        let mut parts: Vec<String> = Vec::new();
        let mut i: usize = 0;
        while i < groups.len()
            invariant
                ds == spec_ambiguous_templates(self),
                groups@.len() == ds.len(),
                forall|j: int| 0 <= j < groups@.len() ==> (#[trigger] groups@[j].text@) == ds[j],
                forall|j: int|
                    0 <= j < groups@.len() ==> (#[trigger] groups@[j].tags.deep_view())
                        == spec_group_tags(self, ds[j]),
                i <= groups@.len(),
                parts@.len() == i,
                forall|j: int|
                    0 <= j < i ==> (#[trigger] parts@[j]@) == spec_group_text(
                        ds[j],
                        spec_group_tags(self, ds[j]),
                    ),
            decreases groups@.len() - i,
        {
            let g = &groups[i];
            let mut s = "'".to_owned();
            s.append(g.text.as_str());
            s.append("' (used by ");
            let joined = join(&g.tags, ", ");
            s.append(joined.as_str());
            s.append(")");
            proof {
                assert(s@ =~= spec_group_text(ds[i as int], spec_group_tags(self, ds[i as int])));
            }
            parts.push(s);
            i += 1;
        }
        let tail = join(&parts, ", ");
        let mut r =
            "Ambiguous string representation. The following strings are used by multiple variants: ".to_owned();
        r.append(tail.as_str());
        proof {
            assert(parts.deep_view() =~= Seq::new(
                ds.len(),
                |j: int| spec_group_text(ds[j], spec_group_tags(self, ds[j])),
            ));
        }
        r
    }

    /// The reversible conversion offered for enums whose cases all carry no
    /// data: while any two cases share an effective template it refuses
    /// every input, reporting every shared template with its tags;
    /// otherwise it parses the input and hands the outcome through, a parse
    /// failure reported by its text.
    pub fn try_from_text(&self, input: &str) -> (r: Result<EnumValue, String>)
        requires
            spec_unit_only(self),
        ensures
            match r {
                Ok(v) => {
                    &&& spec_ambiguous_templates(self).len() == 0
                    &&& spec_parse(self, input@) == Some(v.case as int)
                    &&& v.args@.len() == 0
                    &&& v.wf_for(self)
                },
                Err(m) => {
                    if spec_ambiguous_templates(self).len() > 0 {
                        m@ == spec_ambiguity_message(self)
                    } else {
                        &&& spec_parse(self, input@) is None
                        &&& m@ == spec_parse_error_message(self.name@, input@)
                    }
                },
            },
    {
        let groups = self.find_duplicate_strings();
        if groups.len() > 0 {
            return Err(self.ambiguity_message());
        }
        match self.parse(input) {
            Ok(v) => Ok(v),
            Err(e) => Err(e.message()),
        }
    }
}

} // verus!
