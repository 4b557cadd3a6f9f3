//! Laws of the synthesized operations: what rendering and parsing promise
//! for data-less cases, what the argument list exposes, and how sharing an
//! effective template poisons the reversible conversion.

use vstd::prelude::*;
use crate::ambiguity::spec_ambiguity_message;
use crate::ambiguity::spec_ambiguous_templates;
use crate::ambiguity::spec_dedup_first;
use crate::ambiguity::spec_group_tags;
use crate::ambiguity::spec_group_text;
use crate::ambiguity::spec_join;
use crate::ambiguity::spec_keep_shared;
use crate::ambiguity::spec_select_tags;
use crate::ambiguity::spec_unit_only;
use crate::ambiguity::spec_unit_tags;
use crate::ambiguity::spec_unit_templates;
use crate::ops::spec_arguments;
use crate::ops::spec_parse;
use crate::ops::spec_parse_index;
use crate::ops::spec_parse_key;
use crate::ops::spec_render;
use crate::schema::Arity;
use crate::schema::CaseSpec;
use crate::schema::EnumSpec;
use crate::schema::EnumValue;
use crate::template::spec_effective_template;
use crate::template::spec_has_marker;

verus! {

/// Parsing finds a key that matches and that no earlier case matches.
proof fn lemma_parse_index_hits(cases: Seq<CaseSpec>, input: Seq<char>, k: int, idx: int)
    requires
        0 <= k <= idx < cases.len(),
        spec_parse_key(&cases[idx]) == Some(input),
        forall|j: int| k <= j < idx ==> spec_parse_key(&(#[trigger] cases[j])) != Some(input),
    ensures
        spec_parse_index(cases, input, k) == Some(idx),
    decreases idx - k,
{
    if k < idx {
        lemma_parse_index_hits(cases, input, k + 1, idx);
    }
}

/// Text that equals no parse key does not parse.
pub proof fn lemma_parse_unknown_text_fails(e: &EnumSpec, input: Seq<char>)
    requires
        forall|j: int|
            0 <= j < e.cases@.len() ==> spec_parse_key(&(#[trigger] e.cases@[j])) != Some(input),
    ensures
        spec_parse(e, input) is None,
    decreases e.cases@.len(),
{
    crate::ops::lemma_parse_index(e.cases@, input, 0);
    if spec_parse(e, input) is Some {
        let idx = spec_parse(e, input)->0;
        assert(spec_parse_key(&e.cases@[idx]) != Some(input));
    }
}

/// A data-less case renders as its effective template, and — when no other
/// case's parse key equals that text — parsing the rendering reconstructs
/// exactly that case.
pub proof fn lemma_unit_round_trip(e: &EnumSpec, v: &EnumValue)
    requires
        v.wf_for(e),
        e.cases@[v.case as int].arity is Unit,
        forall|j: int|
            0 <= j < e.cases@.len() && j != v.case as int ==> spec_parse_key(
                &(#[trigger] e.cases@[j]),
            ) != Some(spec_effective_template(&e.cases@[v.case as int])),
    ensures
        spec_render(e, v) == spec_effective_template(&e.cases@[v.case as int]),
        spec_parse(e, spec_render(e, v)) == Some(v.case as int),
{
    let i = v.case as int;
    let t = spec_effective_template(&e.cases@[i]);
    assert(spec_parse_key(&e.cases@[i]) == Some(t));
    lemma_parse_index_hits(e.cases@, t, 0, i);
}

/// A data-less case without an override renders as its bare tag, and — when
/// no other case's parse key equals the tag — parsing the tag reconstructs
/// exactly that case.
pub proof fn lemma_unit_default_round_trip(e: &EnumSpec, v: &EnumValue)
    requires
        v.wf_for(e),
        e.cases@[v.case as int].arity is Unit,
        e.cases@[v.case as int].override_template is None,
        forall|j: int|
            0 <= j < e.cases@.len() && j != v.case as int ==> spec_parse_key(
                &(#[trigger] e.cases@[j]),
            ) != Some(e.cases@[v.case as int].tag@),
    ensures
        spec_render(e, v) == e.cases@[v.case as int].tag@,
        spec_parse(e, e.cases@[v.case as int].tag@) == Some(v.case as int),
{
    lemma_unit_round_trip(e, v);
}

/// A data-less case with an override renders as exactly the override text,
/// and — when no other case's parse key equals that text — parsing it
/// reconstructs exactly that case.
pub proof fn lemma_unit_override_round_trip(e: &EnumSpec, v: &EnumValue, t: Seq<char>)
    requires
        v.wf_for(e),
        e.cases@[v.case as int].arity is Unit,
        e.cases@[v.case as int].override_template matches Some(ot) && ot@ == t,
        forall|j: int|
            0 <= j < e.cases@.len() && j != v.case as int ==> spec_parse_key(
                &(#[trigger] e.cases@[j]),
            ) != Some(t),
    ensures
        spec_render(e, v) == t,
        spec_parse(e, t) == Some(v.case as int),
{
    lemma_unit_round_trip(e, v);
}

/// Rendering a data-less case whose effective template is unique enum-wide
/// round-trips through parsing.
pub proof fn lemma_unique_template_round_trip(e: &EnumSpec, v: &EnumValue)
    requires
        v.wf_for(e),
        e.cases@[v.case as int].arity is Unit,
        forall|j: int|
            0 <= j < e.cases@.len() && j != v.case as int ==> #[trigger] spec_effective_template(
                &e.cases@[j],
            ) != spec_effective_template(&e.cases@[v.case as int]),
    ensures
        spec_parse(e, spec_render(e, v)) == Some(v.case as int),
{
    let i = v.case as int;
    let t = spec_effective_template(&e.cases@[i]);
    assert forall|j: int|
        0 <= j < e.cases@.len() && j != i implies spec_parse_key(&(#[trigger] e.cases@[j]))
        != Some(t) by {
        assert(spec_effective_template(&e.cases@[j]) != t);
    }
    lemma_unit_round_trip(e, v);
}

/// A positional case whose template contains the marker exposes exactly its
/// field texts as arguments: one per field, in declared order.
pub proof fn lemma_arguments_positional_marker(e: &EnumSpec, v: &EnumValue)
    requires
        v.wf_for(e),
        e.cases@[v.case as int].arity is Positional,
        spec_has_marker(spec_effective_template(&e.cases@[v.case as int])),
    ensures
        spec_arguments(e, v) == v.args.deep_view(),
        spec_arguments(e, v).len() == e.cases@[v.case as int].arity.spec_field_count(),
{
}

/// A positional case whose template lacks the marker exposes no arguments,
/// though its fields exist.
pub proof fn lemma_arguments_positional_plain(e: &EnumSpec, v: &EnumValue)
    requires
        v.wf_for(e),
        e.cases@[v.case as int].arity is Positional,
        !spec_has_marker(spec_effective_template(&e.cases@[v.case as int])),
    ensures
        spec_arguments(e, v) == Seq::<Seq<char>>::empty(),
{
}

/// In an enum of data-less cases, the collected template and tag lists are
/// the per-case effective templates and tags.
proof fn lemma_unit_projections(cs: Seq<CaseSpec>)
    requires
        forall|k: int| 0 <= k < cs.len() ==> (#[trigger] cs[k]).arity is Unit,
    ensures
        spec_unit_templates(cs).len() == cs.len(),
        spec_unit_tags(cs).len() == cs.len(),
        forall|k: int|
            0 <= k < cs.len() ==> #[trigger] spec_unit_templates(cs)[k] == spec_effective_template(
                &cs[k],
            ),
        forall|k: int| 0 <= k < cs.len() ==> #[trigger] spec_unit_tags(cs)[k] == cs[k].tag@,
    decreases cs.len(),
{
    if cs.len() > 0 {
        assert(forall|k: int|
            0 <= k < cs.drop_last().len() ==> (#[trigger] cs.drop_last()[k]).arity is Unit);
        lemma_unit_projections(cs.drop_last());
        assert(cs.last().arity is Unit);
        assert forall|k: int|
            0 <= k < cs.len() implies #[trigger] spec_unit_templates(cs)[k]
            == spec_effective_template(&cs[k]) by {
            if k < cs.len() - 1 {
                assert(spec_unit_templates(cs.drop_last())[k] == spec_effective_template(
                    &cs.drop_last()[k],
                ));
            }
        }
        assert forall|k: int|
            0 <= k < cs.len() implies #[trigger] spec_unit_tags(cs)[k] == cs[k].tag@ by {
            if k < cs.len() - 1 {
                assert(spec_unit_tags(cs.drop_last())[k] == cs.drop_last()[k].tag@);
            }
        }
    }
}

/// Selection keeps the tag at every matching position.
proof fn lemma_select_contains(ts: Seq<Seq<char>>, tags: Seq<Seq<char>>, t: Seq<char>, p: int)
    requires
        ts.len() == tags.len(),
        0 <= p < ts.len(),
        ts[p] == t,
    ensures
        spec_select_tags(ts, tags, t).contains(tags[p]),
    decreases ts.len(),
{
    let s = spec_select_tags(ts, tags, t);
    if p == ts.len() - 1 {
        assert(s.last() == tags[p]);
        assert(s[s.len() - 1] == tags[p]);
    } else {
        lemma_select_contains(ts.drop_last(), tags.drop_last(), t, p);
        let pre = spec_select_tags(ts.drop_last(), tags.drop_last(), t);
        let w = choose|w: int| 0 <= w < pre.len() && pre[w] == tags.drop_last()[p];
        assert(tags.drop_last()[p] == tags[p]);
        assert(s[w] == tags[p]);
    }
}

/// Two matching positions make the selection hold at least two entries.
proof fn lemma_select_two(ts: Seq<Seq<char>>, tags: Seq<Seq<char>>, t: Seq<char>, p: int, q: int)
    requires
        ts.len() == tags.len(),
        0 <= p < q < ts.len(),
        ts[p] == t,
        ts[q] == t,
    ensures
        spec_select_tags(ts, tags, t).len() >= 2,
    decreases ts.len(),
{
    if q == ts.len() - 1 {
        lemma_select_contains(ts.drop_last(), tags.drop_last(), t, p);
        let pre = spec_select_tags(ts.drop_last(), tags.drop_last(), t);
        let w = choose|w: int| 0 <= w < pre.len() && pre[w] == tags.drop_last()[p];
        assert(pre.len() >= 1);
    } else {
        lemma_select_two(ts.drop_last(), tags.drop_last(), t, p, q);
    }
}

/// Deduplication keeps every element.
proof fn lemma_dedup_contains(s: Seq<Seq<char>>, x: Seq<char>)
    requires
        s.contains(x),
    ensures
        spec_dedup_first(s).contains(x),
    decreases s.len(),
{
    if s.len() > 0 {
        let pre = spec_dedup_first(s.drop_last());
        if s.last() == x {
            if !pre.contains(x) {
                let d = spec_dedup_first(s);
                assert(d[d.len() - 1] == x);
            }
        } else {
            let w = choose|w: int| 0 <= w < s.len() && s[w] == x;
            assert(s.drop_last()[w] == x);
            lemma_dedup_contains(s.drop_last(), x);
            if !pre.contains(s.last()) {
                let u = choose|u: int| 0 <= u < pre.len() && pre[u] == x;
                assert(spec_dedup_first(s)[u] == x);
            }
        }
    }
}

/// Keeping the shared entries keeps every entry that two or more positions
/// hold.
proof fn lemma_keep_shared_contains(
    ds: Seq<Seq<char>>,
    ts: Seq<Seq<char>>,
    tags: Seq<Seq<char>>,
    d: Seq<char>,
)
    requires
        ts.len() == tags.len(),
        ds.contains(d),
        spec_select_tags(ts, tags, d).len() > 1,
    ensures
        spec_keep_shared(ds, ts, tags).contains(d),
    decreases ds.len(),
{
    if ds.len() > 0 {
        let kept = spec_keep_shared(ds, ts, tags);
        if ds.last() == d {
            assert(kept.last() == d);
            assert(kept[kept.len() - 1] == d);
        } else {
            let w = choose|w: int| 0 <= w < ds.len() && ds[w] == d;
            assert(ds.drop_last()[w] == d);
            lemma_keep_shared_contains(ds.drop_last(), ts, tags, d);
            let pre = spec_keep_shared(ds.drop_last(), ts, tags);
            let u = choose|u: int| 0 <= u < pre.len() && pre[u] == d;
            if spec_select_tags(ts, tags, ds.last()).len() > 1 {
                assert(kept[u] == d);
            }
        }
    }
}

/// Two data-less cases sharing one effective template make the schema
/// ambiguous: the shared template is flagged, and its group names both
/// cases' tags. The reversible conversion then refuses every input.
pub proof fn lemma_shared_template_is_ambiguous(e: &EnumSpec, i: int, j: int)
    requires
        spec_unit_only(e),
        0 <= i < j < e.cases@.len(),
        spec_effective_template(&e.cases@[i]) == spec_effective_template(&e.cases@[j]),
    ensures
        spec_ambiguous_templates(e).len() > 0,
        spec_ambiguous_templates(e).contains(spec_effective_template(&e.cases@[i])),
        spec_group_tags(e, spec_effective_template(&e.cases@[i])).contains(e.cases@[i].tag@),
        spec_group_tags(e, spec_effective_template(&e.cases@[i])).contains(e.cases@[j].tag@),
{
    let cs = e.cases@;
    let ts = spec_unit_templates(cs);
    let tags = spec_unit_tags(cs);
    let t = spec_effective_template(&cs[i]);
    lemma_unit_projections(cs);
    assert(ts[i] == t);
    assert(ts[j] == t);
    lemma_select_two(ts, tags, t, i, j);
    lemma_select_contains(ts, tags, t, i);
    lemma_select_contains(ts, tags, t, j);
    assert(ts.contains(t));
    lemma_dedup_contains(ts, t);
    lemma_keep_shared_contains(spec_dedup_first(ts), ts, tags, t);
    let amb = spec_ambiguous_templates(e);
    let w = choose|w: int| 0 <= w < amb.len() && amb[w] == t;
    assert(amb.len() > 0);
}

/// `needle` occurs somewhere in `hay` as contiguous text.
pub open spec fn spec_occurs_in(needle: Seq<char>, hay: Seq<char>) -> bool {
    exists|off: int|
        0 <= off && off + needle.len() <= hay.len() && #[trigger] hay.subrange(
            off,
            off + needle.len(),
        ) == needle
}

proof fn lemma_occurs_self(x: Seq<char>)
    ensures
        spec_occurs_in(x, x),
{
    let off: int = 0;
    assert(x.subrange(off, off + x.len()) =~= x);
}

proof fn lemma_occurs_left(n: Seq<char>, a: Seq<char>, b: Seq<char>)
    requires
        spec_occurs_in(n, a),
    ensures
        spec_occurs_in(n, a + b),
{
    let off = choose|off: int|
        0 <= off && off + n.len() <= a.len() && #[trigger] a.subrange(off, off + n.len()) == n;
    assert((a + b).subrange(off, off + n.len() as int) =~= a.subrange(off, off + n.len() as int));
}

proof fn lemma_occurs_right(n: Seq<char>, a: Seq<char>, b: Seq<char>)
    requires
        spec_occurs_in(n, b),
    ensures
        spec_occurs_in(n, a + b),
{
    let off = choose|off: int|
        0 <= off && off + n.len() <= b.len() && #[trigger] b.subrange(off, off + n.len()) == n;
    let off2 = a.len() + off;
    assert((a + b).subrange(off2 as int, off2 + n.len()) =~= b.subrange(off, off + n.len() as int));
}

proof fn lemma_occurs_trans(n: Seq<char>, m: Seq<char>, h: Seq<char>)
    requires
        spec_occurs_in(n, m),
        spec_occurs_in(m, h),
    ensures
        spec_occurs_in(n, h),
{
    let o1 = choose|o1: int|
        0 <= o1 && o1 + n.len() <= m.len() && #[trigger] m.subrange(o1, o1 + n.len()) == n;
    let o2 = choose|o2: int|
        0 <= o2 && o2 + m.len() <= h.len() && #[trigger] h.subrange(o2, o2 + m.len()) == m;
    assert(h.subrange(o2 + o1, o2 + o1 + n.len() as int) =~= m.subrange(o1, o1 + n.len() as int));
}

/// Each part occurs in the join.
proof fn lemma_join_contains_part(parts: Seq<Seq<char>>, sep: Seq<char>, k: int)
    requires
        0 <= k < parts.len(),
    ensures
        spec_occurs_in(parts[k], spec_join(parts, sep)),
    decreases parts.len(),
{
    lemma_occurs_self(parts[k]);
    if parts.len() == 1 {
    } else if k == parts.len() - 1 {
        lemma_occurs_right(
            parts[k],
            spec_join(parts.drop_last(), sep) + sep,
            parts[k],
        );
        assert(spec_join(parts, sep) == (spec_join(
            parts.drop_last(),
            sep,
        ) + sep) + parts.last());
    } else {
        lemma_join_contains_part(parts.drop_last(), sep, k);
        assert(parts.drop_last()[k] == parts[k]);
        lemma_occurs_left(parts[k], spec_join(parts.drop_last(), sep), sep);
        lemma_occurs_left(
            parts[k],
            spec_join(parts.drop_last(), sep) + sep,
            parts.last(),
        );
        assert(spec_join(parts, sep) == (spec_join(
            parts.drop_last(),
            sep,
        ) + sep) + parts.last());
    }
}

/// Each sharing tag occurs in its group's text.
proof fn lemma_group_text_names_tag(text: Seq<char>, tags: Seq<Seq<char>>, k: int)
    requires
        0 <= k < tags.len(),
    ensures
        spec_occurs_in(tags[k], spec_group_text(text, tags)),
{
    lemma_join_contains_part(tags, ", "@, k);
    let joined = spec_join(tags, ", "@);
    let prefix = "'"@ + text + "' (used by "@;
    lemma_occurs_right(tags[k], prefix, joined);
    lemma_occurs_left(tags[k], prefix + joined, ")"@);
    assert(spec_group_text(text, tags) == (prefix + joined) + ")"@);
}

/// While two data-less cases share one effective template, the conversion's
/// refusal text names both cases' tags.
pub proof fn lemma_ambiguity_message_names_tags(e: &EnumSpec, i: int, j: int)
    requires
        spec_unit_only(e),
        0 <= i < j < e.cases@.len(),
        spec_effective_template(&e.cases@[i]) == spec_effective_template(&e.cases@[j]),
    ensures
        spec_occurs_in(e.cases@[i].tag@, spec_ambiguity_message(e)),
        spec_occurs_in(e.cases@[j].tag@, spec_ambiguity_message(e)),
{
    lemma_shared_template_is_ambiguous(e, i, j);
    let t = spec_effective_template(&e.cases@[i]);
    let amb = spec_ambiguous_templates(e);
    let w = choose|w: int| 0 <= w < amb.len() && amb[w] == t;
    let group = spec_group_tags(e, t);
    let texts = Seq::new(amb.len(), |k: int| spec_group_text(amb[k], spec_group_tags(e, amb[k])));
    let ki = choose|k: int| 0 <= k < group.len() && group[k] == e.cases@[i].tag@;
    let kj = choose|k: int| 0 <= k < group.len() && group[k] == e.cases@[j].tag@;
    lemma_group_text_names_tag(t, group, ki);
    lemma_group_text_names_tag(t, group, kj);
    assert(texts[w] == spec_group_text(t, group));
    lemma_join_contains_part(texts, ", "@, w);
    let joined = spec_join(texts, ", "@);
    lemma_occurs_right(
        texts[w],
        "Ambiguous string representation. The following strings are used by multiple variants: "@,
        joined,
    );
    lemma_occurs_trans(
        e.cases@[i].tag@,
        texts[w],
        spec_ambiguity_message(e),
    );
    lemma_occurs_trans(
        e.cases@[j].tag@,
        texts[w],
        spec_ambiguity_message(e),
    );
}

} // verus!
