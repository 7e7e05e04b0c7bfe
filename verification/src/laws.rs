//! The library's general guarantees, each stated and proved over the spec
//! functions that the public contracts use.
use vstd::prelude::*;

use crate::chat_template::ChatTemplate;
use crate::message_like::MessageLike;
use crate::template::Template;
use crate::template_format::{
    lemma_formats_exclusive, spec_classifiable, spec_detected_format, spec_is_mustache,
    spec_is_plain_text, ErrView,
};
use crate::subst::{
    brace_free, braces_separated, lemma_replace_no_occurrence, lemma_replace_separated, pat_of,
    spec_replace_all,
};
use crate::template::spec_subst;
use crate::text::has_substring;
use crate::vars::SpecPair;

verus! {

/// Formatting is deterministic and free of hidden state: two templates
/// whose raw text, format, declared variables and default bindings agree,
/// formatted with bindings whose pair views agree, yield the same result.
pub proof fn lemma_format_deterministic(
    t1: Template,
    t2: Template,
    rt1: Seq<SpecPair>,
    rt2: Seq<SpecPair>,
)
    requires
        t1.spec_template() == t2.spec_template(),
        t1.spec_format() == t2.spec_format(),
        t1.spec_vars() == t2.spec_vars(),
        t1.spec_partials().spec_pairs() == t2.spec_partials().spec_pairs(),
        rt1 == rt2,
    ensures
        t1.spec_format_result(rt1) == t2.spec_format_result(rt2),
{
    lemma_lookup_agrees(t1, t2, rt1, t1.spec_vars());
    assert(t1.spec_lookup_map(rt1) =~= t2.spec_lookup_map(rt1));
}

/// Two templates with the same text views make the same binding decisions.
proof fn lemma_lookup_agrees(t1: Template, t2: Template, rt: Seq<SpecPair>, vars: Seq<Seq<char>>)
    requires
        t1.spec_partials().spec_pairs() == t2.spec_partials().spec_pairs(),
    ensures
        forall|k: Seq<char>| #[trigger] t1.spec_lookup(rt, k) == t2.spec_lookup(rt, k),
        t1.spec_first_missing_from(rt, vars) == t2.spec_first_missing_from(rt, vars),
    decreases vars.len(),
{
    if vars.len() > 0 {
        lemma_lookup_agrees(t1, t2, rt, vars.skip(1));
    }
}

/// Classification is total and unambiguous: every input is plain text, a
/// format string or mustache — exactly one of them — or none of the three,
/// in which case detection reports an explicit error.
pub proof fn lemma_classification_total(s: Seq<char>)
    ensures
        spec_classifiable(s) ==> {
            ||| spec_detected_format(s) is PlainText && spec_is_plain_text(s)
            ||| spec_detected_format(s) is Mustache && spec_is_mustache(s)
            ||| spec_detected_format(s) is FmtString && crate::template_format::spec_is_fmtstring(
                s,
            )
        },
        !(spec_is_plain_text(s) && spec_is_mustache(s)),
        !(spec_is_plain_text(s) && crate::template_format::spec_is_fmtstring(s)),
        !(spec_is_mustache(s) && crate::template_format::spec_is_fmtstring(s)),
{
    lemma_formats_exclusive(s);
}

/// The empty chat template is the identity of concatenation, on both
/// sides: concatenating contributes exactly the other operand's entries.
pub proof fn lemma_concat_identity(empty: Seq<MessageLike>, x: Seq<MessageLike>)
    requires
        empty.len() == 0,
    ensures
        empty + x == x,
        x + empty == x,
{
    assert(empty + x =~= x);
    assert(x + empty =~= x);
}

/// A covered template never reports a missing variable, and — for plain
/// text and the single-brace format — formatting succeeds outright.  For
/// mustache, success is exactly the engine's verdict.
pub proof fn lemma_format_succeeds(t: Template, rt: Seq<SpecPair>)
    requires
        forall|i: int|
            0 <= i < t.spec_vars().len() ==> t.spec_lookup(rt, #[trigger] t.spec_vars()[i])
                is Some,
    ensures
        t.spec_first_missing(rt) is None,
        t.spec_format() is PlainText || t.spec_format() is FmtString ==> t.spec_format_result(rt)
            is Ok,
        t.spec_format() is Mustache ==> (t.spec_format_result(rt) is Ok
            <==> crate::engine::spec_mustache_render(
            t.spec_template(),
            crate::vars::spec_merge(t.spec_partials().spec_pairs(), rt),
        ) is Ok),
{
    assert(t.spec_vars().skip(0) =~= t.spec_vars());
    lemma_first_missing_none(t, rt, t.spec_vars().skip(0), 0);
}

/// No variable of a fully covered suffix is reported missing.
proof fn lemma_first_missing_none(t: Template, rt: Seq<SpecPair>, vars: Seq<Seq<char>>, d: int)
    requires
        forall|i: int|
            0 <= i < t.spec_vars().len() ==> t.spec_lookup(rt, #[trigger] t.spec_vars()[i])
                is Some,
        0 <= d <= t.spec_vars().len(),
        vars == t.spec_vars().skip(d),
    ensures
        t.spec_first_missing_from(rt, vars) is None,
    decreases vars.len(),
{
    if vars.len() > 0 {
        assert(vars[0] == t.spec_vars()[d]);
        assert(vars.skip(1) =~= t.spec_vars().skip(d + 1));
        lemma_first_missing_none(t, rt, vars.skip(1), d + 1);
    }
}

/// A template declaring variables, formatted with bindings that miss some
/// of them, fails with exactly the first missing one, in declaration
/// order.
pub proof fn lemma_first_missing_reported(t: Template, rt: Seq<SpecPair>, i: int)
    requires
        0 <= i < t.spec_vars().len(),
        t.spec_lookup(rt, t.spec_vars()[i]) is None,
        forall|j: int| 0 <= j < i ==> t.spec_lookup(rt, #[trigger] t.spec_vars()[j]) is Some,
    ensures
        t.spec_format_result(rt) == Err::<Seq<char>, ErrView>(
            ErrView::Missing(t.spec_vars()[i]),
        ),
{
    lemma_first_missing_at(t, rt, i, 0);
    assert(t.spec_vars().skip(0) =~= t.spec_vars());
    assert(t.spec_first_missing(rt) == Some(t.spec_vars()[i]));
}

proof fn lemma_first_missing_at(t: Template, rt: Seq<SpecPair>, i: int, d: int)
    requires
        0 <= d <= i < t.spec_vars().len(),
        t.spec_lookup(rt, t.spec_vars()[i]) is None,
        forall|j: int| d <= j < i ==> t.spec_lookup(rt, #[trigger] t.spec_vars()[j]) is Some,
    ensures
        t.spec_first_missing_from(rt, t.spec_vars().skip(d)) == Some(t.spec_vars()[i]),
    decreases i - d,
{
    let vars = t.spec_vars().skip(d);
    assert(vars[0] == t.spec_vars()[d]);
    assert(vars.skip(1) =~= t.spec_vars().skip(d + 1));
    if d == i {
    } else {
        lemma_first_missing_at(t, rt, i, d + 1);
    }
}

/// Identifiers never hold a brace.
proof fn lemma_ident_brace_free(w: Seq<char>)
    requires
        crate::placeholder::spec_is_identifier(w),
    ensures
        brace_free(w),
        w.len() >= 1,
{
    assert forall|i: int| 0 <= i < w.len() implies w[i] != '{' && w[i] != '}' by {
        if i == 0 {
            assert(crate::placeholder::spec_is_ident_start(w[0]));
        } else {
            assert(crate::placeholder::spec_is_ident_char(w[i]));
        }
    }
}

/// Sequential substitution of identifier placeholders by brace-free values
/// removes every one of them for good: none of the substituted patterns,
/// nor any placeholder pattern absent from the input, occurs in the output.
proof fn lemma_subst_no_leftover(cur: Seq<char>, vars: Seq<Seq<char>>, mp: Map<Seq<char>, Seq<char>>)
    requires
        braces_separated(cur),
        forall|i: int|
            0 <= i < vars.len() ==> crate::placeholder::spec_is_identifier(#[trigger] vars[i]),
        forall|i: int| 0 <= i < vars.len() ==> mp.dom().contains(#[trigger] vars[i]),
        forall|i: int| 0 <= i < vars.len() ==> brace_free(mp[#[trigger] vars[i]]),
    ensures
        braces_separated(spec_subst(cur, vars, mp)),
        forall|i: int|
            0 <= i < vars.len() ==> !has_substring(
                spec_subst(cur, vars, mp),
                pat_of(#[trigger] vars[i]),
            ),
        forall|w: Seq<char>|
            crate::placeholder::spec_is_identifier(w) && !has_substring(cur, pat_of(w))
                ==> !has_substring(spec_subst(cur, vars, mp), #[trigger] pat_of(w)),
    decreases vars.len(),
{
    if vars.len() > 0 {
        let v0 = vars[0];
        let next = spec_replace_all(cur, pat_of(v0), mp[v0]);
        lemma_ident_brace_free(v0);
        lemma_replace_separated(cur, v0, mp[v0]);
        lemma_subst_no_leftover(next, vars.skip(1), mp);
        assert(spec_subst(cur, vars, mp) == spec_subst(next, vars.skip(1), mp));
        lemma_replace_no_occurrence(cur, v0, v0, mp[v0]);
        assert forall|i: int| 0 <= i < vars.len() implies !has_substring(
            spec_subst(cur, vars, mp),
            pat_of(#[trigger] vars[i]),
        ) by {
            if i == 0 {
                lemma_ident_brace_free(v0);
                assert(!has_substring(next, pat_of(v0)));
            } else {
                assert(vars.skip(1)[i - 1] == vars[i]);
            }
        }
        assert forall|w: Seq<char>|
            crate::placeholder::spec_is_identifier(w) && !has_substring(cur, pat_of(w)) implies
            !has_substring(spec_subst(cur, vars, mp), #[trigger] pat_of(w)) by {
            lemma_ident_brace_free(w);
            lemma_replace_no_occurrence(cur, v0, w, mp[v0]);
        }
    }
}

/// For a single-brace template whose opening braces are separated,
/// formatted with bindings that cover every declared variable with
/// brace-free values, formatting succeeds and the output holds no
/// `{variable}` pattern of any declared variable.  (A value that itself
/// holds braces, or a template with an opening brace nested inside another
/// group, can reintroduce a placeholder; those inputs are excluded here.)
pub proof fn lemma_fmtstring_no_leftover(t: Template, rt: Seq<SpecPair>)
    requires
        t.wf(),
        t.spec_format() is FmtString,
        braces_separated(t.spec_template()),
        forall|i: int|
            0 <= i < t.spec_vars().len() ==> t.spec_lookup(rt, #[trigger] t.spec_vars()[i])
                is Some,
        forall|i: int|
            0 <= i < t.spec_vars().len() ==> brace_free(
                t.spec_lookup(rt, #[trigger] t.spec_vars()[i])->Some_0,
            ),
    ensures
        t.spec_format_result(rt) is Ok,
        forall|i: int|
            0 <= i < t.spec_vars().len() ==> !has_substring(
                t.spec_format_result(rt)->Ok_0,
                pat_of(#[trigger] t.spec_vars()[i]),
            ),
{
    lemma_format_succeeds(t, rt);
    crate::template::lemma_wf_vars_identifiers(&t);
    let mp = t.spec_lookup_map(rt);
    assert(forall|i: int|
        0 <= i < t.spec_vars().len() ==> mp.dom().contains(#[trigger] t.spec_vars()[i]));
    assert(forall|i: int|
        0 <= i < t.spec_vars().len() ==> brace_free(mp[#[trigger] t.spec_vars()[i]]));
    lemma_subst_no_leftover(t.spec_template(), t.spec_vars(), mp);
}

/// Resolution of a chat template is a pure function of its entries and the
/// bindings' pair view: no entry's outcome depends on any other state.
pub proof fn lemma_resolution_deterministic(
    c1: ChatTemplate,
    c2: ChatTemplate,
    rt1: Seq<SpecPair>,
    rt2: Seq<SpecPair>,
)
    requires
        c1.messages@ == c2.messages@,
        rt1 == rt2,
    ensures
        crate::chat_template::spec_format_messages(c1.messages@, rt1)
            == crate::chat_template::spec_format_messages(c2.messages@, rt2),
{
}

} // verus!
