//! Literal text replacement: the substitution primitive behind the
//! single-brace format.
use vstd::prelude::*;

use crate::text::{has_substring, occurs_at};

verus! {

/// Every occurrence of `pat` in `s` replaced by `rep`, scanning left to
/// right without rescanning replaced text.
pub open spec fn spec_replace_all(s: Seq<char>, pat: Seq<char>, rep: Seq<char>) -> Seq<char>
    decreases s.len(),
{
    if pat.len() == 0 || s.len() < pat.len() {
        s
    } else if s.take(pat.len() as int) == pat {
        rep + spec_replace_all(s.skip(pat.len() as int), pat, rep)
    } else {
        seq![s[0]] + spec_replace_all(s.skip(1), pat, rep)
    }
}

/// The brace-delimited placeholder pattern for a variable name.
pub open spec fn pat_of(v: Seq<char>) -> Seq<char> {
    seq!['{'] + v + seq!['}']
}

/// A sequence without brace characters.
pub open spec fn brace_free(s: Seq<char>) -> bool {
    forall|i: int| 0 <= i < s.len() ==> s[i] != '{' && s[i] != '}'
}

/// Opening braces are separated: between any two of them stands a closing
/// brace.
pub open spec fn braces_separated(s: Seq<char>) -> bool {
    forall|i: int, j: int|
        #![trigger s[i], s[j]]
        0 <= i < j < s.len() && s[i] == '{' && s[j] == '{' ==> exists|k: int|
            i < k < j && s[k] == '}'
}

/// An opening brace stands before any other brace.
pub open spec fn opens_first(s: Seq<char>) -> bool {
    exists|i: int|
        #![trigger s[i]]
        0 <= i < s.len() && s[i] == '{' && (forall|k: int|
            0 <= k < i ==> s[k] != '{' && s[k] != '}')
}

/// `s` begins with `p`.
pub open spec fn starts_with(s: Seq<char>, p: Seq<char>) -> bool {
    s.len() >= p.len() && s.take(p.len() as int) == p
}

/// Separation survives dropping a prefix.
pub proof fn lemma_separated_skip(s: Seq<char>, n: int)
    requires
        braces_separated(s),
        0 <= n <= s.len(),
    ensures
        braces_separated(s.skip(n)),
{
    let t = s.skip(n);
    assert forall|i: int, j: int|
        0 <= i < j < t.len() && t[i] == '{' && t[j] == '{' implies exists|k: int|
        i < k < j && #[trigger] t[k] == '}' by {
        assert(s[i + n] == '{' && s[j + n] == '{');
        let k = choose|k: int| i + n < k < j + n && s[k] == '}';
        assert(t[k - n] == '}');
    }
}

/// An occurrence in a suffix is an occurrence in the whole.
pub proof fn lemma_no_occ_skip(s: Seq<char>, n: int, pat: Seq<char>)
    requires
        !has_substring(s, pat),
        0 <= n <= s.len(),
    ensures
        !has_substring(s.skip(n), pat),
{
    let t = s.skip(n);
    if has_substring(t, pat) {
        let q = choose|q: int| occurs_at(t, pat, q);
        assert(s.subrange(q + n, q + n + pat.len() as int) =~= t.subrange(
            q,
            q + pat.len() as int,
        ));
        assert(occurs_at(s, pat, q + n));
    }
}

/// If what replacement produced begins with brace-free text and a closing
/// brace, then either the input already began so, or the input's first
/// brace is an opening one.
proof fn lemma_replace_prefix(beta: Seq<char>, w: Seq<char>, vr: Seq<char>, rep: Seq<char>)
    requires
        brace_free(vr),
        vr.len() >= 1,
        brace_free(rep),
        brace_free(w),
        starts_with(spec_replace_all(beta, pat_of(vr), rep), w.push('}')),
    ensures
        starts_with(beta, w.push('}')) || opens_first(beta),
    decreases beta.len(),
{
    let pat = pat_of(vr);
    let r = spec_replace_all(beta, pat, rep);
    assert(pat[0] == '{');
    if beta.len() < pat.len() {
        assert(r == beta);
    } else if beta.take(pat.len() as int) == pat {
        assert(beta[0] == pat[0]);
        assert(opens_first(beta));
    } else {
        assert(r == seq![beta[0]] + spec_replace_all(beta.skip(1), pat, rep));
        let r2 = spec_replace_all(beta.skip(1), pat, rep);
        assert(r.take(w.len() as int + 1) == w.push('}'));
        assert(r[0] == beta[0]);
        assert(r[0] == w.push('}')[0]);
        if w.len() == 0 {
            assert(beta[0] == '}');
            assert(beta.take(1) =~= w.push('}'));
        } else {
            assert(beta[0] == w[0]);
            assert(r2.take(w.len() as int) =~= w.skip(1).push('}')) by {
                assert forall|x: int| 0 <= x < w.len() implies r2.take(w.len() as int)[x]
                    == w.skip(1).push('}')[x] by {
                    assert(r2[x] == r[x + 1]);
                    assert(r[x + 1] == w.push('}')[x + 1]);
                }
            }
            assert(starts_with(r2, w.skip(1).push('}'))) by {
                assert(r2.len() >= w.len());
            }
            lemma_replace_prefix(beta.skip(1), w.skip(1), vr, rep);
            if starts_with(beta.skip(1), w.skip(1).push('}')) {
                assert(beta.take(w.len() as int + 1) =~= w.push('}')) by {
                    assert forall|x: int| 0 <= x < w.len() as int + 1 implies beta.take(w.len() as int + 1)[x]
                        == w.push('}')[x] by {
                        if x > 0 {
                            assert(beta[x] == beta.skip(1)[x - 1]);
                            assert(beta.skip(1)[x - 1] == beta.skip(1).take(w.len() as int)[x
                                - 1]);
                        }
                    }
                }
            } else {
                let i = choose|i: int|
                    #![trigger beta.skip(1)[i]]
                    0 <= i < beta.skip(1).len() && beta.skip(1)[i] == '{' && (forall|k: int|
                        0 <= k < i ==> beta.skip(1)[k] != '{' && beta.skip(1)[k] != '}');
                assert(beta[i + 1] == '{');
                assert forall|k: int| 0 <= k < i + 1 implies beta[k] != '{' && beta[k]
                    != '}' by {
                    if k > 0 {
                        assert(beta.skip(1)[k - 1] != '{' && beta.skip(1)[k - 1] != '}');
                    }
                }
                assert(opens_first(beta));
            }
        }
    }
}

/// Every opening brace the replacement output holds without a closing
/// brace before it traces back to such an opening brace in the input.
proof fn lemma_replace_open_origin(beta: Seq<char>, wr: Seq<char>, rep: Seq<char>, q: int)
    requires
        brace_free(wr),
        wr.len() >= 1,
        brace_free(rep),
        0 <= q < spec_replace_all(beta, pat_of(wr), rep).len(),
        spec_replace_all(beta, pat_of(wr), rep)[q] == '{',
        forall|k: int| 0 <= k < q ==> spec_replace_all(beta, pat_of(wr), rep)[k] != '}',
    ensures
        exists|m: int|
            #![trigger beta[m]]
            0 <= m < beta.len() && beta[m] == '{' && (forall|k: int| 0 <= k < m ==> beta[k]
                != '}'),
    decreases beta.len(),
{
    let pat = pat_of(wr);
    let r = spec_replace_all(beta, pat, rep);
    assert(pat[0] == '{');
    if beta.len() < pat.len() {
        assert(r == beta);
    } else if beta.take(pat.len() as int) == pat {
        assert(beta[0] == pat[0]);
        assert(beta[0] == '{');
    } else {
        assert(r == seq![beta[0]] + spec_replace_all(beta.skip(1), pat, rep));
        if q == 0 {
            assert(beta[0] == '{');
        } else if beta[0] == '{' {
        } else {
            assert(beta[0] != '}') by {
                assert(r[0] == beta[0]);
            }
            let r2 = spec_replace_all(beta.skip(1), pat, rep);
            assert(r2[q - 1] == '{') by {
                assert(r[q] == r2[q - 1]);
            }
            assert forall|k: int| 0 <= k < q - 1 implies r2[k] != '}' by {
                assert(r[k + 1] == r2[k]);
            }
            lemma_replace_open_origin(beta.skip(1), wr, rep, q - 1);
            let m2 = choose|m: int|
                #![trigger beta.skip(1)[m]]
                0 <= m < beta.skip(1).len() && beta.skip(1)[m] == '{' && (forall|k: int|
                    0 <= k < m ==> beta.skip(1)[k] != '}');
            assert(beta[m2 + 1] == '{');
            assert forall|k: int| 0 <= k < m2 + 1 implies beta[k] != '}' by {
                if k > 0 {
                    assert(beta.skip(1)[k - 1] != '}');
                }
            }
        }
    }
}

/// Replacing a brace-delimited pattern by brace-free text keeps opening
/// braces separated.
pub proof fn lemma_replace_separated(s: Seq<char>, wr: Seq<char>, rep: Seq<char>)
    requires
        brace_free(wr),
        wr.len() >= 1,
        brace_free(rep),
        braces_separated(s),
    ensures
        braces_separated(spec_replace_all(s, pat_of(wr), rep)),
    decreases s.len(),
{
    let pat = pat_of(wr);
    let r = spec_replace_all(s, pat, rep);
    assert(pat[0] == '{');
    if s.len() < pat.len() {
        assert(r == s);
    } else if s.take(pat.len() as int) == pat {
        lemma_separated_skip(s, pat.len() as int);
        lemma_replace_separated(s.skip(pat.len() as int), wr, rep);
        let r2 = spec_replace_all(s.skip(pat.len() as int), pat, rep);
        assert(r == rep + r2);
        assert forall|i: int, j: int|
            0 <= i < j < r.len() && r[i] == '{' && r[j] == '{' implies exists|k: int|
            i < k < j && #[trigger] r[k] == '}' by {
            assert(i >= rep.len()) by {
                if i < rep.len() {
                    assert(r[i] == rep[i]);
                }
            }
            assert(r2[i - rep.len()] == '{' && r2[j - rep.len()] == '{');
            let k2 = choose|k: int| i - rep.len() < k < j - rep.len() && r2[k] == '}';
            assert(r[k2 + rep.len()] == '}');
        }
    } else {
        lemma_separated_skip(s, 1);
        lemma_replace_separated(s.skip(1), wr, rep);
        let r2 = spec_replace_all(s.skip(1), pat, rep);
        assert(r == seq![s[0]] + r2);
        assert forall|i: int, j: int|
            0 <= i < j < r.len() && r[i] == '{' && r[j] == '{' implies exists|k: int|
            i < k < j && #[trigger] r[k] == '}' by {
            if i >= 1 {
                assert(r2[i - 1] == '{' && r2[j - 1] == '{');
                let k2 = choose|k: int| i - 1 < k < j - 1 && r2[k] == '}';
                assert(r[k2 + 1] == '}');
            } else {
                assert(s[0] == '{') by {
                    assert(r[0] == s[0]);
                }
                assert(r2[j - 1] == '{');
                if forall|k: int| 0 < k < j ==> #[trigger] r[k] != '}' {
                    assert forall|k: int| 0 <= k < j - 1 implies r2[k] != '}' by {
                        assert(r[k + 1] == r2[k]);
                    }
                    lemma_replace_open_origin(s.skip(1), wr, rep, j - 1);
                    let m = choose|m: int|
                        #![trigger s.skip(1)[m]]
                        0 <= m < s.skip(1).len() && s.skip(1)[m] == '{' && (forall|k: int|
                            0 <= k < m ==> s.skip(1)[k] != '}');
                    assert(s[m + 1] == '{');
                    let kk = choose|k: int| 0 < k < m + 1 && s[k] == '}';
                    assert(s.skip(1)[kk - 1] == '}');
                    assert(false);
                }
                let k = choose|k: int| 0 < k < j && #[trigger] r[k] == '}';
                assert(i < k < j && r[k] == '}');
            }
        }
    }
}

/// After replacing a placeholder pattern by brace-free text, no occurrence
/// of it — nor of any other placeholder pattern the input did not hold —
/// remains in the output, provided the input's opening braces were
/// separated.
pub proof fn lemma_replace_no_occurrence(
    s: Seq<char>,
    wr: Seq<char>,
    v: Seq<char>,
    rep: Seq<char>,
)
    requires
        brace_free(wr),
        wr.len() >= 1,
        brace_free(v),
        v.len() >= 1,
        brace_free(rep),
        braces_separated(s),
        v == wr || !has_substring(s, pat_of(v)),
    ensures
        !has_substring(spec_replace_all(s, pat_of(wr), rep), pat_of(v)),
    decreases s.len(),
{
    let patr = pat_of(wr);
    let patv = pat_of(v);
    let r = spec_replace_all(s, patr, rep);
    assert(patr[0] == '{');
    assert(patv[0] == '{');
    if s.len() < patr.len() {
        assert(r == s);
        if has_substring(r, patv) {
            let q = choose|q: int| occurs_at(r, patv, q);
            if v == wr {
                assert(patv =~= patr);
                assert(false);
            } else {
                assert(occurs_at(s, patv, q));
                assert(false);
            }
        }
    } else if s.take(patr.len() as int) == patr {
        lemma_separated_skip(s, patr.len() as int);
        if v != wr {
            lemma_no_occ_skip(s, patr.len() as int, patv);
        }
        lemma_replace_no_occurrence(s.skip(patr.len() as int), wr, v, rep);
        let r2 = spec_replace_all(s.skip(patr.len() as int), patr, rep);
        assert(r == rep + r2);
        if has_substring(r, patv) {
            let q = choose|q: int| occurs_at(r, patv, q);
            assert(r[q] == patv[0]) by {
                assert(r.subrange(q, q + patv.len() as int)[0] == patv[0]);
            }
            assert(q >= rep.len()) by {
                if q < rep.len() {
                    assert(r[q] == rep[q]);
                }
            }
            assert(occurs_at(r2, patv, q - rep.len())) by {
                assert(r2.subrange(q - rep.len(), q - rep.len() + patv.len() as int) =~= r.subrange(
                    q,
                    q + patv.len() as int,
                ));
            }
            assert(false);
        }
    } else {
        lemma_separated_skip(s, 1);
        if v != wr {
            lemma_no_occ_skip(s, 1, patv);
        }
        lemma_replace_no_occurrence(s.skip(1), wr, v, rep);
        let r2 = spec_replace_all(s.skip(1), patr, rep);
        assert(r == seq![s[0]] + r2);
        if has_substring(r, patv) {
            let q = choose|q: int| occurs_at(r, patv, q);
            if q >= 1 {
                assert(occurs_at(r2, patv, q - 1)) by {
                    assert(r2.subrange(q - 1, q - 1 + patv.len() as int) =~= r.subrange(
                        q,
                        q + patv.len() as int,
                    ));
                }
                assert(false);
            } else {
                assert(r.take(patv.len() as int) =~= r.subrange(0, patv.len() as int));
                assert(starts_with(r, patv));
                assert(s[0] == '{') by {
                    assert(r[0] == patv[0]);
                }
                let w1 = seq!['{'] + v;
                assert(patv =~= w1.push('}'));
                assert(starts_with(r, w1.push('}')));
                assert(r2.take(v.len() as int + 1) =~= v.push('}')) by {
                    assert forall|x: int| 0 <= x < v.len() as int + 1 implies r2.take(v.len() as int + 1)[x]
                        == v.push('}')[x] by {
                        assert(r2[x] == r[x + 1]);
                        assert(r[x + 1] == patv[x + 1]);
                        assert(patv[x + 1] == v.push('}')[x]);
                    }
                }
                assert(starts_with(r2, v.push('}')));
                lemma_replace_prefix(s.skip(1), v, wr, rep);
                if starts_with(s.skip(1), v.push('}')) {
                    assert(s.take(patv.len() as int) =~= patv) by {
                        assert forall|x: int| 0 <= x < patv.len() implies s.take(
                            patv.len() as int,
                        )[x] == patv[x] by {
                            if x > 0 {
                                assert(s[x] == s.skip(1)[x - 1]);
                                assert(s.skip(1)[x - 1] == s.skip(1).take(v.len() as int + 1)[x - 1]);
                                assert(v.push('}')[x - 1] == patv[x]);
                            }
                        }
                    }
                    if v == wr {
                        assert(patv =~= patr);
                        assert(false);
                    } else {
                        assert(occurs_at(s, patv, 0));
                        assert(false);
                    }
                } else {
                    let i = choose|i: int|
                        #![trigger s.skip(1)[i]]
                        0 <= i < s.skip(1).len() && s.skip(1)[i] == '{' && (forall|k: int|
                            0 <= k < i ==> s.skip(1)[k] != '{' && s.skip(1)[k] != '}');
                    assert(s[i + 1] == '{');
                    let kk = choose|k: int| 0 < k < i + 1 && s[k] == '}';
                    assert(s.skip(1)[kk - 1] == '}');
                    assert(false);
                }
            }
        }
    }
}

/// Exact check of `pat` against `s` at offset `i`.
fn matches_at(s: &Vec<char>, pat: &Vec<char>, i: usize) -> (r: bool)
    requires
        i + pat@.len() <= s@.len(),
    ensures
        r == (s@.subrange(i as int, i + pat@.len() as int) == pat@),
{
    let n = s.len();
    let mut j: usize = 0;
    while j < pat.len()
        invariant
            j <= pat@.len(),
            n == s@.len(),
            i + pat@.len() <= s@.len(),
            forall|k: int| 0 <= k < j ==> s@[i + k] == pat@[k],
        decreases pat.len() - j,
    {
        if s[i + j] != pat[j] {
            proof {
                assert(s@.subrange(i as int, i + pat@.len() as int)[j as int] != pat@[j as int]);
            }
            return false;
        }
        j += 1;
    }
    proof {
        assert(s@.subrange(i as int, i + pat@.len() as int) =~= pat@);
    }
    true
}

/// Replace every occurrence of `pat` in `s` by `rep`, left to right.
pub fn replace_all_chars(s: &Vec<char>, pat: &Vec<char>, rep: &Vec<char>) -> (r: Vec<char>)
    requires
        pat@.len() >= 1,
    ensures
        r@ == spec_replace_all(s@, pat@, rep@),
{
    let n = s.len();
    let mut out: Vec<char> = Vec::new();
    let mut i: usize = 0;
    proof {
        assert(s@.skip(0) =~= s@);
        assert(out@ + spec_replace_all(s@.skip(0), pat@, rep@) =~= spec_replace_all(
            s@,
            pat@,
            rep@,
        ));
    }
    while i < n
        invariant
            i <= n,
            n == s@.len(),
            pat@.len() >= 1,
            spec_replace_all(s@, pat@, rep@) == out@ + spec_replace_all(
                s@.skip(i as int),
                pat@,
                rep@,
            ),
        decreases n - i,
    {
        let ghost tail = s@.skip(i as int);
        if pat.len() <= n - i && matches_at(s, pat, i) {
            proof {
                assert(tail.take(pat@.len() as int) =~= s@.subrange(
                    i as int,
                    i + pat@.len() as int,
                ));
                assert(tail.skip(pat@.len() as int) =~= s@.skip(i + pat@.len()));
                assert(spec_replace_all(tail, pat@, rep@) == rep@ + spec_replace_all(
                    s@.skip(i + pat@.len()),
                    pat@,
                    rep@,
                ));
            }
            let ghost oldout = out@;
            out.extend_from_slice(rep.as_slice());
            proof {
                assert(out@ =~= oldout + rep@);
                assert(out@ + spec_replace_all(s@.skip(i + pat@.len()), pat@, rep@) =~= oldout
                    + spec_replace_all(tail, pat@, rep@));
            }
            i += pat.len();
        } else {
            proof {
                assert(tail[0] == s@[i as int]);
                if tail.len() < pat@.len() {
                    assert(spec_replace_all(tail, pat@, rep@) == tail);
                    assert(spec_replace_all(tail.skip(1), pat@, rep@) == tail.skip(1));
                    assert(seq![tail[0]] + tail.skip(1) =~= tail);
                } else {
                    assert(tail.take(pat@.len() as int) =~= s@.subrange(
                        i as int,
                        i + pat@.len() as int,
                    ));
                    assert(tail.take(pat@.len() as int) != pat@);
                }
                assert(spec_replace_all(tail, pat@, rep@) == seq![tail[0]] + spec_replace_all(
                    tail.skip(1),
                    pat@,
                    rep@,
                ));
                assert(tail.skip(1) =~= s@.skip(i as int + 1));
            }
            let ghost oldout = out@;
            out.push(s[i]);
            proof {
                assert(out@ =~= oldout.push(s@[i as int]));
                assert(out@ + spec_replace_all(s@.skip(i as int + 1), pat@, rep@) =~= oldout
                    + spec_replace_all(tail, pat@, rep@));
            }
            i += 1;
        }
    }
    proof {
        assert(s@.skip(n as int).len() == 0);
        assert(spec_replace_all(s@.skip(n as int), pat@, rep@) =~= Seq::<char>::empty());
        assert(out@ =~= out@ + Seq::<char>::empty());
    }
    out
}

} // verus!
