//! Placeholder variables: identifier validation and extraction of declared
//! variables from a template's brace groups.
use vstd::prelude::*;

use crate::template_format::{ErrView, TemplateError};
use crate::text::{chars_string, find_char, spec_is_space, str_chars, str_eq};

verus! {

pub open spec fn spec_is_ident_start(c: char) -> bool {
    c == '_' || ('a' <= c && c <= 'z') || ('A' <= c && c <= 'Z')
}

pub open spec fn spec_is_ident_char(c: char) -> bool {
    spec_is_ident_start(c) || ('0' <= c && c <= '9')
}

/// A valid identifier: a letter or underscore, then letters, digits and
/// underscores.
pub open spec fn spec_is_identifier(s: Seq<char>) -> bool {
    s.len() > 0 && spec_is_ident_start(s[0]) && forall|i: int|
        1 <= i < s.len() ==> spec_is_ident_char(#[trigger] s[i])
}

/// Leading whitespace removed.
pub open spec fn trim_start(s: Seq<char>) -> Seq<char>
    decreases s.len(),
{
    if s.len() > 0 && spec_is_space(s[0]) {
        trim_start(s.skip(1))
    } else {
        s
    }
}

/// Trailing whitespace removed.
pub open spec fn trim_end(s: Seq<char>) -> Seq<char>
    decreases s.len(),
{
    if s.len() > 0 && spec_is_space(s.last()) {
        trim_end(s.drop_last())
    } else {
        s
    }
}

pub open spec fn spec_trim(s: Seq<char>) -> Seq<char> {
    trim_end(trim_start(s))
}

/// The contents of every brace group of `s`, in order: each run of
/// non-closing characters delimited by an opening brace (doubled braces
/// count as one delimiter) and the first closing brace after it.
pub open spec fn scan_groups(s: Seq<char>) -> Seq<Seq<char>>
    decreases s.len(),
{
    if s.len() == 0 {
        Seq::empty()
    } else if s[0] == '{' {
        match find_char(s, '}') {
            None => Seq::empty(),
            Some(kk) => {
                if kk >= 2 {
                    let j: int = if s[1] == '{' {
                        2
                    } else {
                        1
                    };
                    let e0: int = if kk + 1 < s.len() && s[kk + 1] == '}' {
                        kk + 2
                    } else {
                        kk + 1
                    };
                    let e: int = if 1 <= e0 <= s.len() {
                        e0
                    } else {
                        1
                    };
                    seq![s.subrange(j, kk)] + scan_groups(s.skip(e))
                } else {
                    scan_groups(s.skip(1))
                }
            },
        }
    } else {
        scan_groups(s.skip(1))
    }
}

/// Keep the trimmed groups that are identifiers, dropping repeats.
pub open spec fn filter_idents(gs: Seq<Seq<char>>, seen: Set<Seq<char>>) -> Seq<Seq<char>>
    decreases gs.len(),
{
    if gs.len() == 0 {
        Seq::empty()
    } else {
        let t = spec_trim(gs[0]);
        if spec_is_identifier(t) && !seen.contains(t) {
            seq![t] + filter_idents(gs.skip(1), seen.insert(t))
        } else {
            filter_idents(gs.skip(1), seen)
        }
    }
}

/// The declared variables of a template: unique identifiers found between
/// braces, in first-occurrence order.
pub open spec fn spec_extract_vars(s: Seq<char>) -> Seq<Seq<char>> {
    filter_idents(scan_groups(s), Set::empty())
}

pub open spec fn views_of(rs: Seq<String>) -> Seq<Seq<char>> {
    rs.map_values(|x: String| x@)
}

/// Every extracted variable is a valid identifier.
pub proof fn lemma_extract_vars_idents(s: Seq<char>)
    ensures
        forall|i: int|
            0 <= i < spec_extract_vars(s).len() ==> spec_is_identifier(
                #[trigger] spec_extract_vars(s)[i],
            ),
{
    lemma_filter_idents_ident(scan_groups(s), Set::empty());
}

proof fn lemma_filter_idents_ident(gs: Seq<Seq<char>>, seen: Set<Seq<char>>)
    ensures
        forall|i: int|
            0 <= i < filter_idents(gs, seen).len() ==> spec_is_identifier(
                #[trigger] filter_idents(gs, seen)[i],
            ),
    decreases gs.len(),
{
    if gs.len() > 0 {
        let t = spec_trim(gs[0]);
        if spec_is_identifier(t) && !seen.contains(t) {
            lemma_filter_idents_ident(gs.skip(1), seen.insert(t));
            assert forall|i: int| 0 <= i < filter_idents(gs, seen).len() implies spec_is_identifier(
                #[trigger] filter_idents(gs, seen)[i],
            ) by {
                if i == 0 {
                    assert(filter_idents(gs, seen)[0] == t);
                } else {
                    assert(filter_idents(gs, seen)[i] == filter_idents(gs.skip(1), seen.insert(t))[
                        i - 1
                    ]);
                }
            }
        } else {
            lemma_filter_idents_ident(gs.skip(1), seen);
            assert forall|i: int| 0 <= i < filter_idents(gs, seen).len() implies spec_is_identifier(
                #[trigger] filter_idents(gs, seen)[i],
            ) by {
                assert(filter_idents(gs, seen)[i] == filter_idents(gs.skip(1), seen)[i]);
            }
        }
    }
}

fn is_ident_start_exec(c: char) -> (r: bool)
    ensures
        r == spec_is_ident_start(c),
{
    c == '_' || ('a' <= c && c <= 'z') || ('A' <= c && c <= 'Z')
}

fn is_ident_char_exec(c: char) -> (r: bool)
    ensures
        r == spec_is_ident_char(c),
{
    is_ident_start_exec(c) || ('0' <= c && c <= '9')
}

fn ident_chars(v: &Vec<char>) -> (r: bool)
    ensures
        r == spec_is_identifier(v@),
{
    if v.len() == 0 {
        return false;
    }
    if !is_ident_start_exec(v[0]) {
        return false;
    }
    let mut i: usize = 1;
    while i < v.len()
        invariant
            1 <= i <= v@.len(),
            forall|j: int| 1 <= j < i ==> spec_is_ident_char(#[trigger] v@[j]),
        decreases v.len() - i,
    {
        if !is_ident_char_exec(v[i]) {
            return false;
        }
        i += 1;
    }
    true
}

pub fn is_valid_identifier(s: &str) -> (r: bool)
    ensures
        r == spec_is_identifier(s@),
{
    let v = str_chars(s);
    ident_chars(&v)
}

/// A copy of `v[lo..hi]`.
fn subvec(v: &Vec<char>, lo: usize, hi: usize) -> (r: Vec<char>)
    requires
        lo <= hi <= v@.len(),
    ensures
        r@ == v@.subrange(lo as int, hi as int),
{
    let mut r: Vec<char> = Vec::new();
    let mut i: usize = lo;
    while i < hi
        invariant
            lo <= i <= hi <= v@.len(),
            r@ == v@.subrange(lo as int, i as int),
        decreases hi - i,
    {
        r.push(v[i]);
        proof {
            assert(r@ =~= v@.subrange(lo as int, i as int + 1));
        }
        i += 1;
    }
    r
}

/// `v` with leading and trailing whitespace removed.
fn trim_chars(v: &Vec<char>) -> (r: Vec<char>)
    ensures
        r@ == spec_trim(v@),
{
    let n = v.len();
    let mut lo: usize = 0;
    proof {
        assert(v@.skip(0) =~= v@);
    }
    while lo < n && crate::text::is_space(v[lo])
        invariant
            lo <= n,
            n == v@.len(),
            trim_start(v@) == trim_start(v@.skip(lo as int)),
        decreases n - lo,
    {
        proof {
            assert(v@.skip(lo as int)[0] == v@[lo as int]);
            assert(v@.skip(lo as int).skip(1) =~= v@.skip(lo as int + 1));
        }
        lo += 1;
    }
    proof {
        assert(trim_start(v@.skip(lo as int)) == v@.skip(lo as int));
    }
    let ghost w = v@.skip(lo as int);
    let mut hi: usize = n;
    proof {
        assert(w.take(n - lo as int) =~= w);
    }
    while hi > lo && crate::text::is_space(v[hi - 1])
        invariant
            lo <= hi <= n,
            n == v@.len(),
            w == v@.skip(lo as int),
            trim_end(w) == trim_end(w.take(hi - lo as int)),
        decreases hi,
    {
        proof {
            let m = hi - lo as int;
            assert(w.take(m).last() == v@[hi - 1]);
            assert(w.take(m).drop_last() =~= w.take(m - 1));
        }
        hi -= 1;
    }
    proof {
        let m = hi - lo as int;
        if m > 0 {
            assert(w.take(m).last() == v@[hi - 1]);
        }
        assert(trim_end(w.take(m)) == w.take(m));
        assert(w.take(m) =~= v@.subrange(lo as int, hi as int));
    }
    subvec(v, lo, hi)
}

/// Whether some string of `rs` has exactly the characters of `t`.
fn contains_string(rs: &Vec<String>, t: &Vec<char>) -> (r: bool)
    ensures
        r == views_of(rs@).contains(t@),
{
    let ts = chars_string(t);
    let mut i: usize = 0;
    while i < rs.len()
        invariant
            i <= rs@.len(),
            ts@ == t@,
            forall|j: int| 0 <= j < i ==> views_of(rs@)[j] != t@,
        decreases rs.len() - i,
    {
        if str_eq(rs[i].as_str(), ts.as_str()) {
            proof {
                assert(views_of(rs@)[i as int] == t@);
            }
            return true;
        }
        i += 1;
    }
    proof {
        assert(forall|j: int| 0 <= j < views_of(rs@).len() ==> views_of(rs@)[j] != t@);
    }
    false
}

/// All brace-group contents of `v`, in order.
fn collect_groups(v: &Vec<char>) -> (r: Vec<Vec<char>>)
    ensures
        r@.map_values(|g: Vec<char>| g@) == scan_groups(v@),
{
    let n = v.len();
    let mut groups: Vec<Vec<char>> = Vec::new();
    let mut i: usize = 0;
    proof {
        assert(v@.skip(0) =~= v@);
        assert(groups@.map_values(|g: Vec<char>| g@) =~= Seq::<Seq<char>>::empty());
    }
    while i < n
        invariant
            i <= n,
            n == v@.len(),
            scan_groups(v@) =~= groups@.map_values(|g: Vec<char>| g@) + scan_groups(
                v@.skip(i as int),
            ),
        decreases n - i,
    {
        let ghost s = v@.skip(i as int);
        proof {
            assert(s[0] == v@[i as int]);
        }
        if v[i] == '{' {
            match crate::braces::find_char_from(v, '}', i) {
                None => {
                    proof {
                        assert(scan_groups(s) =~= Seq::<Seq<char>>::empty());
                    }
                    return groups;
                },
                Some(k) => {
                    proof {
                        assert(find_char(s, '}') == Some(k - i));
                    }
                    if k >= i + 2 {
                        let j: usize = if i + 1 < n && v[i + 1] == '{' {
                            i + 2
                        } else {
                            i + 1
                        };
                        let cap = subvec(v, j, k);
                        let e: usize = if k + 1 < n && v[k + 1] == '}' {
                            k + 2
                        } else {
                            k + 1
                        };
                        let ghost oldgroups = groups@;
                        groups.push(cap);
                        proof {
                            assert(s[1] == v@[i + 1]);
                            assert(s.len() == n - i);
                            let jj: int = if s[1] == '{' {
                                2int
                            } else {
                                1int
                            };
                            assert(jj == j - i);
                            if k + 1 < n {
                                assert(s[k - i + 1] == v@[k + 1]);
                            }
                            let ee: int = if k - i + 1 < s.len() && s[k - i + 1] == '}' {
                                k - i + 2
                            } else {
                                k - i + 1
                            };
                            assert(ee == e - i);
                            assert(scan_groups(s) == seq![s.subrange(jj, k - i)] + scan_groups(
                                s.skip(ee),
                            ));
                            assert(s.subrange(jj, k - i) =~= v@.subrange(j as int, k as int));
                            assert(cap@ == s.subrange(jj, k - i));
                            assert(s.skip(ee) =~= v@.skip(e as int));
                            assert(groups@.map_values(|g: Vec<char>| g@) =~= oldgroups.map_values(
                                |g: Vec<char>| g@,
                            ).push(cap@));
                        }
                        i = e;
                    } else {
                        proof {
                            assert(scan_groups(s) == scan_groups(s.skip(1)));
                            assert(s.skip(1) =~= v@.skip(i as int + 1));
                        }
                        i += 1;
                    }
                },
            }
        } else {
            proof {
                assert(scan_groups(s) == scan_groups(s.skip(1)));
                assert(s.skip(1) =~= v@.skip(i as int + 1));
            }
            i += 1;
        }
    }
    proof {
        assert(v@.skip(n as int).len() == 0);
    }
    groups
}

pub fn extract_variables(template: &str) -> (r: Vec<String>)
    ensures
        views_of(r@) == spec_extract_vars(template@),
{
    let v = str_chars(template);
    let groups = collect_groups(&v);
    let ghost all = groups@.map_values(|g: Vec<char>| g@);
    let mut result: Vec<String> = Vec::new();
    let ghost mut seen = Set::<Seq<char>>::empty();
    let mut t: usize = 0;
    proof {
        assert(all.skip(0) =~= all);
        assert(views_of(result@) =~= Seq::<Seq<char>>::empty());
    }
    while t < groups.len()
        invariant
            t <= groups@.len(),
            all == groups@.map_values(|g: Vec<char>| g@),
            filter_idents(all, Set::empty()) =~= views_of(result@) + filter_idents(
                all.skip(t as int),
                seen,
            ),
            forall|x: Seq<char>| seen.contains(x) <==> views_of(result@).contains(x),
        decreases groups@.len() - t,
    {
        let ghost rest = all.skip(t as int);
        proof {
            assert(rest[0] == all[t as int]);
            assert(all[t as int] == groups@[t as int]@);
            assert(rest.skip(1) =~= all.skip(t as int + 1));
        }
        let trimmed = trim_chars(&groups[t]);
        let is_ident = ident_chars(&trimmed);
        if is_ident && !contains_string(&result, &trimmed) {
            let ghost oldresult = result@;
            let ts = chars_string(&trimmed);
            result.push(ts);
            proof {
                assert(views_of(result@) =~= views_of(oldresult).push(trimmed@));
                assert(filter_idents(rest, seen) == seq![trimmed@] + filter_idents(
                    rest.skip(1),
                    seen.insert(trimmed@),
                ));
                assert(views_of(result@) + filter_idents(all.skip(t as int + 1), seen.insert(trimmed@))
                    =~= views_of(oldresult) + filter_idents(rest, seen));
                assert forall|x: Seq<char>|
                    seen.insert(trimmed@).contains(x) <==> views_of(result@).contains(x) by {
                    if x == trimmed@ {
                        assert(views_of(result@)[views_of(result@).len() - 1] == trimmed@);
                    } else {
                        if views_of(result@).contains(x) {
                            let ix = choose|ix: int|
                                0 <= ix < views_of(result@).len() && views_of(result@)[ix] == x;
                            assert(views_of(oldresult)[ix] == x);
                        }
                        if views_of(oldresult).contains(x) {
                            let ix = choose|ix: int|
                                0 <= ix < views_of(oldresult).len() && views_of(oldresult)[ix]
                                    == x;
                            assert(views_of(result@)[ix] == x);
                        }
                    }
                }
            }
            proof {
                seen = seen.insert(trimmed@);
            }
        } else {
            proof {
                assert(filter_idents(rest, seen) == filter_idents(rest.skip(1), seen));
            }
        }
        t += 1;
    }
    proof {
        assert(all.skip(groups@.len() as int).len() == 0);
        assert(filter_idents(all.skip(groups@.len() as int), seen) =~= Seq::<Seq<char>>::empty());
        assert(views_of(result@) =~= views_of(result@) + Seq::<Seq<char>>::empty());
        assert(views_of(result@) =~= spec_extract_vars(template@));
    }
    result
}

/// The single declared variable of a placeholder slot.
pub fn extract_placeholder_variable(template: &str) -> (r: Result<String, TemplateError>)
    ensures
        r is Ok <==> spec_extract_vars(template@).len() == 1,
        r matches Ok(x) ==> x@ == spec_extract_vars(template@)[0],
        r matches Err(e) ==> e@ == ErrView::Malformed(
            "Template must contain exactly one placeholder variable."@,
        ),
{
    let variables = extract_variables(template);
    if variables.len() == 1 {
        let x = variables[0].clone();
        proof {
            assert(views_of(variables@)[0] == variables@[0]@);
        }
        Ok(x)
    } else {
        Err(
            TemplateError::MalformedTemplate(
                ph_err_string("Template must contain exactly one placeholder variable."),
            ),
        )
    }
}

/// An owned copy of a string slice.
fn ph_err_string(s: &str) -> (r: String)
    ensures
        r@ == s@,
{
    s.to_owned()
}

} // verus!
