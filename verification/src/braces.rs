//! Brace analysis: the counting and shape tests that template format
//! classification is built on.
use vstd::prelude::*;

use crate::text::{
    count_char, count_char_exec, find_char, has_substring, has_substring_exec, spec_is_space,
    str_chars,
};

verus! {

/// The doubled opening delimiter.
pub open spec fn double_left() -> Seq<char> {
    seq!['{', '{']
}

/// The doubled closing delimiter.
pub open spec fn double_right() -> Seq<char> {
    seq!['}', '}']
}

pub fn count_left_braces(s: &str) -> (r: usize)
    ensures
        r == count_char(s@, '{'),
{
    let v = str_chars(s);
    count_char_exec(&v, '{')
}

pub fn count_right_braces(s: &str) -> (r: usize)
    ensures
        r == count_char(s@, '}'),
{
    let v = str_chars(s);
    count_char_exec(&v, '}')
}

pub fn has_even_left_braces(s: &str) -> (r: bool)
    ensures
        r == (count_char(s@, '{') % 2 == 0),
{
    count_left_braces(s) % 2 == 0
}

pub fn has_even_right_braces(s: &str) -> (r: bool)
    ensures
        r == (count_char(s@, '}') % 2 == 0),
{
    count_right_braces(s) % 2 == 0
}

pub fn has_left_brace(s: &str) -> (r: bool)
    ensures
        r == (count_char(s@, '{') > 0),
{
    count_left_braces(s) > 0
}

pub fn has_right_brace(s: &str) -> (r: bool)
    ensures
        r == (count_char(s@, '}') > 0),
{
    count_right_braces(s) > 0
}

pub fn has_consecutive_left_braces(s: &str) -> (r: bool)
    ensures
        r == has_substring(s@, double_left()),
{
    let v = str_chars(s);
    let pat: Vec<char> = vec!['{', '{'];
    proof {
        assert(pat@ =~= double_left());
    }
    has_substring_exec(&v, &pat)
}

pub fn has_consecutive_right_braces(s: &str) -> (r: bool)
    ensures
        r == has_substring(s@, double_right()),
{
    let v = str_chars(s);
    let pat: Vec<char> = vec!['}', '}'];
    proof {
        assert(pat@ =~= double_right());
    }
    has_substring_exec(&v, &pat)
}

/// The string has at least one brace of each side and never doubles one.
pub open spec fn only_single_braces(s: Seq<char>) -> bool {
    &&& count_char(s, '{') > 0
    &&& count_char(s, '}') > 0
    &&& !has_substring(s, double_left())
    &&& !has_substring(s, double_right())
}

pub fn has_only_single_braces(s: &str) -> (r: bool)
    ensures
        r == only_single_braces(s@),
{
    has_left_brace(s) && has_right_brace(s) && !has_consecutive_left_braces(s)
        && !has_consecutive_right_braces(s)
}

/// The string has doubled delimiters of both sides and even brace counts.
pub open spec fn only_double_braces(s: Seq<char>) -> bool {
    &&& has_substring(s, double_left())
    &&& has_substring(s, double_right())
    &&& count_char(s, '{') % 2 == 0
    &&& count_char(s, '}') % 2 == 0
}

pub fn has_only_double_braces(s: &str) -> (r: bool)
    ensures
        r == only_double_braces(s@),
{
    has_consecutive_left_braces(s) && has_consecutive_right_braces(s) && has_even_left_braces(s)
        && has_even_right_braces(s)
}

pub open spec fn no_braces(s: Seq<char>) -> bool {
    count_char(s, '{') == 0 && count_char(s, '}') == 0
}

pub fn has_no_braces(s: &str) -> (r: bool)
    ensures
        r == no_braces(s@),
{
    !has_left_brace(s) && !has_right_brace(s)
}

/// A brace group opens at `i`: an opening brace whose first following closing
/// brace leaves at least one character of content between them.
pub open spec fn group_at(s: Seq<char>, i: int) -> bool {
    &&& 0 <= i < s.len()
    &&& s[i] == '{'
    &&& match find_char(s.skip(i + 1), '}') {
        Some(d) => d >= 1,
        None => false,
    }
}

/// The content of the group opening at `i`: everything between the opening
/// delimiter and the first closing brace after it.  A doubled opening brace
/// counts as one delimiter when content still remains behind it.
pub open spec fn group_content(s: Seq<char>, i: int) -> Seq<char>
    recommends
        group_at(s, i),
{
    let d = find_char(s.skip(i + 1), '}')->Some_0;
    if s[i + 1] == '{' && d >= 2 {
        s.subrange(i + 2, i + 1 + d)
    } else {
        s.subrange(i + 1, i + 1 + d)
    }
}

/// The sequence holds two runs of non-space characters separated by a space.
pub open spec fn multi_word(s: Seq<char>) -> bool {
    exists|a: int, b: int, c: int|
        #![trigger s[a], s[b], s[c]]
        0 <= a < b < c < s.len() && !spec_is_space(s[a]) && spec_is_space(s[b]) && !spec_is_space(
            s[c],
        )
}

/// The first brace group of `s`, if any, has more than one word in it.
pub open spec fn first_group_multi_word(s: Seq<char>) -> bool
    decreases s.len(),
{
    if s.len() == 0 {
        false
    } else if group_at(s, 0) {
        multi_word(group_content(s, 0))
    } else {
        first_group_multi_word(s.skip(1))
    }
}

/// First occurrence of `c` in `v` at an index at or after `from`.
pub fn find_char_from(v: &Vec<char>, c: char, from: usize) -> (r: Option<usize>)
    requires
        from <= v@.len(),
    ensures
        match r {
            Some(k) => from <= k < v@.len() && v@[k as int] == c && find_char(
                v@.skip(from as int),
                c,
            ) == Some(k - from),
            None => find_char(v@.skip(from as int), c) is None,
        },
{
    let n = v.len();
    let mut i: usize = from;
    while i < n
        invariant
            from <= i <= n,
            n == v@.len(),
            find_char(v@.skip(from as int), c) == match find_char(v@.skip(i as int), c) {
                Some(d) => Some(d + i - from),
                None => None::<int>,
            },
        decreases n - i,
    {
        proof {
            assert(v@.skip(i as int).len() > 0);
            assert(v@.skip(i as int)[0] == v@[i as int]);
            assert(v@.skip(i as int).skip(1) =~= v@.skip(i as int + 1));
        }
        if v[i] == c {
            return Some(i);
        }
        i += 1;
    }
    proof {
        assert(v@.skip(i as int).len() == 0);
    }
    None
}

/// Whether `v[lo..hi]` holds more than one whitespace-separated word.
fn multi_word_exec(v: &Vec<char>, lo: usize, hi: usize) -> (r: bool)
    requires
        lo <= hi <= v@.len(),
    ensures
        r == multi_word(v@.subrange(lo as int, hi as int)),
{
    let ghost w = v@.subrange(lo as int, hi as int);
    let mut seen_word = false;
    let mut seen_gap = false;
    let mut i: usize = lo;
    while i < hi
        invariant
            lo <= i <= hi <= v@.len(),
            w == v@.subrange(lo as int, hi as int),
            seen_word == exists|a: int| 0 <= a < i - lo && !spec_is_space(w[a]),
            seen_gap == exists|a: int, b: int|
                #![trigger w[a], w[b]]
                0 <= a < b < i - lo && !spec_is_space(w[a]) && spec_is_space(w[b]),
            !multi_word(w.take(i - lo)),
        decreases hi - i,
    {
        let c = v[i];
        proof {
            assert(w[i - lo] == c);
            assert(w.take(i - lo + 1).drop_last() =~= w.take(i - lo));
        }
        if !crate::text::is_space(c) {
            if seen_gap {
                proof {
                    let (a, b) = choose|a: int, b: int|
                        #![trigger w[a], w[b]]
                        0 <= a < b < i - lo && !spec_is_space(w[a]) && spec_is_space(w[b]);
                    assert(!spec_is_space(w[i - lo]));
                    assert(multi_word(w));
                }
                return true;
            }
            seen_word = true;
        } else {
            if seen_word {
                proof {
                    let a = choose|a: int| 0 <= a < i - lo && !spec_is_space(w[a]);
                    assert(0 <= a < i + 1 - lo && spec_is_space(w[i - lo]));
                }
                seen_gap = true;
            }
        }
        proof {
            if multi_word(w.take(i + 1 - lo)) {
                let t = w.take(i + 1 - lo);
                let (a, b, c2) = choose|a: int, b: int, c2: int|
                    #![trigger t[a], t[b], t[c2]]
                    0 <= a < b < c2 < t.len() && !spec_is_space(t[a]) && spec_is_space(t[b])
                        && !spec_is_space(t[c2]);
                assert(c2 == i - lo);
                assert(false);
            }
        }
        i += 1;
    }
    proof {
        assert(w.take(hi - lo) =~= w);
    }
    false
}

pub fn has_multiple_words_between_braces(s: &str) -> (r: bool)
    ensures
        r == first_group_multi_word(s@),
{
    let v = str_chars(s);
    let n = v.len();
    let mut i: usize = 0;
    proof {
        assert(s@.skip(0) =~= s@);
    }
    while i < n
        invariant
            i <= n,
            n == v@.len(),
            v@ == s@,
            first_group_multi_word(s@) == first_group_multi_word(s@.skip(i as int)),
        decreases n - i,
    {
        proof {
            assert(s@.skip(i as int)[0] == s@[i as int]);
            assert(s@.skip(i as int).skip(1) =~= s@.skip(i as int + 1));
            assert(s@.skip(i as int).skip(i as int + 1 - i) =~= s@.skip(i as int + 1));
        }
        if v[i] == '{' {
            let found = find_char_from(&v, '}', i + 1);
            proof {
                assert(s@.skip(i as int).skip(1) =~= s@.skip(i as int + 1));
            }
            match found {
                Some(k) if k >= i + 2 => {
                    let lo: usize = if v[i + 1] == '{' && k > i + 2 {
                        i + 2
                    } else {
                        i + 1
                    };
                    proof {
                        assert(group_at(s@.skip(i as int), 0)) by {
                            assert(s@.skip(i as int + 1) =~= s@.skip(i as int).skip(1));
                        }
                        assert(s@.skip(i as int)[1] == s@[i as int + 1]);
                        assert(group_content(s@.skip(i as int), 0) =~= s@.subrange(
                            lo as int,
                            k as int,
                        ));
                    }
                    return multi_word_exec(&v, lo, k);
                },
                Some(_) => {
                    proof {
                        assert(!group_at(s@.skip(i as int), 0));
                    }
                },
                None => {
                    proof {
                        assert(!group_at(s@.skip(i as int), 0));
                    }
                },
            }
        } else {
            proof {
                assert(!group_at(s@.skip(i as int), 0));
            }
        }
        i += 1;
    }
    proof {
        assert(s@.skip(n as int).len() == 0);
    }
    false
}

} // verus!
