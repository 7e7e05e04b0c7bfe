//! Character-level text utilities shared by the whole crate.
//!
//! All scanning and classification work is done on `Vec<char>` values whose
//! views are `Seq<char>`, so that every operation has an exact specification.
use vstd::prelude::*;
use vstd::string::StrSliceExecFns;
use vstd::string::StringExecFns;

verus! {

/// Number of occurrences of `c` in `s`.
pub open spec fn count_char(s: Seq<char>, c: char) -> nat
    decreases s.len(),
{
    if s.len() == 0 {
        0
    } else {
        count_char(s.drop_last(), c) + if s.last() == c {
            1nat
        } else {
            0nat
        }
    }
}

/// `sub` occurs in `s` starting at index `i`.
pub open spec fn occurs_at(s: Seq<char>, sub: Seq<char>, i: int) -> bool {
    0 <= i && i + sub.len() <= s.len() && s.subrange(i, i + sub.len() as int) == sub
}

/// `sub` occurs somewhere in `s`.
pub open spec fn has_substring(s: Seq<char>, sub: Seq<char>) -> bool {
    exists|i: int| occurs_at(s, sub, i)
}

/// Whitespace, as the template grammar understands it.
pub open spec fn spec_is_space(c: char) -> bool {
    c == ' ' || c == '\t' || c == '\n' || c == '\r'
}

#[verifier::when_used_as_spec(spec_is_space)]
pub fn is_space(c: char) -> (r: bool)
    ensures
        r == spec_is_space(c),
{
    c == ' ' || c == '\t' || c == '\n' || c == '\r'
}

/// Index of the first occurrence of `c` in `s`, if any.
pub open spec fn find_char(s: Seq<char>, c: char) -> Option<int>
    decreases s.len(),
{
    if s.len() == 0 {
        None
    } else if s[0] == c {
        Some(0int)
    } else {
        match find_char(s.skip(1), c) {
            Some(i) => Some(i + 1),
            None => None,
        }
    }
}

/// The characters of `s`, one by one.
pub fn str_chars(s: &str) -> (r: Vec<char>)
    ensures
        r@ == s@,
{
    let n = s.unicode_len();
    let mut r: Vec<char> = Vec::new();
    let mut i: usize = 0;
    while i < n
        invariant
            i <= n,
            n == s@.len(),
            r@ == s@.take(i as int),
        decreases n - i,
    {
        let c = s.get_char(i);
        r.push(c);
        proof {
            assert(r@ =~= s@.take(i as int + 1));
        }
        i += 1;
    }
    proof {
        assert(r@ =~= s@);
    }
    r
}

/// Relies on `String::push`: appends one character to the string.
#[verifier::external_body]
fn push_char(s: &mut String, c: char)
    ensures
        final(s)@ == old(s)@.push(c),
{
    s.push(c)
}

/// A `String` holding exactly the characters of `v`.
pub fn chars_string(v: &Vec<char>) -> (r: String)
    ensures
        r@ == v@,
{
    let mut r = String::new();
    let mut i: usize = 0;
    while i < v.len()
        invariant
            i <= v.len(),
            r@ == v@.take(i as int),
        decreases v.len() - i,
    {
        push_char(&mut r, v[i]);
        proof {
            assert(r@ =~= v@.take(i as int + 1));
        }
        i += 1;
    }
    proof {
        assert(r@ =~= v@);
    }
    r
}

/// The parts joined with `sep` between consecutive ones.
pub open spec fn spec_join(parts: Seq<Seq<char>>, sep: Seq<char>) -> Seq<char>
    decreases parts.len(),
{
    if parts.len() == 0 {
        Seq::empty()
    } else if parts.len() == 1 {
        parts[0]
    } else {
        parts[0] + sep + spec_join(parts.skip(1), sep)
    }
}

/// Joining one more part appends a separator and the part.
pub proof fn lemma_join_snoc(xs: Seq<Seq<char>>, x: Seq<char>, sep: Seq<char>)
    ensures
        spec_join(xs.push(x), sep) == if xs.len() == 0 {
            x
        } else {
            spec_join(xs, sep) + sep + x
        },
    decreases xs.len(),
{
    if xs.len() == 0 {
        assert(xs.push(x)[0] == x);
    } else {
        assert(xs.push(x)[0] == xs[0]);
        assert(xs.push(x).skip(1) =~= xs.skip(1).push(x));
        lemma_join_snoc(xs.skip(1), x, sep);
        if xs.len() == 1 {
            assert(xs.skip(1).len() == 0);
            assert(spec_join(xs.push(x), sep) == xs[0] + sep + spec_join(xs.skip(1).push(x), sep));
        } else {
            assert(spec_join(xs, sep) + sep + x =~= xs[0] + sep + (spec_join(xs.skip(1), sep) + sep
                + x));
        }
    }
}

/// Appends the characters of `s` to `acc`.
pub fn extend_chars(acc: &mut Vec<char>, s: &str)
    ensures
        final(acc)@ == old(acc)@ + s@,
{
    let cs = str_chars(s);
    acc.extend_from_slice(cs.as_slice());
}

/// String slice equality at the character level.
pub fn str_eq(a: &str, b: &str) -> (r: bool)
    ensures
        r == (a@ == b@),
{
    let ao = a.to_owned();
    let bo = b.to_owned();
    ao.eq(&bo)
}

/// Count the occurrences of `c` among the characters of `v`.
pub fn count_char_exec(v: &Vec<char>, c: char) -> (r: usize)
    ensures
        r == count_char(v@, c),
{
    let mut r: usize = 0;
    let mut i: usize = 0;
    proof {
        lemma_count_char_le_len(v@, c);
    }
    while i < v.len()
        invariant
            i <= v.len(),
            r == count_char(v@.take(i as int), c),
            r <= i,
        decreases v.len() - i,
    {
        proof {
            assert(v@.take(i as int + 1).drop_last() =~= v@.take(i as int));
            assert(v@.take(i as int + 1).last() == v@[i as int]);
        }
        if v[i] == c {
            r += 1;
        }
        i += 1;
    }
    proof {
        assert(v@.take(v@.len() as int) =~= v@);
    }
    r
}

pub proof fn lemma_count_char_le_len(s: Seq<char>, c: char)
    ensures
        count_char(s, c) <= s.len(),
    decreases s.len(),
{
    if s.len() > 0 {
        lemma_count_char_le_len(s.drop_last(), c);
    }
}

/// Whether `sub` occurs at position `i` of `v`.
fn occurs_at_exec(v: &Vec<char>, sub: &Vec<char>, i: usize) -> (r: bool)
    requires
        i + sub@.len() <= v@.len(),
    ensures
        r == occurs_at(v@, sub@, i as int),
{
    let n = v.len();
    let mut j: usize = 0;
    while j < sub.len()
        invariant
            j <= sub.len(),
            n == v@.len(),
            i + sub@.len() <= v@.len(),
            forall|k: int| 0 <= k < j ==> v@[i + k] == sub@[k],
        decreases sub.len() - j,
    {
        if v[i + j] != sub[j] {
            assert(v@.subrange(i as int, i + sub@.len() as int)[j as int] != sub@[j as int]);
            return false;
        }
        j += 1;
    }
    proof {
        assert(v@.subrange(i as int, i + sub@.len() as int) =~= sub@);
    }
    true
}

/// Whether `sub` occurs anywhere in `v`.
pub fn has_substring_exec(v: &Vec<char>, sub: &Vec<char>) -> (r: bool)
    ensures
        r == has_substring(v@, sub@),
{
    if sub.len() > v.len() {
        proof {
            assert(forall|i: int| !occurs_at(v@, sub@, i));
        }
        return false;
    }
    let end = v.len() - sub.len();
    let mut i: usize = 0;
    loop
        invariant
            sub@.len() <= v@.len(),
            end == v@.len() - sub@.len(),
            i <= end,
            forall|k: int| 0 <= k < i ==> !occurs_at(v@, sub@, k),
        decreases end - i,
    {
        if occurs_at_exec(v, sub, i) {
            return true;
        }
        if i == end {
            proof {
                assert(forall|k: int| occurs_at(v@, sub@, k) ==> 0 <= k <= end);
            }
            return false;
        }
        i += 1;
    }
}

} // verus!
