//! Variable maps: the key-to-value bindings that templates are formatted
//! with, kept as an association list with unique keys in insertion order.
use vstd::prelude::*;

use crate::text::str_eq;

verus! {

/// First value bound to key `k` in `entries`, scanning from the front.
pub open spec fn assoc(entries: Seq<(String, String)>, k: Seq<char>) -> Option<Seq<char>>
    decreases entries.len(),
{
    if entries.len() == 0 {
        None
    } else if entries[0].0@ == k {
        Some(entries[0].1@)
    } else {
        assoc(entries.skip(1), k)
    }
}

/// One binding at the view level: a name and its value.
pub type SpecPair = (Seq<char>, Seq<char>);

/// Insertion at the view level: an existing key keeps its position and takes
/// the new value, a new key is appended.
pub open spec fn spec_insert(pairs: Seq<SpecPair>, k: Seq<char>, v: Seq<char>) -> Seq<SpecPair>
    decreases pairs.len(),
{
    if pairs.len() == 0 {
        seq![(k, v)]
    } else if pairs[0].0 == k {
        seq![(k, v)] + pairs.skip(1)
    } else {
        seq![pairs[0]] + spec_insert(pairs.skip(1), k, v)
    }
}

/// Left-to-right insertion of every binding of `rs` into `acc`.
pub open spec fn spec_merge(acc: Seq<SpecPair>, rs: Seq<SpecPair>) -> Seq<SpecPair>
    decreases rs.len(),
{
    if rs.len() == 0 {
        acc
    } else {
        spec_merge(spec_insert(acc, rs[0].0, rs[0].1), rs.skip(1))
    }
}

/// A map from variable names to values.  Keys are unique and keep the order
/// of their first insertion.
#[derive(Debug, Clone)]
pub struct VarMap {
    entries: Vec<(String, String)>,
}

impl VarMap {
    /// Keys in insertion order.
    pub closed spec fn spec_keys(&self) -> Seq<Seq<char>> {
        self.entries@.map_values(|p: (String, String)| p.0@)
    }

    /// Entries as pairs of character sequences, in insertion order.
    pub closed spec fn spec_pairs(&self) -> Seq<(Seq<char>, Seq<char>)> {
        self.entries@.map_values(|p: (String, String)| (p.0@, p.1@))
    }

    /// Value bound to `k`, if any.
    pub closed spec fn spec_get(&self, k: Seq<char>) -> Option<Seq<char>> {
        assoc(self.entries@, k)
    }

    pub open spec fn spec_contains(&self, k: Seq<char>) -> bool {
        self.spec_get(k) is Some
    }

    /// Keys are unique.
    pub closed spec fn wf(&self) -> bool {
        forall|i: int, j: int|
            0 <= i < j < self.spec_keys().len() ==> self.spec_keys()[i] != self.spec_keys()[j]
    }

    pub fn new() -> (r: VarMap)
        ensures
            r.wf(),
            r.spec_pairs() == Seq::<(Seq<char>, Seq<char>)>::empty(),
            forall|k: Seq<char>| r.spec_get(k) is None,
    {
        let r = VarMap { entries: Vec::new() };
        proof {
            assert(r.spec_pairs() =~= Seq::<(Seq<char>, Seq<char>)>::empty());
        }
        r
    }

    pub fn len(&self) -> (r: usize)
        ensures
            r == self.spec_keys().len(),
    {
        self.entries.len()
    }

    pub fn is_empty(&self) -> (r: bool)
        ensures
            r == (self.spec_keys().len() == 0),
    {
        self.entries.is_empty()
    }

    /// Index of `k` among the entries, if present.
    fn index_of(&self, k: &str) -> (r: Option<usize>)
        ensures
            match r {
                Some(i) => i < self.entries@.len() && self.entries@[i as int].0@ == k@
                    && self.spec_get(k@) == Some(self.entries@[i as int].1@) && forall|j: int|
                    0 <= j < i ==> self.entries@[j].0@ != k@,
                None => self.spec_get(k@) is None && forall|j: int|
                    0 <= j < self.entries@.len() ==> self.entries@[j].0@ != k@,
            },
    {
        let n = self.entries.len();
        let mut i: usize = 0;
        proof {
            assert(self.entries@.skip(0) =~= self.entries@);
        }
        while i < n
            invariant
                i <= n,
                n == self.entries@.len(),
                assoc(self.entries@, k@) == assoc(self.entries@.skip(i as int), k@),
                forall|j: int| 0 <= j < i ==> self.entries@[j].0@ != k@,
            decreases n - i,
        {
            proof {
                assert(self.entries@.skip(i as int)[0] == self.entries@[i as int]);
                assert(self.entries@.skip(i as int).skip(1) =~= self.entries@.skip(i as int + 1));
            }
            if str_eq(self.entries[i].0.as_str(), k) {
                proof {
                    lemma_assoc_found(self.entries@, i as int);
                }
                return Some(i);
            }
            i += 1;
        }
        None
    }

    pub fn contains_key(&self, k: &str) -> (r: bool)
        ensures
            r == self.spec_contains(k@),
    {
        self.index_of(k).is_some()
    }

    pub fn get(&self, k: &str) -> (r: Option<&String>)
        ensures
            match r {
                Some(v) => self.spec_get(k@) == Some(v@),
                None => self.spec_get(k@) is None,
            },
    {
        match self.index_of(k) {
            Some(i) => Some(&self.entries[i].1),
            None => None,
        }
    }

    /// The entries themselves, for handing to the rendering engine.
    pub fn pairs(&self) -> (r: &Vec<(String, String)>)
        ensures
            r@.map_values(|p: (String, String)| (p.0@, p.1@)) == self.spec_pairs(),
    {
        &self.entries
    }

    /// Bind `k` to `v`: replaces the value of an existing key in place,
    /// appends a new key at the end.
    pub fn insert(&mut self, k: &str, v: &str)
        requires
            old(self).wf(),
        ensures
            final(self).wf(),
            final(self).spec_get(k@) == Some(v@),
            forall|k2: Seq<char>|
                k2 != k@ ==> #[trigger] final(self).spec_get(k2) == old(self).spec_get(k2),
            old(self).spec_contains(k@) ==> final(self).spec_keys() =~= old(self).spec_keys(),
            !old(self).spec_contains(k@) ==> final(self).spec_keys() =~= old(
                self,
            ).spec_keys().push(k@),
            final(self).spec_pairs() =~= spec_insert(old(self).spec_pairs(), k@, v@),
    {
        let ks = k.to_owned();
        let vs = v.to_owned();
        match self.index_of(k) {
            Some(i) => {
                let ghost oldents = self.entries@;
                self.entries.remove(i);
                self.entries.insert(i, (ks, vs));
                proof {
                    assert(self.entries@ =~= oldents.update(i as int, (ks, vs)));
                    lemma_assoc_update(oldents, i as int, (ks, vs));
                    assert(self.spec_keys() =~= old(self).spec_keys());
                    assert forall|k2: Seq<char>| k2 != k@ implies #[trigger] self.spec_get(k2)
                        == old(self).spec_get(k2) by {
                        lemma_assoc_update_other(oldents, i as int, (ks, vs), k2);
                    }
                    lemma_assoc_found(self.entries@, i as int);
                    assert(self.spec_pairs() =~= old(self).spec_pairs().update(
                        i as int,
                        (k@, v@),
                    ));
                    lemma_spec_insert_at(old(self).spec_pairs(), i as int, k@, v@);
                }
            },
            None => {
                let ghost oldents = self.entries@;
                self.entries.push((ks, vs));
                proof {
                    lemma_assoc_push(oldents, (ks, vs));
                    assert(self.spec_keys() =~= old(self).spec_keys().push(k@));
                    assert(self.spec_pairs() =~= old(self).spec_pairs().push((k@, v@)));
                    lemma_spec_insert_new(old(self).spec_pairs(), k@, v@);
                }
            },
        }
    }
}

/// After updating index `i`, a lookup of the updated key finds it at `i`,
/// provided no earlier entry has that key.
proof fn lemma_assoc_found(entries: Seq<(String, String)>, i: int)
    requires
        0 <= i < entries.len(),
        forall|j: int| 0 <= j < i ==> entries[j].0@ != entries[i].0@,
    ensures
        assoc(entries, entries[i].0@) == Some(entries[i].1@),
    decreases i,
{
    if i > 0 {
        assert(entries.skip(1)[i - 1] == entries[i]);
        assert(forall|j: int| 0 <= j < i - 1 ==> entries.skip(1)[j] == entries[j + 1]);
        lemma_assoc_found(entries.skip(1), i - 1);
    }
}

proof fn lemma_assoc_update(entries: Seq<(String, String)>, i: int, p: (String, String))
    requires
        0 <= i < entries.len(),
        forall|j: int| 0 <= j < i ==> entries[j].0@ != entries[i].0@,
        p.0@ == entries[i].0@,
    ensures
        assoc(entries.update(i, p), p.0@) == Some(p.1@),
    decreases i,
{
    let updated = entries.update(i, p);
    if i == 0 {
        assert(updated[0] == p);
    } else {
        assert(updated[0] == entries[0]);
        assert(updated.skip(1) =~= entries.skip(1).update(i - 1, p));
        assert(forall|j: int| 0 <= j < i - 1 ==> entries.skip(1)[j] == entries[j + 1]);
        assert(entries.skip(1)[i - 1] == entries[i]);
        lemma_assoc_update(entries.skip(1), i - 1, p);
    }
}

proof fn lemma_assoc_update_other(
    entries: Seq<(String, String)>,
    i: int,
    p: (String, String),
    k: Seq<char>,
)
    requires
        0 <= i < entries.len(),
        p.0@ == entries[i].0@,
        k != p.0@,
    ensures
        assoc(entries.update(i, p), k) == assoc(entries, k),
    decreases entries.len(),
{
    let updated = entries.update(i, p);
    if i == 0 {
        assert(updated[0] == p);
        assert(updated.skip(1) =~= entries.skip(1));
    } else {
        assert(updated[0] == entries[0]);
        if entries[0].0@ != k {
            assert(updated.skip(1) =~= entries.skip(1).update(i - 1, p));
            assert(entries.skip(1)[i - 1] == entries[i]);
            lemma_assoc_update_other(entries.skip(1), i - 1, p, k);
        }
    }
}

proof fn lemma_assoc_push(entries: Seq<(String, String)>, p: (String, String))
    ensures
        assoc(entries.push(p), p.0@) == if assoc(entries, p.0@) is Some {
            assoc(entries, p.0@)
        } else {
            Some(p.1@)
        },
        forall|k: Seq<char>|
            k != p.0@ ==> #[trigger] assoc(entries.push(p), k) == assoc(entries, k),
    decreases entries.len(),
{
    if entries.len() == 0 {
        assert(entries.push(p)[0] == p);
        assert(assoc(entries.push(p), p.0@) == Some(p.1@));
        assert forall|k: Seq<char>| k != p.0@ implies #[trigger] assoc(entries.push(p), k)
            == assoc(entries, k) by {
            assert(entries.push(p).skip(1) =~= Seq::<(String, String)>::empty());
            assert(assoc(entries.push(p), k) == assoc(entries.push(p).skip(1), k));
            assert(assoc(entries.push(p).skip(1), k) is None);
        }
    } else {
        assert(entries.push(p)[0] == entries[0]);
        assert(entries.push(p).skip(1) =~= entries.skip(1).push(p));
        lemma_assoc_push(entries.skip(1), p);
        if entries[0].0@ == p.0@ {
            assert(assoc(entries, p.0@) == Some(entries[0].1@));
            assert(assoc(entries.push(p), p.0@) == Some(entries[0].1@));
        } else {
            assert(assoc(entries.push(p), p.0@) == assoc(entries.skip(1).push(p), p.0@));
            assert(assoc(entries, p.0@) == assoc(entries.skip(1), p.0@));
        }
        assert forall|k: Seq<char>| k != p.0@ implies #[trigger] assoc(entries.push(p), k)
            == assoc(entries, k) by {
            if entries[0].0@ == k {
                assert(assoc(entries.push(p), k) == Some(entries[0].1@));
                assert(assoc(entries, k) == Some(entries[0].1@));
            } else {
                assert(assoc(entries.push(p), k) == assoc(entries.skip(1).push(p), k));
                assert(assoc(entries.skip(1).push(p), k) == assoc(entries.skip(1), k));
                assert(assoc(entries, k) == assoc(entries.skip(1), k));
            }
        }
    }
}

/// Lookup at the view level, scanning the pairs from the front.
pub open spec fn assoc_pairs(pairs: Seq<SpecPair>, k: Seq<char>) -> Option<Seq<char>>
    decreases pairs.len(),
{
    if pairs.len() == 0 {
        None
    } else if pairs[0].0 == k {
        Some(pairs[0].1)
    } else {
        assoc_pairs(pairs.skip(1), k)
    }
}

/// A map's lookup is a function of its pair view alone.
pub proof fn lemma_get_from_pairs(m: &VarMap, k: Seq<char>)
    ensures
        m.spec_get(k) == assoc_pairs(m.spec_pairs(), k),
{
    lemma_assoc_as_pairs(m.entries@, k);
    assert(m.entries@.map_values(|p: (String, String)| (p.0@, p.1@)) == m.spec_pairs());
}

proof fn lemma_assoc_as_pairs(entries: Seq<(String, String)>, k: Seq<char>)
    ensures
        assoc(entries, k) == assoc_pairs(
            entries.map_values(|p: (String, String)| (p.0@, p.1@)),
            k,
        ),
    decreases entries.len(),
{
    let pairs = entries.map_values(|p: (String, String)| (p.0@, p.1@));
    if entries.len() == 0 {
    } else {
        assert(pairs[0] == (entries[0].0@, entries[0].1@));
        lemma_assoc_as_pairs(entries.skip(1), k);
        assert(entries.skip(1).map_values(|p: (String, String)| (p.0@, p.1@)) =~= pairs.skip(1));
    }
}

/// Pointwise description of a map's key and pair views.
proof fn lemma_views(m: &VarMap)
    ensures
        m.spec_keys().len() == m.entries@.len(),
        m.spec_pairs().len() == m.entries@.len(),
        forall|j: int|
            0 <= j < m.entries@.len() ==> #[trigger] m.spec_keys()[j] == m.entries@[j].0@,
        forall|j: int|
            0 <= j < m.entries@.len() ==> #[trigger] m.spec_pairs()[j] == (
                m.entries@[j].0@,
                m.entries@[j].1@,
            ),
{
}

/// Inserting an existing key updates it in place.
proof fn lemma_spec_insert_at(pairs: Seq<SpecPair>, i: int, k: Seq<char>, v: Seq<char>)
    requires
        0 <= i < pairs.len(),
        pairs[i].0 == k,
        forall|j: int| 0 <= j < i ==> pairs[j].0 != k,
    ensures
        spec_insert(pairs, k, v) =~= pairs.update(i, (k, v)),
    decreases i,
{
    if i == 0 {
    } else {
        assert(forall|j: int| 0 <= j < pairs.skip(1).len() ==> pairs.skip(1)[j] == pairs[j + 1]);
        lemma_spec_insert_at(pairs.skip(1), i - 1, k, v);
    }
}

/// Inserting a fresh key appends it.
proof fn lemma_spec_insert_new(pairs: Seq<SpecPair>, k: Seq<char>, v: Seq<char>)
    requires
        forall|j: int| 0 <= j < pairs.len() ==> pairs[j].0 != k,
    ensures
        spec_insert(pairs, k, v) =~= pairs.push((k, v)),
    decreases pairs.len(),
{
    if pairs.len() > 0 {
        assert(forall|j: int| 0 <= j < pairs.skip(1).len() ==> pairs.skip(1)[j] == pairs[j + 1]);
        lemma_spec_insert_new(pairs.skip(1), k, v);
    }
}

/// Merging one more binding inserts it last.
proof fn lemma_spec_merge_snoc(acc: Seq<SpecPair>, rs: Seq<SpecPair>, x: SpecPair)
    ensures
        spec_merge(acc, rs.push(x)) == spec_insert(spec_merge(acc, rs), x.0, x.1),
    decreases rs.len(),
{
    if rs.len() == 0 {
        assert(rs.push(x)[0] == x);
        assert(rs.push(x).skip(1) =~= Seq::<SpecPair>::empty());
        assert(spec_merge(acc, rs.push(x)) == spec_merge(
            spec_insert(acc, x.0, x.1),
            rs.push(x).skip(1),
        ));
        assert(spec_merge(spec_insert(acc, x.0, x.1), rs.push(x).skip(1)) == spec_insert(
            acc,
            x.0,
            x.1,
        ));
        assert(spec_merge(acc, rs) == acc);
    } else {
        assert(rs.push(x)[0] == rs[0]);
        assert(rs.push(x).skip(1) =~= rs.skip(1).push(x));
        lemma_spec_merge_snoc(spec_insert(acc, rs[0].0, rs[0].1), rs.skip(1), x);
        assert(spec_merge(acc, rs.push(x)) == spec_merge(
            spec_insert(acc, rs[0].0, rs[0].1),
            rs.skip(1).push(x),
        ));
        assert(spec_merge(acc, rs) == spec_merge(spec_insert(acc, rs[0].0, rs[0].1), rs.skip(1)));
    }
}

/// Merge of defaults and runtime values: every default binding, overridden
/// by the runtime binding where both name the same key, plus every runtime
/// binding of its own.
pub fn merge_vars(partials: &VarMap, runtime_vars: &VarMap) -> (r: VarMap)
    requires
        partials.wf(),
        runtime_vars.wf(),
    ensures
        r.wf(),
        forall|k: Seq<char>|
            #[trigger] r.spec_get(k) == if runtime_vars.spec_get(k) is Some {
                runtime_vars.spec_get(k)
            } else {
                partials.spec_get(k)
            },
        r.spec_pairs() == spec_merge(partials.spec_pairs(), runtime_vars.spec_pairs()),
{
    let mut r = VarMap::new();
    let n = partials.entries.len();
    let mut i: usize = 0;
    while i < n
        invariant
            i <= n,
            n == partials.entries@.len(),
            partials.wf(),
            r.wf(),
            forall|k: Seq<char>|
                #[trigger] r.spec_get(k) == assoc(partials.entries@.take(i as int), k),
            r.spec_pairs() =~= partials.spec_pairs().take(i as int),
        decreases n - i,
    {
        r.insert(partials.entries[i].0.as_str(), partials.entries[i].1.as_str());
        proof {
            let ghost key = partials.entries@[i as int].0@;
            lemma_views(partials);
            assert forall|j: int| 0 <= j < partials.entries@.take(i as int).len() implies
                partials.entries@.take(i as int)[j].0@ != key by {
                assert(partials.entries@.take(i as int)[j] == partials.entries@[j]);
                assert(partials.spec_keys()[j] == partials.entries@[j].0@);
                assert(partials.spec_keys()[i as int] == key);
            }
            assert(assoc(partials.entries@.take(i as int), key) is None) by {
                lemma_assoc_none_when_absent(partials.entries@.take(i as int), key);
            }
            assert forall|k: Seq<char>| true implies #[trigger] r.spec_get(k) == assoc(
                partials.entries@.take(i as int + 1),
                k,
            ) by {
                lemma_assoc_take_step(partials.entries@, i as int, k);
            }
            assert forall|j: int| 0 <= j < partials.spec_pairs().take(i as int).len() implies
                partials.spec_pairs().take(i as int)[j].0 != key by {
                assert(partials.spec_pairs().take(i as int)[j] == partials.spec_pairs()[j]);
                assert(partials.spec_pairs()[j] == (partials.entries@[j].0@, partials.entries@[j].1@));
                assert(partials.spec_keys()[j] == partials.entries@[j].0@);
                assert(partials.spec_keys()[i as int] == key);
            }
            lemma_spec_insert_new(partials.spec_pairs().take(i as int), key, partials.entries@[
                i as int
            ].1@);
            assert(partials.spec_pairs().take(i as int).push(
                (key, partials.entries@[i as int].1@),
            ) =~= partials.spec_pairs().take(i as int + 1));
        }
        i += 1;
    }
    proof {
        assert(partials.entries@.take(n as int) =~= partials.entries@);
        assert(partials.spec_pairs().take(n as int) =~= partials.spec_pairs());
    }
    let m = runtime_vars.entries.len();
    let mut j: usize = 0;
    while j < m
        invariant
            j <= m,
            m == runtime_vars.entries@.len(),
            runtime_vars.wf(),
            r.wf(),
            forall|k: Seq<char>|
                #[trigger] r.spec_get(k) == if assoc(runtime_vars.entries@.take(j as int), k)
                    is Some {
                    assoc(runtime_vars.entries@.take(j as int), k)
                } else {
                    partials.spec_get(k)
                },
            r.spec_pairs() == spec_merge(
                partials.spec_pairs(),
                runtime_vars.spec_pairs().take(j as int),
            ),
        decreases m - j,
    {
        let ghost prev_pairs = r.spec_pairs();
        r.insert(runtime_vars.entries[j].0.as_str(), runtime_vars.entries[j].1.as_str());
        proof {
            assert forall|k: Seq<char>| true implies #[trigger] r.spec_get(k) == if assoc(
                runtime_vars.entries@.take(j as int + 1),
                k,
            ) is Some {
                assoc(runtime_vars.entries@.take(j as int + 1), k)
            } else {
                partials.spec_get(k)
            } by {
                lemma_views(runtime_vars);
                assert forall|a: int, b: int|
                    0 <= a < b < runtime_vars.entries@.len() implies runtime_vars.entries@[a].0@
                        != runtime_vars.entries@[b].0@ by {
                    assert(runtime_vars.spec_keys()[a] == runtime_vars.entries@[a].0@);
                    assert(runtime_vars.spec_keys()[b] == runtime_vars.entries@[b].0@);
                }
                lemma_assoc_take_step(runtime_vars.entries@, j as int, k);
                if assoc(runtime_vars.entries@.take(j as int + 1), k) is Some {
                    lemma_assoc_wf_agree(runtime_vars.entries@, j as int, k);
                }
                if k == runtime_vars.entries@[j as int].0@ {
                    assert forall|a: int|
                        0 <= a < runtime_vars.entries@.take(j as int).len() implies
                        runtime_vars.entries@.take(j as int)[a].0@ != k by {
                        assert(runtime_vars.entries@.take(j as int)[a] == runtime_vars.entries@[a]);
                    }
                    lemma_assoc_none_when_absent(runtime_vars.entries@.take(j as int), k);
                }
            }
            lemma_views(runtime_vars);
            let ghost x = runtime_vars.spec_pairs()[j as int];
            lemma_spec_merge_snoc(partials.spec_pairs(), runtime_vars.spec_pairs().take(j as int), x);
            assert(runtime_vars.spec_pairs().take(j as int).push(x)
                =~= runtime_vars.spec_pairs().take(j as int + 1));
            assert(r.spec_pairs() =~= spec_insert(prev_pairs, x.0, x.1));
        }
        j += 1;
    }
    proof {
        assert(runtime_vars.entries@.take(m as int) =~= runtime_vars.entries@);
        assert(runtime_vars.spec_pairs().take(m as int) =~= runtime_vars.spec_pairs());
    }
    r
}

/// If no entry of `entries` has key `k`, lookup fails.
proof fn lemma_assoc_none_when_absent(entries: Seq<(String, String)>, k: Seq<char>)
    requires
        forall|j: int| 0 <= j < entries.len() ==> entries[j].0@ != k,
    ensures
        assoc(entries, k) is None,
    decreases entries.len(),
{
    if entries.len() > 0 {
        assert(forall|j: int| 0 <= j < entries.skip(1).len() ==> entries.skip(1)[j] == entries[
            j + 1
        ]);
        lemma_assoc_none_when_absent(entries.skip(1), k);
    }
}

/// Lookup in one more entry of a prefix: the old binding wins if present,
/// else the new entry binds its own key.
proof fn lemma_assoc_take_step(entries: Seq<(String, String)>, i: int, k: Seq<char>)
    requires
        0 <= i < entries.len(),
    ensures
        assoc(entries.take(i + 1), k) == if assoc(entries.take(i), k) is Some {
            assoc(entries.take(i), k)
        } else if entries[i].0@ == k {
            Some(entries[i].1@)
        } else {
            None::<Seq<char>>
        },
    decreases i,
{
    if i == 0 {
        assert(entries.take(1)[0] == entries[0]);
        assert(entries.take(1).skip(1) =~= Seq::<(String, String)>::empty());
        if entries[0].0@ == k {
            assert(assoc(entries.take(1), k) == Some(entries[0].1@));
        } else {
            assert(assoc(entries.take(1), k) == assoc(entries.take(1).skip(1), k));
            assert(assoc(entries.take(1).skip(1), k) is None);
        }
        assert(assoc(entries.take(0), k) is None);
    } else {
        assert(entries.take(i + 1)[0] == entries[0]);
        assert(entries.take(i)[0] == entries[0]);
        assert(entries.take(i).len() == i);
        assert(entries.take(i + 1).len() == i + 1);
        if entries[0].0@ == k {
            assert(assoc(entries.take(i + 1), k) == Some(entries[0].1@));
            assert(assoc(entries.take(i), k) == Some(entries[0].1@));
        } else {
            assert(entries.take(i + 1).skip(1) =~= entries.skip(1).take(i));
            assert(entries.take(i).skip(1) =~= entries.skip(1).take(i - 1));
            assert(entries.skip(1)[i - 1] == entries[i]);
            lemma_assoc_take_step(entries.skip(1), i - 1, k);
            assert(assoc(entries.take(i + 1), k) == assoc(entries.skip(1).take(i), k));
            assert(assoc(entries.take(i), k) == assoc(entries.skip(1).take(i - 1), k));
        }
    }
}

/// In a map with unique keys, a binding found in a prefix agrees with the
/// binding found in the whole.
proof fn lemma_assoc_wf_agree(entries: Seq<(String, String)>, j: int, k: Seq<char>)
    requires
        0 <= j + 1 <= entries.len(),
        forall|a: int, b: int| 0 <= a < b < entries.len() ==> entries[a].0@ != entries[b].0@,
        assoc(entries.take(j + 1), k) is Some,
    ensures
        assoc(entries, k) == assoc(entries.take(j + 1), k),
    decreases entries.len(),
{
    if entries.len() > 0 && j + 1 > 0 {
        assert(entries.take(j + 1)[0] == entries[0]);
        if entries[0].0@ == k {
        } else {
            assert(entries.take(j + 1).skip(1) =~= entries.skip(1).take(j));
            assert(forall|a: int|
                0 <= a < entries.skip(1).len() ==> entries.skip(1)[a] == entries[a + 1]);
            lemma_assoc_wf_agree(entries.skip(1), j - 1, k);
        }
    }
}

} // verus!
