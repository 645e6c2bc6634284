//! Histograms of classified opcodes: counters keyed by sub-opcode, held as
//! association lists with one entry per key.

use vstd::prelude::*;

verus! {

/// Addition on counters that sticks at the top of the range instead of
/// overflowing.
pub open spec fn sat_add(a: u64, b: u64) -> u64 {
    if a + b > u64::MAX {
        u64::MAX
    } else {
        (a + b) as u64
    }
}

/// Executable counterpart of `sat_add`.
pub fn sat_add_u64(a: u64, b: u64) -> (r: u64)
    ensures
        r == sat_add(a, b),
{
    if a <= u64::MAX - b {
        a + b
    } else {
        u64::MAX
    }
}

/// The count that an association list gives a key: the value of its last
/// entry for the key, or zero where none exists.
pub open spec fn seq_count(s: Seq<(u32, u64)>, key: u32) -> u64
    decreases s.len(),
{
    if s.len() == 0 {
        0
    } else if s.last().0 == key {
        s.last().1
    } else {
        seq_count(s.drop_last(), key)
    }
}

/// The counter total of an association list, saturating at the top of the
/// counter range.
pub open spec fn seq_total(s: Seq<(u32, u64)>) -> u64
    decreases s.len(),
{
    if s.len() == 0 {
        0
    } else {
        sat_add(seq_total(s.drop_last()), s.last().1)
    }
}

/// No entry of the association list carries the key.
pub open spec fn key_absent(s: Seq<(u32, u64)>, key: u32) -> bool {
    forall|i: int| 0 <= i < s.len() ==> (#[trigger] s[i]).0 != key
}

/// Each key occurs in at most one entry.
pub open spec fn keys_unique(s: Seq<(u32, u64)>) -> bool {
    forall|i: int, j: int|
        0 <= i < j < s.len() ==> (#[trigger] s[i]).0 != (#[trigger] s[j]).0
}

proof fn lemma_count_absent(s: Seq<(u32, u64)>, key: u32)
    requires
        key_absent(s, key),
    ensures
        seq_count(s, key) == 0,
    decreases s.len(),
{
    if s.len() > 0 {
        lemma_count_absent(s.drop_last(), key);
    }
}

proof fn lemma_count_found(s: Seq<(u32, u64)>, i: int, key: u32)
    requires
        keys_unique(s),
        0 <= i < s.len(),
        s[i].0 == key,
    ensures
        seq_count(s, key) == s[i].1,
    decreases s.len(),
{
    if i < s.len() - 1 {
        assert(s.last().0 != key);
        assert(keys_unique(s.drop_last()));
        lemma_count_found(s.drop_last(), i, key);
    }
}

proof fn lemma_count_take_step(s: Seq<(u32, u64)>, i: int, key: u32)
    requires
        0 <= i < s.len(),
    ensures
        s[i].0 == key ==> seq_count(s.take(i + 1), key) == s[i].1,
        s[i].0 != key ==> seq_count(s.take(i + 1), key) == seq_count(s.take(i), key),
{
    assert(s.take(i + 1).last() == s[i]);
    assert(s.take(i + 1).drop_last() =~= s.take(i));
}

proof fn lemma_total_take_step(s: Seq<(u32, u64)>, i: int)
    requires
        0 <= i < s.len(),
    ensures
        seq_total(s.take(i + 1)) == sat_add(seq_total(s.take(i)), s[i].1),
{
    assert(s.take(i + 1).last() == s[i]);
    assert(s.take(i + 1).drop_last() =~= s.take(i));
}

proof fn lemma_count_update(s: Seq<(u32, u64)>, i: int, e: (u32, u64), key: u32)
    requires
        0 <= i < s.len(),
        s[i].0 == e.0,
        keys_unique(s),
    ensures
        seq_count(s.update(i, e), e.0) == e.1,
        key != e.0 ==> seq_count(s.update(i, e), key) == seq_count(s, key),
    decreases s.len(),
{
    let t = s.update(i, e);
    if i == s.len() - 1 {
        assert(t.last() == e);
        assert(t.drop_last() =~= s.drop_last());
    } else {
        assert(t.last() == s.last());
        assert(s.last().0 != e.0);
        assert(t.drop_last() =~= s.drop_last().update(i, e));
        assert(keys_unique(s.drop_last()));
        lemma_count_update(s.drop_last(), i, e, key);
    }
}

proof fn lemma_count_push(s: Seq<(u32, u64)>, e: (u32, u64), key: u32)
    ensures
        seq_count(s.push(e), e.0) == e.1,
        key != e.0 ==> seq_count(s.push(e), key) == seq_count(s, key),
{
    assert(s.push(e).last() == e);
    assert(s.push(e).drop_last() =~= s);
}

proof fn lemma_sat_add_shuffle(a: u64, b: u64, c: u64)
    ensures
        sat_add(sat_add(a, b), c) == sat_add(sat_add(a, c), b),
        sat_add(a, sat_add(b, c)) == sat_add(sat_add(a, b), c),
{
}

proof fn lemma_total_push(s: Seq<(u32, u64)>, e: (u32, u64))
    ensures
        seq_total(s.push(e)) == sat_add(seq_total(s), e.1),
{
    assert(s.push(e).last() == e);
    assert(s.push(e).drop_last() =~= s);
}

proof fn lemma_total_update(s: Seq<(u32, u64)>, i: int, v: u64)
    requires
        0 <= i < s.len(),
    ensures
        seq_total(s.update(i, (s[i].0, sat_add(s[i].1, v)))) == sat_add(seq_total(s), v),
    decreases s.len(),
{
    let e = (s[i].0, sat_add(s[i].1, v));
    let t = s.update(i, e);
    if i == s.len() - 1 {
        assert(t.last() == e);
        assert(t.drop_last() =~= s.drop_last());
        lemma_sat_add_shuffle(seq_total(s.drop_last()), s[i].1, v);
    } else {
        assert(t.last() == s.last());
        assert(t.drop_last() =~= s.drop_last().update(i, e));
        lemma_total_update(s.drop_last(), i, v);
        lemma_sat_add_shuffle(seq_total(s.drop_last()), v, s.last().1);
    }
}

/// A histogram: a counter for each sub-opcode that occurred.
pub struct Histogram {
    pub entries: Vec<(u32, u64)>,
}

impl Histogram {
    /// Well-formed: one entry per key.
    pub open spec fn wf(self) -> bool {
        keys_unique(self.entries@)
    }

    /// The count the histogram holds for `key`.
    pub open spec fn spec_count(self, key: u32) -> u64 {
        seq_count(self.entries@, key)
    }

    /// Whether no opcode has been counted.
    pub open spec fn spec_is_empty(self) -> bool {
        self.entries@.len() == 0
    }

    /// The saturating total of all counts.
    pub open spec fn spec_total(self) -> u64 {
        seq_total(self.entries@)
    }

    pub fn new() -> (r: Histogram)
        ensures
            r.wf(),
            r.spec_is_empty(),
            forall|k: u32| r.spec_count(k) == 0,
    {
        Histogram { entries: Vec::new() }
    }

    pub fn is_empty(&self) -> (r: bool)
        ensures
            r == self.spec_is_empty(),
    {
        self.entries.len() == 0
    }

    /// The position of the entry for `key`, where one exists.
    fn find_index(&self, key: u32) -> (r: Option<usize>)
        ensures
            match r {
                Some(i) => i < self.entries@.len() && self.entries@[i as int].0 == key,
                None => key_absent(self.entries@, key),
            },
    {
        let n = self.entries.len();
        let mut i: usize = 0;
        while i < n
            invariant
                i <= n,
                n == self.entries@.len(),
                forall|j: int| 0 <= j < i ==> (#[trigger] self.entries@[j]).0 != key,
            decreases n - i,
        {
            if self.entries[i].0 == key {
                return Some(i);
            }
            i = i + 1;
        }
        None
    }

    /// Look a key's count up.
    pub fn count(&self, key: u32) -> (r: u64)
        requires
            self.wf(),
        ensures
            r == self.spec_count(key),
    {
        match self.find_index(key) {
            Some(i) => {
                proof {
                    lemma_count_found(self.entries@, i as int, key);
                }
                self.entries[i].1
            },
            None => {
                proof {
                    lemma_count_absent(self.entries@, key);
                }
                0
            },
        }
    }

    /// Raise a key's count by `v`, saturating; other counts stay as they
    /// are.
    pub fn add_count(&mut self, key: u32, v: u64)
        requires
            old(self).wf(),
        ensures
            final(self).wf(),
            final(self).spec_count(key) == sat_add(old(self).spec_count(key), v),
            final(self).spec_total() == sat_add(old(self).spec_total(), v),
            forall|k: u32|
                k != key ==> final(self).spec_count(k) == old(self).spec_count(k),
    {
        match self.find_index(key) {
            Some(i) => {
                let merged = sat_add_u64(self.entries[i].1, v);
                proof {
                    lemma_count_found(self.entries@, i as int, key);
                    lemma_total_update(self.entries@, i as int, v);
                    assert forall|k: u32| #![auto] true implies seq_count(
                        self.entries@.update(i as int, (key, merged)),
                        k,
                    ) == if k == key {
                        merged
                    } else {
                        seq_count(self.entries@, k)
                    } by {
                        lemma_count_update(self.entries@, i as int, (key, merged), k);
                    }
                    assert(forall|p: int, q: int|
                        0 <= p < q < self.entries@.len() ==> (
                        #[trigger] self.entries@.update(i as int, (key, merged))[p]).0 != (
                        #[trigger] self.entries@.update(i as int, (key, merged))[q]).0);
                }
                self.entries[i] = (key, merged);
            },
            None => {
                proof {
                    lemma_count_absent(self.entries@, key);
                    lemma_total_push(self.entries@, (key, v));
                    assert forall|k: u32| #![auto] true implies seq_count(
                        self.entries@.push((key, v)),
                        k,
                    ) == if k == key {
                        v
                    } else {
                        seq_count(self.entries@, k)
                    } by {
                        lemma_count_push(self.entries@, (key, v), k);
                    }
                    assert(forall|p: int, q: int|
                        0 <= p < q < self.entries@.len() + 1 ==> (
                        #[trigger] self.entries@.push((key, v))[p]).0 != (
                        #[trigger] self.entries@.push((key, v))[q]).0);
                }
                self.entries.push((key, v));
            },
        }
    }

    /// Count one more occurrence of `key`.
    pub fn bump(&mut self, key: u32)
        requires
            old(self).wf(),
        ensures
            final(self).wf(),
            final(self).spec_count(key) == sat_add(old(self).spec_count(key), 1),
            final(self).spec_total() == sat_add(old(self).spec_total(), 1),
            forall|k: u32|
                k != key ==> final(self).spec_count(k) == old(self).spec_count(k),
    {
        self.add_count(key, 1);
    }

    /// Merge another histogram in: every count becomes the saturating sum
    /// of the two.
    pub fn merge_from(&mut self, other: &Histogram)
        requires
            old(self).wf(),
            other.wf(),
        ensures
            final(self).wf(),
            final(self).spec_total() == sat_add(old(self).spec_total(), other.spec_total()),
            forall|k: u32|
                final(self).spec_count(k) == sat_add(
                    old(self).spec_count(k),
                    other.spec_count(k),
                ),
    {
        let n = other.entries.len();
        let mut i: usize = 0;
        while i < n
            invariant
                i <= n,
                n == other.entries@.len(),
                other.wf(),
                self.wf(),
                self.spec_total() == sat_add(
                    old(self).spec_total(),
                    seq_total(other.entries@.take(i as int)),
                ),
                forall|k: u32|
                    self.spec_count(k) == sat_add(
                        old(self).spec_count(k),
                        seq_count(other.entries@.take(i as int), k),
                    ),
            decreases n - i,
        {
            let e = other.entries[i];
            proof {
                lemma_total_take_step(other.entries@, i as int);
                lemma_sat_add_shuffle(
                    old(self).spec_total(),
                    seq_total(other.entries@.take(i as int)),
                    e.1,
                );
                assert(key_absent(other.entries@.take(i as int), e.0)) by {
                    assert(forall|j: int|
                        0 <= j < i ==> (#[trigger] other.entries@[j]).0 != e.0);
                }
                lemma_count_absent(other.entries@.take(i as int), e.0);
                assert forall|k: u32| #![auto] true implies seq_count(
                    other.entries@.take(i + 1),
                    k,
                ) == if k == e.0 {
                    e.1
                } else {
                    seq_count(other.entries@.take(i as int), k)
                } by {
                    lemma_count_take_step(other.entries@, i as int, k);
                }
            }
            self.add_count(e.0, e.1);
            i = i + 1;
        }
        proof {
            assert(other.entries@.take(n as int) =~= other.entries@);
        }
    }

    /// The saturating total of all counts.
    pub fn total(&self) -> (r: u64)
        ensures
            r == self.spec_total(),
    {
        let n = self.entries.len();
        let mut acc: u64 = 0;
        let mut i: usize = 0;
        while i < n
            invariant
                i <= n,
                n == self.entries@.len(),
                acc == seq_total(self.entries@.take(i as int)),
            decreases n - i,
        {
            proof {
                lemma_total_take_step(self.entries@, i as int);
            }
            acc = sat_add_u64(acc, self.entries[i].1);
            i = i + 1;
        }
        proof {
            assert(self.entries@.take(n as int) =~= self.entries@);
        }
        acc
    }
}

} // verus!
