//! Frequency tables: association vectors with distinct keys, together with
//! the spec-level counting functions the contracts are stated over.

use vstd::prelude::*;

verus! {

/// Sum of the counts among the first `n` entries whose key is `key`.
/// On a well-formed table (distinct keys) this is the count stored for
/// `key`, or zero when the key is absent.
pub open spec fn count_to<K>(entries: Seq<(K, usize)>, key: K, n: int) -> nat
    decreases n,
{
    if n <= 0 {
        0
    } else {
        count_to(entries, key, n - 1) + if entries[n - 1].0 == key {
            entries[n - 1].1 as nat
        } else {
            0nat
        }
    }
}

/// The count recorded for `key`, zero when the key is absent.
pub open spec fn table_count<K>(entries: Seq<(K, usize)>, key: K) -> nat {
    count_to(entries, key, entries.len() as int)
}

/// Sum of the counts among the first `n` entries.
pub open spec fn sum_to<K>(entries: Seq<(K, usize)>, n: int) -> nat
    decreases n,
{
    if n <= 0 {
        0
    } else {
        sum_to(entries, n - 1) + entries[n - 1].1 as nat
    }
}

/// The aggregate count over the whole table.
pub open spec fn table_sum<K>(entries: Seq<(K, usize)>) -> nat {
    sum_to(entries, entries.len() as int)
}

/// Whether some entry carries `key`.
pub open spec fn table_has_key<K>(entries: Seq<(K, usize)>, key: K) -> bool {
    exists|j: int| 0 <= j < entries.len() && entries[j].0 == key
}

/// Well-formed table: keys are pairwise distinct and every recorded count
/// is positive.
pub open spec fn table_wf<K>(entries: Seq<(K, usize)>) -> bool {
    &&& forall|a: int, b: int|
        0 <= a < b < entries.len() ==> entries[a].0 != entries[b].0
    &&& forall|j: int| 0 <= j < entries.len() ==> entries[j].1 >= 1
}

/// How one increment changes a table: the count for `key` grows by one, all
/// other counts stay, the key set gains at most `key`, and the aggregate
/// grows by one.
pub open spec fn table_bumped<K>(pre: Seq<(K, usize)>, post: Seq<(K, usize)>, key: K) -> bool {
    &&& table_count(post, key) == table_count(pre, key) + 1
    &&& forall|k: K| k != key ==> table_count(post, k) == table_count(pre, k)
    &&& forall|k: K| table_has_key(post, k) <==> (table_has_key(pre, k) || k == key)
    &&& table_sum(post) == table_sum(pre) + 1
    &&& post.len() == if table_has_key(pre, key) {
        pre.len() as int
    } else {
        pre.len() as int + 1
    }
}

/// The smallest key of a table: the key that no other key undercuts.
/// Meaningful only when the table is non-empty.
pub open spec fn spec_min_key(entries: Seq<(i64, usize)>) -> i64 {
    choose|k: i64|
        table_has_key(entries, k) && (forall|k2: i64| table_has_key(entries, k2) ==> k <= k2)
}

/// Two tables that agree on their first `n` entries count alike there.
pub proof fn lemma_count_to_prefix<K>(s1: Seq<(K, usize)>, s2: Seq<(K, usize)>, key: K, n: int)
    requires
        n <= s1.len(),
        n <= s2.len(),
        forall|j: int| 0 <= j < n ==> s1[j] == s2[j],
    ensures
        count_to(s1, key, n) == count_to(s2, key, n),
    decreases n,
{
    if n > 0 {
        lemma_count_to_prefix(s1, s2, key, n - 1);
    }
}

/// Two tables that agree on their first `n` entries sum alike there.
pub proof fn lemma_sum_to_prefix<K>(s1: Seq<(K, usize)>, s2: Seq<(K, usize)>, n: int)
    requires
        n <= s1.len(),
        n <= s2.len(),
        forall|j: int| 0 <= j < n ==> s1[j] == s2[j],
    ensures
        sum_to(s1, n) == sum_to(s2, n),
    decreases n,
{
    if n > 0 {
        lemma_sum_to_prefix(s1, s2, n - 1);
    }
}

/// Replacing entry `i` changes a key's count exactly by what the old and
/// new entries contribute to it.
pub proof fn lemma_count_to_update<K>(s: Seq<(K, usize)>, i: int, e: (K, usize), key: K, n: int)
    requires
        0 <= i < s.len(),
        n <= s.len(),
    ensures
        count_to(s.update(i, e), key, n) as int == count_to(s, key, n) as int - (
        if i < n && s[i].0 == key {
            s[i].1 as int
        } else {
            0
        }) + (
        if i < n && e.0 == key {
            e.1 as int
        } else {
            0
        }),
    decreases n,
{
    if n > 0 {
        lemma_count_to_update(s, i, e, key, n - 1);
    }
}

/// Replacing entry `i` changes the aggregate by the difference of the two
/// entries' counts.
pub proof fn lemma_sum_to_update<K>(s: Seq<(K, usize)>, i: int, e: (K, usize), n: int)
    requires
        0 <= i < s.len(),
        n <= s.len(),
    ensures
        sum_to(s.update(i, e), n) as int == sum_to(s, n) as int - (
        if i < n {
            s[i].1 as int
        } else {
            0
        }) + (
        if i < n {
            e.1 as int
        } else {
            0
        }),
    decreases n,
{
    if n > 0 {
        lemma_sum_to_update(s, i, e, n - 1);
    }
}

/// No key's count exceeds the aggregate.
pub proof fn lemma_count_le_sum<K>(s: Seq<(K, usize)>, key: K, n: int)
    ensures
        count_to(s, key, n) <= sum_to(s, n),
    decreases n,
{
    if n > 0 {
        lemma_count_le_sum(s, key, n - 1);
    }
}

/// A key that no entry among the first `n` carries counts zero there.
pub proof fn lemma_count_absent<K>(s: Seq<(K, usize)>, key: K, n: int)
    requires
        n <= s.len(),
        forall|j: int| 0 <= j < n ==> s[j].0 != key,
    ensures
        count_to(s, key, n) == 0,
    decreases n,
{
    if n > 0 {
        lemma_count_absent(s, key, n - 1);
    }
}

/// On a table with distinct keys, the count of the key at entry `i` is
/// exactly that entry's count once the sum has passed it.
pub proof fn lemma_count_distinct<K>(s: Seq<(K, usize)>, i: int, n: int)
    requires
        0 <= i < s.len(),
        n <= s.len(),
        forall|a: int, b: int| 0 <= a < b < s.len() ==> s[a].0 != s[b].0,
    ensures
        count_to(s, s[i].0, n) == if i < n {
            s[i].1 as nat
        } else {
            0nat
        },
    decreases n,
{
    if n > 0 {
        lemma_count_distinct(s, i, n - 1);
    }
}

/// Frequency table over signed integer keys, used for the
/// relative-sequence table (sequence values) and the absolute-locktime
/// offset table.
pub struct FreqTable {
    entries: Vec<(i64, usize)>,
}

impl View for FreqTable {
    type V = Seq<(i64, usize)>;

    closed spec fn view(&self) -> Seq<(i64, usize)> {
        self.entries@
    }
}

impl FreqTable {
    /// Well-formedness: distinct keys, positive counts.
    pub open spec fn wf(&self) -> bool {
        table_wf(self@)
    }

    /// An empty table.
    pub fn new() -> (t: FreqTable)
        ensures
            t.wf(),
            t@.len() == 0,
    {
        FreqTable { entries: Vec::new() }
    }

    /// Index of the entry carrying `key`, if any.
    fn index_of(&self, key: i64) -> (r: Option<usize>)
        ensures
            match r {
                Some(i) => i < self@.len() && self@[i as int].0 == key,
                None => !table_has_key(self@, key),
            },
    {
        let mut i: usize = 0;
        while i < self.entries.len()
            invariant
                i <= self@.len(),
                self@ == self.entries@,
                forall|j: int| 0 <= j < i ==> self@[j].0 != key,
            decreases self@.len() - i,
        {
            if self.entries[i].0 == key {
                return Some(i);
            }
            i += 1;
        }
        None
    }

    /// Number of distinct keys in the table.
    pub fn distinct_keys(&self) -> (r: usize)
        ensures
            r == self@.len(),
    {
        self.entries.len()
    }

    /// Whether the table holds no key at all.
    pub fn is_empty(&self) -> (r: bool)
        ensures
            r == (self@.len() == 0),
    {
        self.entries.len() == 0
    }

    /// Whether `key` has been recorded.
    pub fn contains(&self, key: i64) -> (r: bool)
        ensures
            r == table_has_key(self@, key),
    {
        match self.index_of(key) {
            Some(_) => true,
            None => false,
        }
    }

    /// The count recorded for `key`, zero when absent.
    pub fn count(&self, key: i64) -> (r: usize)
        requires
            self.wf(),
        ensures
            r as nat == table_count(self@, key),
    {
        match self.index_of(key) {
            Some(i) => {
                proof {
                    lemma_count_distinct(self@, i as int, self@.len() as int);
                }
                self.entries[i].1
            },
            None => {
                proof {
                    lemma_count_absent(self@, key, self@.len() as int);
                }
                0
            },
        }
    }

    /// The aggregate count over the whole table.
    pub fn sum(&self) -> (r: usize)
        requires
            table_sum(self@) <= usize::MAX,
        ensures
            r as nat == table_sum(self@),
    {
        let mut acc: usize = 0;
        let mut i: usize = 0;
        while i < self.entries.len()
            invariant
                i <= self@.len(),
                self@ == self.entries@,
                table_sum(self@) <= usize::MAX,
                acc as nat == sum_to(self@, i as int),
            decreases self@.len() - i,
        {
            proof {
                assert(sum_to(self@, i + 1) == sum_to(self@, i as int) + self@[i as int].1 as nat);
                lemma_sum_to_bound(self@, i + 1, self@.len() as int);
            }
            acc = acc + self.entries[i].1;
            i += 1;
        }
        acc
    }

    /// The smallest key in a non-empty table.
    pub fn min_key(&self) -> (r: i64)
        requires
            self@.len() > 0,
        ensures
            table_has_key(self@, r),
            forall|k: i64| table_has_key(self@, k) ==> r <= k,
            r == spec_min_key(self@),
    {
        let mut m: i64 = self.entries[0].0;
        let mut i: usize = 1;
        while i < self.entries.len()
            invariant
                1 <= i <= self@.len(),
                self@ == self.entries@,
                exists|j: int| 0 <= j < i && self@[j].0 == m,
                forall|j: int| 0 <= j < i ==> m <= self@[j].0,
            decreases self@.len() - i,
        {
            if self.entries[i].0 < m {
                m = self.entries[i].0;
            }
            i += 1;
        }
        proof {
            assert(table_has_key(self@, m) && (forall|k2: i64|
                table_has_key(self@, k2) ==> m <= k2));
            let c = spec_min_key(self@);
            assert(table_has_key(self@, c) && (forall|k2: i64|
                table_has_key(self@, k2) ==> c <= k2));
            assert(m <= c && c <= m);
        }
        m
    }

    /// Record one more occurrence of `key`.
    pub fn increment(&mut self, key: i64)
        requires
            old(self).wf(),
            table_count(old(self)@, key) < usize::MAX,
        ensures
            final(self).wf(),
            table_bumped(old(self)@, final(self)@, key),
    {
        let ghost pre = self@;
        match self.index_of(key) {
            Some(i) => {
                proof {
                    lemma_count_distinct(pre, i as int, pre.len() as int);
                }
                let c = self.entries[i].1;
                self.entries[i] = (key, c + 1);
                proof {
                    let post = self@;
                    let e = (key, (c + 1) as usize);
                    assert(post == pre.update(i as int, e));
                    lemma_count_to_update(pre, i as int, e, key, pre.len() as int);
                    assert forall|k: i64| k != key implies table_count(post, k) == table_count(
                        pre,
                        k,
                    ) by {
                        lemma_count_to_update(pre, i as int, e, k, pre.len() as int);
                    }
                    lemma_sum_to_update(pre, i as int, e, pre.len() as int);
                    assert forall|k: i64| table_has_key(post, k) <==> (table_has_key(pre, k) || k
                        == key) by {
                        if table_has_key(post, k) {
                            let j = choose|j: int| 0 <= j < post.len() && post[j].0 == k;
                            if j != i {
                                assert(pre[j].0 == k);
                            }
                        }
                        if table_has_key(pre, k) {
                            let j = choose|j: int| 0 <= j < pre.len() && pre[j].0 == k;
                            assert(post[j].0 == k);
                        }
                        if k == key {
                            assert(post[i as int].0 == k);
                        }
                    }
                    assert(table_has_key(pre, key)) by {
                        assert(pre[i as int].0 == key);
                    }
                }
            },
            None => {
                self.entries.push((key, 1));
                proof {
                    let post = self@;
                    assert(post == pre.push((key, 1)));
                    assert(forall|j: int| 0 <= j < pre.len() ==> pre[j].0 != key);
                    lemma_count_absent(pre, key, pre.len() as int);
                    lemma_count_to_prefix(post, pre, key, pre.len() as int);
                    assert(table_count(post, key) == count_to(post, key, pre.len() as int)
                        + post[pre.len() as int].1 as nat);
                    assert forall|k: i64| k != key implies table_count(post, k) == table_count(
                        pre,
                        k,
                    ) by {
                        lemma_count_to_prefix(post, pre, k, pre.len() as int);
                        assert(table_count(post, k) == count_to(post, k, pre.len() as int));
                    }
                    lemma_sum_to_prefix(post, pre, pre.len() as int);
                    assert(table_sum(post) == sum_to(post, pre.len() as int)
                        + post[pre.len() as int].1 as nat);
                    assert forall|k: i64| table_has_key(post, k) <==> (table_has_key(pre, k) || k
                        == key) by {
                        if table_has_key(post, k) {
                            let j = choose|j: int| 0 <= j < post.len() && post[j].0 == k;
                            if j < pre.len() {
                                assert(pre[j].0 == k);
                            }
                        }
                        if table_has_key(pre, k) {
                            let j = choose|j: int| 0 <= j < pre.len() && pre[j].0 == k;
                            assert(post[j].0 == k);
                        }
                        if k == key {
                            assert(post[pre.len() as int].0 == k);
                        }
                    }
                }
            },
        }
    }
}

/// Frequency table over `(input_count, input_index)` keys: which input
/// slot, among how many inputs, carried the flagged sequence value.
pub struct PosTable {
    entries: Vec<((usize, usize), usize)>,
}

impl View for PosTable {
    type V = Seq<((usize, usize), usize)>;

    closed spec fn view(&self) -> Seq<((usize, usize), usize)> {
        self.entries@
    }
}

impl PosTable {
    /// Well-formedness: distinct keys, positive counts.
    pub open spec fn wf(&self) -> bool {
        table_wf(self@)
    }

    /// An empty table.
    pub fn new() -> (t: PosTable)
        ensures
            t.wf(),
            t@.len() == 0,
    {
        PosTable { entries: Vec::new() }
    }

    /// Index of the entry carrying `key`, if any.
    fn index_of(&self, key: (usize, usize)) -> (r: Option<usize>)
        ensures
            match r {
                Some(i) => i < self@.len() && self@[i as int].0 == key,
                None => !table_has_key(self@, key),
            },
    {
        let mut i: usize = 0;
        while i < self.entries.len()
            invariant
                i <= self@.len(),
                self@ == self.entries@,
                forall|j: int| 0 <= j < i ==> self@[j].0 != key,
            decreases self@.len() - i,
        {
            let k = self.entries[i].0;
            if k.0 == key.0 && k.1 == key.1 {
                return Some(i);
            }
            i += 1;
        }
        None
    }

    /// Number of distinct keys in the table.
    pub fn distinct_keys(&self) -> (r: usize)
        ensures
            r == self@.len(),
    {
        self.entries.len()
    }

    /// Whether `key` has been recorded.
    pub fn contains(&self, key: (usize, usize)) -> (r: bool)
        ensures
            r == table_has_key(self@, key),
    {
        match self.index_of(key) {
            Some(_) => true,
            None => false,
        }
    }

    /// The count recorded for `key`, zero when absent.
    pub fn count(&self, key: (usize, usize)) -> (r: usize)
        requires
            self.wf(),
        ensures
            r as nat == table_count(self@, key),
    {
        match self.index_of(key) {
            Some(i) => {
                proof {
                    lemma_count_distinct(self@, i as int, self@.len() as int);
                }
                self.entries[i].1
            },
            None => {
                proof {
                    lemma_count_absent(self@, key, self@.len() as int);
                }
                0
            },
        }
    }

    /// Record one more occurrence of `key`.
    pub fn increment(&mut self, key: (usize, usize))
        requires
            old(self).wf(),
            table_count(old(self)@, key) < usize::MAX,
        ensures
            final(self).wf(),
            table_bumped(old(self)@, final(self)@, key),
    {
        let ghost pre = self@;
        match self.index_of(key) {
            Some(i) => {
                proof {
                    lemma_count_distinct(pre, i as int, pre.len() as int);
                }
                let c = self.entries[i].1;
                self.entries[i] = (key, c + 1);
                proof {
                    let post = self@;
                    let e = (key, (c + 1) as usize);
                    assert(post == pre.update(i as int, e));
                    lemma_count_to_update(pre, i as int, e, key, pre.len() as int);
                    assert forall|k: (usize, usize)| k != key implies table_count(post, k)
                        == table_count(pre, k) by {
                        lemma_count_to_update(pre, i as int, e, k, pre.len() as int);
                    }
                    lemma_sum_to_update(pre, i as int, e, pre.len() as int);
                    assert forall|k: (usize, usize)| table_has_key(post, k) <==> (table_has_key(
                        pre,
                        k,
                    ) || k == key) by {
                        if table_has_key(post, k) {
                            let j = choose|j: int| 0 <= j < post.len() && post[j].0 == k;
                            if j != i {
                                assert(pre[j].0 == k);
                            }
                        }
                        if table_has_key(pre, k) {
                            let j = choose|j: int| 0 <= j < pre.len() && pre[j].0 == k;
                            assert(post[j].0 == k);
                        }
                        if k == key {
                            assert(post[i as int].0 == k);
                        }
                    }
                    assert(table_has_key(pre, key)) by {
                        assert(pre[i as int].0 == key);
                    }
                }
            },
            None => {
                self.entries.push((key, 1));
                proof {
                    let post = self@;
                    assert(post == pre.push((key, 1)));
                    assert(forall|j: int| 0 <= j < pre.len() ==> pre[j].0 != key);
                    lemma_count_absent(pre, key, pre.len() as int);
                    lemma_count_to_prefix(post, pre, key, pre.len() as int);
                    assert(table_count(post, key) == count_to(post, key, pre.len() as int)
                        + post[pre.len() as int].1 as nat);
                    assert forall|k: (usize, usize)| k != key implies table_count(post, k)
                        == table_count(pre, k) by {
                        lemma_count_to_prefix(post, pre, k, pre.len() as int);
                        assert(table_count(post, k) == count_to(post, k, pre.len() as int));
                    }
                    lemma_sum_to_prefix(post, pre, pre.len() as int);
                    assert(table_sum(post) == sum_to(post, pre.len() as int)
                        + post[pre.len() as int].1 as nat);
                    assert forall|k: (usize, usize)| table_has_key(post, k) <==> (table_has_key(
                        pre,
                        k,
                    ) || k == key) by {
                        if table_has_key(post, k) {
                            let j = choose|j: int| 0 <= j < post.len() && post[j].0 == k;
                            if j < pre.len() {
                                assert(pre[j].0 == k);
                            }
                        }
                        if table_has_key(pre, k) {
                            let j = choose|j: int| 0 <= j < pre.len() && pre[j].0 == k;
                            assert(post[j].0 == k);
                        }
                        if k == key {
                            assert(post[pre.len() as int].0 == k);
                        }
                    }
                }
            },
        }
    }
}

/// A partial sum never exceeds a longer one over the same table.
pub proof fn lemma_sum_to_bound<K>(s: Seq<(K, usize)>, n1: int, n2: int)
    requires
        n1 <= n2,
    ensures
        sum_to(s, n1) <= sum_to(s, n2),
    decreases n2,
{
    if n2 > 0 && n1 < n2 {
        lemma_sum_to_bound(s, n1, n2 - 1);
    }
}

} // verus!
