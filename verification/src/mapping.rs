//! Replication mapping tables.
//!
//! A client process keeps one table per entity tier, binding each
//! server-assigned entity handle to the handle of its local mirror entity.
//! Keys are unique; removing an absent key is a no-op returning `None`, which
//! supports idempotent disconnect and despawn handling. The table is an
//! association list scanned in insertion order, so sweeps visit entries
//! deterministically; the generic spec functions over `Seq<(u64, V)>` are
//! shared with the lobby tables of the reconciler and the replicator.

use vstd::prelude::*;

verus! {

/// The value bound to the first entry carrying key `k`, if any.
pub open spec fn table_lookup<V>(s: Seq<(u64, V)>, k: u64) -> Option<V>
    decreases s.len(),
{
    if s.len() == 0 {
        None
    } else if s.first().0 == k {
        Some(s.first().1)
    } else {
        table_lookup(s.drop_first(), k)
    }
}

/// Whether some entry carries key `k`.
pub open spec fn table_contains<V>(s: Seq<(u64, V)>, k: u64) -> bool {
    table_lookup(s, k) is Some
}

/// The entries with the first entry carrying key `k` taken out; with unique
/// keys, the entries with key `k` absent.
pub open spec fn table_remove<V>(s: Seq<(u64, V)>, k: u64) -> Seq<(u64, V)>
    decreases s.len(),
{
    if s.len() == 0 {
        s
    } else if s.first().0 == k {
        s.drop_first()
    } else {
        seq![s.first()] + table_remove(s.drop_first(), k)
    }
}

/// No two entries share a key.
pub open spec fn keys_distinct<V>(s: Seq<(u64, V)>) -> bool {
    forall|i: int, j: int| 0 <= i < j < s.len() ==> (#[trigger] s[i]).0 != (#[trigger] s[j]).0
}

/// A key is looked up exactly when some entry carries it.
pub proof fn lemma_table_contains_iff<V>(s: Seq<(u64, V)>, k: u64)
    ensures
        table_contains(s, k) <==> exists|i: int| 0 <= i < s.len() && (#[trigger] s[i]).0 == k,
    decreases s.len(),
{
    if s.len() > 0 {
        lemma_table_contains_iff(s.drop_first(), k);
        if s.first().0 == k {
            assert(s[0].0 == k);
        } else {
            if table_contains(s, k) {
                let i = choose|i: int|
                    0 <= i < s.drop_first().len() && (#[trigger] s.drop_first()[i]).0 == k;
                assert(s[i + 1].0 == k);
            }
            if exists|i: int| 0 <= i < s.len() && (#[trigger] s[i]).0 == k {
                let i = choose|i: int| 0 <= i < s.len() && (#[trigger] s[i]).0 == k;
                assert(s.drop_first()[i - 1].0 == k);
            }
        }
    }
}

/// A scan that first matches at index `i` looks up that entry's value.
pub proof fn lemma_table_lookup_at<V>(s: Seq<(u64, V)>, k: u64, i: int)
    requires
        0 <= i < s.len(),
        s[i].0 == k,
        forall|j: int| 0 <= j < i ==> (#[trigger] s[j]).0 != k,
    ensures
        table_lookup(s, k) == Some(s[i].1),
    decreases s.len(),
{
    if i > 0 {
        assert(s[0].0 != k);
        lemma_table_lookup_at(s.drop_first(), k, i - 1);
    }
}

/// A key carried by no entry looks up `None`.
pub proof fn lemma_table_lookup_none<V>(s: Seq<(u64, V)>, k: u64)
    requires
        forall|j: int| 0 <= j < s.len() ==> (#[trigger] s[j]).0 != k,
    ensures
        table_lookup(s, k) == None::<V>,
{
    lemma_table_contains_iff(s, k);
}

/// Removing the match at index `i` (the first one) drops exactly that entry.
pub proof fn lemma_table_remove_at<V>(s: Seq<(u64, V)>, k: u64, i: int)
    requires
        0 <= i < s.len(),
        s[i].0 == k,
        forall|j: int| 0 <= j < i ==> (#[trigger] s[j]).0 != k,
    ensures
        table_remove(s, k) == s.remove(i),
    decreases s.len(),
{
    if i == 0 {
        assert(table_remove(s, k) == s.drop_first());
        assert(s.remove(0) =~= s.drop_first());
    } else {
        assert(s[0].0 != k);
        lemma_table_remove_at(s.drop_first(), k, i - 1);
        assert(s.drop_first()[i - 1].0 == k);
        assert(table_remove(s, k) == seq![s.first()] + s.drop_first().remove(i - 1));
        assert(seq![s.first()] + s.drop_first().remove(i - 1) =~= s.remove(i));
    }
}

/// Removing an absent key changes nothing.
pub proof fn lemma_table_remove_absent<V>(s: Seq<(u64, V)>, k: u64)
    requires
        forall|j: int| 0 <= j < s.len() ==> (#[trigger] s[j]).0 != k,
    ensures
        table_remove(s, k) == s,
    decreases s.len(),
{
    if s.len() > 0 {
        lemma_table_remove_absent(s.drop_first(), k);
        assert(table_remove(s, k) == seq![s.first()] + s.drop_first());
        assert(seq![s.first()] + s.drop_first() =~= s);
    }
}

/// With unique keys, lookups after a removal miss the removed key and see
/// every other key unchanged.
pub proof fn lemma_table_lookup_after_remove<V>(s: Seq<(u64, V)>, k: u64, k2: u64)
    requires
        keys_distinct(s),
    ensures
        table_lookup(table_remove(s, k), k2) == if k2 == k {
            None::<V>
        } else {
            table_lookup(s, k2)
        },
    decreases s.len(),
{
    if s.len() > 0 {
        assert(keys_distinct(s.drop_first())) by {
            assert forall|i: int, j: int|
                0 <= i < j < s.drop_first().len() implies (#[trigger] s.drop_first()[i]).0 != (
            #[trigger] s.drop_first()[j]).0 by {
                assert(s[i + 1].0 != s[j + 1].0);
            }
        }
        if s.first().0 == k {
            if k2 == k {
                lemma_table_contains_iff(s.drop_first(), k2);
                if table_contains(s.drop_first(), k2) {
                    let i = choose|i: int|
                        0 <= i < s.drop_first().len() && (#[trigger] s.drop_first()[i]).0 == k2;
                    assert(s[i + 1].0 == s[0].0);
                    assert(false);
                }
            }
        } else {
            lemma_table_lookup_after_remove(s.drop_first(), k, k2);
            let r = seq![s.first()] + table_remove(s.drop_first(), k);
            assert(r.first() == s.first());
            assert(r.drop_first() =~= table_remove(s.drop_first(), k));
        }
    }
}

/// Lookups after appending an entry: earlier entries win; the new entry
/// answers for its key where no earlier entry carries it.
pub proof fn lemma_table_lookup_push<V>(s: Seq<(u64, V)>, k: u64, v: V, k2: u64)
    ensures
        table_lookup(s.push((k, v)), k2) == if table_contains(s, k2) {
            table_lookup(s, k2)
        } else if k2 == k {
            Some(v)
        } else {
            None::<V>
        },
    decreases s.len(),
{
    if s.len() == 0 {
        assert(s.push((k, v)).first() == (k, v));
        assert(s.push((k, v)).drop_first() =~= s);
    } else {
        assert(s.push((k, v)).first() == s.first());
        assert(s.push((k, v)).drop_first() =~= s.drop_first().push((k, v)));
        lemma_table_lookup_push(s.drop_first(), k, v, k2);
    }
}

/// Appending a fresh key preserves key uniqueness.
pub proof fn lemma_keys_distinct_push<V>(s: Seq<(u64, V)>, k: u64, v: V)
    requires
        keys_distinct(s),
        !table_contains(s, k),
    ensures
        keys_distinct(s.push((k, v))),
{
    lemma_table_contains_iff(s, k);
    assert forall|i: int, j: int|
        0 <= i < j < s.push((k, v)).len() implies (#[trigger] s.push((k, v))[i]).0 != (
    #[trigger] s.push((k, v))[j]).0 by {
        if j < s.len() {
            assert(s[i].0 != s[j].0);
        } else {
            assert(s.push((k, v))[j] == (k, v));
            assert(s.push((k, v))[i] == s[i]);
        }
    }
}

/// Removal preserves key uniqueness.
pub proof fn lemma_keys_distinct_remove<V>(s: Seq<(u64, V)>, k: u64)
    requires
        keys_distinct(s),
    ensures
        keys_distinct(table_remove(s, k)),
    decreases s.len(),
{
    if s.len() > 0 {
        assert(keys_distinct(s.drop_first())) by {
            assert forall|i: int, j: int|
                0 <= i < j < s.drop_first().len() implies (#[trigger] s.drop_first()[i]).0 != (
            #[trigger] s.drop_first()[j]).0 by {
                assert(s[i + 1].0 != s[j + 1].0);
            }
        }
        if s.first().0 != k {
            lemma_keys_distinct_remove(s.drop_first(), k);
            let rest = table_remove(s.drop_first(), k);
            let r = seq![s.first()] + rest;
            assert forall|i: int, j: int| 0 <= i < j < r.len() implies (#[trigger] r[i]).0 != (
            #[trigger] r[j]).0 by {
                if i == 0 {
                    lemma_table_remove_keys_subset(s.drop_first(), k, j - 1);
                } else {
                    lemma_table_remove_keys_subset(s.drop_first(), k, i - 1);
                    lemma_table_remove_keys_subset(s.drop_first(), k, j - 1);
                }
            }
        }
    }
}

/// Every entry of a removal's result is an entry of the original.
pub proof fn lemma_table_remove_keys_subset<V>(s: Seq<(u64, V)>, k: u64, i: int)
    requires
        0 <= i < table_remove(s, k).len(),
    ensures
        exists|j: int| 0 <= j < s.len() && s[j] == (#[trigger] table_remove(s, k)[i]),
    decreases s.len(),
{
    if s.len() > 0 {
        if s.first().0 == k {
            assert(s[i + 1] == table_remove(s, k)[i]);
        } else {
            if i == 0 {
                assert(s[0] == table_remove(s, k)[0]);
            } else {
                lemma_table_remove_keys_subset(s.drop_first(), k, i - 1);
                let j = choose|j: int|
                    0 <= j < s.drop_first().len() && s.drop_first()[j] == (
                #[trigger] table_remove(s.drop_first(), k)[i - 1]);
                assert(s[j + 1] == table_remove(s, k)[i]);
            }
        }
    }
}

/// Key uniqueness survives dropping the last entry.
pub proof fn lemma_keys_distinct_drop_last<V>(s: Seq<(u64, V)>)
    requires
        keys_distinct(s),
        s.len() > 0,
    ensures
        keys_distinct(s.drop_last()),
{
    assert forall|i: int, j: int|
        0 <= i < j < s.drop_last().len() implies (#[trigger] s.drop_last()[i]).0 != (
    #[trigger] s.drop_last()[j]).0 by {
        assert(s[i].0 != s[j].0);
    }
}

/// A key is in a table exactly when it is in the front part or is the last
/// entry's key.
pub proof fn lemma_table_contains_drop_last<V>(s: Seq<(u64, V)>, k: u64)
    requires
        s.len() > 0,
    ensures
        table_contains(s, k) <==> table_contains(s.drop_last(), k) || s.last().0 == k,
{
    lemma_table_contains_iff(s, k);
    lemma_table_contains_iff(s.drop_last(), k);
    if table_contains(s, k) {
        let i = choose|i: int| 0 <= i < s.len() && (#[trigger] s[i]).0 == k;
        if i < s.len() - 1 {
            assert(s.drop_last()[i].0 == k);
        }
    }
    if table_contains(s.drop_last(), k) {
        let i = choose|i: int| 0 <= i < s.drop_last().len() && (#[trigger] s.drop_last()[i]).0 == k;
        assert(s[i].0 == k);
    }
    if s.last().0 == k {
        assert(s[s.len() - 1].0 == k);
    }
}

/// A lookup for any key but the last entry's ignores the last entry.
pub proof fn lemma_table_lookup_drop_last<V>(s: Seq<(u64, V)>, k: u64)
    requires
        s.len() > 0,
        s.last().0 != k,
    ensures
        table_lookup(s, k) == table_lookup(s.drop_last(), k),
    decreases s.len(),
{
    if s.len() == 1 {
        assert(s.first().0 != k);
        assert(s.drop_last() =~= Seq::<(u64, V)>::empty());
    } else {
        assert(s.drop_last().first() == s.first());
        if s.first().0 != k {
            assert(s.drop_first().last() == s.last());
            lemma_table_lookup_drop_last(s.drop_first(), k);
            assert(s.drop_last().drop_first() =~= s.drop_first().drop_last());
        }
    }
}

/// Per-tier table from server entity handles to local mirror handles.
pub struct MappingTable {
    entries: Vec<(u64, u64)>,
}

impl View for MappingTable {
    type V = Seq<(u64, u64)>;

    closed spec fn view(&self) -> Seq<(u64, u64)> {
        self.entries@
    }
}

impl MappingTable {
    /// Key uniqueness, the table's invariant.
    pub open spec fn wf(self) -> bool {
        keys_distinct(self@)
    }

    /// An empty table.
    pub fn new() -> (r: Self)
        ensures
            r@ == Seq::<(u64, u64)>::empty(),
            r.wf(),
    {
        MappingTable { entries: Vec::new() }
    }

    /// A table holding exactly the given entries; the caller shows the keys
    /// unique.
    pub fn from_entries(entries: Vec<(u64, u64)>) -> (r: Self)
        requires
            keys_distinct(entries@),
        ensures
            r@ == entries@,
            r.wf(),
    {
        MappingTable { entries }
    }

    /// Number of entries.
    pub fn len(&self) -> (n: usize)
        ensures
            n == self@.len(),
    {
        self.entries.len()
    }

    /// The entry at position `i`, in insertion order.
    pub fn entry_at(&self, i: usize) -> (r: (u64, u64))
        requires
            i < self@.len(),
        ensures
            r == self@[i as int],
    {
        self.entries[i]
    }

    /// The local handle mapped to `server`, if the table knows the handle.
    pub fn lookup(&self, server: u64) -> (r: Option<u64>)
        ensures
            r == table_lookup(self@, server),
    {
        let mut i: usize = 0;
        while i < self.entries.len()
            invariant
                i <= self.entries@.len(),
                forall|j: int| 0 <= j < i ==> (#[trigger] self.entries@[j]).0 != server,
            decreases self.entries@.len() - i,
        {
            if self.entries[i].0 == server {
                proof {
                    lemma_table_lookup_at(self@, server, i as int);
                }
                return Some(self.entries[i].1);
            }
            i += 1;
        }
        proof {
            lemma_table_lookup_none(self@, server);
        }
        None
    }

    /// Registers a mapping for a handle the table does not know yet.
    pub fn insert(&mut self, server: u64, client: u64)
        requires
            old(self).wf(),
            !table_contains(old(self)@, server),
        ensures
            final(self)@ == old(self)@.push((server, client)),
            final(self).wf(),
    {
        proof {
            lemma_keys_distinct_push(self@, server, client);
        }
        self.entries.push((server, client));
    }

    /// Unregisters `server` and hands back its local handle; a no-op
    /// returning `None` when the handle is unknown.
    pub fn remove(&mut self, server: u64) -> (r: Option<u64>)
        requires
            old(self).wf(),
        ensures
            r == table_lookup(old(self)@, server),
            final(self)@ == table_remove(old(self)@, server),
            final(self).wf(),
    {
        proof {
            lemma_keys_distinct_remove(self@, server);
        }
        let mut i: usize = 0;
        while i < self.entries.len()
            invariant
                i <= self.entries@.len(),
                forall|j: int| 0 <= j < i ==> (#[trigger] self.entries@[j]).0 != server,
                self == old(self),
                old(self).wf(),
            decreases self.entries@.len() - i,
        {
            if self.entries[i].0 == server {
                let client = self.entries[i].1;
                proof {
                    lemma_table_lookup_at(self@, server, i as int);
                    lemma_table_remove_at(self@, server, i as int);
                    lemma_keys_distinct_remove(self@, server);
                }
                self.entries.remove(i);
                return Some(client);
            }
            i += 1;
        }
        proof {
            lemma_table_lookup_none(self@, server);
            lemma_table_remove_absent(self@, server);
        }
        None
    }
}

} // verus!
