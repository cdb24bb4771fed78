//! Tables that find a value by its key and keep the order in which keys first came.
use crate::bin;
use crate::bin::{BinError, BinaryData, BinaryReader};
use vstd::prelude::*;

verus! {

/// A key of a [`Table`].
pub trait TableKey: Sized {
    /// What two keys are compared by.
    type Id;

    /// What this key is compared by.
    spec fn id(&self) -> Self::Id;

    /// Whether two keys are the same.
    fn same(&self, other: &Self) -> (res: bool)
        ensures
            res == (self.id() == other.id()),
    ;
}

impl TableKey for i32 {
    type Id = i32;

    open spec fn id(&self) -> i32 {
        *self
    }

    fn same(&self, other: &i32) -> (res: bool) {
        *self == *other
    }
}

impl TableKey for u64 {
    type Id = u64;

    open spec fn id(&self) -> u64 {
        *self
    }

    fn same(&self, other: &u64) -> (res: bool) {
        *self == *other
    }
}

impl TableKey for u128 {
    type Id = u128;

    open spec fn id(&self) -> u128 {
        *self
    }

    fn same(&self, other: &u128) -> (res: bool) {
        *self == *other
    }
}

impl TableKey for String {
    type Id = Seq<char>;

    open spec fn id(&self) -> Seq<char> {
        self@
    }

    fn same(&self, other: &String) -> (res: bool) {
        *self == *other
    }
}

/// The place of the first entry with key `k`, or the number of entries if there is none.
pub open spec fn find<I, V>(s: Seq<(I, V)>, k: I) -> int
    decreases s.len(),
{
    if s.len() == 0 {
        0
    } else if s[0].0 == k {
        0
    } else {
        1 + find(s.skip(1), k)
    }
}

/// Whether some entry has key `k`.
pub open spec fn holds<I, V>(s: Seq<(I, V)>, k: I) -> bool {
    find(s, k) < s.len()
}

/// The value under key `k`.
pub open spec fn lookup<I, V>(s: Seq<(I, V)>, k: I) -> Option<V> {
    if holds(s, k) {
        Some(s[find(s, k)].1)
    } else {
        None
    }
}

/// The table with `v` under key `k`: in place of the value that was there, or at the end.
pub open spec fn put<I, V>(s: Seq<(I, V)>, k: I, v: V) -> Seq<(I, V)> {
    if holds(s, k) {
        s.update(find(s, k), (k, v))
    } else {
        s.push((k, v))
    }
}

/// The table without the entry under key `k`.
pub open spec fn without<I, V>(s: Seq<(I, V)>, k: I) -> Seq<(I, V)> {
    if holds(s, k) {
        s.remove(find(s, k))
    } else {
        s
    }
}

/// No key stands twice.
pub open spec fn distinct<I, V>(s: Seq<(I, V)>) -> bool {
    forall|i: int, j: int|
        0 <= i < j < s.len() ==> (#[trigger] s[i]).0 != (#[trigger] s[j]).0
}

/// `i` is the place of the first entry with key `k` where no earlier entry has that key.
pub proof fn lemma_find_is<I, V>(s: Seq<(I, V)>, k: I, i: int)
    requires
        0 <= i <= s.len(),
        forall|j: int| 0 <= j < i ==> (#[trigger] s[j]).0 != k,
        i < s.len() ==> s[i].0 == k,
    ensures
        find(s, k) == i,
    decreases s.len(),
{
    if i > 0 {
        assert(s[0].0 != k);
        let t = s.skip(1);
        assert forall|j: int| 0 <= j < i - 1 implies (#[trigger] t[j]).0 != k by {
            assert(t[j] == s[j + 1]);
        }
        lemma_find_is(t, k, i - 1);
    }
}

/// What the place that is found says of the entries.
pub proof fn lemma_find<I, V>(s: Seq<(I, V)>, k: I)
    ensures
        0 <= find(s, k) <= s.len(),
        forall|j: int| 0 <= j < find(s, k) ==> (#[trigger] s[j]).0 != k,
        find(s, k) < s.len() ==> s[find(s, k)].0 == k,
    decreases s.len(),
{
    if s.len() > 0 && s[0].0 != k {
        let t = s.skip(1);
        lemma_find(t, k);
        assert forall|j: int| 0 <= j < find(s, k) implies (#[trigger] s[j]).0 != k by {
            if j > 0 {
                assert(s[j] == t[j - 1]);
            }
        }
    }
}

/// A value that was put is found under its key, and every other key keeps its value.
pub proof fn lemma_put_lookup<I, V>(s: Seq<(I, V)>, k: I, v: V, other: I)
    ensures
        lookup(put(s, k, v), k) == Some(v),
        other != k ==> lookup(put(s, k, v), other) == lookup(s, other),
{
    lemma_find(s, k);
    let t = put(s, k, v);
    lemma_find_is(t, k, find(s, k));
    if other != k {
        lemma_find(s, other);
        let i = find(s, other);
        if i < s.len() {
            lemma_find_is(t, other, i);
        } else {
            assert forall|j: int| 0 <= j < t.len() implies (#[trigger] t[j]).0 != other by {
                if j < s.len() {
                    assert(s[j].0 != other);
                }
            }
            lemma_find_is(t, other, t.len() as int);
        }
    }
}

/// Putting a value keeps the keys distinct.
pub proof fn lemma_put_distinct<I, V>(s: Seq<(I, V)>, k: I, v: V)
    requires
        distinct(s),
    ensures
        distinct(put(s, k, v)),
{
    lemma_find(s, k);
    let t = put(s, k, v);
    assert forall|i: int, j: int| 0 <= i < j < t.len() implies (#[trigger] t[i]).0 != (
    #[trigger] t[j]).0 by {
        if j < s.len() {
            assert(s[i].0 != s[j].0);
        } else {
            assert(s[i].0 != k);
        }
    }
}

/// In a table of distinct keys a removed key is gone, and every other key keeps its value.
pub proof fn lemma_without_lookup<I, V>(s: Seq<(I, V)>, k: I, other: I)
    requires
        distinct(s),
    ensures
        lookup(without(s, k), k) is None,
        other != k ==> lookup(without(s, k), other) == lookup(s, other),
        distinct(without(s, k)),
{
    lemma_find(s, k);
    lemma_find(s, other);
    let t = without(s, k);
    let i = find(s, k);
    if i < s.len() {
        assert forall|j: int| 0 <= j < t.len() implies (#[trigger] t[j]).0 != k by {
            if j < i {
                assert(t[j] == s[j]);
            } else {
                assert(t[j] == s[j + 1]);
                assert(s[i].0 != s[j + 1].0);
            }
        }
        lemma_find_is(t, k, t.len() as int);
        assert forall|a: int, b: int| 0 <= a < b < t.len() implies (#[trigger] t[a]).0 != (
        #[trigger] t[b]).0 by {
            let a0 = if a < i {
                a
            } else {
                a + 1
            };
            let b0 = if b < i {
                b
            } else {
                b + 1
            };
            assert(t[a] == s[a0] && t[b] == s[b0]);
        }
        if other != k {
            let o = find(s, other);
            let p = if o < i {
                o
            } else {
                o - 1
            };
            assert(o != i);
            assert forall|j: int| 0 <= j < p implies (#[trigger] t[j]).0 != other by {
                if j < i {
                    assert(t[j] == s[j]);
                } else {
                    assert(t[j] == s[j + 1]);
                }
            }
            if o < s.len() {
                assert(t[p] == s[o]);
            }
            lemma_find_is(t, other, p);
        }
    }
}

/// Values found by key.
#[derive(Debug, PartialEq, Eq)]
pub struct Table<K, V> {
    entries: Vec<(K, V)>,
}

/// Values found by a number.
pub type IdTable<V> = Table<i32, V>;

impl<K: TableKey, V> View for Table<K, V> {
    type V = Seq<(K::Id, V)>;

    closed spec fn view(&self) -> Seq<(K::Id, V)> {
        Seq::new(self.entries@.len(), |i: int| (self.entries@[i].0.id(), self.entries@[i].1))
    }
}

impl<K: TableKey, V> Table<K, V> {
    /// A table without entries.
    pub fn new() -> (res: Self)
        ensures
            res@ == Seq::<(K::Id, V)>::empty(),
    {
        let res = Table { entries: Vec::new() };
        assert(res@ =~= Seq::<(K::Id, V)>::empty());
        res
    }

    /// The number of entries.
    pub fn len(&self) -> (res: usize)
        ensures
            res == self@.len(),
    {
        self.entries.len()
    }

    /// The entries, in order.
    pub fn entries(&self) -> (res: &Vec<(K, V)>)
        ensures
            res@.len() == self@.len(),
            forall|i: int|
                0 <= i < res@.len() ==> #[trigger] self@[i] == (res@[i].0.id(), res@[i].1),
    {
        &self.entries
    }

    /// The place of the first entry with a key, or the number of entries.
    pub fn position(&self, key: &K) -> (res: usize)
        ensures
            res == find(self@, key.id()),
            res <= self@.len(),
    {
        let mut i: usize = 0;
        while i < self.entries.len()
            invariant
                i <= self.entries.len(),
                forall|j: int| 0 <= j < i ==> (#[trigger] self@[j]).0 != key.id(),
            decreases self.entries.len() - i,
        {
            if self.entries[i].0.same(key) {
                proof {
                    lemma_find_is(self@, key.id(), i as int);
                }
                return i;
            }
            i += 1;
        }
        proof {
            lemma_find_is(self@, key.id(), i as int);
        }
        i
    }

    /// Whether there is a value under a key.
    pub fn contains_key(&self, key: &K) -> (res: bool)
        ensures
            res == holds(self@, key.id()),
    {
        self.position(key) < self.entries.len()
    }

    /// The value under a key.
    pub fn get(&self, key: &K) -> (res: Option<&V>)
        ensures
            match lookup(self@, key.id()) {
                Some(v) => res == Some(&v),
                None => res is None,
            },
    {
        let i: usize = self.position(key);
        if i < self.entries.len() {
            Some(&self.entries[i].1)
        } else {
            None
        }
    }

    /// The value at a place.
    pub fn value(&self, i: usize) -> (res: &V)
        requires
            i < self@.len(),
        ensures
            *res == self@[i as int].1,
    {
        &self.entries[i].1
    }

    /// The key at a place.
    pub fn key(&self, i: usize) -> (res: &K)
        requires
            i < self@.len(),
        ensures
            res.id() == self@[i as int].0,
    {
        &self.entries[i].0
    }

    /// The value at a place, to be changed.
    pub fn value_mut(&mut self, i: usize) -> (res: &mut V)
        requires
            i < old(self)@.len(),
        ensures
            *res == old(self)@[i as int].1,
            final(self)@ == old(self)@.update(i as int, (old(self)@[i as int].0, *final(res))),
    {
        let entry = &mut self.entries[i];
        &mut entry.1
    }

    /// The value under a key, to be changed.
    pub fn get_mut(&mut self, key: &K) -> (res: Option<&mut V>)
        ensures
            match res {
                Some(v) => {
                    &&& lookup(old(self)@, key.id()) == Some(*v)
                    &&& final(self)@ == put(old(self)@, key.id(), *final(v))
                },
                None => !holds(old(self)@, key.id()) && final(self)@ == old(self)@,
            },
    {
        let i: usize = self.position(key);
        if i < self.entries.len() {
            proof {
                lemma_find(self@, key.id());
            }
            Some(self.value_mut(i))
        } else {
            None
        }
    }

    /// Puts a value under a key and gives back the value that was there.
    pub fn insert(&mut self, key: K, value: V) -> (res: Option<V>)
        ensures
            final(self)@ == put(old(self)@, key.id(), value),
            res == lookup(old(self)@, key.id()),
    {
        let i: usize = self.position(&key);
        if i < self.entries.len() {
            let (_, before) = self.entries.remove(i);
            self.entries.insert(i, (key, value));
            assert(self@ =~= put(old(self)@, key.id(), value));
            Some(before)
        } else {
            self.entries.push((key, value));
            assert(self@ =~= put(old(self)@, key.id(), value));
            None
        }
    }

    /// Takes out the value under a key.
    pub fn remove(&mut self, key: &K) -> (res: Option<V>)
        ensures
            final(self)@ == without(old(self)@, key.id()),
            res == lookup(old(self)@, key.id()),
    {
        let i: usize = self.position(key);
        if i < self.entries.len() {
            let (_, before) = self.entries.remove(i);
            assert(self@ =~= without(old(self)@, key.id()));
            Some(before)
        } else {
            None
        }
    }

    /// Takes out the entry at a place.
    pub fn remove_at(&mut self, i: usize)
        requires
            i < old(self)@.len(),
        ensures
            final(self)@ == old(self)@.remove(i as int),
    {
        let _ = self.entries.remove(i);
        assert(self@ =~= old(self)@.remove(i as int));
    }

    /// Takes out every entry.
    pub fn clear(&mut self)
        ensures
            final(self)@ == Seq::<(K::Id, V)>::empty(),
    {
        self.entries.clear();
        assert(self@ =~= Seq::<(K::Id, V)>::empty());
    }
}

/// The table that comes of putting entries one after the other.
pub open spec fn collect<I, V>(s: Seq<(I, V)>) -> Seq<(I, V)>
    decreases s.len(),
{
    if s.len() == 0 {
        s
    } else {
        put(collect(s.drop_last()), s.last().0, s.last().1)
    }
}

/// Entries with distinct keys come out as they went in.
pub proof fn lemma_collect_distinct<I, V>(s: Seq<(I, V)>)
    requires
        distinct(s),
    ensures
        collect(s) == s,
    decreases s.len(),
{
    if s.len() > 0 {
        let t = s.drop_last();
        assert(distinct(t)) by {
            assert forall|i: int, j: int| 0 <= i < j < t.len() implies (#[trigger] t[i]).0 != (
            #[trigger] t[j]).0 by {
                assert(s[i].0 != s[j].0);
            }
        }
        lemma_collect_distinct(t);
        assert forall|j: int| 0 <= j < t.len() implies (#[trigger] t[j]).0 != s.last().0 by {
            assert(s[j].0 != s[s.len() - 1].0);
        }
        lemma_find_is(t, s.last().0, t.len() as int);
        assert(t.push(s.last()) =~= s);
    }
}

/// A collected table has distinct keys.
pub proof fn lemma_collect<I, V>(s: Seq<(I, V)>)
    ensures
        distinct(collect(s)),
    decreases s.len(),
{
    if s.len() > 0 {
        lemma_collect(s.drop_last());
        lemma_put_distinct(collect(s.drop_last()), s.last().0, s.last().1);
    }
}

/// The views of the values of a table, each under its key.
pub open spec fn views<I, V: View>(s: Seq<(I, V)>) -> Seq<(I, V::V)> {
    Seq::new(s.len(), |i: int| (s[i].0, s[i].1@))
}

/// Looking up a view is looking up a value and viewing it.
pub broadcast proof fn lemma_views_lookup<I, V: View>(s: Seq<(I, V)>, k: I)
    ensures
        #![trigger find(views(s), k)]
        #![trigger lookup(views(s), k)]
        find(views(s), k) == find(s, k),
        lookup(views(s), k) == (match lookup(s, k) {
            Some(v) => Some(v@),
            None => None,
        }),
{
    lemma_find(s, k);
    lemma_find_is(views(s), k, find(s, k));
}

/// Putting a value and viewing commute.
pub broadcast proof fn lemma_views_put<I, V: View>(s: Seq<(I, V)>, k: I, v: V)
    ensures
        #[trigger] views(put(s, k, v)) == put(views(s), k, v@),
{
    lemma_views_lookup(s, k);
    lemma_find(s, k);
    assert(views(put(s, k, v)) =~= put(views(s), k, v@));
}

/// Removing a key and viewing commute.
pub broadcast proof fn lemma_views_without<I, V: View>(s: Seq<(I, V)>, k: I)
    ensures
        #[trigger] views(without(s, k)) == without(views(s), k),
{
    lemma_views_lookup(s, k);
    lemma_find(s, k);
    assert(views(without(s, k)) =~= without(views(s), k));
}

/// Changing the value at a place and viewing commute.
pub broadcast proof fn lemma_views_update<I, V: View>(s: Seq<(I, V)>, i: int, e: (I, V))
    requires
        0 <= i < s.len(),
    ensures
        #[trigger] views(s.update(i, e)) == views(s).update(i, (e.0, e.1@)),
{
    assert(views(s.update(i, e)) =~= views(s).update(i, (e.0, e.1@)));
}

/// Viewing no entries.
pub broadcast proof fn lemma_views_empty<I, V: View>(s: Seq<(I, V)>)
    requires
        s.len() == 0,
    ensures
        #[trigger] views(s) == Seq::<(I, V::V)>::empty(),
{
    assert(views(s) =~= Seq::empty());
}

/// Putting the value that is there changes nothing.
pub broadcast proof fn lemma_put_same<I, V>(s: Seq<(I, V)>, k: I, v: V)
    requires
        lookup(s, k) == Some(v),
    ensures
        #[trigger] put(s, k, v) == s,
{
    lemma_find(s, k);
    assert(put(s, k, v) =~= s);
}

/// How views go with the operations on tables.
pub broadcast group group_views {
    lemma_put_same,
    lemma_views_lookup,
    lemma_views_put,
    lemma_views_without,
    lemma_views_update,
    lemma_views_empty,
}

/// What the values of a table mean, each under its key.
pub open spec fn value_models<I, V: BinaryData>(s: Seq<(I, V)>) -> Seq<(I, V::Model)> {
    Seq::new(s.len(), |i: int| (s[i].0, s[i].1.model()))
}

/// Putting a value and taking what the values mean commute.
pub proof fn lemma_put_models<I, V: BinaryData>(s: Seq<(I, V)>, k: I, v: V)
    ensures
        value_models(put(s, k, v)) == put(value_models(s), k, v.model()),
{
    lemma_find(s, k);
    lemma_find_is(value_models(s), k, find(s, k));
    assert(value_models(put(s, k, v)) =~= put(value_models(s), k, v.model()));
}

impl<V: BinaryData> BinaryData for Table<i32, V> {
    type Model = Seq<(i32, V::Model)>;

    open spec fn model(&self) -> Seq<(i32, V::Model)> {
        value_models(self@)
    }

    open spec fn encodable(m: Seq<(i32, V::Model)>) -> bool {
        distinct(m) && <Vec<(i32, V)> as BinaryData>::encodable(m)
    }

    open spec fn bytes(m: Seq<(i32, V::Model)>) -> Seq<u8> {
        <Vec<(i32, V)> as BinaryData>::bytes(m)
    }

    open spec fn parse(b: Seq<u8>) -> Result<(Seq<(i32, V::Model)>, int), BinError> {
        match <Vec<(i32, V)> as BinaryData>::parse(b) {
            Ok((s, n)) => Ok((collect(s), n)),
            Err(e) => Err(e),
        }
    }

    fn read_binary(r: &mut BinaryReader<'_>) -> (res: Result<Self, BinError>) {
        let list: Vec<(i32, V)> = match <Vec<(i32, V)> as BinaryData>::read_binary(r) {
            Ok(list) => list,
            Err(e) => {
                return Err(e);
            },
        };
        let ghost all = list@;
        let ghost shown = bin::models(list@);
        let mut res: Self = Table::new();
        assert(shown.take(0) =~= Seq::empty());
        for e in iter: list
            invariant
                iter.seq() == all,
                shown == bin::models(all),
                value_models(res@) == collect(shown.take(iter.index() as int)),
        {
            proof {
                let done = iter.index() as int;
                lemma_put_models(res@, e.0, e.1);
                assert(shown.take(done + 1).drop_last() =~= shown.take(done));
                assert(shown.take(done + 1).last() == (e.0, e.1.model()));
            }
            let (k, v) = e;
            let _ = res.insert(k, v);
        }
        assert(shown.take(all.len() as int) =~= shown);
        Ok(res)
    }

    fn write_binary(&self, out: &mut Vec<u8>) {
        self.entries.write_binary(out);
        assert(bin::models(self.entries@) =~= value_models(self@));
    }

    proof fn lemma_round_trip(m: Seq<(i32, V::Model)>, rest: Seq<u8>) {
        <Vec<(i32, V)> as BinaryData>::lemma_round_trip(m, rest);
        lemma_collect_distinct(m);
    }

    proof fn lemma_parse_len(b: Seq<u8>) {
        <Vec<(i32, V)> as BinaryData>::lemma_parse_len(b);
    }
}

} // verus!
