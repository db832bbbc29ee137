use vstd::prelude::*;

use crate::ops::apply_error::ApplyError;
use crate::ops::dynamic_enum::{ApplyValue, value_views};
use crate::ops::dynamic_set::ValueEq;

verus! {

/// The map whose keys are `keys` and whose value at `keys[i]` is `vals[i]`.
pub open spec fn entries_map<A, B>(keys: Seq<A>, vals: Seq<B>) -> Map<A, B> {
    Map::new(|k: A| keys.contains(k), |k: A| vals[keys.index_of(k)])
}

/// Applying, entry by entry in order, the first `n` of `keys` and `vals` to the map
/// `m`: a value whose key `m` has is applied to `m`'s value there, any other is added;
/// it stops at the first error. The result and the map after.
pub open spec fn map_apply_fold<A, V: ApplyValue>(
    m: Map<A, V::V>,
    keys: Seq<A>,
    vals: Seq<V::V>,
    n: nat,
) -> (Result<(), ApplyError>, Map<A, V::V>)
    decreases n,
{
    if n == 0 {
        (Ok(()), m)
    } else {
        let (r, m1) = map_apply_fold::<A, V>(m, keys, vals, (n - 1) as nat);
        if r is Err {
            (r, m1)
        } else {
            let k = keys[n - 1];
            if m1.dom().contains(k) {
                let (r2, nv) = V::spec_apply(m1[k], vals[n - 1]);
                (r2, m1.insert(k, nv))
            } else {
                (Ok(()), m1.insert(k, vals[n - 1]))
            }
        }
    }
}

/// Whether two maps, given by their keys and values, hold the same number of entries
/// and each key of the first is a key of the second with the same value.
pub open spec fn spec_map_eq<A, B>(x: Map<A, B>, y: Map<A, B>) -> bool {
    &&& x.dom().len() == y.dom().len()
    &&& forall|k: A| #[trigger] x.dom().contains(k) ==> y.dom().contains(k) && x[k] == y[k]
}

/// In a sequence without repeats, the position of the value at `i` is `i`.
proof fn lemma_index_of_unique<A>(keys: Seq<A>, i: int)
    requires
        keys.no_duplicates(),
        0 <= i < keys.len(),
    ensures
        keys.index_of(keys[i]) == i,
{
    assert(keys.contains(keys[i]));
    let j = keys.index_of(keys[i]);
    assert(0 <= j < keys.len() && keys[j] == keys[i]);
}

/// Changing the value at `i` changes the map at `keys[i]` alone.
proof fn lemma_entries_update<A, B>(keys: Seq<A>, vals: Seq<B>, i: int, v: B)
    requires
        keys.no_duplicates(),
        keys.len() == vals.len(),
        0 <= i < keys.len(),
    ensures
        entries_map(keys, vals.update(i, v)) == entries_map(keys, vals).insert(keys[i], v),
{
    lemma_index_of_unique(keys, i);
    assert forall|k: A| keys.contains(k) implies entries_map(keys, vals.update(i, v))[k]
        == entries_map(keys, vals).insert(keys[i], v)[k] by {
        let j = keys.index_of(k);
        assert(0 <= j < keys.len() && keys[j] == k);
        lemma_index_of_unique(keys, j);
    }
    assert(entries_map(keys, vals.update(i, v)) =~= entries_map(keys, vals).insert(keys[i], v));
}

/// Adding a new key adds that entry to the map.
proof fn lemma_entries_push<A, B>(keys: Seq<A>, vals: Seq<B>, k: A, v: B)
    requires
        keys.no_duplicates(),
        keys.len() == vals.len(),
        !keys.contains(k),
    ensures
        keys.push(k).no_duplicates(),
        entries_map(keys.push(k), vals.push(v)) == entries_map(keys, vals).insert(k, v),
{
    let nk = keys.push(k);
    assert forall|a: int, b: int| 0 <= a < nk.len() && 0 <= b < nk.len() && a != b implies nk[a] != nk[b] by {
        if a == keys.len() {
            assert(keys[b] != k);
        } else if b == keys.len() {
            assert(keys[a] != k);
        }
    }
    assert(nk[keys.len() as int] == k);
    assert(nk.contains(k));
    lemma_index_of_unique(nk, keys.len() as int);
    assert forall|q: A| nk.contains(q) implies entries_map(nk, vals.push(v))[q] == entries_map(keys, vals).insert(k, v)[q] by {
        let j = nk.index_of(q);
        assert(0 <= j < nk.len() && nk[j] == q);
        if q != k {
            assert(j < keys.len());
            assert(keys.contains(q));
            let i = keys.index_of(q);
            assert(0 <= i < keys.len() && keys[i] == q);
            lemma_index_of_unique(nk, i);
            lemma_index_of_unique(nk, j);
        }
    }
    assert forall|q: A| nk.contains(q) <==> keys.contains(q) || q == k by {
        if nk.contains(q) {
            let j = choose|j: int| 0 <= j < nk.len() && nk[j] == q;
            if j < keys.len() {
                assert(keys[j] == q);
            }
        }
        if keys.contains(q) {
            let j = choose|j: int| 0 <= j < keys.len() && keys[j] == q;
            assert(nk[j] == q);
        }
    }
    assert(entries_map(nk, vals.push(v)) =~= entries_map(keys, vals).insert(k, v));
}

/// Taking out the entry at `i` takes `keys[i]` out of the map.
proof fn lemma_entries_remove<A, B>(keys: Seq<A>, vals: Seq<B>, i: int)
    requires
        keys.no_duplicates(),
        keys.len() == vals.len(),
        0 <= i < keys.len(),
    ensures
        keys.remove(i).no_duplicates(),
        entries_map(keys.remove(i), vals.remove(i)) == entries_map(keys, vals).remove(keys[i]),
{
    let nk = keys.remove(i);
    let nv = vals.remove(i);
    assert forall|a: int, b: int| 0 <= a < nk.len() && 0 <= b < nk.len() && a != b implies nk[a] != nk[b] by {
        let a2 = if a < i { a } else { a + 1 };
        let b2 = if b < i { b } else { b + 1 };
        assert(nk[a] == keys[a2] && nk[b] == keys[b2]);
    }
    assert forall|q: A| nk.contains(q) <==> keys.contains(q) && q != keys[i] by {
        if nk.contains(q) {
            let j = choose|j: int| 0 <= j < nk.len() && nk[j] == q;
            let j2 = if j < i { j } else { j + 1 };
            assert(keys[j2] == q);
        }
        if keys.contains(q) && q != keys[i] {
            let j = choose|j: int| 0 <= j < keys.len() && keys[j] == q;
            if j < i {
                assert(nk[j] == q);
            } else {
                assert(j != i);
                assert(nk[j - 1] == q);
            }
        }
    }
    assert forall|q: A| nk.contains(q) implies entries_map(nk, nv)[q] == entries_map(keys, vals).remove(keys[i])[q] by {
        let j = nk.index_of(q);
        assert(0 <= j < nk.len() && nk[j] == q);
        let j2 = if j < i { j } else { j + 1 };
        assert(keys[j2] == q);
        lemma_index_of_unique(keys, j2);
    }
    assert(entries_map(nk, nv) =~= entries_map(keys, vals).remove(keys[i]));
}

/// Once applying meets an error, further entries change nothing.
proof fn lemma_map_fold_rest<A, V: ApplyValue>(m: Map<A, V::V>, keys: Seq<A>, vals: Seq<V::V>, k: nat, n: nat)
    requires
        k <= n,
        map_apply_fold::<A, V>(m, keys, vals, k).0 is Err,
    ensures
        map_apply_fold::<A, V>(m, keys, vals, n) == map_apply_fold::<A, V>(m, keys, vals, k),
    decreases n,
{
    if k < n {
        lemma_map_fold_rest::<A, V>(m, keys, vals, k, (n - 1) as nat);
    }
}

/// When applying succeeds, every applied key has an entry afterwards.
proof fn lemma_map_fold_keys<A, V: ApplyValue>(m: Map<A, V::V>, keys: Seq<A>, vals: Seq<V::V>, n: nat)
    requires
        n <= keys.len(),
        map_apply_fold::<A, V>(m, keys, vals, n).0 is Ok,
    ensures
        forall|j: int| 0 <= j < n ==> map_apply_fold::<A, V>(m, keys, vals, n).1.dom().contains(#[trigger] keys[j]),
    decreases n,
{
    if n > 0 {
        let prev = map_apply_fold::<A, V>(m, keys, vals, (n - 1) as nat);
        assert(prev.0 is Ok);
        lemma_map_fold_keys::<A, V>(m, keys, vals, (n - 1) as nat);
    }
}

/// A map value held by value: its entries in the order they were added, each key
/// once.
#[derive(Debug)]
pub struct DynamicMap<K: View, V: View> {
    keys: Vec<K>,
    values: Vec<V>,
}

impl<K: View, V: View> DynamicMap<K, V> {
    /// Each key has a value and no key is held twice.
    #[verifier::type_invariant]
    spec fn entries_agree(&self) -> bool {
        &&& self.keys@.len() == self.values@.len()
        &&& value_views(self.keys@).no_duplicates()
    }

    /// The keys, in order.
    pub closed spec fn spec_keys(&self) -> Seq<K::V> {
        value_views(self.keys@)
    }

    /// The values, in the order of their keys.
    pub closed spec fn spec_vals(&self) -> Seq<V::V> {
        value_views(self.values@)
    }
}

impl<K: View, V: View> View for DynamicMap<K, V> {
    type V = Map<K::V, V::V>;

    closed spec fn view(&self) -> Map<K::V, V::V> {
        entries_map(self.spec_keys(), self.spec_vals())
    }
}

/// The position in `keys` of the key that is `key`.
fn key_position<K: ValueEq>(keys: &Vec<K>, key: &K) -> (r: Option<usize>)
    ensures
        match r {
            Some(i) => i < keys@.len() && keys@[i as int]@ == key@,
            None => !value_views(keys@).contains(key@),
        },
{
    let mut i: usize = 0;
    while i < keys.len()
        invariant
            i <= keys@.len(),
            forall|j: int| 0 <= j < i ==> keys@[j]@ != key@,
        decreases keys@.len() - i,
    {
        if keys[i].value_eq(key) {
            return Some(i);
        }
        i = i + 1;
    }
    proof {
        if value_views(keys@).contains(key@) {
            let j = choose|j: int| 0 <= j < value_views(keys@).len() && value_views(keys@)[j] == key@;
            assert(keys@[j]@ == key@);
        }
    }
    None
}

impl<K: ValueEq, V: View> DynamicMap<K, V> {
    /// A map with no entry.
    pub fn new() -> (r: Self)
        ensures
            r@ == Map::<K::V, V::V>::empty(),
    {
        let r = DynamicMap { keys: Vec::new(), values: Vec::new() };
        proof {
            assert(r@ =~= Map::<K::V, V::V>::empty());
        }
        r
    }

    /// The position of the entry of `key`.
    fn find(&self, key: &K) -> (r: Option<usize>)
        ensures
            match r {
                Some(i) => i < self.spec_keys().len() && self.spec_keys()[i as int] == key@
                    && self.spec_vals()[i as int] == self@[key@] && self@.dom().contains(key@),
                None => !self@.dom().contains(key@),
            },
    {
        proof {
            use_type_invariant(self);
        }
        let r = key_position(&self.keys, key);
        proof {
            if let Some(i) = r {
                assert(self.spec_keys()[i as int] == key@);
                lemma_index_of_unique(self.spec_keys(), i as int);
            }
        }
        r
    }

    /// No key is held twice, and each key has a value.
    pub fn wf(&self)
        ensures
            self.spec_keys().no_duplicates(),
            self.spec_keys().len() == self.spec_vals().len(),
    {
        proof {
            use_type_invariant(self);
        }
    }

    /// The value of `key`.
    pub fn get(&self, key: &K) -> (r: Option<&V>)
        ensures
            r is Some == self@.dom().contains(key@),
            r matches Some(v) ==> v@ == self@[key@],
    {
        proof {
            use_type_invariant(self);
        }
        match self.find(key) {
            Some(i) => {
                proof {
                    assert(self.spec_vals()[i as int] == self.values@[i as int]@);
                }
                Some(&self.values[i])
            },
            None => None,
        }
    }

    /// Whether `key` has an entry.
    pub fn contains_key(&self, key: &K) -> (r: bool)
        ensures
            r == self@.dom().contains(key@),
    {
        self.find(key).is_some()
    }

    /// The number of entries.
    pub fn len(&self) -> (r: usize)
        ensures
            r == self@.dom().len(),
    {
        proof {
            use_type_invariant(self);
            let ks = self.spec_keys();
            ks.unique_seq_to_set();
            assert(self@.dom() =~= ks.to_set());
        }
        self.keys.len()
    }

    /// Whether the map holds no entry.
    pub fn is_empty(&self) -> (r: bool)
        ensures
            r == (self@.dom().len() == 0),
    {
        self.len() == 0
    }

    /// Puts `value` as the value of `key`: in place of the value it had, which is
    /// given back, or as a new entry.
    pub fn insert(&mut self, key: K, value: V) -> (r: Option<V>)
        ensures
            final(self)@ == old(self)@.insert(key@, value@),
            r is Some == old(self)@.dom().contains(key@),
            r matches Some(v) ==> v@ == old(self)@[key@],
    {
        proof {
            use_type_invariant(&*self);
        }
        let ghost ks = self.spec_keys();
        let ghost vs = self.spec_vals();
        let ghost kv = key@;
        let ghost vv = value@;
        match self.find(&key) {
            Some(i) => {
                let mut this = DynamicMap::new();
                core::mem::swap(self, &mut this);
                proof {
                    use_type_invariant(&this);
                }
                let DynamicMap { keys, mut values } = this;
                let old_value = values.remove(i);
                values.insert(i, value);
                proof {
                    assert(value_views(values@) =~= vs.update(i as int, vv));
                    lemma_entries_update(ks, vs, i as int, vv);
                }
                *self = DynamicMap { keys, values };
                Some(old_value)
            },
            None => {
                let mut this = DynamicMap::new();
                core::mem::swap(self, &mut this);
                proof {
                    use_type_invariant(&this);
                }
                let DynamicMap { mut keys, mut values } = this;
                keys.push(key);
                values.push(value);
                proof {
                    assert(value_views(keys@) =~= ks.push(kv));
                    assert(value_views(values@) =~= vs.push(vv));
                    lemma_entries_push(ks, vs, kv, vv);
                }
                *self = DynamicMap { keys, values };
                None
            },
        }
    }

    /// Takes out the entry of `key`, giving back its value.
    pub fn remove(&mut self, key: &K) -> (r: Option<V>)
        ensures
            final(self)@ == old(self)@.remove(key@),
            r is Some == old(self)@.dom().contains(key@),
            r matches Some(v) ==> v@ == old(self)@[key@],
    {
        proof {
            use_type_invariant(&*self);
        }
        let ghost ks = self.spec_keys();
        let ghost vs = self.spec_vals();
        match self.find(key) {
            Some(i) => {
                let mut this = DynamicMap::new();
                core::mem::swap(self, &mut this);
                proof {
                    use_type_invariant(&this);
                }
                let DynamicMap { mut keys, mut values } = this;
                keys.remove(i);
                let v = values.remove(i);
                proof {
                    assert(value_views(keys@) =~= ks.remove(i as int));
                    assert(value_views(values@) =~= vs.remove(i as int));
                    lemma_entries_remove(ks, vs, i as int);
                }
                *self = DynamicMap { keys, values };
                Some(v)
            },
            None => {
                proof {
                    assert(self@.remove(key@) =~= self@);
                }
                None
            },
        }
    }
}

impl<K: ValueEq, V: ApplyValue + ValueEq> DynamicMap<K, V> {
    /// Applies the map `other` to this one: each entry of `other`, in order, is applied
    /// to this map's value of the same key, or added if this map has none, stopping at
    /// the first error; if none occurs, the entries whose keys `other` lacks are then
    /// taken out.
    pub fn try_apply(&mut self, other: &DynamicMap<K, V>) -> (r: Result<(), ApplyError>)
        ensures
            ({
                let (res, m) = map_apply_fold::<K::V, V>(
                    old(self)@,
                    other.spec_keys(),
                    other.spec_vals(),
                    other.spec_keys().len(),
                );
                &&& r == res
                &&& final(self)@ == if res is Ok { m.restrict(other@.dom()) } else { m }
            }),
            r is Ok ==> final(self)@.dom() == other@.dom(),
    {
        proof {
            use_type_invariant(other);
        }
        let ghost ok = other.spec_keys();
        let ghost ov = other.spec_vals();
        let ghost m0 = self@;
        let mut this = DynamicMap::new();
        core::mem::swap(self, &mut this);
        proof {
            use_type_invariant(&this);
        }
        let DynamicMap { mut keys, mut values } = this;
        let mut j: usize = 0;
        while j < other.keys.len()
            invariant
                j <= other.keys@.len(),
                other.keys@.len() == other.values@.len(),
                ok == other.spec_keys(),
                ov == other.spec_vals(),
                ok.len() == other.keys@.len(),
                ov.len() == other.values@.len(),
                m0 == old(self)@,
                keys@.len() == values@.len(),
                value_views(keys@).no_duplicates(),
                map_apply_fold::<K::V, V>(m0, ok, ov, j as nat) == (
                    Ok::<(), ApplyError>(()),
                    entries_map(value_views(keys@), value_views(values@)),
                ),
            decreases other.keys@.len() - j,
        {
            let ghost ks = value_views(keys@);
            let ghost vs = value_views(values@);
            proof {
                assert(ok[j as int] == other.keys@[j as int]@);
                assert(ov[j as int] == other.values@[j as int]@);
            }
            match key_position(&keys, &other.keys[j]) {
                Some(i) => {
                    let r = values[i].try_apply(&other.values[j]);
                    proof {
                        let (r1, nv) = V::spec_apply(vs[i as int], ov[j as int]);
                        assert(r1 == r);
                        assert(value_views(values@) =~= vs.update(i as int, nv));
                        assert(ks[i as int] == ok[j as int]);
                        assert(ks.contains(ks[i as int]));
                        lemma_index_of_unique(ks, i as int);
                        lemma_entries_update(ks, vs, i as int, nv);
                        assert(value_views(keys@) == ks);
                    }
                    match r {
                        Err(e) => {
                            proof {
                                lemma_map_fold_rest::<K::V, V>(m0, ok, ov, (j + 1) as nat, ok.len());
                            }
                            *self = DynamicMap { keys, values };
                            return Err(e);
                        },
                        Ok(u) => {
                            proof {
                                assert(u == ());
                            }
                        },
                    }
                },
                None => {
                    let k = other.keys[j].copy_value();
                    let v = other.values[j].copy_value();
                    keys.push(k);
                    values.push(v);
                    proof {
                        assert(value_views(keys@) =~= ks.push(ok[j as int]));
                        assert(value_views(values@) =~= vs.push(ov[j as int]));
                        lemma_entries_push(ks, vs, ok[j as int], ov[j as int]);
                    }
                },
            }
            j = j + 1;
        }
        let ghost ks = value_views(keys@);
        let ghost m = entries_map(ks, value_views(values@));
        let ghost od = other@.dom();
        let mut nk: Vec<K> = Vec::new();
        let mut nv: Vec<V> = Vec::new();
        proof {
            assert(entries_map(value_views(nk@), value_views(nv@)) =~= Map::new(
                |q: K::V| ks.take(0).contains(q) && od.contains(q),
                |q: K::V| m[q],
            ));
        }
        let mut i: usize = 0;
        while i < keys.len()
            invariant
                i <= keys@.len(),
                keys@.len() == values@.len(),
                ks == value_views(keys@),
                ks.no_duplicates(),
                m == entries_map(ks, value_views(values@)),
                od == other@.dom(),
                nk@.len() == nv@.len(),
                value_views(nk@).no_duplicates(),
                forall|q: K::V| value_views(nk@).contains(q) ==> ks.take(i as int).contains(q),
                entries_map(value_views(nk@), value_views(nv@)) == Map::new(
                    |q: K::V| ks.take(i as int).contains(q) && od.contains(q),
                    |q: K::V| m[q],
                ),
            decreases keys@.len() - i,
        {
            let ghost pk = value_views(nk@);
            let ghost pv = value_views(nv@);
            let ghost ki = ks[i as int];
            proof {
                assert(ks.take(i as int + 1) =~= ks.take(i as int).push(ki));
                let t0 = ks.take(i as int);
                if t0.contains(ki) {
                    let q = choose|q: int| 0 <= q < t0.len() && t0[q] == ki;
                    assert(ks[q] == ki);
                }
                assert(ks.contains(ki));
                lemma_index_of_unique(ks, i as int);
                assert(m[ki] == value_views(values@)[i as int]);
                let t1 = ks.take(i as int + 1);
                assert forall|q: K::V| t1.contains(q) <==> t0.contains(q) || q == ki by {
                    if t1.contains(q) {
                        let w = choose|w: int| 0 <= w < t1.len() && t1[w] == q;
                        if w < i {
                            assert(t0[w] == q);
                        }
                    }
                    if t0.contains(q) {
                        let w = choose|w: int| 0 <= w < t0.len() && t0[w] == q;
                        assert(t1[w] == q);
                    }
                    if q == ki {
                        assert(t1[i as int] == q);
                    }
                }
            }
            if other.contains_key(&keys[i]) {
                let k = keys[i].copy_value();
                let v = values[i].copy_value();
                nk.push(k);
                nv.push(v);
                proof {
                    assert(value_views(nk@) =~= pk.push(ki));
                    assert(value_views(nv@) =~= pv.push(value_views(values@)[i as int]));
                    lemma_entries_push(pk, pv, ki, value_views(values@)[i as int]);
                    assert(entries_map(value_views(nk@), value_views(nv@)) =~= Map::new(
                        |q: K::V| ks.take(i as int + 1).contains(q) && od.contains(q),
                        |q: K::V| m[q],
                    ));
                    assert forall|q: K::V| value_views(nk@).contains(q) implies ks.take(i as int + 1).contains(q) by {
                        if q != ki {
                            assert(pk.push(ki).contains(q));
                            let w = choose|w: int| 0 <= w < pk.len() + 1 && pk.push(ki)[w] == q;
                            assert(pk[w] == q);
                        }
                    }
                }
            } else {
                proof {
                    assert(entries_map(value_views(nk@), value_views(nv@)) =~= Map::new(
                        |q: K::V| ks.take(i as int + 1).contains(q) && od.contains(q),
                        |q: K::V| m[q],
                    ));
                }
            }
            i = i + 1;
        }
        proof {
            assert(ks.take(keys@.len() as int) =~= ks);
            assert(entries_map(value_views(nk@), value_views(nv@)) =~= m.restrict(od));
            lemma_map_fold_keys::<K::V, V>(m0, ok, ov, ok.len());
            assert forall|q: K::V| od.contains(q) implies m.dom().contains(q) by {
                let w = choose|w: int| 0 <= w < ok.len() && ok[w] == q;
                assert(m.dom().contains(ok[w]));
            }
            assert(m.restrict(od).dom() =~= od);
        }
        *self = DynamicMap { keys: nk, values: nv };
        Ok(())
    }
}

impl<K: ValueEq, V: ValueEq> DynamicMap<K, V> {
    /// Compares this map with `other`: equal exactly when both hold as many entries
    /// and each key here has an entry in `other` with the same value.
    pub fn reflect_partial_eq(&self, other: &DynamicMap<K, V>) -> (r: Option<bool>)
        ensures
            r == Some(spec_map_eq(self@, other@)),
    {
        proof {
            use_type_invariant(self);
            use_type_invariant(other);
        }
        if self.len() != other.len() {
            return Some(false);
        }
        let ghost ks = self.spec_keys();
        let mut i: usize = 0;
        while i < self.keys.len()
            invariant
                i <= self.keys@.len(),
                self.keys@.len() == self.values@.len(),
                other.keys@.len() == other.values@.len(),
                ks == self.spec_keys(),
                ks.no_duplicates(),
                self@.dom().len() == other@.dom().len(),
                forall|q: int| 0 <= q < i ==> other@.dom().contains(#[trigger] ks[q]) && self@[ks[q]] == other@[ks[q]],
            decreases self.keys@.len() - i,
        {
            proof {
                assert(ks[i as int] == self.keys@[i as int]@);
                assert(ks.contains(ks[i as int]));
                lemma_index_of_unique(ks, i as int);
                assert(self@[ks[i as int]] == self.values@[i as int]@);
                assert(self@.dom().contains(ks[i as int]));
            }
            match other.find(&self.keys[i]) {
                Some(j) => {
                    proof {
                        assert(other.spec_vals()[j as int] == other.values@[j as int]@);
                    }
                    if !self.values[i].value_eq(&other.values[j]) {
                        return Some(false);
                    }
                },
                None => {
                    return Some(false);
                },
            }
            i = i + 1;
        }
        proof {
            assert forall|k: K::V| #[trigger] self@.dom().contains(k) implies other@.dom().contains(k) && self@[k] == other@[k] by {
                let q = ks.index_of(k);
                assert(0 <= q < ks.len() && ks[q] == k);
            }
        }
        Some(true)
    }
}

/// The keys of a map built from a sequence of keys are the keys of the sequence.
pub proof fn lemma_entries_dom<A, B>(keys: Seq<A>, vals: Seq<B>)
    ensures
        entries_map(keys, vals).dom() == keys.to_set(),
        entries_map(keys, vals).dom().finite(),
{
    assert(entries_map(keys, vals).dom() =~= keys.to_set());
    vstd::seq_lib::seq_to_set_is_finite(keys);
}

/// Two maps with finitely many entries compare equal exactly when they are the same
/// map: the same keys, each with the same value.
pub proof fn law_map_eq_is_equality<A, B>(x: Map<A, B>, y: Map<A, B>)
    requires
        x.dom().finite(),
        y.dom().finite(),
    ensures
        spec_map_eq(x, y) <==> x == y,
{
    if spec_map_eq(x, y) {
        assert(x.dom().subset_of(y.dom()));
        vstd::set_lib::lemma_subset_equality(x.dom(), y.dom());
        assert(x =~= y);
    }
}

/// Two map values compare equal exactly when they hold the same entries.
pub proof fn law_map_values_eq<K: View, V: View>(x: &DynamicMap<K, V>, y: &DynamicMap<K, V>)
    ensures
        spec_map_eq(x@, y@) <==> x@ == y@,
{
    lemma_entries_dom(x.spec_keys(), x.spec_vals());
    lemma_entries_dom(y.spec_keys(), y.spec_vals());
    law_map_eq_is_equality(x@, y@);
}

/// Where applying a value makes the target equal to it, applying the first `n`
/// entries never fails and gives the map with those entries put in.
proof fn lemma_map_fold_replaces<A, V: ApplyValue>(m: Map<A, V::V>, keys: Seq<A>, vals: Seq<V::V>, n: nat)
    requires
        forall|t: V::V, v: V::V| #[trigger] V::spec_apply(t, v) == (Ok::<(), ApplyError>(()), v),
        keys.no_duplicates(),
        keys.len() == vals.len(),
        n <= keys.len(),
    ensures
        map_apply_fold::<A, V>(m, keys, vals, n) == (
            Ok::<(), ApplyError>(()),
            m.union_prefer_right(entries_map(keys.take(n as int), vals.take(n as int))),
        ),
    decreases n,
{
    if n == 0 {
        assert(entries_map(keys.take(0), vals.take(0)) =~= Map::<A, V::V>::empty());
        assert(m.union_prefer_right(Map::<A, V::V>::empty()) =~= m);
    } else {
        let k = (n - 1) as nat;
        lemma_map_fold_replaces::<A, V>(m, keys, vals, k);
        let ks = keys.take(k as int);
        let vs = vals.take(k as int);
        let key = keys[k as int];
        let v = vals[k as int];
        assert(keys.take(n as int) =~= ks.push(key));
        assert(vals.take(n as int) =~= vs.push(v));
        assert(ks.no_duplicates());
        assert(!ks.contains(key)) by {
            if ks.contains(key) {
                let w = choose|w: int| 0 <= w < ks.len() && ks[w] == key;
                assert(keys[w] == keys[k as int]);
            }
        }
        lemma_entries_push(ks, vs, key, v);
        let prev = m.union_prefer_right(entries_map(ks, vs));
        if prev.dom().contains(key) {
            assert(V::spec_apply(prev[key], v) == (Ok::<(), ApplyError>(()), v));
        }
        assert(prev.insert(key, v) =~= m.union_prefer_right(entries_map(ks, vs).insert(key, v)));
    }
}

/// Where applying a value makes the target equal to it, applying a map value never
/// fails, and once the keys that the applied value lacks are taken out, the map is
/// the applied one.
pub proof fn law_map_apply_replaces<K: View, V: ApplyValue + View>(x: &DynamicMap<K, V>, other: &DynamicMap<K, V>)
    requires
        forall|t: V::V, v: V::V| #[trigger] V::spec_apply(t, v) == (Ok::<(), ApplyError>(()), v),
        other.spec_keys().no_duplicates(),
        other.spec_keys().len() == other.spec_vals().len(),
    ensures
        map_apply_fold::<K::V, V>(x@, other.spec_keys(), other.spec_vals(), other.spec_keys().len()).0 is Ok,
        map_apply_fold::<K::V, V>(x@, other.spec_keys(), other.spec_vals(), other.spec_keys().len()).1.restrict(
            other@.dom(),
        ) == other@,
{
    let ks = other.spec_keys();
    let vs = other.spec_vals();
    lemma_map_fold_replaces::<K::V, V>(x@, ks, vs, ks.len());
    assert(ks.take(ks.len() as int) =~= ks);
    assert(vs.take(ks.len() as int) =~= vs);
    let e = entries_map(ks, vs);
    assert(x@.union_prefer_right(e).restrict(e.dom()) =~= e);
}

} // verus!
