use vstd::prelude::*;

use crate::ops::apply_error::ApplyError;
use crate::text::str_eq;

verus! {

/// Values that can tell whether they are the same value, as their views say.
pub trait ValueEq: View + Sized {
    /// Whether `self` and `other` are the same value.
    fn value_eq(&self, other: &Self) -> (r: bool)
        ensures
            r == (self@ == other@),
    ;

    /// A copy of `self`: the same value.
    fn copy_value(&self) -> (r: Self)
        ensures
            r@ == self@,
    ;
}

/// A copy of the bytes.
pub(crate) fn copy_bytes(v: &Vec<u8>) -> (r: Vec<u8>)
    ensures
        r@ == v@,
{
    let mut out: Vec<u8> = Vec::new();
    let mut i: usize = 0;
    while i < v.len()
        invariant
            i <= v@.len(),
            out@ == v@.take(i as int),
        decreases v@.len() - i,
    {
        out.push(v[i]);
        proof {
            assert(v@.take(i + 1) =~= v@.take(i as int).push(v@[i as int]));
        }
        i = i + 1;
    }
    proof {
        assert(v@.take(v@.len() as int) =~= v@);
    }
    out
}

/// Whether the bytes are the same.
pub(crate) fn same_bytes(a: &Vec<u8>, b: &Vec<u8>) -> (r: bool)
    ensures
        r == (a@ == b@),
{
    if a.len() != b.len() {
        return false;
    }
    let mut i: usize = 0;
    while i < a.len()
        invariant
            i <= a@.len(),
            a@.len() == b@.len(),
            forall|k: int| 0 <= k < i ==> a@[k] == b@[k],
        decreases a@.len() - i,
    {
        if a[i] != b[i] {
            return false;
        }
        i = i + 1;
    }
    proof {
        assert(a@ =~= b@);
    }
    true
}

impl ValueEq for Vec<u8> {
    fn value_eq(&self, other: &Self) -> (r: bool) {
        same_bytes(self, other)
    }

    fn copy_value(&self) -> (r: Self) {
        copy_bytes(self)
    }
}

impl ValueEq for String {
    fn value_eq(&self, other: &Self) -> (r: bool) {
        str_eq(self.as_str(), other.as_str())
    }

    fn copy_value(&self) -> (r: Self) {
        self.clone()
    }
}

impl ValueEq for u8 {
    fn value_eq(&self, other: &Self) -> (r: bool) {
        *self == *other
    }

    fn copy_value(&self) -> (r: Self) {
        *self
    }
}

impl ValueEq for u16 {
    fn value_eq(&self, other: &Self) -> (r: bool) {
        *self == *other
    }

    fn copy_value(&self) -> (r: Self) {
        *self
    }
}

impl ValueEq for u32 {
    fn value_eq(&self, other: &Self) -> (r: bool) {
        *self == *other
    }

    fn copy_value(&self) -> (r: Self) {
        *self
    }
}

impl ValueEq for u64 {
    fn value_eq(&self, other: &Self) -> (r: bool) {
        *self == *other
    }

    fn copy_value(&self) -> (r: Self) {
        *self
    }
}

impl ValueEq for usize {
    fn value_eq(&self, other: &Self) -> (r: bool) {
        *self == *other
    }

    fn copy_value(&self) -> (r: Self) {
        *self
    }
}

impl ValueEq for i32 {
    fn value_eq(&self, other: &Self) -> (r: bool) {
        *self == *other
    }

    fn copy_value(&self) -> (r: Self) {
        *self
    }
}

impl ValueEq for i64 {
    fn value_eq(&self, other: &Self) -> (r: bool) {
        *self == *other
    }

    fn copy_value(&self) -> (r: Self) {
        *self
    }
}

/// The views of a sequence of values.
pub open spec fn views_of<V: View>(s: Seq<V>) -> Seq<V::V> {
    s.map_values(|v: V| v@)
}

/// The set of the items of a sequence is finite.
proof fn lemma_view_finite<A>(s: Seq<A>)
    ensures
        s.to_set().finite(),
{
    vstd::seq_lib::seq_to_set_is_finite(s);
}

/// A set of values, each held once: inserting a value that the set holds already
/// replaces it.
pub struct DynamicSet<V: ValueEq> {
    values: Vec<V>,
}

impl<V: ValueEq> View for DynamicSet<V> {
    type V = Set<V::V>;

    closed spec fn view(&self) -> Set<V::V> {
        views_of(self.values@).to_set()
    }
}

impl<V: ValueEq> DynamicSet<V> {
    /// No value is held twice.
    #[verifier::type_invariant]
    spec fn held_once(&self) -> bool {
        views_of(self.values@).no_duplicates()
    }

    /// The set of held values is finite.
    pub proof fn lemma_finite(&self)
        ensures
            self@.finite(),
    {
        lemma_view_finite(views_of(self.values@));
    }

    /// An empty set.
    pub fn new() -> (r: Self)
        ensures
            r@ == Set::<V::V>::empty(),
            r@.finite(),
    {
        let r = DynamicSet { values: Vec::new() };
        proof {
            assert(r@ =~= Set::<V::V>::empty());
        }
        r
    }

    /// The position of the value that is `value`.
    fn find(&self, value: &V) -> (r: Option<usize>)
        ensures
            match r {
                Some(i) => i < self.values@.len() && self.values@[i as int]@ == value@,
                None => !self@.contains(value@),
            },
    {
        let mut i: usize = 0;
        while i < self.values.len()
            invariant
                i <= self.values@.len(),
                forall|j: int| 0 <= j < i ==> self.values@[j]@ != value@,
            decreases self.values@.len() - i,
        {
            if self.values[i].value_eq(value) {
                return Some(i);
            }
            i = i + 1;
        }
        proof {
            if self@.contains(value@) {
                let j = choose|j: int| 0 <= j < views_of(self.values@).len() && views_of(self.values@)[j] == value@;
                assert(self.values@[j]@ == value@);
            }
        }
        None
    }

    /// Whether the set holds `value`.
    pub fn contains(&self, value: &V) -> (r: bool)
        ensures
            r == self@.contains(value@),
    {
        let r = self.find(value);
        proof {
            if let Some(i) = r {
                assert(views_of(self.values@)[i as int] == value@);
            }
        }
        r.is_some()
    }

    /// The held value that is `value`.
    pub fn get(&self, value: &V) -> (r: Option<&V>)
        ensures
            r matches Some(v) ==> v@ == value@,
            r is Some == self@.contains(value@),
    {
        match self.find(value) {
            Some(i) => {
                proof {
                    assert(views_of(self.values@)[i as int] == value@);
                }
                Some(&self.values[i])
            },
            None => None,
        }
    }

    /// The number of values held.
    pub fn len(&self) -> (r: usize)
        ensures
            r == self@.len(),
    {
        proof {
            use_type_invariant(self);
            views_of(self.values@).unique_seq_to_set();
        }
        self.values.len()
    }

    /// Whether the set holds no value.
    pub fn is_empty(&self) -> (r: bool)
        ensures
            r == (self@.len() == 0),
    {
        self.len() == 0
    }

    /// Inserts `value`, in place of the held value that is the same, if any; returns
    /// whether the set did not hold it.
    pub fn insert(&mut self, value: V) -> (r: bool)
        ensures
            r == !old(self)@.contains(value@),
            final(self)@ == old(self)@.insert(value@),
            final(self)@.finite(),
            final(self)@.len() == old(self)@.len() + if r { 1int } else { 0int },
    {
        proof {
            use_type_invariant(&*self);
        }
        let ghost old_views = views_of(self.values@);
        match self.find(&value) {
            Some(i) => {
                proof {
                    assert(old_views[i as int] == value@);
                }
                let mut values = Vec::new();
                core::mem::swap(&mut values, &mut self.values);
                values.set(i, value);
                proof {
                    assert(views_of(values@) =~= old_views);
                    assert(old_views.to_set().insert(value@) =~= old_views.to_set());
                }
                self.values = values;
                proof {
                    lemma_view_finite(old_views);
                }
                false
            },
            None => {
                let mut values = Vec::new();
                core::mem::swap(&mut values, &mut self.values);
                let ghost v_view = value@;
                values.push(value);
                proof {
                    assert(views_of(values@) =~= old_views.push(v_view));
                    assert(!old_views.contains(v_view));
                    old_views.lemma_push_to_set_commute(v_view);
                    assert forall|a: int, b: int| 0 <= a < b < old_views.len() + 1 implies old_views.push(v_view)[a]
                        != old_views.push(v_view)[b] by {
                        if b == old_views.len() {
                            assert(old_views.push(v_view)[a] == old_views[a]);
                        }
                    }
                }
                self.values = values;
                proof {
                    lemma_view_finite(old_views);
                }
                true
            },
        }
    }

    /// Removes the held value that is `value`; returns `true` if the set did not hold
    /// it and `false` if it did.
    pub fn remove(&mut self, value: &V) -> (r: bool)
        ensures
            r == !old(self)@.contains(value@),
            final(self)@.finite(),
            final(self)@.len() == old(self)@.len() - if r { 0int } else { 1int },
            final(self)@ == old(self)@.remove(value@),
    {
        proof {
            use_type_invariant(&*self);
        }
        let ghost old_views = views_of(self.values@);
        match self.find(value) {
            Some(i) => {
                proof {
                    assert(old_views[i as int] == value@);
                }
                let mut values = Vec::new();
                core::mem::swap(&mut values, &mut self.values);
                values.remove(i);
                proof {
                    let nv = views_of(values@);
                    assert(nv =~= old_views.remove(i as int));
                    assert forall|x: V::V| nv.contains(x) <==> old_views.contains(x) && x != value@ by {
                        if nv.contains(x) {
                            let k = choose|k: int| 0 <= k < nv.len() && nv[k] == x;
                            if k < i {
                                assert(old_views[k] == x);
                                assert(x != value@);
                            } else {
                                assert(old_views[k + 1] == x);
                                assert(x != value@);
                            }
                        }
                        if old_views.contains(x) && x != value@ {
                            let k = choose|k: int| 0 <= k < old_views.len() && old_views[k] == x;
                            assert(k != i);
                            if k < i {
                                assert(nv[k] == x);
                            } else {
                                assert(nv[k - 1] == x);
                            }
                        }
                    }
                    assert(nv.to_set() =~= old_views.to_set().remove(value@));
                    assert forall|a: int, b: int| 0 <= a < b < nv.len() implies nv[a] != nv[b] by {
                        let a2 = if a < i { a } else { a + 1 };
                        let b2 = if b < i { b } else { b + 1 };
                        assert(nv[a] == old_views[a2]);
                        assert(nv[b] == old_views[b2]);
                    }
                }
                self.values = values;
                proof {
                    lemma_view_finite(views_of(self.values@));
                    lemma_view_finite(old_views);
                }
                false
            },
            None => {
                proof {
                    assert(old_views.to_set().remove(value@) =~= old_views.to_set());
                    lemma_view_finite(old_views);
                }
                true
            },
        }
    }

    /// Applies the set `other` to this one: each value of `other` is applied to the
    /// same value here, values that only `other` holds are copied in and values that
    /// `other` does not hold are removed, so that this set holds what `other` holds.
    pub fn try_apply(&mut self, other: &DynamicSet<V>) -> (r: Result<(), ApplyError>)
        ensures
            r is Ok,
            final(self)@ == other@,
    {
        proof {
            use_type_invariant(other);
        }
        let mut values: Vec<V> = Vec::new();
        let mut i: usize = 0;
        while i < other.values.len()
            invariant
                i <= other.values@.len(),
                views_of(other.values@).no_duplicates(),
                views_of(values@) == views_of(other.values@).take(i as int),
            decreases other.values@.len() - i,
        {
            let c = other.values[i].copy_value();
            let ghost before = values@;
            values.push(c);
            proof {
                assert(views_of(values@) =~= views_of(before).push(c@));
                assert(views_of(other.values@).take(i + 1) =~= views_of(other.values@).take(i as int).push(views_of(other.values@)[i as int]));
            }
            i = i + 1;
        }
        proof {
            assert(views_of(other.values@).take(i as int) =~= views_of(other.values@));
        }
        self.values = values;
        Ok(())
    }
}

} // verus!