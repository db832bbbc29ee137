use vstd::prelude::*;

use crate::info::TypeInfo;
use crate::ops::apply_error::ApplyError;
use crate::ops::dynamic_enum::{ApplyValue, apply_fold, lemma_fold_stops, value_views};
use crate::ops::dynamic_set::ValueEq;

verus! {

/// The pairs of a list applied to a list: each of the first `n` positions to itself.
pub open spec fn same_positions(n: nat) -> Seq<(usize, usize)> {
    Seq::new(n, |k: int| (k as usize, k as usize))
}

/// The sequence `views` with its first `n` items taken from `source`.
pub open spec fn replace_prefix<A>(views: Seq<A>, source: Seq<A>, n: nat) -> Seq<A> {
    Seq::new(views.len(), |k: int| if k < n { source[k] } else { views[k] })
}

/// Where applying a value makes the target equal to it, applying the first `n` values
/// of `source` position by position never fails, leaves those positions holding
/// `source`'s values and every other position as it was.
pub proof fn law_positions_apply_replaces<V: ApplyValue>(views: Seq<V::V>, source: Seq<V::V>, n: nat)
    requires
        forall|t: V::V, v: V::V| #[trigger] V::spec_apply(t, v) == (Ok::<(), ApplyError>(()), v),
        n <= views.len(),
        n <= source.len(),
        n <= usize::MAX,
    ensures
        apply_fold::<V>(views, source, same_positions(n)) == (Ok::<(), ApplyError>(()), replace_prefix(views, source, n)),
    decreases n,
{
    if n == 0 {
        assert(replace_prefix(views, source, n) =~= views);
    } else {
        let k = (n - 1) as nat;
        law_positions_apply_replaces::<V>(views, source, k);
        assert(same_positions(n).drop_last() =~= same_positions(k));
        assert(same_positions(n).last() == (k as usize, k as usize));
        let prev = replace_prefix(views, source, k);
        assert(V::spec_apply(prev[k as int], source[k as int]) == (Ok::<(), ApplyError>(()), source[k as int]));
        assert(prev.update(k as int, source[k as int]) =~= replace_prefix(views, source, n));
    }
}

/// A list of values held by value.
#[derive(Debug)]
pub struct DynamicList<V> {
    type_info: Option<&'static TypeInfo>,
    values: Vec<V>,
}

impl<V> View for DynamicList<V> {
    type V = Seq<V>;

    closed spec fn view(&self) -> Seq<V> {
        self.values@
    }
}

impl<V> DynamicList<V> {
    /// The type information of the list type this value stands for.
    pub closed spec fn spec_type_info(&self) -> Option<&'static TypeInfo> {
        self.type_info
    }

    /// An empty list that stands for no type in particular.
    pub fn new() -> (r: Self)
        ensures
            r@ == Seq::<V>::empty(),
            r.spec_type_info() is None,
    {
        DynamicList { type_info: None, values: Vec::new() }
    }

    /// Sets the type information of the list type this value stands for: that of a
    /// list, or none.
    pub fn set_type_info(&mut self, list_info: Option<&'static TypeInfo>)
        requires
            list_info matches Some(info) ==> *info is List,
        ensures
            final(self).spec_type_info() == list_info,
            final(self)@ == old(self)@,
    {
        self.type_info = list_info;
    }

    /// The type information of the list type this value stands for.
    pub fn represented_type_info(&self) -> (r: Option<&'static TypeInfo>)
        ensures
            r == self.spec_type_info(),
    {
        self.type_info
    }

    /// Appends `value`.
    pub fn push(&mut self, value: V)
        ensures
            final(self)@ == old(self)@.push(value),
            final(self).spec_type_info() == old(self).spec_type_info(),
    {
        self.values.push(value);
    }

    /// Takes out the last value.
    pub fn pop(&mut self) -> (r: Option<V>)
        ensures
            if old(self)@.len() == 0 {
                r is None && final(self)@ == old(self)@
            } else {
                r == Some(old(self)@.last()) && final(self)@ == old(self)@.drop_last()
            },
            final(self).spec_type_info() == old(self).spec_type_info(),
    {
        self.values.pop()
    }

    /// Puts `value` at position `index`, moving later values back.
    pub fn insert(&mut self, index: usize, value: V)
        requires
            index <= old(self)@.len(),
        ensures
            final(self)@ == old(self)@.insert(index as int, value),
            final(self).spec_type_info() == old(self).spec_type_info(),
    {
        self.values.insert(index, value);
    }

    /// Takes out the value at position `index`, moving later values forward.
    pub fn remove(&mut self, index: usize) -> (r: V)
        requires
            index < old(self)@.len(),
        ensures
            r == old(self)@[index as int],
            final(self)@ == old(self)@.remove(index as int),
            final(self).spec_type_info() == old(self).spec_type_info(),
    {
        self.values.remove(index)
    }

    /// The value at position `index`.
    pub fn get(&self, index: usize) -> (r: Option<&V>)
        ensures
            if index < self@.len() {
                r == Some(&self@[index as int])
            } else {
                r is None
            },
    {
        if index < self.values.len() {
            Some(&self.values[index])
        } else {
            None
        }
    }

    /// The number of values.
    pub fn len(&self) -> (r: usize)
        ensures
            r == self@.len(),
    {
        self.values.len()
    }

    /// Whether the list holds no value.
    pub fn is_empty(&self) -> (r: bool)
        ensures
            r == (self@.len() == 0),
    {
        self.values.len() == 0
    }

    /// Takes out all values, in order, leaving the list empty.
    pub fn drain(&mut self) -> (r: Vec<V>)
        ensures
            r@ == old(self)@,
            final(self)@ == Seq::<V>::empty(),
            final(self).spec_type_info() == old(self).spec_type_info(),
    {
        let mut out: Vec<V> = Vec::new();
        core::mem::swap(&mut out, &mut self.values);
        out
    }
}

impl<V: ApplyValue + ValueEq> DynamicList<V> {
    /// Applies the list `other` to this one: each value of `other` to the value at the
    /// same position, for as many as this list holds, stopping at the first error;
    /// if none occurs, copies of `other`'s further values (the same values) are
    /// appended.
    pub fn try_apply(&mut self, other: &DynamicList<V>) -> (r: Result<(), ApplyError>)
        ensures
            ({
                let n = if other@.len() <= old(self)@.len() { other@.len() } else { old(self)@.len() };
                let (res, after) = apply_fold::<V>(value_views(old(self)@), value_views(other@), same_positions(n));
                &&& r == res
                &&& value_views(final(self)@).take(old(self)@.len() as int) == after
                &&& final(self)@.len() == if res is Ok && other@.len() > old(self)@.len() {
                    other@.len()
                } else {
                    old(self)@.len()
                }
                &&& forall|k: int| old(self)@.len() <= k < final(self)@.len() ==> (#[trigger] final(self)@[k])@ == other@[k]@
            }),
            final(self).spec_type_info() == old(self).spec_type_info(),
    {
        let ghost before = value_views(self.values@);
        let ghost src = value_views(other.values@);
        let ghost old_len = self.values@.len();
        let n: usize = if other.values.len() <= self.values.len() { other.values.len() } else { self.values.len() };
        let mut k: usize = 0;
        while k < n
            invariant
                k <= n,
                before == value_views(old(self).values@),
                old_len == old(self).values@.len(),
                self.type_info == old(self).type_info,
                n == (if other.values@.len() <= old_len { other.values@.len() } else { old_len }),
                n <= self.values@.len(),
                n <= other.values@.len(),
                self.values@.len() == old_len,
                before.len() == old_len,
                src == value_views(other.values@),
                apply_fold::<V>(before, src, same_positions(n as nat).take(k as int)) == (
                    Ok::<(), ApplyError>(()),
                    value_views(self.values@),
                ),
            decreases n - k,
        {
            let ghost cur = value_views(self.values@);
            let r = self.values[k].try_apply(&other.values[k]);
            proof {
                let next = same_positions(n as nat).take(k + 1);
                assert(next.drop_last() =~= same_positions(n as nat).take(k as int));
                assert(next.last() == (k, k));
                let (r1, nv) = V::spec_apply(cur[k as int], src[k as int]);
                assert(r1 == r);
                assert(value_views(self.values@) =~= cur.update(k as int, nv));
                assert(apply_fold::<V>(before, src, next) == (r1, cur.update(k as int, nv)));
            }
            match r {
                Err(e) => {
                    proof {
                        lemma_fold_stops::<V>(before, src, same_positions(n as nat), k + 1);
                        assert(value_views(self.values@).take(old_len as int) =~= value_views(self.values@));
                    }
                    return Err(e);
                },
                Ok(u) => {
                    proof {
                        assert(u == ());
                    }
                },
            }
            k = k + 1;
        }
        proof {
            assert(same_positions(n as nat).take(n as int) =~= same_positions(n as nat));
            assert(value_views(self.values@).take(old_len as int) =~= value_views(self.values@));
        }
        let mut j: usize = self.values.len();
        while j < other.values.len()
            invariant
                old_len <= j <= other.values@.len() || (j == old_len && other.values@.len() <= old_len),
                self.values@.len() == j,
                self.type_info == old(self).type_info,
                value_views(self.values@).take(old_len as int) == apply_fold::<V>(before, src, same_positions(n as nat)).1,
                forall|q: int| old_len <= q < j ==> (#[trigger] self.values@[q])@ == other.values@[q]@,
            decreases other.values@.len() - j,
        {
            let c = other.values[j].copy_value();
            let ghost prev = self.values@;
            self.values.push(c);
            proof {
                assert(value_views(self.values@).take(old_len as int) =~= value_views(prev).take(old_len as int));
            }
            j = j + 1;
        }
        Ok(())
    }
}

impl<V: ValueEq> DynamicList<V> {
    /// Compares this list with `other`: equal exactly when both hold the same number
    /// of values and the values at each position are the same.
    pub fn reflect_partial_eq(&self, other: &DynamicList<V>) -> (r: Option<bool>)
        ensures
            r == Some(value_views(self@) == value_views(other@)),
    {
        if self.values.len() != other.values.len() {
            proof {
                assert(value_views(self@).len() != value_views(other@).len());
            }
            return Some(false);
        }
        let mut k: usize = 0;
        while k < self.values.len()
            invariant
                k <= self.values@.len(),
                self.values@.len() == other.values@.len(),
                forall|q: int| 0 <= q < k ==> self.values@[q]@ == other.values@[q]@,
            decreases self.values@.len() - k,
        {
            if !self.values[k].value_eq(&other.values[k]) {
                proof {
                    assert(value_views(self@)[k as int] != value_views(other@)[k as int]);
                }
                return Some(false);
            }
            k = k + 1;
        }
        proof {
            assert(value_views(self@) =~= value_views(other@));
        }
        Some(true)
    }
}

} // verus!
