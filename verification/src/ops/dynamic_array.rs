use vstd::prelude::*;

use crate::info::TypeInfo;
use crate::ops::apply_error::ApplyError;
use crate::ops::dynamic_enum::{ApplyValue, apply_fold, lemma_fold_stops, value_views};
use crate::ops::dynamic_list::same_positions;
use crate::ops::dynamic_set::ValueEq;

verus! {

/// An array of values held by value: its length is fixed when it is made.
#[derive(Debug)]
pub struct DynamicArray<V> {
    target_type: Option<&'static TypeInfo>,
    values: Vec<V>,
}

impl<V> View for DynamicArray<V> {
    type V = Seq<V>;

    closed spec fn view(&self) -> Seq<V> {
        self.values@
    }
}

impl<V> DynamicArray<V> {
    /// The type information of the array type this value stands for.
    pub closed spec fn spec_target(&self) -> Option<&'static TypeInfo> {
        self.target_type
    }

    /// The array holding `values`, in order, standing for no type in particular.
    pub fn new(values: Vec<V>) -> (r: Self)
        ensures
            r@ == values@,
            r.spec_target() is None,
    {
        DynamicArray { target_type: None, values }
    }

    /// Sets the type information of the array type this value stands for: that of an
    /// array, or none.
    pub fn set_target_type_info(&mut self, target_type: Option<&'static TypeInfo>)
        requires
            target_type matches Some(info) ==> *info is Array,
        ensures
            final(self).spec_target() == target_type,
            final(self)@ == old(self)@,
    {
        self.target_type = target_type;
    }

    /// The type information of the array type this value stands for.
    pub fn get_target_type_info(&self) -> (r: Option<&'static TypeInfo>)
        ensures
            r == self.spec_target(),
    {
        self.target_type
    }

    /// The value at position `index`.
    pub fn get(&self, index: usize) -> (r: Option<&V>)
        ensures
            if index < self@.len() {
                r == Some(&self@[index as int])
            } else {
                r is None
            },
    {
        if index < self.values.len() {
            Some(&self.values[index])
        } else {
            None
        }
    }

    /// The number of values.
    pub fn len(&self) -> (r: usize)
        ensures
            r == self@.len(),
    {
        self.values.len()
    }

    /// All values, in order.
    pub fn drain(self) -> (r: Vec<V>)
        ensures
            r@ == self@,
    {
        self.values
    }
}

impl<V: ApplyValue> DynamicArray<V> {
    /// Applies the array `other` to this one. Arrays of different lengths give
    /// `DifferentSize` and nothing changes; otherwise each value of `other` is applied
    /// to the value at the same position, in order, stopping at the first error.
    pub fn try_apply(&mut self, other: &DynamicArray<V>) -> (r: Result<(), ApplyError>)
        ensures
            final(self).spec_target() == old(self).spec_target(),
            final(self)@.len() == old(self)@.len(),
            if other@.len() != old(self)@.len() {
                &&& r matches Err(ApplyError::DifferentSize { from_size, to_size })
                &&& from_size == other@.len()
                &&& to_size == old(self)@.len()
                &&& final(self)@ == old(self)@
            } else {
                (r, value_views(final(self)@)) == apply_fold::<V>(
                    value_views(old(self)@),
                    value_views(other@),
                    same_positions(old(self)@.len()),
                )
            },
    {
        if self.values.len() != other.values.len() {
            return Err(ApplyError::DifferentSize { from_size: other.values.len(), to_size: self.values.len() });
        }
        let ghost before = value_views(self.values@);
        let ghost src = value_views(other.values@);
        let n: usize = self.values.len();
        let mut k: usize = 0;
        while k < n
            invariant
                k <= n,
                n == old(self).values@.len(),
                n == other.values@.len(),
                self.values@.len() == n,
                self.target_type == old(self).target_type,
                before == value_views(old(self).values@),
                before.len() == n,
                src == value_views(other.values@),
                apply_fold::<V>(before, src, same_positions(n as nat).take(k as int)) == (
                    Ok::<(), ApplyError>(()),
                    value_views(self.values@),
                ),
            decreases n - k,
        {
            let ghost cur = value_views(self.values@);
            let r = self.values[k].try_apply(&other.values[k]);
            proof {
                let next = same_positions(n as nat).take(k + 1);
                assert(next.drop_last() =~= same_positions(n as nat).take(k as int));
                assert(next.last() == (k, k));
                let (r1, nv) = V::spec_apply(cur[k as int], src[k as int]);
                assert(r1 == r);
                assert(value_views(self.values@) =~= cur.update(k as int, nv));
                assert(apply_fold::<V>(before, src, next) == (r1, cur.update(k as int, nv)));
            }
            match r {
                Err(e) => {
                    proof {
                        lemma_fold_stops::<V>(before, src, same_positions(n as nat), k + 1);
                    }
                    return Err(e);
                },
                Ok(u) => {
                    proof {
                        assert(u == ());
                    }
                },
            }
            k = k + 1;
        }
        proof {
            assert(same_positions(n as nat).take(n as int) =~= same_positions(n as nat));
        }
        Ok(())
    }
}

impl<V: ValueEq> DynamicArray<V> {
    /// Compares this array with `other`: equal exactly when both have the same length
    /// and the values at each position are the same.
    pub fn reflect_partial_eq(&self, other: &DynamicArray<V>) -> (r: Option<bool>)
        ensures
            r == Some(value_views(self@) == value_views(other@)),
    {
        if self.values.len() != other.values.len() {
            proof {
                assert(value_views(self@).len() != value_views(other@).len());
            }
            return Some(false);
        }
        let mut k: usize = 0;
        while k < self.values.len()
            invariant
                k <= self.values@.len(),
                self.values@.len() == other.values@.len(),
                forall|q: int| 0 <= q < k ==> self.values@[q]@ == other.values@[q]@,
            decreases self.values@.len() - k,
        {
            if !self.values[k].value_eq(&other.values[k]) {
                proof {
                    assert(value_views(self@)[k as int] != value_views(other@)[k as int]);
                }
                return Some(false);
            }
            k = k + 1;
        }
        proof {
            assert(value_views(self@) =~= value_views(other@));
        }
        Some(true)
    }
}

} // verus!
