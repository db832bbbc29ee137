use vstd::prelude::*;

use crate::info::TypeInfo;
use crate::ops::apply_error::ApplyError;
use crate::ops::dynamic_enum::{ApplyValue, apply_fold, lemma_fold_stops, value_views};
use crate::ops::dynamic_list::same_positions;
use crate::ops::dynamic_set::ValueEq;

verus! {

/// A tuple struct value held by value: its unnamed fields in order.
#[derive(Debug)]
pub struct DynamicTupleStruct<V> {
    target_type: Option<&'static TypeInfo>,
    values: Vec<V>,
}

impl<V> View for DynamicTupleStruct<V> {
    type V = Seq<V>;

    closed spec fn view(&self) -> Seq<V> {
        self.values@
    }
}

impl<V> DynamicTupleStruct<V> {
    /// The type information of the tuple struct type this value stands for.
    pub closed spec fn spec_target(&self) -> Option<&'static TypeInfo> {
        self.target_type
    }

    /// A tuple struct value without fields, standing for no type in particular.
    pub fn new() -> (r: Self)
        ensures
            r@ == Seq::<V>::empty(),
            r.spec_target() is None,
    {
        DynamicTupleStruct { target_type: None, values: Vec::new() }
    }

    /// Sets the type information of the tuple struct type this value stands for: that
    /// of a tuple struct, or none.
    pub fn set_target_type_info(&mut self, target_type: Option<&'static TypeInfo>)
        requires
            target_type matches Some(info) ==> *info is TupleStruct,
        ensures
            final(self).spec_target() == target_type,
            final(self)@ == old(self)@,
    {
        self.target_type = target_type;
    }

    /// The type information of the tuple struct type this value stands for.
    pub fn get_target_type_info(&self) -> (r: Option<&'static TypeInfo>)
        ensures
            r == self.spec_target(),
    {
        self.target_type
    }

    /// Appends `value` as a new last field.
    pub fn insert(&mut self, value: V)
        ensures
            final(self)@ == old(self)@.push(value),
            final(self).spec_target() == old(self).spec_target(),
    {
        self.values.push(value);
    }

    /// The field at position `index`.
    pub fn field(&self, index: usize) -> (r: Option<&V>)
        ensures
            if index < self@.len() {
                r == Some(&self@[index as int])
            } else {
                r is None
            },
    {
        if index < self.values.len() {
            Some(&self.values[index])
        } else {
            None
        }
    }

    /// The number of fields.
    pub fn field_len(&self) -> (r: usize)
        ensures
            r == self@.len(),
    {
        self.values.len()
    }

    /// All fields, in order.
    pub fn drain(self) -> (r: Vec<V>)
        ensures
            r@ == self@,
    {
        self.values
    }
}

impl<V: ApplyValue> DynamicTupleStruct<V> {
    /// Applies the tuple struct value `other` to this one: each field of `other` to the
    /// field at the same position, for as many as this value has, in order, stopping
    /// at the first error.
    pub fn try_apply(&mut self, other: &DynamicTupleStruct<V>) -> (r: Result<(), ApplyError>)
        ensures
            final(self).spec_target() == old(self).spec_target(),
            final(self)@.len() == old(self)@.len(),
            (r, value_views(final(self)@)) == apply_fold::<V>(
                value_views(old(self)@),
                value_views(other@),
                same_positions(if other@.len() <= old(self)@.len() { other@.len() } else { old(self)@.len() }),
            ),
    {
        let ghost before = value_views(self.values@);
        let ghost src = value_views(other.values@);
        let n: usize = if other.values.len() <= self.values.len() { other.values.len() } else { self.values.len() };
        let mut k: usize = 0;
        while k < n
            invariant
                k <= n,
                n <= old(self).values@.len(),
                n <= other.values@.len(),
                n == (if other.values@.len() <= old(self).values@.len() { other.values@.len() } else { old(self).values@.len() }),
                self.values@.len() == old(self).values@.len(),
                self.target_type == old(self).target_type,
                before == value_views(old(self).values@),
                src == value_views(other.values@),
                apply_fold::<V>(before, src, same_positions(n as nat).take(k as int)) == (
                    Ok::<(), ApplyError>(()),
                    value_views(self.values@),
                ),
            decreases n - k,
        {
            let ghost cur = value_views(self.values@);
            let r = self.values[k].try_apply(&other.values[k]);
            proof {
                let next = same_positions(n as nat).take(k + 1);
                assert(next.drop_last() =~= same_positions(n as nat).take(k as int));
                assert(next.last() == (k, k));
                let (r1, nv) = V::spec_apply(cur[k as int], src[k as int]);
                assert(r1 == r);
                assert(value_views(self.values@) =~= cur.update(k as int, nv));
                assert(apply_fold::<V>(before, src, next) == (r1, cur.update(k as int, nv)));
            }
            match r {
                Err(e) => {
                    proof {
                        lemma_fold_stops::<V>(before, src, same_positions(n as nat), k + 1);
                    }
                    return Err(e);
                },
                Ok(u) => {
                    proof {
                        assert(u == ());
                    }
                },
            }
            k = k + 1;
        }
        proof {
            assert(same_positions(n as nat).take(n as int) =~= same_positions(n as nat));
        }
        Ok(())
    }
}

impl<V: ValueEq> DynamicTupleStruct<V> {
    /// Compares this tuple struct value with `other`: equal exactly when both have as
    /// many fields and the fields at each position are the same.
    pub fn reflect_partial_eq(&self, other: &DynamicTupleStruct<V>) -> (r: Option<bool>)
        ensures
            r == Some(value_views(self@) == value_views(other@)),
    {
        if self.values.len() != other.values.len() {
            proof {
                assert(value_views(self@).len() != value_views(other@).len());
            }
            return Some(false);
        }
        let mut k: usize = 0;
        while k < self.values.len()
            invariant
                k <= self.values@.len(),
                self.values@.len() == other.values@.len(),
                forall|q: int| 0 <= q < k ==> self.values@[q]@ == other.values@[q]@,
            decreases self.values@.len() - k,
        {
            if !self.values[k].value_eq(&other.values[k]) {
                proof {
                    assert(value_views(self@)[k as int] != value_views(other@)[k as int]);
                }
                return Some(false);
            }
            k = k + 1;
        }
        proof {
            assert(value_views(self@) =~= value_views(other@));
        }
        Some(true)
    }
}

} // verus!
