use vstd::prelude::*;

use crate::info::{TypeInfo, VariantKind, spec_last_index};
use crate::ops::apply_error::ApplyError;
use crate::ops::dynamic_set::ValueEq;
use crate::ops::dynamic_map::entries_map;
use crate::ops::dynamic_struct::{DynamicStruct, lemma_distinct_last_index, names_distinct};
use crate::ops::enum_ops::{
    EnumApplyPlan, ShapeView, VariantShape, enum_apply_plan, enum_partial_eq_outcome, has_counterpart,
    shape_len, spec_apply_pairs, spec_enum_partial_eq, string_texts, struct_pairs,
};
use crate::registry::lemma_last_index;

verus! {

/// The fields of an enum variant held by value: none, unnamed ones in order, or named
/// ones in order.
#[derive(Debug)]
pub enum DynamicVariant<V> {
    Unit,
    Tuple(Vec<V>),
    Struct(DynamicStruct<V>),
}

/// The shape of a variant's fields.
pub open spec fn variant_shape<V>(v: &DynamicVariant<V>) -> ShapeView {
    match v {
        DynamicVariant::Unit => ShapeView::Unit,
        DynamicVariant::Tuple(vs) => ShapeView::Tuple(vs@.len()),
        DynamicVariant::Struct(ds) => ShapeView::Struct(ds.spec_names()),
    }
}

/// The values of a variant's fields, in order.
pub open spec fn variant_values<V>(v: &DynamicVariant<V>) -> Seq<V> {
    match v {
        DynamicVariant::Unit => Seq::empty(),
        DynamicVariant::Tuple(vs) => vs@,
        DynamicVariant::Struct(ds) => ds.spec_values(),
    }
}

/// Every pair goes from a position below `m` to one below `n`.
pub open spec fn pairs_within(pairs: Seq<(usize, usize)>, m: nat, n: nat) -> bool {
    forall|t: int| 0 <= t < pairs.len() ==> (#[trigger] pairs[t]).0 < m && pairs[t].1 < n
}

proof fn lemma_struct_pairs_within(sn: Seq<Seq<char>>, on: Seq<Seq<char>>, k: nat)
    requires
        k <= on.len(),
    ensures
        pairs_within(struct_pairs(sn, on, k), on.len(), sn.len()),
    decreases k,
{
    if k > 0 {
        lemma_struct_pairs_within(sn, on, (k - 1) as nat);
        lemma_last_index(sn, on[k - 1]);
        let prev = struct_pairs(sn, on, (k - 1) as nat);
        match spec_last_index(sn, on[k - 1]) {
            Some(i) => {
                let cur = prev.push((((k - 1) as int) as usize, i as usize));
                assert forall|t: int| 0 <= t < cur.len() implies (#[trigger] cur[t]).0 < on.len() && cur[t].1 < sn.len() by {
                    if t < prev.len() {
                        assert(cur[t] == prev[t]);
                    }
                }
            },
            None => {},
        }
    }
}

/// The pairs of an application lie within both values' fields.
proof fn lemma_apply_pairs_within(target: ShapeView, other: ShapeView)
    ensures
        pairs_within(spec_apply_pairs(target, other), shape_len(other), shape_len(target)),
{
    match other {
        ShapeView::Struct(on) => match target {
            ShapeView::Struct(sn) => lemma_struct_pairs_within(sn, on, on.len()),
            _ => {},
        },
        _ => {},
    }
}

/// The number of fields of a variant's shape is the number of its values.
fn shape_len_values<V>(v: &DynamicVariant<V>)
    ensures
        shape_len(variant_shape(v)) == variant_values(v).len(),
{
    match v {
        DynamicVariant::Struct(ds) => ds.wf(),
        _ => {},
    }
}

/// A value of an enum type held by value: the type information of the enum it stands
/// for, if any, the index and name of its variant and the variant's fields.
#[derive(Debug)]
pub struct DynamicEnum<V> {
    target_type: Option<&'static TypeInfo>,
    variant_index: usize,
    variant_name: String,
    variant: DynamicVariant<V>,
}

impl<V> DynamicEnum<V> {
    pub closed spec fn spec_index(&self) -> usize {
        self.variant_index
    }

    pub closed spec fn spec_name(&self) -> Seq<char> {
        self.variant_name@
    }

    pub closed spec fn spec_variant(&self) -> &DynamicVariant<V> {
        &self.variant
    }

    pub closed spec fn spec_target(&self) -> Option<&'static TypeInfo> {
        self.target_type
    }

    /// The type information of the enum this value stands for.
    pub fn get_target_type_info(&self) -> (r: Option<&'static TypeInfo>)
        ensures
            r == self.spec_target(),
    {
        self.target_type
    }

    /// Sets the type information of the enum this value stands for: that of an enum,
    /// or none.
    pub fn set_target_type_info(&mut self, target_type: Option<&'static TypeInfo>)
        requires
            target_type matches Some(info) ==> *info is Enum,
        ensures
            final(self).spec_target() == target_type,
            final(self).spec_index() == old(self).spec_index(),
            final(self).spec_name() == old(self).spec_name(),
            final(self).spec_variant() == old(self).spec_variant(),
    {
        self.target_type = target_type;
    }

    /// Switches to the variant `name`, holding `variant`; the variant index stays.
    pub fn set_variant(&mut self, name: &str, variant: DynamicVariant<V>)
        ensures
            final(self).spec_name() == name@,
            *final(self).spec_variant() == variant,
            final(self).spec_index() == old(self).spec_index(),
            final(self).spec_target() == old(self).spec_target(),
    {
        self.variant_name = String::from_str(name);
        self.variant = variant;
    }

    /// Switches to the variant `name` at index `variant_index`, holding `variant`.
    pub fn set_variant_with_index(&mut self, variant_index: usize, name: &str, variant: DynamicVariant<V>)
        ensures
            final(self).spec_name() == name@,
            *final(self).spec_variant() == variant,
            final(self).spec_index() == variant_index,
            final(self).spec_target() == old(self).spec_target(),
    {
        self.variant_index = variant_index;
        self.variant_name = String::from_str(name);
        self.variant = variant;
    }

    /// The variant's fields, to change in place.
    pub fn variant_mut(&mut self) -> (r: &mut DynamicVariant<V>)
        ensures
            *r == *old(self).spec_variant(),
            *final(self).spec_variant() == *final(r),
            final(self).spec_name() == old(self).spec_name(),
            final(self).spec_index() == old(self).spec_index(),
            final(self).spec_target() == old(self).spec_target(),
    {
        &mut self.variant
    }

    /// The value with variant `variant_name`, at index 0, holding `variant`.
    pub fn new(variant_name: &str, variant: DynamicVariant<V>) -> (r: Self)
        ensures
            r.spec_index() == 0,
            r.spec_name() == variant_name@,
            *r.spec_variant() == variant,
            r.spec_target() is None,
    {
        DynamicEnum { target_type: None, variant_index: 0, variant_name: String::from_str(variant_name), variant }
    }

    /// The value with variant `variant_name` at index `variant_index`, holding `variant`.
    pub fn new_with_index(variant_index: usize, variant_name: &str, variant: DynamicVariant<V>) -> (r: Self)
        ensures
            r.spec_index() == variant_index,
            r.spec_name() == variant_name@,
            *r.spec_variant() == variant,
            r.spec_target() is None,
    {
        DynamicEnum { target_type: None, variant_index, variant_name: String::from_str(variant_name), variant }
    }

    /// The name of the variant.
    pub fn variant_name(&self) -> (r: &str)
        ensures
            r@ == self.spec_name(),
    {
        self.variant_name.as_str()
    }

    /// The index of the variant.
    pub fn variant_index(&self) -> (r: usize)
        ensures
            r == self.spec_index(),
    {
        self.variant_index
    }

    /// The variant's fields.
    pub fn variant(&self) -> (r: &DynamicVariant<V>)
        ensures
            r == self.spec_variant(),
    {
        &self.variant
    }

    /// The form of the variant.
    pub fn variant_type(&self) -> (r: VariantKind)
        ensures
            r == crate::ops::enum_ops::shape_kind(variant_shape(self.spec_variant())),
    {
        match &self.variant {
            DynamicVariant::Unit => VariantKind::Unit,
            DynamicVariant::Tuple(_) => VariantKind::Tuple,
            DynamicVariant::Struct(_) => VariantKind::Struct,
        }
    }

    /// The number of fields.
    pub fn field_len(&self) -> (r: usize)
        ensures
            r == variant_values(self.spec_variant()).len(),
    {
        match &self.variant {
            DynamicVariant::Unit => 0,
            DynamicVariant::Tuple(vs) => vs.len(),
            DynamicVariant::Struct(ds) => ds.field_len(),
        }
    }

    /// The shape of the variant's fields.
    pub fn shape(&self) -> (r: VariantShape)
        ensures
            r@ == variant_shape(self.spec_variant()),
    {
        match &self.variant {
            DynamicVariant::Unit => VariantShape::Unit,
            DynamicVariant::Tuple(vs) => VariantShape::Tuple(vs.len()),
            DynamicVariant::Struct(ds) => {
                ds.wf();
                let mut names: Vec<String> = Vec::new();
                let mut i: usize = 0;
                while i < ds.field_len()
                    invariant
                        i <= ds.spec_names().len(),
                        ds.spec_names().len() == ds.spec_values().len(),
                        names@.len() == i,
                        forall|j: int| 0 <= j < i ==> names@[j]@ == ds.spec_names()[j],
                    decreases ds.spec_values().len() - i,
                {
                    match ds.name_at(i) {
                        Some(n) => names.push(String::from_str(n)),
                        None => {
                            proof {
                                assert(false);
                            }
                        },
                    }
                    i = i + 1;
                }
                proof {
                    assert(string_texts(names@) =~= ds.spec_names());
                }
                VariantShape::Struct(names)
            },
        }
    }

    /// The field at position `index`: of the unnamed fields, or of the named ones in
    /// order.
    pub fn field_at(&self, index: usize) -> (r: Option<&V>)
        ensures
            if index < variant_values(self.spec_variant()).len() {
                r matches Some(v) && *v == variant_values(self.spec_variant())[index as int]
            } else {
                r is None
            },
    {
        match &self.variant {
            DynamicVariant::Unit => None,
            DynamicVariant::Tuple(vs) => if index < vs.len() {
                Some(&vs[index])
            } else {
                None
            },
            DynamicVariant::Struct(ds) => ds.field_at(index),
        }
    }

    /// The named field `name` (the last one, if several are); `None` for a variant
    /// without named fields.
    pub fn field(&self, name: &str) -> (r: Option<&V>)
        ensures
            match variant_shape(self.spec_variant()) {
                ShapeView::Struct(names) => match spec_last_index(names, name@) {
                    Some(i) => r matches Some(v) && *v == variant_values(self.spec_variant())[i],
                    None => r is None,
                },
                _ => r is None,
            },
    {
        match &self.variant {
            DynamicVariant::Struct(ds) => ds.field(name),
            _ => None,
        }
    }
}

/// Copies of the values, in order.
pub(crate) fn copy_values<V: ValueEq>(vs: &Vec<V>) -> (r: Vec<V>)
    ensures
        r@.len() == vs@.len(),
        value_views(r@) == value_views(vs@),
{
    let mut out: Vec<V> = Vec::new();
    let mut i: usize = 0;
    while i < vs.len()
        invariant
            i <= vs@.len(),
            out@.len() == i,
            forall|k: int| 0 <= k < i ==> (#[trigger] out@[k])@ == vs@[k]@,
        decreases vs@.len() - i,
    {
        let c = vs[i].copy_value();
        out.push(c);
        i = i + 1;
    }
    proof {
        assert(value_views(out@) =~= value_views(vs@));
    }
    out
}

/// A copy of a variant: the same shape, with copies of the values.
fn copy_variant<V: ValueEq>(v: &DynamicVariant<V>) -> (r: DynamicVariant<V>)
    ensures
        variant_shape(&r) == variant_shape(v),
        value_views(variant_values(&r)) == value_views(variant_values(v)),
{
    match v {
        DynamicVariant::Unit => DynamicVariant::Unit,
        DynamicVariant::Tuple(vs) => DynamicVariant::Tuple(copy_values(vs)),
        DynamicVariant::Struct(ds) => DynamicVariant::Struct(ds.to_dynamic_struct()),
    }
}

/// Values to which another value of their type can be applied; what applying does
/// depends on the two values' views alone.
pub trait ApplyValue: View + Sized {
    /// The outcome of applying a value that `value` views to one that `target` views:
    /// the result and the view of the value after.
    spec fn spec_apply(target: Self::V, value: Self::V) -> (Result<(), ApplyError>, Self::V);

    /// Applies `value` to `self`.
    fn try_apply(&mut self, value: &Self) -> (r: Result<(), ApplyError>)
        ensures
            (r, final(self)@) == Self::spec_apply(old(self)@, value@),
    ;
}

impl ApplyValue for u8 {
    open spec fn spec_apply(target: u8, value: u8) -> (Result<(), ApplyError>, u8) {
        (Ok(()), value)
    }

    fn try_apply(&mut self, value: &Self) -> (r: Result<(), ApplyError>) {
        *self = *value;
        Ok(())
    }
}

impl ApplyValue for u32 {
    open spec fn spec_apply(target: u32, value: u32) -> (Result<(), ApplyError>, u32) {
        (Ok(()), value)
    }

    fn try_apply(&mut self, value: &Self) -> (r: Result<(), ApplyError>) {
        *self = *value;
        Ok(())
    }
}

impl ApplyValue for u64 {
    open spec fn spec_apply(target: u64, value: u64) -> (Result<(), ApplyError>, u64) {
        (Ok(()), value)
    }

    fn try_apply(&mut self, value: &Self) -> (r: Result<(), ApplyError>) {
        *self = *value;
        Ok(())
    }
}

impl ApplyValue for String {
    open spec fn spec_apply(target: Seq<char>, value: Seq<char>) -> (Result<(), ApplyError>, Seq<char>) {
        (Ok(()), value)
    }

    fn try_apply(&mut self, value: &Self) -> (r: Result<(), ApplyError>) {
        *self = value.clone();
        Ok(())
    }
}

/// A list applied to a list: each item of the value to the item of the target at the
/// same position, for as many items as the target holds, and the value's further
/// items appended.
impl ApplyValue for Vec<u8> {
    open spec fn spec_apply(target: Seq<u8>, value: Seq<u8>) -> (Result<(), ApplyError>, Seq<u8>) {
        if value.len() >= target.len() {
            (Ok(()), value)
        } else {
            (Ok(()), value + target.subrange(value.len() as int, target.len() as int))
        }
    }

    fn try_apply(&mut self, value: &Self) -> (r: Result<(), ApplyError>) {
        let ghost old_target = self@;
        let mut i: usize = 0;
        while i < value.len() && i < self.len()
            invariant
                i <= value@.len(),
                self@.len() == old_target.len(),
                i <= old_target.len(),
                forall|k: int| 0 <= k < i ==> self@[k] == value@[k],
                forall|k: int| i <= k < old_target.len() ==> self@[k] == old_target[k],
            decreases value@.len() - i,
        {
            self.set(i, value[i]);
            i = i + 1;
        }
        if i < value.len() {
            while i < value.len()
                invariant
                    old_target.len() <= i <= value@.len(),
                    self@.len() == i,
                    forall|k: int| 0 <= k < i ==> self@[k] == value@[k],
                decreases value@.len() - i,
            {
                self.push(value[i]);
                i = i + 1;
            }
        }
        proof {
            if value@.len() >= old_target.len() {
                assert(self@ =~= value@);
            } else {
                assert(self@ =~= value@ + old_target.subrange(value@.len() as int, old_target.len() as int));
            }
        }
        Ok(())
    }
}

/// The views of a sequence of values.
pub open spec fn value_views<V: View>(s: Seq<V>) -> Seq<V::V> {
    s.map_values(|v: V| v@)
}

/// Applying, pair by pair in order, the source value at each pair's first position to
/// the value at its second position, stopping at the first error: the result and the
/// views of the values after.
pub open spec fn apply_fold<V: ApplyValue>(
    views: Seq<V::V>,
    source: Seq<V::V>,
    pairs: Seq<(usize, usize)>,
) -> (Result<(), ApplyError>, Seq<V::V>)
    decreases pairs.len(),
{
    if pairs.len() == 0 {
        (Ok(()), views)
    } else {
        let (r0, v0) = apply_fold::<V>(views, source, pairs.drop_last());
        if r0 is Err {
            (r0, v0)
        } else {
            let (j, i) = pairs.last();
            let (r1, nv) = V::spec_apply(v0[i as int], source[j as int]);
            (r1, v0.update(i as int, nv))
        }
    }
}

/// Once applying meets an error, applying further pairs changes nothing.
pub(crate) proof fn lemma_fold_stops<V: ApplyValue>(views: Seq<V::V>, source: Seq<V::V>, pairs: Seq<(usize, usize)>, k: int)
    requires
        0 <= k <= pairs.len(),
        apply_fold::<V>(views, source, pairs.take(k)).0 is Err,
    ensures
        apply_fold::<V>(views, source, pairs) == apply_fold::<V>(views, source, pairs.take(k)),
    decreases pairs.len() - k,
{
    if k < pairs.len() {
        let next = pairs.take(k + 1);
        assert(next.drop_last() =~= pairs.take(k));
        assert(apply_fold::<V>(views, source, next) == apply_fold::<V>(views, source, pairs.take(k)));
        lemma_fold_stops::<V>(views, source, pairs, k + 1);
    } else {
        assert(pairs.take(k) =~= pairs);
    }
}

/// Applies `value` to the field at position `i`.
fn apply_at<V: ApplyValue>(v: &mut DynamicVariant<V>, i: usize, value: &V) -> (r: Result<(), ApplyError>)
    requires
        i < variant_values(old(v)).len(),
    ensures
        variant_shape(final(v)) == variant_shape(old(v)),
        variant_values(final(v)).len() == variant_values(old(v)).len(),
        forall|k: int| 0 <= k < variant_values(old(v)).len() && k != i ==> variant_values(final(v))[k] == variant_values(old(v))[k],
        (r, variant_values(final(v))[i as int]@) == V::spec_apply(variant_values(old(v))[i as int]@, value@),
{
    match v {
        DynamicVariant::Unit => Ok(()),
        DynamicVariant::Tuple(vs) => vs[i].try_apply(value),
        DynamicVariant::Struct(ds) => ds.apply_field_at(i, value),
    }
}

/// Applies, pair by pair in order, the value of `source` at each pair's first position
/// to the field of `target` at its second position, stopping at the first error.
fn apply_pairs<V: ApplyValue>(target: &mut DynamicVariant<V>, source: &DynamicVariant<V>, pairs: &Vec<(usize, usize)>) -> (r: Result<(), ApplyError>)
    requires
        pairs_within(pairs@, variant_values(source).len(), variant_values(old(target)).len()),
    ensures
        variant_shape(final(target)) == variant_shape(old(target)),
        variant_values(final(target)).len() == variant_values(old(target)).len(),
        (r, value_views(variant_values(final(target)))) == apply_fold::<V>(
            value_views(variant_values(old(target))),
            value_views(variant_values(source)),
            pairs@,
        ),
{
    let ghost before = value_views(variant_values(target));
    let ghost src = value_views(variant_values(source));
    let ghost shape0 = variant_shape(target);
    let ghost n = variant_values(target).len();
    let mut t: usize = 0;
    while t < pairs.len()
        invariant
            t <= pairs@.len(),
            pairs_within(pairs@, variant_values(source).len(), n),
            src == value_views(variant_values(source)),
            variant_shape(target) == shape0,
            shape0 == variant_shape(old(target)),
            n == variant_values(old(target)).len(),
            before == value_views(variant_values(old(target))),
            variant_values(target).len() == n,
            before.len() == n,
            apply_fold::<V>(before, src, pairs@.take(t as int)) == (
                Ok::<(), ApplyError>(()),
                value_views(variant_values(target)),
            ),
        decreases pairs@.len() - t,
    {
        let (j, i) = pairs[t];
        proof {
            assert(pairs@[t as int] == (j, i));
        }
        let value = match source {
            DynamicVariant::Unit => {
                proof {
                    assert(false);
                }
                return Ok(());
            },
            DynamicVariant::Tuple(vs) => &vs[j],
            DynamicVariant::Struct(ds) => match ds.field_at(j) {
                Some(v) => v,
                None => {
                    proof {
                        assert(false);
                    }
                    return Ok(());
                },
            },
        };
        proof {
            assert(value@ == src[j as int]);
        }
        let ghost cur = value_views(variant_values(target));
        let r = apply_at(target, i, value);
        proof {
            let next = pairs@.take(t + 1);
            assert(next.drop_last() =~= pairs@.take(t as int));
            assert(next.last() == (j, i));
            assert(value_views(variant_values(target)) =~= cur.update(i as int, variant_values(target)[i as int]@));
            let (r1, nv) = V::spec_apply(cur[i as int], src[j as int]);
            assert(r == r1 && variant_values(target)[i as int]@ == nv);
            assert(apply_fold::<V>(before, src, next) == (r1, cur.update(i as int, nv)));
        }
        match r {
            Err(e) => {
                proof {
                    lemma_fold_stops::<V>(before, src, pairs@, t + 1);
                }
                return Err(e);
            },
            Ok(u) => {
                proof {
                    assert(u == ());
                    assert(r == Ok::<(), ApplyError>(()));
                }
            },
        }
        proof {
            let next = pairs@.take(t + 1);
            let (r1, nv) = V::spec_apply(cur[i as int], src[j as int]);
            assert(r1 == r);
            assert(apply_fold::<V>(before, src, next) == (r1, cur.update(i as int, nv)));
            assert(value_views(variant_values(target)) == cur.update(i as int, nv));
        }
        t = t + 1;
    }
    proof {
        assert(pairs@.take(pairs@.len() as int) =~= pairs@);
    }
    Ok(())
}

impl<V: ValueEq> DynamicEnum<V> {
    /// A copy of the enum value `value`: its variant index and name, and copies of its
    /// fields in the same shape.
    pub fn from_ref(value: &DynamicEnum<V>) -> (r: Self)
        ensures
            r.spec_target() == value.spec_target(),
            r.spec_index() == value.spec_index(),
            r.spec_name() == value.spec_name(),
            variant_shape(r.spec_variant()) == variant_shape(value.spec_variant()),
            value_views(variant_values(r.spec_variant())) == value_views(variant_values(value.spec_variant())),
    {
        DynamicEnum {
            target_type: value.target_type,
            variant_index: value.variant_index,
            variant_name: value.variant_name.clone(),
            variant: copy_variant(&value.variant),
        }
    }
}

impl<V: ValueEq + ApplyValue> DynamicEnum<V> {
    /// Applies the enum value `other` to this one. With the same variant name, each
    /// field of `other` is applied to the field of this value that it pairs with (by
    /// name for named fields, by position for unnamed ones), in the order of
    /// `other`'s fields, and the first error is returned; fields that only one side has
    /// are left alone. With another variant name, this value switches to `other`'s
    /// variant name and to copies of its fields; its variant index stays.
    pub fn try_apply(&mut self, other: &DynamicEnum<V>) -> (r: Result<(), ApplyError>)
        ensures
            final(self).spec_index() == old(self).spec_index(),
            final(self).spec_target() == old(self).spec_target(),
            if old(self).spec_name() == other.spec_name() {
                &&& final(self).spec_name() == old(self).spec_name()
                &&& variant_shape(final(self).spec_variant()) == variant_shape(old(self).spec_variant())
                &&& (r, value_views(variant_values(final(self).spec_variant()))) == apply_fold::<V>(
                    value_views(variant_values(old(self).spec_variant())),
                    value_views(variant_values(other.spec_variant())),
                    spec_apply_pairs(variant_shape(old(self).spec_variant()), variant_shape(other.spec_variant())),
                )
            } else {
                &&& r is Ok
                &&& final(self).spec_name() == other.spec_name()
                &&& variant_shape(final(self).spec_variant()) == variant_shape(other.spec_variant())
                &&& value_views(variant_values(final(self).spec_variant())) == value_views(variant_values(other.spec_variant()))
            },
    {
        let own_shape = self.shape();
        let other_shape = other.shape();
        let plan = enum_apply_plan(
            self.variant_name.as_str(),
            &own_shape,
            Ok((other.variant_name.as_str(), &other_shape)),
        );
        match plan {
            Err(e) => Err(e),
            Ok(EnumApplyPlan::ApplyFields(pairs)) => {
                shape_len_values(&self.variant);
                shape_len_values(&other.variant);
                proof {
                    lemma_apply_pairs_within(variant_shape(&self.variant), variant_shape(&other.variant));
                }
                apply_pairs(&mut self.variant, &other.variant, &pairs)
            },
            Ok(EnumApplyPlan::ReplaceVariant(_)) => {
                self.variant_name = other.variant_name.clone();
                self.variant = copy_variant(&other.variant);
                Ok(())
            },
        }
    }

}

/// The comparison of each field of `x` with its counterpart in `y`: the field at the
/// same position for unnamed fields, the (last) field of the same name for named
/// ones; `None` where there is no counterpart.
pub open spec fn spec_field_results<V: View>(x: &DynamicVariant<V>, y: &DynamicVariant<V>) -> Seq<Option<bool>> {
    Seq::new(
        variant_values(x).len(),
        |i: int| match (variant_shape(x), variant_shape(y)) {
            (ShapeView::Tuple(_), ShapeView::Tuple(m)) => if i < m {
                Some(variant_values(x)[i]@ == variant_values(y)[i]@)
            } else {
                None
            },
            (ShapeView::Struct(xn), ShapeView::Struct(yn)) => match spec_last_index(yn, xn[i]) {
                Some(j) => Some(variant_values(x)[i]@ == variant_values(y)[j]@),
                None => None,
            },
            _ => None,
        },
    )
}

impl<V: ValueEq> DynamicEnum<V> {
    /// Compares this enum value with `other`: equal exactly when both have the same
    /// variant name and form and every field of this value has a counterpart in
    /// `other` that is the same value.
    pub fn reflect_partial_eq(&self, other: &DynamicEnum<V>) -> (r: Option<bool>)
        ensures
            r == spec_enum_partial_eq(
                self.spec_name(),
                variant_shape(self.spec_variant()),
                Some((other.spec_name(), variant_shape(other.spec_variant()))),
                spec_field_results(self.spec_variant(), other.spec_variant()),
            ),
    {
        let ghost expected = spec_field_results(&self.variant, &other.variant);
        let n = self.field_len();
        let mut results: Vec<Option<bool>> = Vec::new();
        let mut i: usize = 0;
        while i < n
            invariant
                i <= n,
                n == variant_values(self.spec_variant()).len(),
                expected == spec_field_results(self.spec_variant(), other.spec_variant()),
                results@ == expected.take(i as int),
            decreases n - i,
        {
            let x = match self.field_at(i) {
                Some(x) => x,
                None => {
                    proof {
                        assert(false);
                    }
                    return None;
                },
            };
            let y = match (&self.variant, &other.variant) {
                (DynamicVariant::Tuple(_), DynamicVariant::Tuple(_)) => other.field_at(i),
                (DynamicVariant::Struct(ds), DynamicVariant::Struct(_)) => {
                    ds.wf();
                    match ds.name_at(i) {
                        Some(nm) => other.field(nm),
                        None => None,
                    }
                },
                _ => None,
            };
            let res = match y {
                Some(y) => Some(x.value_eq(y)),
                None => None,
            };
            proof {
                assert(expected[i as int] == res);
                assert(expected.take(i + 1) =~= expected.take(i as int).push(res));
            }
            results.push(res);
            i = i + 1;
        }
        let own_shape = self.shape();
        let other_shape = other.shape();
        shape_len_values(&self.variant);
        proof {
            assert(expected.take(n as int) =~= expected);
        }
        enum_partial_eq_outcome(
            self.variant_name.as_str(),
            &own_shape,
            Some((other.variant_name.as_str(), &other_shape)),
            &results,
        )
    }
}

/// Compares the enum value `x` with `y`, which is `None` when the other value is not
/// an enum: by the same rule as [`DynamicEnum::reflect_partial_eq`].
pub fn enum_partial_eq<V: ValueEq>(x: &DynamicEnum<V>, y: Option<&DynamicEnum<V>>) -> (r: Option<bool>)
    ensures
        match y {
            None => r == Some(false),
            Some(y) => r == spec_enum_partial_eq(
                x.spec_name(),
                variant_shape(x.spec_variant()),
                Some((y.spec_name(), variant_shape(y.spec_variant()))),
                spec_field_results(x.spec_variant(), y.spec_variant()),
            ),
        },
{
    match y {
        None => Some(false),
        Some(y) => x.reflect_partial_eq(y),
    }
}

/// Two enum values whose variants hold unnamed fields compare equal exactly when the
/// variant names agree, the second has a field at every position where the first has
/// one, and the fields at each such position are the same value.
pub proof fn law_tuple_variant_eq<V: View>(x: &DynamicEnum<V>, y: &DynamicEnum<V>)
    requires
        variant_shape(x.spec_variant()) is Tuple,
        variant_shape(y.spec_variant()) is Tuple,
    ensures
        spec_enum_partial_eq(
            x.spec_name(),
            variant_shape(x.spec_variant()),
            Some((y.spec_name(), variant_shape(y.spec_variant()))),
            spec_field_results(x.spec_variant(), y.spec_variant()),
        ) == Some(
            x.spec_name() == y.spec_name()
                && variant_values(x.spec_variant()).len() <= variant_values(y.spec_variant()).len()
                && forall|i: int| 0 <= i < variant_values(x.spec_variant()).len()
                    ==> (#[trigger] variant_values(x.spec_variant())[i])@ == variant_values(y.spec_variant())[i]@,
        ),
{
    let xs = variant_shape(x.spec_variant());
    let ys = variant_shape(y.spec_variant());
    let xv = variant_values(x.spec_variant());
    let yv = variant_values(y.spec_variant());
    let fr = spec_field_results(x.spec_variant(), y.spec_variant());
    assert(shape_len(xs) == xv.len());
    assert(shape_len(ys) == yv.len());
    if forall|i: int| 0 <= i < shape_len(xs) ==> #[trigger] has_counterpart(xs, ys, i) && fr[i] == Some(true) {
        if xv.len() > 0 {
            let k = xv.len() - 1;
            assert(has_counterpart(xs, ys, k));
        }
        assert forall|i: int| 0 <= i < xv.len() implies (#[trigger] xv[i])@ == yv[i]@ by {
            assert(has_counterpart(xs, ys, i) && fr[i] == Some(true));
        }
    }
    if xv.len() <= yv.len() && forall|i: int| 0 <= i < xv.len() ==> (#[trigger] xv[i])@ == yv[i]@ {
        assert forall|i: int| 0 <= i < shape_len(xs) implies #[trigger] has_counterpart(xs, ys, i) && fr[i] == Some(true) by {
            assert(xv[i]@ == yv[i]@);
        }
    }
}

/// Applying an opaque value (a string or a number) always succeeds and leaves the
/// target equal to the applied value, whatever the target held.
pub proof fn law_opaque_apply_replaces()
    ensures
        forall|t: Seq<char>, v: Seq<char>| #[trigger] <String as ApplyValue>::spec_apply(t, v) == (Ok::<(), ApplyError>(()), v),
        forall|t: u8, v: u8| #[trigger] <u8 as ApplyValue>::spec_apply(t, v) == (Ok::<(), ApplyError>(()), v),
        forall|t: u32, v: u32| #[trigger] <u32 as ApplyValue>::spec_apply(t, v) == (Ok::<(), ApplyError>(()), v),
        forall|t: u64, v: u64| #[trigger] <u64 as ApplyValue>::spec_apply(t, v) == (Ok::<(), ApplyError>(()), v),
{
}

/// Two enum values whose variants hold named fields, each name once, compare equal
/// exactly when the variant names agree and every field of the first is a field of
/// the second with the same name and the same value.
pub proof fn law_struct_variant_eq<V: View>(x: &DynamicEnum<V>, y: &DynamicEnum<V>)
    requires
        variant_shape(x.spec_variant()) matches ShapeView::Struct(xn) && names_distinct(xn),
        variant_shape(y.spec_variant()) matches ShapeView::Struct(yn) && names_distinct(yn),
        variant_values(x.spec_variant()).len() == shape_len(variant_shape(x.spec_variant())),
        variant_values(y.spec_variant()).len() == shape_len(variant_shape(y.spec_variant())),
    ensures
        ({
            let xn = variant_shape(x.spec_variant())->Struct_0;
            let yn = variant_shape(y.spec_variant())->Struct_0;
            spec_enum_partial_eq(
                x.spec_name(),
                variant_shape(x.spec_variant()),
                Some((y.spec_name(), variant_shape(y.spec_variant()))),
                spec_field_results(x.spec_variant(), y.spec_variant()),
            ) == Some(
                x.spec_name() == y.spec_name() && entries_map(xn, value_views(variant_values(x.spec_variant())))
                    .submap_of(entries_map(yn, value_views(variant_values(y.spec_variant())))),
            )
        }),
{
    let xs = variant_shape(x.spec_variant());
    let ys = variant_shape(y.spec_variant());
    let xn = xs->Struct_0;
    let yn = ys->Struct_0;
    let xv = value_views(variant_values(x.spec_variant()));
    let yv = value_views(variant_values(y.spec_variant()));
    let fr = spec_field_results(x.spec_variant(), y.spec_variant());
    let ex = entries_map(xn, xv);
    let ey = entries_map(yn, yv);
    if forall|i: int| 0 <= i < shape_len(xs) ==> #[trigger] has_counterpart(xs, ys, i) && fr[i] == Some(true) {
        assert forall|k: Seq<char>| #[trigger] ex.dom().contains(k) implies ey.dom().contains(k) && ex[k] == ey[k] by {
            lemma_distinct_last_index(xn, k);
            let i = xn.index_of(k);
            assert(0 <= i < shape_len(xs));
            assert(has_counterpart(xs, ys, i) && fr[i] == Some(true));
            assert(yn.contains(xn[i]));
            lemma_distinct_last_index(yn, k);
            let j = yn.index_of(k);
            assert(fr[i] == Some(variant_values(x.spec_variant())[i]@ == variant_values(y.spec_variant())[j]@));
            assert(xv[i] == variant_values(x.spec_variant())[i]@);
            assert(yv[j] == variant_values(y.spec_variant())[j]@);
            assert(ex[k] == xv[i]);
            assert(ey[k] == yv[j]);
        }
    }
    if ex.submap_of(ey) {
        assert forall|i: int| 0 <= i < shape_len(xs) implies #[trigger] has_counterpart(xs, ys, i) && fr[i] == Some(true) by {
            let k = xn[i];
            assert(xn.contains(k));
            assert(ex.dom().contains(k));
            assert(ey.dom().contains(k) && ex[k] == ey[k]);
            assert(yn.contains(k));
            lemma_distinct_last_index(xn, k);
            lemma_distinct_last_index(yn, k);
            assert(xn.index_of(k) == i) by {
                let q = xn.index_of(k);
                if q < i {
                    assert(xn[q] != xn[i]);
                } else if i < q {
                    assert(xn[i] != xn[q]);
                }
            }
            let j = yn.index_of(k);
            assert(ex[k] == xv[i]);
            assert(ey[k] == yv[j]);
            assert(xv[i] == variant_values(x.spec_variant())[i]@);
            assert(yv[j] == variant_values(y.spec_variant())[j]@);
            assert(fr[i] == Some(variant_values(x.spec_variant())[i]@ == variant_values(y.spec_variant())[j]@));
        }
    }
}

/// Applying a list of bytes to another never fails: the result is as long as the
/// longer of the two, starts with the applied bytes and keeps the target's bytes
/// beyond them.
pub proof fn law_byte_list_apply()
    ensures
        forall|t: Seq<u8>, v: Seq<u8>| {
            let (r, a) = #[trigger] <Vec<u8> as ApplyValue>::spec_apply(t, v);
            &&& r is Ok
            &&& a.len() == if v.len() >= t.len() { v.len() } else { t.len() }
            &&& forall|k: int| 0 <= k < v.len() ==> a[k] == v[k]
            &&& forall|k: int| v.len() <= k < t.len() ==> a[k] == t[k]
        },
{
}

} // verus!
