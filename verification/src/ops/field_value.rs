use vstd::prelude::*;

use crate::info::ReflectKind;
use crate::ops::apply_error::ApplyError;
use crate::ops::dynamic_enum::ApplyValue;
use crate::ops::dynamic_set::{ValueEq, copy_bytes, same_bytes};

verus! {

/// A reflected value of one of two kinds: an opaque number, or a list of bytes.
#[derive(Debug, PartialEq, Eq)]
pub enum FieldValue {
    Opaque(u64),
    List(Vec<u8>),
}

/// What a [`FieldValue`] holds.
pub ghost enum FieldView {
    Opaque(u64),
    List(Seq<u8>),
}

impl View for FieldValue {
    type V = FieldView;

    open spec fn view(&self) -> FieldView {
        match self {
            FieldValue::Opaque(n) => FieldView::Opaque(*n),
            FieldValue::List(v) => FieldView::List(v@),
        }
    }
}

/// The kind of a value.
pub open spec fn field_kind(v: FieldView) -> ReflectKind {
    match v {
        FieldView::Opaque(_) => ReflectKind::Opaque,
        FieldView::List(_) => ReflectKind::List,
    }
}

impl FieldValue {
    /// The kind of this value.
    pub fn kind(&self) -> (r: ReflectKind)
        ensures
            r == field_kind(self@),
    {
        match self {
            FieldValue::Opaque(_) => ReflectKind::Opaque,
            FieldValue::List(_) => ReflectKind::List,
        }
    }
}

/// Applying a value of the same kind: a number replaces a number, a list is applied to
/// a list by the list rule. A value of the other kind is refused with
/// `MismatchedKinds`, from the applied value's kind to this one's, and nothing changes.
impl ApplyValue for FieldValue {
    open spec fn spec_apply(target: FieldView, value: FieldView) -> (Result<(), ApplyError>, FieldView) {
        match (target, value) {
            (FieldView::Opaque(_), FieldView::Opaque(n)) => (Ok(()), FieldView::Opaque(n)),
            (FieldView::List(t), FieldView::List(v)) => {
                let (r, after) = <Vec<u8> as ApplyValue>::spec_apply(t, v);
                (r, FieldView::List(after))
            },
            _ => (
                Err(ApplyError::MismatchedKinds { from_kind: field_kind(value), to_kind: field_kind(target) }),
                target,
            ),
        }
    }

    fn try_apply(&mut self, value: &Self) -> (r: Result<(), ApplyError>) {
        match value {
            FieldValue::Opaque(n) => {
                if let FieldValue::List(_) = self {
                    return Err(ApplyError::MismatchedKinds { from_kind: ReflectKind::Opaque, to_kind: ReflectKind::List });
                }
                *self = FieldValue::Opaque(*n);
                Ok(())
            },
            FieldValue::List(v) => match self {
                FieldValue::List(t) => t.try_apply(v),
                FieldValue::Opaque(_) => Err(
                    ApplyError::MismatchedKinds { from_kind: ReflectKind::List, to_kind: ReflectKind::Opaque },
                ),
            },
        }
    }
}

impl ValueEq for FieldValue {
    fn value_eq(&self, other: &Self) -> (r: bool) {
        match (self, other) {
            (FieldValue::Opaque(a), FieldValue::Opaque(b)) => *a == *b,
            (FieldValue::List(a), FieldValue::List(b)) => same_bytes(a, b),
            _ => false,
        }
    }

    fn copy_value(&self) -> (r: Self) {
        match self {
            FieldValue::Opaque(n) => FieldValue::Opaque(*n),
            FieldValue::List(v) => FieldValue::List(copy_bytes(v)),
        }
    }
}

/// Applying a field value succeeds exactly when both values are of the same kind; a
/// number then takes the applied number, and a refused value is left as it was, with
/// an error naming the applied value's kind and then the target's.
pub proof fn law_field_apply_kinds()
    ensures
        forall|t: FieldView, v: FieldView| {
            let (r, a) = #[trigger] <FieldValue as ApplyValue>::spec_apply(t, v);
            &&& (r is Ok <==> field_kind(t) == field_kind(v))
            &&& field_kind(a) == field_kind(t)
            &&& (r is Err ==> a == t && r == Err::<(), ApplyError>(
                ApplyError::MismatchedKinds { from_kind: field_kind(v), to_kind: field_kind(t) },
            ))
            &&& (v is Opaque && t is Opaque ==> a == v)
        },
{
}

} // verus!
