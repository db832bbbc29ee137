use vstd::prelude::*;

use crate::info::{ReflectKind, ReflectKindError, spec_kind_name};
use crate::text::{push_decimal, spec_decimal};

verus! {

/// The ways in which applying one reflected value to another can fail.
#[derive(Debug, Clone, PartialEq, Eq)]
pub enum ApplyError {
    /// Attempted to apply a value of one kind to a value of another kind,
    /// e.g. a struct to an enum.
    MismatchedKinds { from_kind: ReflectKind, to_kind: ReflectKind },
    /// The enum variant that was applied to is missing a field.
    MissingEnumField { variant_name: String, field_name: String },
    /// Tried to apply incompatible types.
    MismatchedTypes { from_type: String, to_type: String },
    /// Attempted to apply an array-like value to another of different size,
    /// e.g. a `[u8; 4]` to a `[u8; 3]`.
    DifferentSize { from_size: usize, to_size: usize },
    /// The enum that was applied to has no variant with the given name.
    UnknownVariant { enum_name: String, variant_name: String },
}

impl ApplyError {
    /// The displayed form of this error.
    pub open spec fn spec_text(&self) -> Seq<char> {
        match self {
            ApplyError::MismatchedKinds { from_kind, to_kind } => "attempted to apply `"@
                + spec_kind_name(*from_kind) + "` to `"@ + spec_kind_name(*to_kind) + "`"@,
            ApplyError::MissingEnumField { variant_name, field_name } => "enum variant `"@
                + variant_name@ + "` doesn't have a field named `"@ + field_name@ + "`"@,
            ApplyError::MismatchedTypes { from_type, to_type } => "`"@ + from_type@ + "` is not `"@
                + to_type@ + "`"@,
            ApplyError::DifferentSize { from_size, to_size } => "attempted to apply type with "@
                + spec_decimal(*from_size as nat) + " size to a type with "@ + spec_decimal(
                *to_size as nat,
            ) + " size"@,
            ApplyError::UnknownVariant { enum_name, variant_name } => "variant with name `"@
                + variant_name@ + "` does not exist on enum `"@ + enum_name@ + "`"@,
        }
    }

    /// The displayed form of this error.
    pub fn to_string(&self) -> (r: String)
        ensures
            r@ == self.spec_text(),
    {
        let mut s = String::new();
        match self {
            ApplyError::MismatchedKinds { from_kind, to_kind } => {
                s.append("attempted to apply `");
                s.append(from_kind.name());
                s.append("` to `");
                s.append(to_kind.name());
                s.append("`");
            },
            ApplyError::MissingEnumField { variant_name, field_name } => {
                s.append("enum variant `");
                s.append(variant_name.as_str());
                s.append("` doesn't have a field named `");
                s.append(field_name.as_str());
                s.append("`");
            },
            ApplyError::MismatchedTypes { from_type, to_type } => {
                s.append("`");
                s.append(from_type.as_str());
                s.append("` is not `");
                s.append(to_type.as_str());
                s.append("`");
            },
            ApplyError::DifferentSize { from_size, to_size } => {
                s.append("attempted to apply type with ");
                push_decimal(&mut s, *from_size);
                s.append(" size to a type with ");
                push_decimal(&mut s, *to_size);
                s.append(" size");
            },
            ApplyError::UnknownVariant { enum_name, variant_name } => {
                s.append("variant with name `");
                s.append(variant_name.as_str());
                s.append("` does not exist on enum `");
                s.append(enum_name.as_str());
                s.append("`");
            },
        }
        proof {
            assert(s@ =~= self.spec_text());
        }
        s
    }
}

/// A kind mismatch becomes [`ApplyError::MismatchedKinds`]: the kind that was received
/// is the one applied from, the expected kind the one applied to.
impl From<ReflectKindError> for ApplyError {
    fn from(value: ReflectKindError) -> (r: Self) {
        ApplyError::MismatchedKinds { from_kind: value.received, to_kind: value.expected }
    }
}

impl vstd::std_specs::convert::FromSpecImpl<ReflectKindError> for ApplyError {
    open spec fn obeys_from_spec() -> bool {
        true
    }

    open spec fn from_spec(v: ReflectKindError) -> Self {
        ApplyError::MismatchedKinds { from_kind: v.received, to_kind: v.expected }
    }
}

} // verus!
