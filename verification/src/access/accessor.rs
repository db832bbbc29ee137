use vstd::prelude::*;

use crate::info::{
    ReflectKind, VariantKind, spec_kind_name, spec_variant_kind_name,
};
use crate::text::{push_decimal, spec_decimal};

verus! {

/// A single step of a reflection path: a named field, a field by its index,
/// a tuple element or a list element.
#[derive(Debug, Clone, PartialEq, Eq, PartialOrd, Ord, Hash)]
pub enum Accessor {
    /// A named field of a struct or struct variant: `.name`.
    FieldName(String),
    /// A field of a struct by its position: `#index`.
    FieldIndex(usize),
    /// An element of a tuple or tuple struct: `.index`.
    TupleIndex(usize),
    /// An element of a list or array: `[index]`.
    ListIndex(usize),
}

/// The mathematical value of an [`Accessor`].
pub enum AccessorView {
    FieldName(Seq<char>),
    FieldIndex(usize),
    TupleIndex(usize),
    ListIndex(usize),
}

impl View for Accessor {
    type V = AccessorView;

    open spec fn view(&self) -> AccessorView {
        match self {
            Accessor::FieldName(name) => AccessorView::FieldName(name@),
            Accessor::FieldIndex(i) => AccessorView::FieldIndex(*i),
            Accessor::TupleIndex(i) => AccessorView::TupleIndex(*i),
            Accessor::ListIndex(i) => AccessorView::ListIndex(*i),
        }
    }
}

/// The path text that denotes an accessor.
pub open spec fn spec_accessor_text(a: AccessorView) -> Seq<char> {
    match a {
        AccessorView::FieldName(name) => seq!['.'] + name,
        AccessorView::FieldIndex(i) => seq!['#'] + spec_decimal(i as nat),
        AccessorView::TupleIndex(i) => seq!['.'] + spec_decimal(i as nat),
        AccessorView::ListIndex(i) => seq!['['] + spec_decimal(i as nat) + seq![']'],
    }
}

impl Accessor {
    /// Appends the path text of this accessor to `s`.
    pub fn write_text(&self, s: &mut String)
        ensures
            final(s)@ == old(s)@ + spec_accessor_text(self@),
    {
        proof {
            reveal_strlit(".");
            reveal_strlit("#");
            reveal_strlit("[");
            reveal_strlit("]");
        }
        match self {
            Accessor::FieldName(name) => {
                s.append(".");
                s.append(name.as_str());
            },
            Accessor::FieldIndex(i) => {
                s.append("#");
                push_decimal(s, *i);
            },
            Accessor::TupleIndex(i) => {
                s.append(".");
                push_decimal(s, *i);
            },
            Accessor::ListIndex(i) => {
                s.append("[");
                push_decimal(s, *i);
                s.append("]");
            },
        }
        proof {
            assert(final(s)@ =~= old(s)@ + spec_accessor_text(self@));
        }
    }

    /// The path text of this accessor, such as `.name`, `#1`, `.0` or `[2]`.
    pub fn to_string(&self) -> (r: String)
        ensures
            r@ == spec_accessor_text(self@),
    {
        let mut s = String::new();
        self.write_text(&mut s);
        proof {
            assert(s@ =~= spec_accessor_text(self@));
        }
        s
    }
}

/// An [`Accessor`] together with the byte offset in the path text at which it was found.
#[derive(Debug, Clone, PartialEq, Eq, PartialOrd, Ord, Hash)]
pub struct OffsetAccessor {
    /// The accessor.
    pub accessor: Accessor,
    /// The byte offset in the path text just after the token that starts the accessor, if any.
    pub offset: Option<usize>,
}

impl View for OffsetAccessor {
    type V = (AccessorView, Option<usize>);

    open spec fn view(&self) -> (AccessorView, Option<usize>) {
        (self.accessor@, self.offset)
    }
}

/// The reason an accessor could not be applied to a value.
#[derive(Debug, Clone, Copy, PartialEq, Eq)]
pub enum AccessErrorKind {
    /// The value has no such field or element; the value is of the given kind.
    MissingField(ReflectKind),
    /// The accessor applies to values of kind `expected`, but the value is of kind `actual`.
    IncompatibleTypes { expected: ReflectKind, actual: ReflectKind },
    /// The accessor applies to enum variants of kind `expected`, but the variant is of kind `actual`.
    IncompatibleEnumVariantTypes { expected: VariantKind, actual: VariantKind },
}

/// An error that occurs when an accessor cannot be applied to a value.
#[derive(Debug, Clone, PartialEq, Eq)]
pub struct AccessError {
    /// Why the access failed.
    pub kind: AccessErrorKind,
    /// The accessor that failed.
    pub accessor: Accessor,
    /// The offset of the accessor in its path text, if any.
    pub offset: Option<usize>,
}

impl AccessErrorKind {
    /// The displayed form of this kind of error.
    pub open spec fn spec_text(&self) -> Seq<char> {
        match self {
            AccessErrorKind::MissingField(kind) => "the "@ + spec_kind_name(*kind)
                + " accessed doesn't have the requested field"@,
            AccessErrorKind::IncompatibleTypes { expected, actual } => "expected "@
                + spec_kind_name(*expected) + " access to access a "@ + spec_kind_name(*actual),
            AccessErrorKind::IncompatibleEnumVariantTypes { expected, actual } => "expected variant "@
                + spec_variant_kind_name(*expected) + " access to access a "@
                + spec_variant_kind_name(*actual) + " variant"@,
        }
    }

    /// The displayed form of this kind of error.
    pub fn to_string(&self) -> (r: String)
        ensures
            r@ == self.spec_text(),
    {
        match self {
            AccessErrorKind::MissingField(kind) => {
                let mut s = String::from_str("the ");
                s.append(kind.name());
                s.append(" accessed doesn't have the requested field");
                s
            },
            AccessErrorKind::IncompatibleTypes { expected, actual } => {
                let mut s = String::from_str("expected ");
                s.append(expected.name());
                s.append(" access to access a ");
                s.append(actual.name());
                s
            },
            AccessErrorKind::IncompatibleEnumVariantTypes { expected, actual } => {
                let mut s = String::from_str("expected variant ");
                s.append(expected.debug_name());
                s.append(" access to access a ");
                s.append(actual.debug_name());
                s.append(" variant");
                s
            },
        }
    }
}

impl AccessError {
    /// The displayed form of this error.
    pub open spec fn spec_text(&self) -> Seq<char> {
        "error accessing element with `"@ + spec_accessor_text(self.accessor@) + "` accessor: "@
            + self.kind.spec_text()
    }

    /// The displayed form of this error.
    pub fn to_string(&self) -> (r: String)
        ensures
            r@ == self.spec_text(),
    {
        let mut s = String::from_str("error accessing element with `");
        self.accessor.write_text(&mut s);
        s.append("` accessor: ");
        let k = self.kind.to_string();
        s.append(k.as_str());
        proof {
            assert(s@ =~= self.spec_text());
        }
        s
    }
}

} // verus!
