use vstd::prelude::*;
use vstd::std_specs::iter::IteratorSpec;

use crate::info::fields::{NamedField, UnnamedField};
use crate::info::named_fields::{NamedFields, field_names_of};
use crate::info::names::{copy_slice, opt_index, spec_last_index, texts};
use crate::info::type_path::opt_text;

verus! {

/// The form of an enum variant.
#[derive(Debug, Copy, Clone, PartialEq, Eq, Hash, Structural)]
pub enum VariantKind {
    /// A variant with named fields: `A { foo: usize }`.
    Struct,
    /// A variant with unnamed fields: `A(usize)`.
    Tuple,
    /// A variant without fields: `A`.
    Unit,
}

/// The name of a variant kind as its debug form shows it.
pub open spec fn spec_variant_kind_name(kind: VariantKind) -> Seq<char> {
    match kind {
        VariantKind::Struct => "Struct"@,
        VariantKind::Tuple => "Tuple"@,
        VariantKind::Unit => "Unit"@,
    }
}

impl VariantKind {
    /// The name of this variant kind as its debug form shows it.
    pub fn debug_name(&self) -> (r: &'static str)
        ensures
            r@ == spec_variant_kind_name(*self),
    {
        match self {
            VariantKind::Struct => "Struct",
            VariantKind::Tuple => "Tuple",
            VariantKind::Unit => "Unit",
        }
    }
}

/// Error returned when variant information of one kind was expected,
/// but one of another kind was found.
#[derive(Debug, Clone, Copy, PartialEq, Eq, Structural)]
pub struct VariantKindError {
    /// The expected variant kind.
    pub expected: VariantKind,
    /// The variant kind that was found.
    pub received: VariantKind,
}

impl VariantKindError {
    /// The displayed form of this error.
    pub fn to_string(&self) -> (r: String)
        ensures
            r@ == "variant type mismatch: expected "@ + spec_variant_kind_name(self.expected)
                + ", received "@ + spec_variant_kind_name(self.received),
    {
        let mut s = String::from_str("variant type mismatch: expected ");
        s.append(self.expected.debug_name());
        s.append(", received ");
        s.append(self.received.debug_name());
        s
    }
}

/// Information on a struct variant, `A { foo: usize }`: its name, its fields in
/// order and its docs.
#[derive(Debug)]
pub struct StructVariantInfo {
    fields: NamedFields,
    name: &'static str,
    docs: Option<&'static str>,
}

impl StructVariantInfo {
    pub closed spec fn spec_name(&self) -> Seq<char> {
        self.name@
    }

    pub closed spec fn spec_fields(&self) -> Seq<NamedField> {
        self.fields.spec_fields()
    }

    pub closed spec fn spec_docs(&self) -> Option<Seq<char>> {
        opt_text(self.docs)
    }

    /// Information on the variant `name` with the given fields, in that order,
    /// without docs.
    pub fn new(name: &'static str, fields: &[NamedField]) -> (r: Self)
        ensures
            r.spec_name() == name@,
            r.spec_fields() == fields@,
            r.spec_docs() is None,
    {
        StructVariantInfo { fields: NamedFields::new(fields), name, docs: None }
    }

    /// The name of the variant.
    pub fn name(&self) -> (r: &'static str)
        ensures
            r@ == self.spec_name(),
    {
        self.name
    }

    /// The names of the fields, in order.
    pub fn field_names(&self) -> (r: &[&'static str])
        ensures
            texts(r@) == field_names_of(self.spec_fields()),
    {
        self.fields.names()
    }

    /// The field named `name`; of several, the last.
    pub fn field(&self, name: &str) -> (r: Option<&NamedField>)
        ensures
            match spec_last_index(field_names_of(self.spec_fields()), name@) {
                Some(i) => r == Some(&self.spec_fields()[i]),
                None => r is None,
            },
    {
        self.fields.field(name)
    }

    /// The field at position `index`.
    pub fn field_at(&self, index: usize) -> (r: Option<&NamedField>)
        ensures
            if index < self.spec_fields().len() {
                r == Some(&self.spec_fields()[index as int])
            } else {
                r is None
            },
    {
        self.fields.field_at(index)
    }

    /// The position of the field named `name`; of several, the last.
    pub fn index_of(&self, name: &str) -> (r: Option<usize>)
        ensures
            opt_index(r) == spec_last_index(field_names_of(self.spec_fields()), name@),
    {
        self.fields.index_of(name)
    }

    /// An iterator over the fields, in order.
    pub fn iter(&self) -> (r: core::slice::Iter<'_, NamedField>)
        ensures
            r.remaining() == self.spec_fields().map_values(|f: NamedField| &f),
    {
        self.fields.iter()
    }

    /// The number of fields.
    pub fn field_len(&self) -> (r: usize)
        ensures
            r == self.spec_fields().len(),
    {
        self.fields.len()
    }

    /// The docs of the variant.
    pub fn docs(&self) -> (r: Option<&'static str>)
        ensures
            opt_text(r) == self.spec_docs(),
    {
        self.docs
    }

    /// The same information with `docs` as the docs (they are replaced, not added to).
    pub fn with_docs(self, docs: Option<&'static str>) -> (r: Self)
        ensures
            r.spec_name() == self.spec_name(),
            r.spec_fields() == self.spec_fields(),
            r.spec_docs() == opt_text(docs),
    {
        StructVariantInfo { docs, ..self }
    }
}

impl Clone for StructVariantInfo {
    fn clone(&self) -> (r: Self)
        ensures
            r.spec_name() == self.spec_name(),
            r.spec_fields() == self.spec_fields(),
            r.spec_docs() == self.spec_docs(),
    {
        StructVariantInfo { fields: self.fields.clone(), name: self.name, docs: self.docs }
    }
}

/// Information on a tuple variant, `A(usize)`: its name, its fields in order and
/// its docs.
#[derive(Debug)]
pub struct TupleVariantInfo {
    fields: Vec<UnnamedField>,
    name: &'static str,
    docs: Option<&'static str>,
}

impl TupleVariantInfo {
    pub closed spec fn spec_name(&self) -> Seq<char> {
        self.name@
    }

    pub closed spec fn spec_fields(&self) -> Seq<UnnamedField> {
        self.fields@
    }

    pub closed spec fn spec_docs(&self) -> Option<Seq<char>> {
        opt_text(self.docs)
    }

    /// Information on the variant `name` with the given fields, in that order,
    /// without docs.
    pub fn new(name: &'static str, fields: &[UnnamedField]) -> (r: Self)
        ensures
            r.spec_name() == name@,
            r.spec_fields() == fields@,
            r.spec_docs() is None,
    {
        TupleVariantInfo { fields: copy_slice(fields), name, docs: None }
    }

    /// The name of the variant.
    pub fn name(&self) -> (r: &'static str)
        ensures
            r@ == self.spec_name(),
    {
        self.name
    }

    /// The field at position `index`.
    pub fn field_at(&self, index: usize) -> (r: Option<&UnnamedField>)
        ensures
            if index < self.spec_fields().len() {
                r == Some(&self.spec_fields()[index as int])
            } else {
                r is None
            },
    {
        if index < self.fields.len() {
            Some(&self.fields[index])
        } else {
            None
        }
    }

    /// An iterator over the fields, in order.
    pub fn iter(&self) -> (r: core::slice::Iter<'_, UnnamedField>)
        ensures
            r.remaining() == self.spec_fields().map_values(|f: UnnamedField| &f),
    {
        let r = self.fields.as_slice().iter();
        proof {
            assert(r.remaining() =~= self.spec_fields().map_values(|f: UnnamedField| &f));
        }
        r
    }

    /// The number of fields.
    pub fn field_len(&self) -> (r: usize)
        ensures
            r == self.spec_fields().len(),
    {
        self.fields.len()
    }

    /// The docs of the variant.
    pub fn docs(&self) -> (r: Option<&'static str>)
        ensures
            opt_text(r) == self.spec_docs(),
    {
        self.docs
    }

    /// The same information with `docs` as the docs (they are replaced, not added to).
    pub fn with_docs(self, docs: Option<&'static str>) -> (r: Self)
        ensures
            r.spec_name() == self.spec_name(),
            r.spec_fields() == self.spec_fields(),
            r.spec_docs() == opt_text(docs),
    {
        TupleVariantInfo { docs, ..self }
    }
}

impl Clone for TupleVariantInfo {
    fn clone(&self) -> (r: Self)
        ensures
            r.spec_name() == self.spec_name(),
            r.spec_fields() == self.spec_fields(),
            r.spec_docs() == self.spec_docs(),
    {
        TupleVariantInfo { fields: copy_slice(self.fields.as_slice()), name: self.name, docs: self.docs }
    }
}

/// Information on a unit variant, `A`: its name and its docs.
#[derive(Clone, Copy, Debug)]
pub struct UnitVariantInfo {
    name: &'static str,
    docs: Option<&'static str>,
}

impl UnitVariantInfo {
    pub closed spec fn spec_name(&self) -> Seq<char> {
        self.name@
    }

    pub closed spec fn spec_docs(&self) -> Option<Seq<char>> {
        opt_text(self.docs)
    }

    /// Information on the variant `name`, without docs.
    pub fn new(name: &'static str) -> (r: Self)
        ensures
            r.spec_name() == name@,
            r.spec_docs() is None,
    {
        UnitVariantInfo { name, docs: None }
    }

    /// The name of the variant.
    pub fn name(&self) -> (r: &'static str)
        ensures
            r@ == self.spec_name(),
    {
        self.name
    }

    /// The docs of the variant.
    pub fn docs(&self) -> (r: Option<&'static str>)
        ensures
            opt_text(r) == self.spec_docs(),
    {
        self.docs
    }

    /// The same information with `docs` as the docs (they are replaced, not added to).
    pub fn with_docs(self, docs: Option<&'static str>) -> (r: Self)
        ensures
            r.spec_name() == self.spec_name(),
            r.spec_docs() == opt_text(docs),
    {
        UnitVariantInfo { docs, ..self }
    }
}

/// What variant information holds: the form, the name, the fields and the docs.
pub ghost enum VariantView {
    Struct { name: Seq<char>, fields: Seq<NamedField>, docs: Option<Seq<char>> },
    Tuple { name: Seq<char>, fields: Seq<UnnamedField>, docs: Option<Seq<char>> },
    Unit { name: Seq<char>, docs: Option<Seq<char>> },
}

/// Information on an enum variant of any form.
#[derive(Debug)]
pub enum VariantInfo {
    Struct(StructVariantInfo),
    Tuple(TupleVariantInfo),
    Unit(UnitVariantInfo),
}

impl View for VariantInfo {
    type V = VariantView;

    open spec fn view(&self) -> VariantView {
        match self {
            VariantInfo::Struct(info) => VariantView::Struct {
                name: info.spec_name(),
                fields: info.spec_fields(),
                docs: info.spec_docs(),
            },
            VariantInfo::Tuple(info) => VariantView::Tuple {
                name: info.spec_name(),
                fields: info.spec_fields(),
                docs: info.spec_docs(),
            },
            VariantInfo::Unit(info) => VariantView::Unit {
                name: info.spec_name(),
                docs: info.spec_docs(),
            },
        }
    }
}

impl Clone for VariantInfo {
    fn clone(&self) -> (r: Self)
        ensures
            r@ == self@,
    {
        match self {
            VariantInfo::Struct(info) => VariantInfo::Struct(info.clone()),
            VariantInfo::Tuple(info) => VariantInfo::Tuple(info.clone()),
            VariantInfo::Unit(info) => VariantInfo::Unit(*info),
        }
    }
}

impl VariantInfo {
    /// The form of the variant.
    pub open spec fn spec_kind(&self) -> VariantKind {
        match self {
            VariantInfo::Struct(_) => VariantKind::Struct,
            VariantInfo::Tuple(_) => VariantKind::Tuple,
            VariantInfo::Unit(_) => VariantKind::Unit,
        }
    }

    /// The name of the variant.
    pub open spec fn spec_name(&self) -> Seq<char> {
        match self {
            VariantInfo::Struct(info) => info.spec_name(),
            VariantInfo::Tuple(info) => info.spec_name(),
            VariantInfo::Unit(info) => info.spec_name(),
        }
    }

    /// The docs of the variant.
    pub open spec fn spec_docs(&self) -> Option<Seq<char>> {
        match self {
            VariantInfo::Struct(info) => info.spec_docs(),
            VariantInfo::Tuple(info) => info.spec_docs(),
            VariantInfo::Unit(info) => info.spec_docs(),
        }
    }

    /// The struct variant information, or an error that names the form found.
    pub fn as_struct_variant(&self) -> (r: Result<&StructVariantInfo, VariantKindError>)
        ensures
            match self {
                VariantInfo::Struct(info) => r == Ok::<&StructVariantInfo, VariantKindError>(info),
                _ => r == Err::<&StructVariantInfo, VariantKindError>(
                    VariantKindError { expected: VariantKind::Struct, received: self.spec_kind() },
                ),
            },
    {
        match self {
            VariantInfo::Struct(info) => Ok(info),
            _ => Err(VariantKindError { expected: VariantKind::Struct, received: self.variant_type() }),
        }
    }

    /// The tuple variant information, or an error that names the form found.
    pub fn as_tuple_variant(&self) -> (r: Result<&TupleVariantInfo, VariantKindError>)
        ensures
            match self {
                VariantInfo::Tuple(info) => r == Ok::<&TupleVariantInfo, VariantKindError>(info),
                _ => r == Err::<&TupleVariantInfo, VariantKindError>(
                    VariantKindError { expected: VariantKind::Tuple, received: self.spec_kind() },
                ),
            },
    {
        match self {
            VariantInfo::Tuple(info) => Ok(info),
            _ => Err(VariantKindError { expected: VariantKind::Tuple, received: self.variant_type() }),
        }
    }

    /// The unit variant information, or an error that names the form found.
    pub fn as_unit_variant(&self) -> (r: Result<&UnitVariantInfo, VariantKindError>)
        ensures
            match self {
                VariantInfo::Unit(info) => r == Ok::<&UnitVariantInfo, VariantKindError>(info),
                _ => r == Err::<&UnitVariantInfo, VariantKindError>(
                    VariantKindError { expected: VariantKind::Unit, received: self.spec_kind() },
                ),
            },
    {
        match self {
            VariantInfo::Unit(info) => Ok(info),
            _ => Err(VariantKindError { expected: VariantKind::Unit, received: self.variant_type() }),
        }
    }

    /// The name of the variant.
    pub fn name(&self) -> (r: &'static str)
        ensures
            r@ == self.spec_name(),
    {
        match self {
            VariantInfo::Struct(info) => info.name(),
            VariantInfo::Tuple(info) => info.name(),
            VariantInfo::Unit(info) => info.name(),
        }
    }

    /// The form of the variant.
    pub fn variant_type(&self) -> (r: VariantKind)
        ensures
            r == self.spec_kind(),
    {
        match self {
            VariantInfo::Struct(_) => VariantKind::Struct,
            VariantInfo::Tuple(_) => VariantKind::Tuple,
            VariantInfo::Unit(_) => VariantKind::Unit,
        }
    }

    /// The docs of the variant.
    pub fn docs(&self) -> (r: Option<&'static str>)
        ensures
            opt_text(r) == self.spec_docs(),
    {
        match self {
            VariantInfo::Struct(info) => info.docs(),
            VariantInfo::Tuple(info) => info.docs(),
            VariantInfo::Unit(info) => info.docs(),
        }
    }
}

/// The form of variant information names its variant: each cast succeeds exactly on
/// the information of its own form.
pub proof fn law_form_names_variant(info: VariantInfo)
    ensures
        (info is Struct) == (info.spec_kind() == VariantKind::Struct),
        (info is Tuple) == (info.spec_kind() == VariantKind::Tuple),
        (info is Unit) == (info.spec_kind() == VariantKind::Unit),
{
}

} // verus!
