use core::any::TypeId;
use vstd::prelude::*;

use crate::info::type_path::{TypePath, TypePathTable, opt_text};
use crate::info::type_struct::Type;
use crate::text::{push_decimal, spec_decimal};

verus! {

/// A named field, of a struct or of a struct variant: its type, its name and its docs.
#[derive(Clone, Copy, Debug)]
pub struct NamedField {
    ty: Type,
    name: &'static str,
    docs: Option<&'static str>,
}

impl NamedField {
    pub closed spec fn spec_ty(&self) -> Type {
        self.ty
    }

    pub closed spec fn spec_name(&self) -> Seq<char> {
        self.name@
    }

    pub closed spec fn spec_docs(&self) -> Option<Seq<char>> {
        opt_text(self.docs)
    }

    /// A field named `name` of type `T`, without docs.
    pub fn new<T: TypePath + ?Sized>(name: &'static str) -> (r: Self)
        ensures
            r.spec_ty().spec_table().describes::<T>(),
            r.spec_name() == name@,
            r.spec_docs() is None,
    {
        NamedField { ty: Type::of::<T>(), name, docs: None }
    }

    /// The name of the field.
    pub fn name(&self) -> (r: &'static str)
        ensures
            r@ == self.spec_name(),
    {
        self.name
    }

    /// The docs of the field.
    pub fn docs(&self) -> (r: Option<&'static str>)
        ensures
            opt_text(r) == self.spec_docs(),
    {
        self.docs
    }

    /// The same field with `docs` as its docs (they are replaced, not added to).
    pub fn with_docs(self, docs: Option<&'static str>) -> (r: Self)
        ensures
            r.spec_ty() == self.spec_ty(),
            r.spec_name() == self.spec_name(),
            r.spec_docs() == opt_text(docs),
    {
        NamedField { docs, ..self }
    }

    /// The type of the field.
    pub fn ty(&self) -> (r: &Type)
        ensures
            *r == self.spec_ty(),
    {
        &self.ty
    }

    /// The [`TypeId`] of the field's type.
    pub fn type_id(&self) -> (r: TypeId)
        ensures
            r == self.spec_ty().spec_id(),
    {
        self.ty.id()
    }

    /// The path of the field's type.
    pub fn type_path(&self) -> (r: &'static str)
        ensures
            r@ == self.spec_ty().spec_table().spec_path(),
    {
        self.ty.path()
    }

    /// The [`TypePathTable`] of the field's type.
    pub fn type_path_table(&self) -> (r: &TypePathTable)
        ensures
            *r == self.spec_ty().spec_table(),
    {
        self.ty.type_path_table()
    }

    /// Whether the given type is the field's type; only the [`TypeId`]s are compared.
    pub fn is<T: ?Sized + 'static>(&self) -> bool {
        self.ty.is::<T>()
    }
}

/// An unnamed field, of a tuple, a tuple struct or a tuple variant: its type,
/// its index and its docs.
#[derive(Clone, Copy, Debug)]
pub struct UnnamedField {
    ty: Type,
    index: usize,
    docs: Option<&'static str>,
}

impl UnnamedField {
    pub closed spec fn spec_ty(&self) -> Type {
        self.ty
    }

    pub closed spec fn spec_index(&self) -> usize {
        self.index
    }

    pub closed spec fn spec_docs(&self) -> Option<Seq<char>> {
        opt_text(self.docs)
    }

    /// The field at position `index`, of type `T`, without docs.
    pub fn new<T: TypePath + ?Sized>(index: usize) -> (r: Self)
        ensures
            r.spec_ty().spec_table().describes::<T>(),
            r.spec_index() == index,
            r.spec_docs() is None,
    {
        UnnamedField { ty: Type::of::<T>(), index, docs: None }
    }

    /// The index of the field.
    pub fn index(&self) -> (r: usize)
        ensures
            r == self.spec_index(),
    {
        self.index
    }

    /// The docs of the field.
    pub fn docs(&self) -> (r: Option<&'static str>)
        ensures
            opt_text(r) == self.spec_docs(),
    {
        self.docs
    }

    /// The same field with `docs` as its docs (they are replaced, not added to).
    pub fn with_docs(self, docs: Option<&'static str>) -> (r: Self)
        ensures
            r.spec_ty() == self.spec_ty(),
            r.spec_index() == self.spec_index(),
            r.spec_docs() == opt_text(docs),
    {
        UnnamedField { docs, ..self }
    }

    /// The type of the field.
    pub fn ty(&self) -> (r: &Type)
        ensures
            *r == self.spec_ty(),
    {
        &self.ty
    }

    /// The [`TypeId`] of the field's type.
    pub fn type_id(&self) -> (r: TypeId)
        ensures
            r == self.spec_ty().spec_id(),
    {
        self.ty.id()
    }

    /// The path of the field's type.
    pub fn type_path(&self) -> (r: &'static str)
        ensures
            r@ == self.spec_ty().spec_table().spec_path(),
    {
        self.ty.path()
    }

    /// The [`TypePathTable`] of the field's type.
    pub fn type_path_table(&self) -> (r: &TypePathTable)
        ensures
            *r == self.spec_ty().spec_table(),
    {
        self.ty.type_path_table()
    }

    /// Whether the given type is the field's type; only the [`TypeId`]s are compared.
    pub fn is<T: ?Sized + 'static>(&self) -> bool {
        self.ty.is::<T>()
    }
}

/// The name of a field: a name for a named field, an index for an unnamed one.
#[derive(Clone, Debug, PartialEq, Eq)]
pub enum FieldId {
    Named(String),
    Unnamed(usize),
}

impl FieldId {
    /// The displayed form of a field name.
    pub open spec fn spec_text(&self) -> Seq<char> {
        match self {
            FieldId::Named(name) => name@,
            FieldId::Unnamed(i) => spec_decimal(*i as nat),
        }
    }

    /// Appends the displayed form of this field name to `s`.
    pub fn write_text(&self, s: &mut String)
        ensures
            final(s)@ == old(s)@ + self.spec_text(),
    {
        match self {
            FieldId::Named(name) => s.append(name.as_str()),
            FieldId::Unnamed(i) => push_decimal(s, *i),
        }
    }

    /// The displayed form of this field name.
    pub fn to_string(&self) -> (r: String)
        ensures
            r@ == self.spec_text(),
    {
        let mut s = String::new();
        self.write_text(&mut s);
        proof {
            assert(s@ =~= self.spec_text());
        }
        s
    }
}

} // verus!
