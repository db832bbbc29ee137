use core::any::TypeId;
use vstd::prelude::*;
use vstd::std_specs::iter::IteratorSpec;

use crate::info::fields::UnnamedField;
use crate::info::generics::{GenericInfo, Generics};
use crate::info::names::copy_slice;
use crate::info::type_path::{TypePath, TypePathTable, opt_text};
use crate::info::type_struct::Type;

verus! {

/// Information on a tuple type: its type, its generic parameters, its fields in order
/// and its docs.
#[derive(Clone, Debug)]
pub struct TupleInfo {
    ty: Type,
    generics: Generics,
    fields: Vec<UnnamedField>,
    docs: Option<&'static str>,
}

impl TupleInfo {
    pub closed spec fn spec_ty(&self) -> Type {
        self.ty
    }

    pub closed spec fn spec_generics(&self) -> Seq<GenericInfo> {
        self.generics@
    }

    pub closed spec fn spec_fields(&self) -> Seq<UnnamedField> {
        self.fields@
    }

    pub closed spec fn spec_docs(&self) -> Option<Seq<char>> {
        opt_text(self.docs)
    }

    /// Information on the tuple `T` with the given fields, in that order, without
    /// generic parameters or docs.
    pub fn new<T: TypePath + ?Sized>(fields: &[UnnamedField]) -> (r: Self)
        ensures
            r.spec_ty().spec_table().describes::<T>(),
            r.spec_generics() == Seq::<GenericInfo>::empty(),
            r.spec_fields() == fields@,
            r.spec_docs() is None,
    {
        TupleInfo {
            ty: Type::of::<T>(),
            generics: Generics::new(),
            fields: copy_slice(fields),
            docs: None,
        }
    }

    /// The field at position `index`.
    pub fn field_at(&self, index: usize) -> (r: Option<&UnnamedField>)
        ensures
            if index < self.spec_fields().len() {
                r == Some(&self.spec_fields()[index as int])
            } else {
                r is None
            },
    {
        if index < self.fields.len() {
            Some(&self.fields[index])
        } else {
            None
        }
    }

    /// An iterator over the fields, in order.
    pub fn iter(&self) -> (r: core::slice::Iter<'_, UnnamedField>)
        ensures
            r.remaining() == self.spec_fields().map_values(|f: UnnamedField| &f),
    {
        let r = self.fields.as_slice().iter();
        proof {
            assert(r.remaining() =~= self.spec_fields().map_values(|f: UnnamedField| &f));
        }
        r
    }

    /// The number of fields.
    pub fn field_len(&self) -> (r: usize)
        ensures
            r == self.spec_fields().len(),
    {
        self.fields.len()
    }

    /// The same information with `generics` as the generic parameters (they are
    /// replaced).
    pub fn with_generics(self, generics: Generics) -> (r: Self)
        ensures
            r.spec_ty() == self.spec_ty(),
            r.spec_fields() == self.spec_fields(),
            r.spec_generics() == generics@,
            r.spec_docs() == self.spec_docs(),
    {
        TupleInfo { generics, ..self }
    }

    /// The same information with `docs` as the docs (they are replaced, not added to).
    pub fn with_docs(self, docs: Option<&'static str>) -> (r: Self)
        ensures
            r.spec_ty() == self.spec_ty(),
            r.spec_fields() == self.spec_fields(),
            r.spec_generics() == self.spec_generics(),
            r.spec_docs() == opt_text(docs),
    {
        TupleInfo { docs, ..self }
    }

    /// The generic parameters of the tuple.
    pub fn generics(&self) -> (r: &Generics)
        ensures
            r@ == self.spec_generics(),
    {
        &self.generics
    }

    /// The docs of the tuple.
    pub fn docs(&self) -> (r: Option<&'static str>)
        ensures
            opt_text(r) == self.spec_docs(),
    {
        self.docs
    }

    /// The tuple's type.
    pub fn ty(&self) -> (r: &Type)
        ensures
            *r == self.spec_ty(),
    {
        &self.ty
    }

    /// The [`TypeId`] of the tuple's type.
    pub fn type_id(&self) -> (r: TypeId)
        ensures
            r == self.spec_ty().spec_id(),
    {
        self.ty.id()
    }

    /// The path of the tuple's type.
    pub fn type_path(&self) -> (r: &'static str)
        ensures
            r@ == self.spec_ty().spec_table().spec_path(),
    {
        self.ty.path()
    }

    /// The [`TypePathTable`] of the tuple's type.
    pub fn type_path_table(&self) -> (r: &TypePathTable)
        ensures
            *r == self.spec_ty().spec_table(),
    {
        self.ty.type_path_table()
    }

    /// Whether the given type is the tuple's type; only the [`TypeId`]s are compared.
    pub fn is<T: ?Sized + 'static>(&self) -> bool {
        self.ty.is::<T>()
    }
}

} // verus!
