use core::any::TypeId;
use vstd::prelude::*;

use crate::info::generics::{GenericInfo, Generics};
use crate::info::type_path::{TypePath, TypePathTable, opt_text};
use crate::info::type_struct::Type;

verus! {

/// Information on an array type: its type, its generic parameters, the type of its
/// items, its fixed length and its docs.
#[derive(Clone, Debug)]
pub struct ArrayInfo {
    ty: Type,
    generics: Generics,
    item_ty: Type,
    capacity: usize,
    docs: Option<&'static str>,
}

impl ArrayInfo {
    pub closed spec fn spec_ty(&self) -> Type {
        self.ty
    }

    pub closed spec fn spec_generics(&self) -> Seq<GenericInfo> {
        self.generics@
    }

    pub closed spec fn spec_docs(&self) -> Option<Seq<char>> {
        opt_text(self.docs)
    }

    pub closed spec fn spec_item_ty(&self) -> Type {
        self.item_ty
    }

    pub closed spec fn spec_capacity(&self) -> usize {
        self.capacity
    }

    /// Information on the array type `TArray` of `capacity` items of type `TItem`,
    /// without generic parameters or docs.
    pub fn new<TArray: TypePath + ?Sized, TItem: TypePath + ?Sized>(capacity: usize) -> (r: Self)
        ensures
            r.spec_ty().spec_table().describes::<TArray>(),
            r.spec_item_ty().spec_table().describes::<TItem>(),
            r.spec_capacity() == capacity,
            r.spec_generics() == Seq::<GenericInfo>::empty(),
            r.spec_docs() is None,
    {
        ArrayInfo {
            ty: Type::of::<TArray>(),
            generics: Generics::new(),
            item_ty: Type::of::<TItem>(),
            capacity,
            docs: None,
        }
    }

    /// The fixed number of items.
    pub fn capacity(&self) -> (r: usize)
        ensures
            r == self.spec_capacity(),
    {
        self.capacity
    }

    /// The type of the items.
    pub fn item_ty(&self) -> (r: Type)
        ensures
            r == self.spec_item_ty(),
    {
        self.item_ty
    }

    /// The same information with `generics` as the generic parameters (they are
    /// replaced).
    pub fn with_generics(self, generics: Generics) -> (r: Self)
        ensures
            r.spec_ty() == self.spec_ty(),
            r.spec_item_ty() == self.spec_item_ty(),
            r.spec_capacity() == self.spec_capacity(),
            r.spec_generics() == generics@,
            r.spec_docs() == self.spec_docs(),
    {
        ArrayInfo { generics, ..self }
    }

    /// The same information with `docs` as the docs (they are replaced, not added to).
    pub fn with_docs(self, docs: Option<&'static str>) -> (r: Self)
        ensures
            r.spec_ty() == self.spec_ty(),
            r.spec_item_ty() == self.spec_item_ty(),
            r.spec_capacity() == self.spec_capacity(),
            r.spec_generics() == self.spec_generics(),
            r.spec_docs() == opt_text(docs),
    {
        ArrayInfo { docs, ..self }
    }

    /// The generic parameters of the array.
    pub fn generics(&self) -> (r: &Generics)
        ensures
            r@ == self.spec_generics(),
    {
        &self.generics
    }

    /// The docs of the array.
    pub fn docs(&self) -> (r: Option<&'static str>)
        ensures
            opt_text(r) == self.spec_docs(),
    {
        self.docs
    }

    /// The array's type.
    pub fn ty(&self) -> (r: &Type)
        ensures
            *r == self.spec_ty(),
    {
        &self.ty
    }

    /// The [`TypeId`] of the array's type.
    pub fn type_id(&self) -> (r: TypeId)
        ensures
            r == self.spec_ty().spec_id(),
    {
        self.ty.id()
    }

    /// The path of the array's type.
    pub fn type_path(&self) -> (r: &'static str)
        ensures
            r@ == self.spec_ty().spec_table().spec_path(),
    {
        self.ty.path()
    }

    /// The [`TypePathTable`] of the array's type.
    pub fn type_path_table(&self) -> (r: &TypePathTable)
        ensures
            *r == self.spec_ty().spec_table(),
    {
        self.ty.type_path_table()
    }

    /// Whether the given type is the array's type; only the [`TypeId`]s are compared.
    pub fn is<T: ?Sized + 'static>(&self) -> bool {
        self.ty.is::<T>()
    }
}

} // verus!
