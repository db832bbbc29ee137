use core::any::TypeId;
use vstd::prelude::*;

use crate::info::generics::{GenericInfo, Generics};
use crate::info::type_path::{TypePath, TypePathTable, opt_text};
use crate::info::type_struct::Type;

verus! {

/// Information on a list-like type: its type, its generic parameters, the type of its
/// items and its docs.
#[derive(Clone, Debug)]
pub struct ListInfo {
    ty: Type,
    generics: Generics,
    item_ty: Type,
    docs: Option<&'static str>,
}

impl ListInfo {
    pub closed spec fn spec_ty(&self) -> Type {
        self.ty
    }

    pub closed spec fn spec_generics(&self) -> Seq<GenericInfo> {
        self.generics@
    }

    pub closed spec fn spec_docs(&self) -> Option<Seq<char>> {
        opt_text(self.docs)
    }

    pub closed spec fn spec_item_ty(&self) -> Type {
        self.item_ty
    }

    /// Information on the list type `TList` with items of type `TItem`, without
    /// generic parameters or docs.
    pub fn new<TList: TypePath + ?Sized, TItem: TypePath + ?Sized>() -> (r: Self)
        ensures
            r.spec_ty().spec_table().describes::<TList>(),
            r.spec_item_ty().spec_table().describes::<TItem>(),
            r.spec_generics() == Seq::<GenericInfo>::empty(),
            r.spec_docs() is None,
    {
        ListInfo {
            ty: Type::of::<TList>(),
            generics: Generics::new(),
            item_ty: Type::of::<TItem>(),
            docs: None,
        }
    }

    /// The type of the items.
    pub fn item_ty(&self) -> (r: Type)
        ensures
            r == self.spec_item_ty(),
    {
        self.item_ty
    }

    /// The same information with `generics` as the generic parameters (they are
    /// replaced).
    pub fn with_generics(self, generics: Generics) -> (r: Self)
        ensures
            r.spec_ty() == self.spec_ty(),
            r.spec_item_ty() == self.spec_item_ty(),
            r.spec_generics() == generics@,
            r.spec_docs() == self.spec_docs(),
    {
        ListInfo { generics, ..self }
    }

    /// The same information with `docs` as the docs (they are replaced, not added to).
    pub fn with_docs(self, docs: Option<&'static str>) -> (r: Self)
        ensures
            r.spec_ty() == self.spec_ty(),
            r.spec_item_ty() == self.spec_item_ty(),
            r.spec_generics() == self.spec_generics(),
            r.spec_docs() == opt_text(docs),
    {
        ListInfo { docs, ..self }
    }

    /// The generic parameters of the list.
    pub fn generics(&self) -> (r: &Generics)
        ensures
            r@ == self.spec_generics(),
    {
        &self.generics
    }

    /// The docs of the list.
    pub fn docs(&self) -> (r: Option<&'static str>)
        ensures
            opt_text(r) == self.spec_docs(),
    {
        self.docs
    }

    /// The list's type.
    pub fn ty(&self) -> (r: &Type)
        ensures
            *r == self.spec_ty(),
    {
        &self.ty
    }

    /// The [`TypeId`] of the list's type.
    pub fn type_id(&self) -> (r: TypeId)
        ensures
            r == self.spec_ty().spec_id(),
    {
        self.ty.id()
    }

    /// The path of the list's type.
    pub fn type_path(&self) -> (r: &'static str)
        ensures
            r@ == self.spec_ty().spec_table().spec_path(),
    {
        self.ty.path()
    }

    /// The [`TypePathTable`] of the list's type.
    pub fn type_path_table(&self) -> (r: &TypePathTable)
        ensures
            *r == self.spec_ty().spec_table(),
    {
        self.ty.type_path_table()
    }

    /// Whether the given type is the list's type; only the [`TypeId`]s are compared.
    pub fn is<T: ?Sized + 'static>(&self) -> bool {
        self.ty.is::<T>()
    }
}

} // verus!
