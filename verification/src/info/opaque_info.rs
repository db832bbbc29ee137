use core::any::TypeId;
use vstd::prelude::*;

use crate::info::generics::{GenericInfo, Generics};
use crate::info::type_path::{TypePath, TypePathTable, opt_text};
use crate::info::type_struct::Type;

verus! {

/// Information on an opaque type, one whose inside cannot be seen (such as `u64`
/// or `String`): its type, its generic parameters and its docs.
#[derive(Clone, Debug)]
pub struct OpaqueInfo {
    ty: Type,
    generics: Generics,
    docs: Option<&'static str>,
}

impl OpaqueInfo {
    pub closed spec fn spec_ty(&self) -> Type {
        self.ty
    }

    pub closed spec fn spec_generics(&self) -> Seq<GenericInfo> {
        self.generics@
    }

    pub closed spec fn spec_docs(&self) -> Option<Seq<char>> {
        opt_text(self.docs)
    }

    /// Information on the opaque type `T`, without generic parameters or docs.
    pub fn new<T: TypePath + ?Sized>() -> (r: Self)
        ensures
            r.spec_ty().spec_table().describes::<T>(),
            r.spec_generics() == Seq::<GenericInfo>::empty(),
            r.spec_docs() is None,
    {
        OpaqueInfo { ty: Type::of::<T>(), generics: Generics::new(), docs: None }
    }

    /// The same information with `generics` as the generic parameters (they are
    /// replaced).
    pub fn with_generics(self, generics: Generics) -> (r: Self)
        ensures
            r.spec_ty() == self.spec_ty(),
            r.spec_generics() == generics@,
            r.spec_docs() == self.spec_docs(),
    {
        OpaqueInfo { generics, ..self }
    }

    /// The same information with `docs` as the docs (they are replaced, not added to).
    pub fn with_docs(self, docs: Option<&'static str>) -> (r: Self)
        ensures
            r.spec_ty() == self.spec_ty(),
            r.spec_generics() == self.spec_generics(),
            r.spec_docs() == opt_text(docs),
    {
        OpaqueInfo { docs, ..self }
    }

    /// The generic parameters of the type.
    pub fn generics(&self) -> (r: &Generics)
        ensures
            r@ == self.spec_generics(),
    {
        &self.generics
    }

    /// The docs of the type.
    pub fn docs(&self) -> (r: Option<&'static str>)
        ensures
            opt_text(r) == self.spec_docs(),
    {
        self.docs
    }

    /// The type.
    pub fn ty(&self) -> (r: &Type)
        ensures
            *r == self.spec_ty(),
    {
        &self.ty
    }

    /// The [`TypeId`] of the type.
    pub fn type_id(&self) -> (r: TypeId)
        ensures
            r == self.spec_ty().spec_id(),
    {
        self.ty.id()
    }

    /// The path of the type.
    pub fn type_path(&self) -> (r: &'static str)
        ensures
            r@ == self.spec_ty().spec_table().spec_path(),
    {
        self.ty.path()
    }

    /// The [`TypePathTable`] of the type.
    pub fn type_path_table(&self) -> (r: &TypePathTable)
        ensures
            *r == self.spec_ty().spec_table(),
    {
        self.ty.type_path_table()
    }

    /// Whether the given type is this one; only the [`TypeId`]s are compared.
    pub fn is<T: ?Sized + 'static>(&self) -> bool {
        self.ty.is::<T>()
    }
}

} // verus!
