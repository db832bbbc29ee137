use core::any::TypeId;
use vstd::prelude::*;

use crate::info::type_path::{TypePath, TypePathTable, opt_text};

verus! {

/// The identifier that Rust gives each type.
#[verifier::external_type_specification]
#[verifier::external_body]
pub struct ExTypeId(TypeId);

/// Calls `core::any::TypeId::of::<T>()`: the identifier of the type `T`.
/// Nothing is stated of the value, which the compiler chooses.
#[verifier::external_body]
fn type_id_of<T: ?Sized + 'static>() -> TypeId {
    TypeId::of::<T>()
}

/// Calls `<TypeId as PartialEq>::eq`: two identifiers compare equal exactly when
/// they are the same identifier.
#[verifier::external_body]
pub(crate) fn type_id_eq(a: &TypeId, b: &TypeId) -> (r: bool)
    ensures
        r == (*a == *b),
{
    *a == *b
}

/// The base representation of a Rust type: its [`TypeId`] and [`TypePathTable`].
#[derive(Copy, Clone, Debug, Hash)]
pub struct Type {
    type_path_table: TypePathTable,
    type_id: TypeId,
}

impl Type {
    pub closed spec fn spec_table(&self) -> TypePathTable {
        self.type_path_table
    }

    pub closed spec fn spec_id(&self) -> TypeId {
        self.type_id
    }

    /// Creates a new [`Type`] from a type that implements [`TypePath`].
    pub fn of<T: TypePath + ?Sized>() -> (r: Self)
        ensures
            r.spec_table().describes::<T>(),
    {
        Type { type_path_table: TypePathTable::of::<T>(), type_id: type_id_of::<T>() }
    }

    /// Returns the [`TypeId`] of the type.
    pub fn id(&self) -> (r: TypeId)
        ensures
            r == self.spec_id(),
    {
        self.type_id
    }

    /// See [`TypePath::type_path`].
    pub fn path(&self) -> (r: &'static str)
        ensures
            r@ == self.spec_table().spec_path(),
    {
        self.type_path_table.path()
    }

    /// See [`TypePath::short_type_path`].
    pub fn short_path(&self) -> (r: &'static str)
        ensures
            r@ == self.spec_table().spec_name(),
    {
        self.type_path_table.name()
    }

    /// See [`TypePath::type_ident`].
    pub fn ident(&self) -> (r: Option<&'static str>)
        ensures
            opt_text(r) == self.spec_table().spec_ident(),
    {
        self.type_path_table.ident()
    }

    /// See [`TypePath::crate_name`].
    pub fn crate_name(&self) -> (r: Option<&'static str>)
        ensures
            opt_text(r) == self.spec_table().spec_crate_name(),
    {
        self.type_path_table.crate_name()
    }

    /// See [`TypePath::module`].
    pub fn module(&self) -> (r: Option<&'static str>)
        ensures
            opt_text(r) == self.spec_table().spec_module_path(),
    {
        self.type_path_table.module()
    }

    /// See [`TypePathTable`].
    pub fn type_path_table(&self) -> (r: &TypePathTable)
        ensures
            *r == self.spec_table(),
    {
        &self.type_path_table
    }

    /// Whether `id` is the identifier of this type.
    pub fn is_id(&self, id: &TypeId) -> (r: bool)
        ensures
            r == (*id == self.spec_id()),
    {
        type_id_eq(id, &self.type_id)
    }

    /// Whether the given type is this one; only the [`TypeId`]s are compared.
    pub fn is<T: ?Sized + 'static>(&self) -> bool {
        let id = type_id_of::<T>();
        self.is_id(&id)
    }
}

/// Two [`Type`]s are equal when their [`TypeId`]s are; the names are not compared.
impl PartialEq for Type {
    fn eq(&self, other: &Self) -> (r: bool) {
        type_id_eq(&self.type_id, &other.type_id)
    }
}

impl Eq for Type {}

impl vstd::std_specs::cmp::PartialEqSpecImpl for Type {
    open spec fn obeys_eq_spec() -> bool {
        true
    }

    open spec fn eq_spec(&self, other: &Self) -> bool {
        self.spec_id() == other.spec_id()
    }
}

} // verus!
