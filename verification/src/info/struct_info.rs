use core::any::TypeId;
use vstd::prelude::*;
use vstd::std_specs::iter::IteratorSpec;

use crate::info::fields::NamedField;
use crate::info::generics::{GenericInfo, Generics};
use crate::info::named_fields::{NamedFields, field_names_of};
use crate::info::names::{lemma_distinct_names, opt_index, spec_last_index, texts};
use crate::info::type_path::{TypePath, TypePathTable, opt_text};
use crate::info::type_struct::Type;

verus! {

/// Information on a struct: its type, its generic parameters, its fields in order
/// and its docs.
#[derive(Debug)]
pub struct StructInfo {
    ty: Type,
    generics: Generics,
    fields: NamedFields,
    docs: Option<&'static str>,
}

impl StructInfo {
    pub closed spec fn spec_ty(&self) -> Type {
        self.ty
    }

    pub closed spec fn spec_generics(&self) -> Seq<GenericInfo> {
        self.generics@
    }

    pub closed spec fn spec_fields(&self) -> Seq<NamedField> {
        self.fields.spec_fields()
    }

    pub closed spec fn spec_docs(&self) -> Option<Seq<char>> {
        opt_text(self.docs)
    }

    /// Information on the struct `T` with the given fields, in that order, without
    /// generic parameters or docs.
    pub fn new<T: TypePath + ?Sized>(fields: &[NamedField]) -> (r: Self)
        ensures
            r.spec_ty().spec_table().describes::<T>(),
            r.spec_generics() == Seq::<GenericInfo>::empty(),
            r.spec_fields() == fields@,
            r.spec_docs() is None,
    {
        StructInfo {
            ty: Type::of::<T>(),
            generics: Generics::new(),
            fields: NamedFields::new(fields),
            docs: None,
        }
    }

    /// The names of the fields, in order.
    pub fn field_names(&self) -> (r: &[&'static str])
        ensures
            texts(r@) == field_names_of(self.spec_fields()),
    {
        self.fields.names()
    }

    /// The field named `name`; of several, the last.
    pub fn field(&self, name: &str) -> (r: Option<&NamedField>)
        ensures
            match spec_last_index(field_names_of(self.spec_fields()), name@) {
                Some(i) => r == Some(&self.spec_fields()[i]),
                None => r is None,
            },
    {
        self.fields.field(name)
    }

    /// The field at position `index`.
    pub fn field_at(&self, index: usize) -> (r: Option<&NamedField>)
        ensures
            if index < self.spec_fields().len() {
                r == Some(&self.spec_fields()[index as int])
            } else {
                r is None
            },
    {
        self.fields.field_at(index)
    }

    /// The position of the field named `name`; of several, the last.
    pub fn index_of(&self, name: &str) -> (r: Option<usize>)
        ensures
            opt_index(r) == spec_last_index(field_names_of(self.spec_fields()), name@),
    {
        self.fields.index_of(name)
    }

    /// An iterator over the fields, in order.
    pub fn iter(&self) -> (r: core::slice::Iter<'_, NamedField>)
        ensures
            r.remaining() == self.spec_fields().map_values(|f: NamedField| &f),
    {
        self.fields.iter()
    }

    /// The number of fields.
    pub fn field_len(&self) -> (r: usize)
        ensures
            r == self.spec_fields().len(),
    {
        self.fields.len()
    }

    /// The generic parameters of the struct.
    pub fn generics(&self) -> (r: &Generics)
        ensures
            r@ == self.spec_generics(),
    {
        &self.generics
    }

    /// The same information with `generics` as the generic parameters (they are
    /// replaced).
    pub fn with_generics(self, generics: Generics) -> (r: Self)
        ensures
            r.spec_ty() == self.spec_ty(),
            r.spec_generics() == generics@,
            r.spec_fields() == self.spec_fields(),
            r.spec_docs() == self.spec_docs(),
    {
        StructInfo { generics, ..self }
    }

    /// The docs of the struct.
    pub fn docs(&self) -> (r: Option<&'static str>)
        ensures
            opt_text(r) == self.spec_docs(),
    {
        self.docs
    }

    /// The same information with `docs` as the docs (they are replaced, not added to).
    pub fn with_docs(self, docs: Option<&'static str>) -> (r: Self)
        ensures
            r.spec_ty() == self.spec_ty(),
            r.spec_generics() == self.spec_generics(),
            r.spec_fields() == self.spec_fields(),
            r.spec_docs() == opt_text(docs),
    {
        StructInfo { docs, ..self }
    }

    /// The struct's type.
    pub fn ty(&self) -> (r: &Type)
        ensures
            *r == self.spec_ty(),
    {
        &self.ty
    }

    /// The [`TypeId`] of the struct.
    pub fn type_id(&self) -> (r: TypeId)
        ensures
            r == self.spec_ty().spec_id(),
    {
        self.ty.id()
    }

    /// The path of the struct's type.
    pub fn type_path(&self) -> (r: &'static str)
        ensures
            r@ == self.spec_ty().spec_table().spec_path(),
    {
        self.ty.path()
    }

    /// The [`TypePathTable`] of the struct's type.
    pub fn type_path_table(&self) -> (r: &TypePathTable)
        ensures
            *r == self.spec_ty().spec_table(),
    {
        self.ty.type_path_table()
    }

    /// Whether the given type is the struct's type; only the [`TypeId`]s are compared.
    pub fn is<T: ?Sized + 'static>(&self) -> bool {
        self.ty.is::<T>()
    }
}

impl Clone for StructInfo {
    fn clone(&self) -> (r: Self)
        ensures
            r.spec_ty() == self.spec_ty(),
            r.spec_fields() == self.spec_fields(),
            r.spec_docs() == self.spec_docs(),
    {
        StructInfo {
            ty: self.ty,
            generics: self.generics.clone(),
            fields: self.fields.clone(),
            docs: self.docs,
        }
    }
}

/// Information built from fields whose names are all different finds each field by
/// its name at its own position, and finds nothing under any other name.
pub proof fn law_struct_info_lookups(info: &StructInfo, fields: Seq<NamedField>, i: int, m: Seq<char>)
    requires
        info.spec_fields() == fields,
        forall|a: int, b: int| 0 <= a < b < fields.len() ==> fields[a].spec_name() != fields[b].spec_name(),
        0 <= i < fields.len(),
    ensures
        spec_last_index(field_names_of(info.spec_fields()), fields[i].spec_name()) == Some(i),
        (forall|k: int| 0 <= k < fields.len() ==> fields[k].spec_name() != m) ==> spec_last_index(
            field_names_of(info.spec_fields()),
            m,
        ) is None,
{
    let names = field_names_of(fields);
    assert forall|a: int, b: int| 0 <= a < b < names.len() implies names[a] != names[b] by {
        assert(names[a] == fields[a].spec_name());
        assert(names[b] == fields[b].spec_name());
    }
    assert(names[i] == fields[i].spec_name());
    lemma_distinct_names(names, i, m);
    if forall|k: int| 0 <= k < fields.len() ==> fields[k].spec_name() != m {
        assert forall|k: int| 0 <= k < names.len() implies names[k] != m by {
            assert(names[k] == fields[k].spec_name());
        }
    }
}

} // verus!
