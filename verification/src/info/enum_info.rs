use core::any::TypeId;
use vstd::prelude::*;
use vstd::std_specs::iter::IteratorSpec;

use crate::info::generics::{GenericInfo, Generics};
use crate::info::names::{last_index_of, lemma_distinct_names, opt_index, spec_last_index, texts};
use crate::info::type_path::{TypePath, TypePathTable, opt_text};
use crate::info::type_struct::Type;
use crate::info::variant_info::{VariantInfo, VariantView};

verus! {

/// The names of a sequence of variants.
pub open spec fn variant_names_of(variants: Seq<VariantInfo>) -> Seq<Seq<char>> {
    variants.map_values(|v: VariantInfo| v.spec_name())
}

/// What a sequence of variants holds.
pub open spec fn variant_views(variants: Seq<VariantInfo>) -> Seq<VariantView> {
    variants.map_values(|v: VariantInfo| v@)
}

/// Information on an enum: its type, its generic parameters, its variants in order
/// and its docs.
#[derive(Debug)]
pub struct EnumInfo {
    ty: Type,
    generics: Generics,
    variants: Vec<VariantInfo>,
    variant_names: Vec<&'static str>,
    docs: Option<&'static str>,
}

impl EnumInfo {
    /// The name list agrees with the variants.
    #[verifier::type_invariant]
    spec fn names_agree(&self) -> bool {
        texts(self.variant_names@) == variant_names_of(self.variants@)
    }

    pub closed spec fn spec_ty(&self) -> Type {
        self.ty
    }

    pub closed spec fn spec_generics(&self) -> Seq<GenericInfo> {
        self.generics@
    }

    pub closed spec fn spec_variants(&self) -> Seq<VariantInfo> {
        self.variants@
    }

    pub closed spec fn spec_docs(&self) -> Option<Seq<char>> {
        opt_text(self.docs)
    }

    /// Information on the enum `T` with copies of the given variants, in that order,
    /// without generic parameters or docs.
    pub fn new<T: TypePath + ?Sized>(variants: &[VariantInfo]) -> (r: Self)
        ensures
            r.spec_ty().spec_table().describes::<T>(),
            r.spec_generics() == Seq::<GenericInfo>::empty(),
            variant_views(r.spec_variants()) == variant_views(variants@),
            r.spec_docs() is None,
    {
        let mut owned: Vec<VariantInfo> = Vec::new();
        let mut names: Vec<&'static str> = Vec::new();
        let mut i: usize = 0;
        while i < variants.len()
            invariant
                i <= variants@.len(),
                variant_views(owned@) == variant_views(variants@.subrange(0, i as int)),
                texts(names@) == variant_names_of(owned@),
            decreases variants@.len() - i,
        {
            let v = variants[i].clone();
            let n = v.name();
            let ghost old_names = names@;
            let ghost old_owned = owned@;
            owned.push(v);
            names.push(n);
            proof {
                assert(texts(old_names).len() == old_names.len());
                assert(variant_names_of(old_owned).len() == old_owned.len());
                assert forall|k: int| 0 <= k < names@.len() implies #[trigger] texts(names@)[k]
                    == variant_names_of(owned@)[k] by {
                    if k < old_names.len() {
                        assert(texts(old_names)[k] == variant_names_of(old_owned)[k]);
                        assert(names@[k] == old_names[k]);
                        assert(owned@[k] == old_owned[k]);
                    }
                }
                assert(texts(names@) =~= variant_names_of(owned@));
                assert(variant_views(old_owned).len() == old_owned.len());
                assert forall|k: int| 0 <= k < owned@.len() implies #[trigger] variant_views(owned@)[k]
                    == variant_views(variants@.subrange(0, i + 1))[k] by {
                    if k < old_owned.len() {
                        assert(variant_views(old_owned)[k]
                            == variant_views(variants@.subrange(0, i as int))[k]);
                        assert(owned@[k] == old_owned[k]);
                    }
                }
                assert(variant_views(owned@) =~= variant_views(variants@.subrange(0, i + 1)));
            }
            i = i + 1;
        }
        proof {
            assert(variants@.subrange(0, i as int) =~= variants@);
        }
        EnumInfo {
            ty: Type::of::<T>(),
            generics: Generics::new(),
            variants: owned,
            variant_names: names,
            docs: None,
        }
    }

    /// The names of the variants, in order.
    pub fn variant_names(&self) -> (r: &[&'static str])
        ensures
            texts(r@) == variant_names_of(self.spec_variants()),
    {
        proof {
            use_type_invariant(self);
        }
        self.variant_names.as_slice()
    }

    /// The variant named `name`; of several, the last.
    pub fn variant(&self, name: &str) -> (r: Option<&VariantInfo>)
        ensures
            match spec_last_index(variant_names_of(self.spec_variants()), name@) {
                Some(i) => r == Some(&self.spec_variants()[i]),
                None => r is None,
            },
    {
        match self.index_of(name) {
            Some(i) => Some(&self.variants[i]),
            None => None,
        }
    }

    /// The variant at position `index`.
    pub fn variant_at(&self, index: usize) -> (r: Option<&VariantInfo>)
        ensures
            if index < self.spec_variants().len() {
                r == Some(&self.spec_variants()[index as int])
            } else {
                r is None
            },
    {
        if index < self.variants.len() {
            Some(&self.variants[index])
        } else {
            None
        }
    }

    /// The position of the variant named `name`; of several, the last.
    pub fn index_of(&self, name: &str) -> (r: Option<usize>)
        ensures
            opt_index(r) == spec_last_index(variant_names_of(self.spec_variants()), name@),
            r matches Some(i) ==> i < self.spec_variants().len(),
    {
        proof {
            use_type_invariant(self);
        }
        let names = self.variant_names.as_slice();
        assert(texts(names@) == variant_names_of(self.variants@));
        assert(names@.len() == self.variants@.len()) by {
            assert(texts(names@).len() == names@.len());
        }
        last_index_of(names, name)
    }

    /// The full path of the variant named `name`: the enum's path, `::` and `name`.
    pub fn variant_path(&self, name: &str) -> (r: String)
        ensures
            r@ == self.spec_ty().spec_table().spec_path() + "::"@ + name@,
    {
        let mut s = String::from_str(self.type_path());
        s.append("::");
        s.append(name);
        s
    }

    /// Whether a variant is named `name`.
    pub fn contains_variant(&self, name: &str) -> (r: bool)
        ensures
            r == spec_last_index(variant_names_of(self.spec_variants()), name@) is Some,
    {
        self.index_of(name).is_some()
    }

    /// An iterator over the variants, in order.
    pub fn iter(&self) -> (r: core::slice::Iter<'_, VariantInfo>)
        ensures
            r.remaining() == self.spec_variants().map_values(|v: VariantInfo| &v),
    {
        let r = self.variants.as_slice().iter();
        proof {
            assert(r.remaining() =~= self.spec_variants().map_values(|v: VariantInfo| &v));
        }
        r
    }

    /// The number of variants.
    pub fn variant_len(&self) -> (r: usize)
        ensures
            r == self.spec_variants().len(),
    {
        self.variants.len()
    }

    /// The same information with `generics` as the generic parameters (they are
    /// replaced).
    pub fn with_generics(self, generics: Generics) -> (r: Self)
        ensures
            r.spec_ty() == self.spec_ty(),
            r.spec_variants() == self.spec_variants(),
            r.spec_generics() == generics@,
            r.spec_docs() == self.spec_docs(),
    {
        proof {
            use_type_invariant(&self);
        }
        EnumInfo { generics, ..self }
    }

    /// The same information with `docs` as the docs (they are replaced, not added to).
    pub fn with_docs(self, docs: Option<&'static str>) -> (r: Self)
        ensures
            r.spec_ty() == self.spec_ty(),
            r.spec_variants() == self.spec_variants(),
            r.spec_generics() == self.spec_generics(),
            r.spec_docs() == opt_text(docs),
    {
        proof {
            use_type_invariant(&self);
        }
        EnumInfo { docs, ..self }
    }

    /// The generic parameters of the enum.
    pub fn generics(&self) -> (r: &Generics)
        ensures
            r@ == self.spec_generics(),
    {
        &self.generics
    }

    /// The docs of the enum.
    pub fn docs(&self) -> (r: Option<&'static str>)
        ensures
            opt_text(r) == self.spec_docs(),
    {
        self.docs
    }

    /// The enum's type.
    pub fn ty(&self) -> (r: &Type)
        ensures
            *r == self.spec_ty(),
    {
        &self.ty
    }

    /// The [`TypeId`] of the enum's type.
    pub fn type_id(&self) -> (r: TypeId)
        ensures
            r == self.spec_ty().spec_id(),
    {
        self.ty.id()
    }

    /// The path of the enum's type.
    pub fn type_path(&self) -> (r: &'static str)
        ensures
            r@ == self.spec_ty().spec_table().spec_path(),
    {
        self.ty.path()
    }

    /// The [`TypePathTable`] of the enum's type.
    pub fn type_path_table(&self) -> (r: &TypePathTable)
        ensures
            *r == self.spec_ty().spec_table(),
    {
        self.ty.type_path_table()
    }

    /// Whether the given type is the enum's type; only the [`TypeId`]s are compared.
    pub fn is<T: ?Sized + 'static>(&self) -> bool {
        self.ty.is::<T>()
    }
}

impl Clone for EnumInfo {
    fn clone(&self) -> (r: Self)
        ensures
            r.spec_ty() == self.spec_ty(),
            variant_views(r.spec_variants()) == variant_views(self.spec_variants()),
            r.spec_docs() == self.spec_docs(),
    {
        proof {
            use_type_invariant(self);
        }
        let mut owned: Vec<VariantInfo> = Vec::new();
        let mut names: Vec<&'static str> = Vec::new();
        let mut i: usize = 0;
        while i < self.variants.len()
            invariant
                i <= self.variants@.len(),
                texts(self.variant_names@) == variant_names_of(self.variants@),
                variant_views(owned@) == variant_views(self.variants@.subrange(0, i as int)),
                texts(names@) == variant_names_of(owned@),
            decreases self.variants@.len() - i,
        {
            let v = self.variants[i].clone();
            let n = v.name();
            let ghost old_names = names@;
            let ghost old_owned = owned@;
            owned.push(v);
            names.push(n);
            proof {
                assert(texts(old_names).len() == old_names.len());
                assert(variant_names_of(old_owned).len() == old_owned.len());
                assert forall|k: int| 0 <= k < names@.len() implies #[trigger] texts(names@)[k]
                    == variant_names_of(owned@)[k] by {
                    if k < old_names.len() {
                        assert(texts(old_names)[k] == variant_names_of(old_owned)[k]);
                        assert(names@[k] == old_names[k]);
                        assert(owned@[k] == old_owned[k]);
                    }
                }
                assert(texts(names@) =~= variant_names_of(owned@));
                assert(variant_views(old_owned).len() == old_owned.len());
                assert forall|k: int| 0 <= k < owned@.len() implies #[trigger] variant_views(owned@)[k]
                    == variant_views(self.variants@.subrange(0, i + 1))[k] by {
                    if k < old_owned.len() {
                        assert(variant_views(old_owned)[k]
                            == variant_views(self.variants@.subrange(0, i as int))[k]);
                        assert(owned@[k] == old_owned[k]);
                    }
                }
                assert(variant_views(owned@) =~= variant_views(self.variants@.subrange(0, i + 1)));
            }
            i = i + 1;
        }
        proof {
            assert(self.variants@.subrange(0, i as int) =~= self.variants@);
        }
        EnumInfo {
            ty: self.ty,
            generics: self.generics.clone(),
            variants: owned,
            variant_names: names,
            docs: self.docs,
        }
    }
}

/// Information built from variants whose names are all different finds each variant
/// by its name at its own position, and finds nothing under any other name.
pub proof fn law_enum_info_lookups(info: &EnumInfo, variants: Seq<VariantInfo>, i: int, m: Seq<char>)
    requires
        variant_views(info.spec_variants()) == variant_views(variants),
        forall|a: int, b: int| 0 <= a < b < variants.len() ==> variants[a].spec_name() != variants[b].spec_name(),
        0 <= i < variants.len(),
    ensures
        info.spec_variants().len() == variants.len(),
        spec_last_index(variant_names_of(info.spec_variants()), variants[i].spec_name()) == Some(i),
        info.spec_variants()[i].spec_name() == variants[i].spec_name(),
        (forall|k: int| 0 <= k < variants.len() ==> variants[k].spec_name() != m) ==> spec_last_index(
            variant_names_of(info.spec_variants()),
            m,
        ) is None,
{
    let own = info.spec_variants();
    assert(variant_views(own).len() == own.len());
    assert(variant_views(variants).len() == variants.len());
    let names = variant_names_of(own);
    assert forall|k: int| 0 <= k < own.len() implies #[trigger] names[k] == variants[k].spec_name() by {
        assert(variant_views(own)[k] == variant_views(variants)[k]);
        assert(own[k]@ == variants[k]@);
    }
    assert forall|a: int, b: int| 0 <= a < b < names.len() implies names[a] != names[b] by {
        assert(names[a] == variants[a].spec_name());
        assert(names[b] == variants[b].spec_name());
    }
    lemma_distinct_names(names, i, m);
    assert(names[i] == variants[i].spec_name());
    if forall|k: int| 0 <= k < variants.len() ==> variants[k].spec_name() != m {
        assert forall|k: int| 0 <= k < names.len() implies names[k] != m by {
            assert(names[k] == variants[k].spec_name());
        }
    }
}

} // verus!
