mod array_info;
mod enum_info;
mod fields;
mod generics;
mod list_info;
mod named_fields;
mod names;
mod opaque_info;
mod struct_info;
mod tuple_info;
mod tuple_struct_info;
mod type_info_impl;
mod type_path;
pub(crate) mod type_struct;
mod variant_info;

pub use array_info::ArrayInfo;
pub use enum_info::{EnumInfo, law_enum_info_lookups, variant_names_of, variant_views};
pub use fields::{FieldId, NamedField, UnnamedField};
pub use generics::{ConstParamInfo, GenericInfo, Generics, TypeParamInfo, spec_first_named};
pub use list_info::ListInfo;
pub use named_fields::field_names_of;
pub use names::{last_index_of, lemma_distinct_names, opt_index, spec_last_index, texts};
pub use opaque_info::OpaqueInfo;
pub use struct_info::{StructInfo, law_struct_info_lookups};
pub use tuple_info::TupleInfo;
pub use tuple_struct_info::TupleStructInfo;
pub use type_info_impl::{
    ReflectKind, ReflectKindError, TypeInfo, law_kind_names_variant, spec_kind_debug_name,
    spec_kind_name,
};
pub use type_path::{DynamicTypePath, TypePath, TypePathTable, opt_text};
pub use type_struct::Type;
pub use variant_info::{
    StructVariantInfo, TupleVariantInfo, UnitVariantInfo, VariantInfo, VariantKind,
    VariantKindError, VariantView, law_form_names_variant, spec_variant_kind_name,
};
