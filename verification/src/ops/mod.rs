mod apply_error;
pub use apply_error::ApplyError;

mod clone_error;
pub use clone_error::ReflectCloneError;

mod enum_ops;
pub use enum_ops::{
    EnumApplyPlan, PlanView, ShapeView, VariantShape, enum_apply_plan, enum_partial_eq_outcome, law_tuple_apply_positions,
    min_nat, other_view, plan_view, spec_apply_pairs, spec_enum_apply_plan, struct_pairs, has_counterpart, opt_shape, shape_kind,
    shape_len, spec_enum_partial_eq, string_texts,
};

mod dynamic_set;
pub use dynamic_set::{DynamicSet, ValueEq, views_of};

mod dynamic_enum;
pub use dynamic_enum::{
    ApplyValue, DynamicEnum, DynamicVariant, apply_fold, enum_partial_eq, law_byte_list_apply, law_opaque_apply_replaces, law_struct_variant_eq, law_tuple_variant_eq, pairs_within, spec_field_results,
    value_views,
    variant_shape,
    variant_values,
};

mod hash_message;
pub use hash_message::{spec_unhashable_message, unhashable_message};

mod dynamic_list;
pub use dynamic_list::{DynamicList, law_positions_apply_replaces, replace_prefix, same_positions};

mod dynamic_struct;
pub use dynamic_struct::{
    DynamicStruct, by_name_applied, law_struct_apply_replaces, law_struct_eq_is_map_eq, names_distinct, spec_struct_eq,
};

mod dynamic_array;
pub use dynamic_array::DynamicArray;

mod dynamic_tuple;
pub use dynamic_tuple::DynamicTuple;

mod dynamic_map;
pub use dynamic_map::{
    DynamicMap, entries_map, law_map_apply_replaces, law_map_eq_is_equality, law_map_values_eq, lemma_entries_dom, map_apply_fold, spec_map_eq,
};

mod field_value;
pub use field_value::{FieldValue, FieldView, field_kind, law_field_apply_kinds};

mod dynamic_tuple_struct;
pub use dynamic_tuple_struct::DynamicTupleStruct;
