mod type_registry;

pub use type_registry::{
    TypeRegistry, count_of, ids_distinct, law_newest_path_wins, law_registered_type_is_found, law_shared_name_is_ambiguous,
    law_unique_name_leads_to_its_type, lemma_count_positive, lemma_last_index, name_target_of,
    path_target_of, position_in,
};
