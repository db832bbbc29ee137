//! Reflection paths: their accessors, a reader of path texts, and path errors.

mod accessor;
mod path;
mod path_access;
mod round_trip;
mod string_parser;

pub use accessor::{
    AccessError, AccessErrorKind, Accessor, AccessorView, OffsetAccessor, spec_accessor_text,
};
pub use path::{AccessPath, ParseError, spec_parse_error_text};
pub use path_access::{
    PathAccessError, PathAccessor, accessor_views, law_parse_outcome_unique,
    lemma_path_text_push, parse_result_matches, prepend, spec_path_text,
};
pub use round_trip::{
    is_symbol_char, is_ws_char, law_path_text_reads_back, plain_accessor, plain_field_name,
};
pub use string_parser::{
    Ident, InnerError, PathParser, SpecParseFault, SpecToken, Token, digits_value, fault_is,
    is_ascii_ws, is_digit, is_symbol, law_ident_token_shape, law_no_step_at_end,
    law_offset_follows_symbol, law_offsets_increase, law_parse_collects_reader_items,
    law_error_offset_within, law_reader_offsets_increase, law_step_none_iff_blank, item_offset,
    lemma_step_advances, spec_collect, spec_reader_items, parse_usize, range_text, skip_ws,
    spec_error_message, spec_fault_message, spec_field, spec_following, spec_next_ident,
    spec_next_token, spec_parse_from, spec_parse_path, spec_parse_usize, spec_parse_usize_digits,
    spec_step, spec_symbol_token, spec_token_str, spec_token_text, starts_char, symbol_from,
    symbol_kind, token_is, trim_end, unsigned_digits,
};
