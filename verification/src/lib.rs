//! Runtime type information for Rust values: type paths, type information tables
//! (structs, tuples, enums and their fields and variants, generic parameters), a
//! registry of types by id, path and short name, reflection kinds, error values and
//! a parser for reflection access paths.

pub mod access;
pub mod info;
pub mod ops;
pub mod registry;
mod impls;
pub use impls::{law_paths_agree, paths_agree};
mod text;
