use vstd::prelude::*;

use crate::info::TypePath;

verus! {

impl TypePath for u8 {
    open spec fn spec_type_path() -> Seq<char> {
        "u8"@
    }

    open spec fn spec_short_type_path() -> Seq<char> {
        "u8"@
    }

    open spec fn spec_type_ident() -> Option<Seq<char>> {
        None
    }

    open spec fn spec_crate_name() -> Option<Seq<char>> {
        None
    }

    open spec fn spec_module() -> Option<Seq<char>> {
        None
    }

    fn type_path() -> (r: &'static str) {
        "u8"
    }

    fn short_type_path() -> (r: &'static str) {
        "u8"
    }

    fn type_ident() -> (r: Option<&'static str>) {
        None
    }

    fn crate_name() -> (r: Option<&'static str>) {
        None
    }

    fn module() -> (r: Option<&'static str>) {
        None
    }
}

impl TypePath for u16 {
    open spec fn spec_type_path() -> Seq<char> {
        "u16"@
    }

    open spec fn spec_short_type_path() -> Seq<char> {
        "u16"@
    }

    open spec fn spec_type_ident() -> Option<Seq<char>> {
        None
    }

    open spec fn spec_crate_name() -> Option<Seq<char>> {
        None
    }

    open spec fn spec_module() -> Option<Seq<char>> {
        None
    }

    fn type_path() -> (r: &'static str) {
        "u16"
    }

    fn short_type_path() -> (r: &'static str) {
        "u16"
    }

    fn type_ident() -> (r: Option<&'static str>) {
        None
    }

    fn crate_name() -> (r: Option<&'static str>) {
        None
    }

    fn module() -> (r: Option<&'static str>) {
        None
    }
}

impl TypePath for u32 {
    open spec fn spec_type_path() -> Seq<char> {
        "u32"@
    }

    open spec fn spec_short_type_path() -> Seq<char> {
        "u32"@
    }

    open spec fn spec_type_ident() -> Option<Seq<char>> {
        None
    }

    open spec fn spec_crate_name() -> Option<Seq<char>> {
        None
    }

    open spec fn spec_module() -> Option<Seq<char>> {
        None
    }

    fn type_path() -> (r: &'static str) {
        "u32"
    }

    fn short_type_path() -> (r: &'static str) {
        "u32"
    }

    fn type_ident() -> (r: Option<&'static str>) {
        None
    }

    fn crate_name() -> (r: Option<&'static str>) {
        None
    }

    fn module() -> (r: Option<&'static str>) {
        None
    }
}

impl TypePath for u64 {
    open spec fn spec_type_path() -> Seq<char> {
        "u64"@
    }

    open spec fn spec_short_type_path() -> Seq<char> {
        "u64"@
    }

    open spec fn spec_type_ident() -> Option<Seq<char>> {
        None
    }

    open spec fn spec_crate_name() -> Option<Seq<char>> {
        None
    }

    open spec fn spec_module() -> Option<Seq<char>> {
        None
    }

    fn type_path() -> (r: &'static str) {
        "u64"
    }

    fn short_type_path() -> (r: &'static str) {
        "u64"
    }

    fn type_ident() -> (r: Option<&'static str>) {
        None
    }

    fn crate_name() -> (r: Option<&'static str>) {
        None
    }

    fn module() -> (r: Option<&'static str>) {
        None
    }
}

impl TypePath for u128 {
    open spec fn spec_type_path() -> Seq<char> {
        "u128"@
    }

    open spec fn spec_short_type_path() -> Seq<char> {
        "u128"@
    }

    open spec fn spec_type_ident() -> Option<Seq<char>> {
        None
    }

    open spec fn spec_crate_name() -> Option<Seq<char>> {
        None
    }

    open spec fn spec_module() -> Option<Seq<char>> {
        None
    }

    fn type_path() -> (r: &'static str) {
        "u128"
    }

    fn short_type_path() -> (r: &'static str) {
        "u128"
    }

    fn type_ident() -> (r: Option<&'static str>) {
        None
    }

    fn crate_name() -> (r: Option<&'static str>) {
        None
    }

    fn module() -> (r: Option<&'static str>) {
        None
    }
}

impl TypePath for usize {
    open spec fn spec_type_path() -> Seq<char> {
        "usize"@
    }

    open spec fn spec_short_type_path() -> Seq<char> {
        "usize"@
    }

    open spec fn spec_type_ident() -> Option<Seq<char>> {
        None
    }

    open spec fn spec_crate_name() -> Option<Seq<char>> {
        None
    }

    open spec fn spec_module() -> Option<Seq<char>> {
        None
    }

    fn type_path() -> (r: &'static str) {
        "usize"
    }

    fn short_type_path() -> (r: &'static str) {
        "usize"
    }

    fn type_ident() -> (r: Option<&'static str>) {
        None
    }

    fn crate_name() -> (r: Option<&'static str>) {
        None
    }

    fn module() -> (r: Option<&'static str>) {
        None
    }
}

impl TypePath for i8 {
    open spec fn spec_type_path() -> Seq<char> {
        "i8"@
    }

    open spec fn spec_short_type_path() -> Seq<char> {
        "i8"@
    }

    open spec fn spec_type_ident() -> Option<Seq<char>> {
        None
    }

    open spec fn spec_crate_name() -> Option<Seq<char>> {
        None
    }

    open spec fn spec_module() -> Option<Seq<char>> {
        None
    }

    fn type_path() -> (r: &'static str) {
        "i8"
    }

    fn short_type_path() -> (r: &'static str) {
        "i8"
    }

    fn type_ident() -> (r: Option<&'static str>) {
        None
    }

    fn crate_name() -> (r: Option<&'static str>) {
        None
    }

    fn module() -> (r: Option<&'static str>) {
        None
    }
}

impl TypePath for i16 {
    open spec fn spec_type_path() -> Seq<char> {
        "i16"@
    }

    open spec fn spec_short_type_path() -> Seq<char> {
        "i16"@
    }

    open spec fn spec_type_ident() -> Option<Seq<char>> {
        None
    }

    open spec fn spec_crate_name() -> Option<Seq<char>> {
        None
    }

    open spec fn spec_module() -> Option<Seq<char>> {
        None
    }

    fn type_path() -> (r: &'static str) {
        "i16"
    }

    fn short_type_path() -> (r: &'static str) {
        "i16"
    }

    fn type_ident() -> (r: Option<&'static str>) {
        None
    }

    fn crate_name() -> (r: Option<&'static str>) {
        None
    }

    fn module() -> (r: Option<&'static str>) {
        None
    }
}

impl TypePath for i32 {
    open spec fn spec_type_path() -> Seq<char> {
        "i32"@
    }

    open spec fn spec_short_type_path() -> Seq<char> {
        "i32"@
    }

    open spec fn spec_type_ident() -> Option<Seq<char>> {
        None
    }

    open spec fn spec_crate_name() -> Option<Seq<char>> {
        None
    }

    open spec fn spec_module() -> Option<Seq<char>> {
        None
    }

    fn type_path() -> (r: &'static str) {
        "i32"
    }

    fn short_type_path() -> (r: &'static str) {
        "i32"
    }

    fn type_ident() -> (r: Option<&'static str>) {
        None
    }

    fn crate_name() -> (r: Option<&'static str>) {
        None
    }

    fn module() -> (r: Option<&'static str>) {
        None
    }
}

impl TypePath for i64 {
    open spec fn spec_type_path() -> Seq<char> {
        "i64"@
    }

    open spec fn spec_short_type_path() -> Seq<char> {
        "i64"@
    }

    open spec fn spec_type_ident() -> Option<Seq<char>> {
        None
    }

    open spec fn spec_crate_name() -> Option<Seq<char>> {
        None
    }

    open spec fn spec_module() -> Option<Seq<char>> {
        None
    }

    fn type_path() -> (r: &'static str) {
        "i64"
    }

    fn short_type_path() -> (r: &'static str) {
        "i64"
    }

    fn type_ident() -> (r: Option<&'static str>) {
        None
    }

    fn crate_name() -> (r: Option<&'static str>) {
        None
    }

    fn module() -> (r: Option<&'static str>) {
        None
    }
}

impl TypePath for i128 {
    open spec fn spec_type_path() -> Seq<char> {
        "i128"@
    }

    open spec fn spec_short_type_path() -> Seq<char> {
        "i128"@
    }

    open spec fn spec_type_ident() -> Option<Seq<char>> {
        None
    }

    open spec fn spec_crate_name() -> Option<Seq<char>> {
        None
    }

    open spec fn spec_module() -> Option<Seq<char>> {
        None
    }

    fn type_path() -> (r: &'static str) {
        "i128"
    }

    fn short_type_path() -> (r: &'static str) {
        "i128"
    }

    fn type_ident() -> (r: Option<&'static str>) {
        None
    }

    fn crate_name() -> (r: Option<&'static str>) {
        None
    }

    fn module() -> (r: Option<&'static str>) {
        None
    }
}

impl TypePath for isize {
    open spec fn spec_type_path() -> Seq<char> {
        "isize"@
    }

    open spec fn spec_short_type_path() -> Seq<char> {
        "isize"@
    }

    open spec fn spec_type_ident() -> Option<Seq<char>> {
        None
    }

    open spec fn spec_crate_name() -> Option<Seq<char>> {
        None
    }

    open spec fn spec_module() -> Option<Seq<char>> {
        None
    }

    fn type_path() -> (r: &'static str) {
        "isize"
    }

    fn short_type_path() -> (r: &'static str) {
        "isize"
    }

    fn type_ident() -> (r: Option<&'static str>) {
        None
    }

    fn crate_name() -> (r: Option<&'static str>) {
        None
    }

    fn module() -> (r: Option<&'static str>) {
        None
    }
}

impl TypePath for () {
    open spec fn spec_type_path() -> Seq<char> {
        "()"@
    }

    open spec fn spec_short_type_path() -> Seq<char> {
        "()"@
    }

    open spec fn spec_type_ident() -> Option<Seq<char>> {
        Some("()"@)
    }

    open spec fn spec_crate_name() -> Option<Seq<char>> {
        None
    }

    open spec fn spec_module() -> Option<Seq<char>> {
        None
    }

    fn type_path() -> (r: &'static str) {
        "()"
    }

    fn short_type_path() -> (r: &'static str) {
        "()"
    }

    fn type_ident() -> (r: Option<&'static str>) {
        Some("()")
    }

    fn crate_name() -> (r: Option<&'static str>) {
        None
    }

    fn module() -> (r: Option<&'static str>) {
        None
    }
}

impl TypePath for String {
    open spec fn spec_type_path() -> Seq<char> {
        "alloc::string::String"@
    }

    open spec fn spec_short_type_path() -> Seq<char> {
        "String"@
    }

    open spec fn spec_type_ident() -> Option<Seq<char>> {
        Some("String"@)
    }

    open spec fn spec_crate_name() -> Option<Seq<char>> {
        Some("alloc"@)
    }

    open spec fn spec_module() -> Option<Seq<char>> {
        Some("alloc::string"@)
    }

    fn type_path() -> (r: &'static str) {
        "alloc::string::String"
    }

    fn short_type_path() -> (r: &'static str) {
        "String"
    }

    fn type_ident() -> (r: Option<&'static str>) {
        Some("String")
    }

    fn crate_name() -> (r: Option<&'static str>) {
        Some("alloc")
    }

    fn module() -> (r: Option<&'static str>) {
        Some("alloc::string")
    }
}

/// A type's full path is its short path, placed after its module path and `::` when
/// it has a module.
pub open spec fn paths_agree<T: TypePath>() -> bool {
    match T::spec_module() {
        None => T::spec_type_path() == T::spec_short_type_path(),
        Some(m) => T::spec_type_path() == m + "::"@ + T::spec_short_type_path(),
    }
}

/// For every type given paths here, the full path is the short path placed in the
/// type's module, and a type outside any module has its short path as its full one.
pub proof fn law_paths_agree()
    ensures
        paths_agree::<u8>(),
        paths_agree::<u16>(),
        paths_agree::<u32>(),
        paths_agree::<u64>(),
        paths_agree::<u128>(),
        paths_agree::<usize>(),
        paths_agree::<i8>(),
        paths_agree::<i16>(),
        paths_agree::<i32>(),
        paths_agree::<i64>(),
        paths_agree::<i128>(),
        paths_agree::<isize>(),
        paths_agree::<()>(),
        paths_agree::<String>(),
{
    reveal_strlit("alloc::string::String");
    reveal_strlit("alloc::string");
    reveal_strlit("::");
    reveal_strlit("String");
    assert("alloc::string::String"@ =~= "alloc::string"@ + "::"@ + "String"@);
}

} // verus!
