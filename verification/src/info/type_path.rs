use vstd::prelude::*;

verus! {

/// The text of an optional string slice.
pub open spec fn opt_text(s: Option<&str>) -> Option<Seq<char>> {
    match s {
        Some(t) => Some(t@),
        None => None,
    }
}

/// A static accessor to type paths and names.
pub trait TypePath: 'static {
    /// The fully qualified path of the type.
    spec fn spec_type_path() -> Seq<char>;

    /// The short, pretty-print path of the type.
    spec fn spec_short_type_path() -> Seq<char>;

    /// The name of the type, if it is not anonymous.
    spec fn spec_type_ident() -> Option<Seq<char>>;

    /// The name of the crate of the type, if it is not anonymous.
    spec fn spec_crate_name() -> Option<Seq<char>>;

    /// The path of the module of the type, if it is not anonymous.
    spec fn spec_module() -> Option<Seq<char>>;

    /// Returns the fully qualified path of the underlying type.
    ///
    /// `Option<Vec<usize>>` -> `"core::option::Option<alloc::vec::Vec<usize>>"`
    fn type_path() -> (r: &'static str)
        ensures
            r@ == Self::spec_type_path(),
    ;

    /// Returns a short, pretty-print enabled path to the type.
    ///
    /// `Option<Vec<usize>>` -> `"Option<Vec<usize>>"`
    fn short_type_path() -> (r: &'static str)
        ensures
            r@ == Self::spec_short_type_path(),
    ;

    /// Returns the name of the type, or [`None`] if it is anonymous.
    ///
    /// `Option<Vec<usize>>` -> `"Option"`
    fn type_ident() -> (r: Option<&'static str>)
        ensures
            opt_text(r) == Self::spec_type_ident(),
    ;

    /// Returns the name of the crate the type is in, or [`None`] if it is anonymous.
    ///
    /// `Option<Vec<usize>>` -> `"core"`
    fn crate_name() -> (r: Option<&'static str>)
        ensures
            opt_text(r) == Self::spec_crate_name(),
    ;

    /// Returns the path to the module the type is in, or [`None`] if it is anonymous.
    ///
    /// `Option<Vec<usize>>` -> `"core::option"`
    fn module() -> (r: Option<&'static str>)
        ensures
            opt_text(r) == Self::spec_module(),
    ;
}

/// Dynamic dispatch for [`TypePath`]; every type with a [`TypePath`] has it.
pub trait DynamicTypePath {
    /// See [`TypePath::type_path`].
    fn reflect_type_path(&self) -> &str;

    /// See [`TypePath::short_type_path`].
    fn reflect_type_name(&self) -> &str;

    /// See [`TypePath::type_ident`].
    fn reflect_type_ident(&self) -> Option<&str>;

    /// See [`TypePath::crate_name`].
    fn reflect_crate_name(&self) -> Option<&str>;

    /// See [`TypePath::module`].
    fn reflect_module_path(&self) -> Option<&str>;
}

impl<T: TypePath> DynamicTypePath for T {
    fn reflect_type_path(&self) -> (r: &str)
        ensures
            r@ == T::spec_type_path(),
    {
        T::type_path()
    }

    fn reflect_type_name(&self) -> (r: &str)
        ensures
            r@ == T::spec_short_type_path(),
    {
        T::short_type_path()
    }

    fn reflect_type_ident(&self) -> (r: Option<&str>)
        ensures
            opt_text(r) == T::spec_type_ident(),
    {
        T::type_ident()
    }

    fn reflect_crate_name(&self) -> (r: Option<&str>)
        ensures
            opt_text(r) == T::spec_crate_name(),
    {
        T::crate_name()
    }

    fn reflect_module_path(&self) -> (r: Option<&str>)
        ensures
            opt_text(r) == T::spec_module(),
    {
        T::module()
    }
}

/// The names of a type, as [`TypePath`] gives them.
#[derive(Clone, Copy, Debug, Hash)]
pub struct TypePathTable {
    path_text: &'static str,
    name_text: &'static str,
    ident_text: Option<&'static str>,
    crate_text: Option<&'static str>,
    module_text: Option<&'static str>,
}

impl TypePathTable {
    pub closed spec fn spec_path(&self) -> Seq<char> {
        self.path_text@
    }

    pub closed spec fn spec_name(&self) -> Seq<char> {
        self.name_text@
    }

    pub closed spec fn spec_ident(&self) -> Option<Seq<char>> {
        opt_text(self.ident_text)
    }

    pub closed spec fn spec_crate_name(&self) -> Option<Seq<char>> {
        opt_text(self.crate_text)
    }

    pub closed spec fn spec_module_path(&self) -> Option<Seq<char>> {
        opt_text(self.module_text)
    }

    /// The table holds the names that `T` gives.
    pub open spec fn describes<T: TypePath + ?Sized>(&self) -> bool {
        &&& self.spec_path() == T::spec_type_path()
        &&& self.spec_name() == T::spec_short_type_path()
        &&& self.spec_ident() == T::spec_type_ident()
        &&& self.spec_crate_name() == T::spec_crate_name()
        &&& self.spec_module_path() == T::spec_module()
    }

    /// Creates a new table from a type.
    pub fn of<T: TypePath + ?Sized>() -> (r: Self)
        ensures
            r.describes::<T>(),
    {
        let path_text = T::type_path();
        let name_text = T::short_type_path();
        let ident_text = T::type_ident();
        let crate_text = T::crate_name();
        let module_text = T::module();
        TypePathTable { path_text, name_text, ident_text, crate_text, module_text }
    }

    /// See [`TypePath::type_path`].
    pub fn path(&self) -> (r: &'static str)
        ensures
            r@ == self.spec_path(),
    {
        self.path_text
    }

    /// See [`TypePath::short_type_path`].
    pub fn name(&self) -> (r: &'static str)
        ensures
            r@ == self.spec_name(),
    {
        self.name_text
    }

    /// See [`TypePath::type_ident`].
    pub fn ident(&self) -> (r: Option<&'static str>)
        ensures
            opt_text(r) == self.spec_ident(),
    {
        self.ident_text
    }

    /// See [`TypePath::crate_name`].
    pub fn crate_name(&self) -> (r: Option<&'static str>)
        ensures
            opt_text(r) == self.spec_crate_name(),
    {
        self.crate_text
    }

    /// See [`TypePath::module`].
    pub fn module(&self) -> (r: Option<&'static str>)
        ensures
            opt_text(r) == self.spec_module_path(),
    {
        self.module_text
    }
}

} // verus!
