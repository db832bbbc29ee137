use core::any::TypeId;
use vstd::prelude::*;

use crate::info::type_path::{TypePath, TypePathTable};
use crate::info::type_struct::Type;
use crate::text::str_eq;

verus! {

/// Information on a generic type parameter: its type, its name and its default type.
#[derive(Clone, Debug)]
pub struct TypeParamInfo {
    ty: Type,
    name: String,
    default: Option<Type>,
}

impl TypeParamInfo {
    pub closed spec fn spec_ty(&self) -> Type {
        self.ty
    }

    pub closed spec fn spec_name(&self) -> Seq<char> {
        self.name@
    }

    pub closed spec fn spec_default(&self) -> Option<Type> {
        self.default
    }

    /// Information on a parameter named `name` of type `T`, without a default type.
    pub fn new<T: TypePath + ?Sized>(name: &str) -> (r: Self)
        ensures
            r.spec_ty().spec_table().describes::<T>(),
            r.spec_name() == name@,
            r.spec_default() is None,
    {
        TypeParamInfo { ty: Type::of::<T>(), name: String::from_str(name), default: None }
    }

    /// The name of the parameter.
    pub fn name(&self) -> (r: &str)
        ensures
            r@ == self.spec_name(),
    {
        self.name.as_str()
    }

    /// The default type of the parameter, if any.
    pub fn default(&self) -> (r: Option<&Type>)
        ensures
            match r {
                Some(t) => self.spec_default() == Some(*t),
                None => self.spec_default() is None,
            },
    {
        match &self.default {
            Some(t) => Some(t),
            None => None,
        }
    }

    /// The same information, with `T` as the default type.
    pub fn with_default<T: TypePath + ?Sized>(self) -> (r: Self)
        ensures
            r.spec_ty() == self.spec_ty(),
            r.spec_name() == self.spec_name(),
            r.spec_default() matches Some(t) && t.spec_table().describes::<T>(),
    {
        TypeParamInfo { ty: self.ty, name: self.name, default: Some(Type::of::<T>()) }
    }

    /// The type of the parameter.
    pub fn ty(&self) -> (r: &Type)
        ensures
            *r == self.spec_ty(),
    {
        &self.ty
    }

    /// The [`TypeId`] of the parameter's type.
    pub fn type_id(&self) -> (r: TypeId)
        ensures
            r == self.spec_ty().spec_id(),
    {
        self.ty.id()
    }

    /// The path of the parameter's type.
    pub fn type_path(&self) -> (r: &'static str)
        ensures
            r@ == self.spec_ty().spec_table().spec_path(),
    {
        self.ty.path()
    }

    /// The [`TypePathTable`] of the parameter's type.
    pub fn type_path_table(&self) -> (r: &TypePathTable)
        ensures
            *r == self.spec_ty().spec_table(),
    {
        self.ty.type_path_table()
    }

    /// Whether the given type is the parameter's type; only the [`TypeId`]s are compared.
    pub fn is<T: ?Sized + 'static>(&self) -> bool {
        self.ty.is::<T>()
    }
}

/// Information on a generic const parameter: its type and its name.
#[derive(Clone, Debug)]
pub struct ConstParamInfo {
    ty: Type,
    name: String,
}

impl ConstParamInfo {
    pub closed spec fn spec_ty(&self) -> Type {
        self.ty
    }

    pub closed spec fn spec_name(&self) -> Seq<char> {
        self.name@
    }

    /// Information on a const parameter named `name` of type `T`.
    pub fn new<T: TypePath + ?Sized>(name: &str) -> (r: Self)
        ensures
            r.spec_ty().spec_table().describes::<T>(),
            r.spec_name() == name@,
    {
        ConstParamInfo { ty: Type::of::<T>(), name: String::from_str(name) }
    }

    /// The name of the parameter.
    pub fn name(&self) -> (r: &str)
        ensures
            r@ == self.spec_name(),
    {
        self.name.as_str()
    }

    /// The type of the parameter.
    pub fn ty(&self) -> (r: &Type)
        ensures
            *r == self.spec_ty(),
    {
        &self.ty
    }

    /// The [`TypeId`] of the parameter's type.
    pub fn type_id(&self) -> (r: TypeId)
        ensures
            r == self.spec_ty().spec_id(),
    {
        self.ty.id()
    }

    /// The path of the parameter's type.
    pub fn type_path(&self) -> (r: &'static str)
        ensures
            r@ == self.spec_ty().spec_table().spec_path(),
    {
        self.ty.path()
    }

    /// The [`TypePathTable`] of the parameter's type.
    pub fn type_path_table(&self) -> (r: &TypePathTable)
        ensures
            *r == self.spec_ty().spec_table(),
    {
        self.ty.type_path_table()
    }

    /// Whether the given type is the parameter's type; only the [`TypeId`]s are compared.
    pub fn is<T: ?Sized + 'static>(&self) -> bool {
        self.ty.is::<T>()
    }
}

/// A single generic parameter: a type parameter or a const parameter.
#[derive(Clone, Debug)]
pub enum GenericInfo {
    Type(TypeParamInfo),
    Const(ConstParamInfo),
}

impl GenericInfo {
    /// The type of the parameter.
    pub open spec fn spec_ty(&self) -> Type {
        match self {
            GenericInfo::Type(info) => info.spec_ty(),
            GenericInfo::Const(info) => info.spec_ty(),
        }
    }

    /// The name of the parameter.
    pub open spec fn spec_name(&self) -> Seq<char> {
        match self {
            GenericInfo::Type(info) => info.spec_name(),
            GenericInfo::Const(info) => info.spec_name(),
        }
    }

    /// The name of the parameter.
    pub fn name(&self) -> (r: &str)
        ensures
            r@ == self.spec_name(),
    {
        match self {
            GenericInfo::Type(info) => info.name(),
            GenericInfo::Const(info) => info.name(),
        }
    }

    /// Whether this is a const parameter.
    pub fn is_const(&self) -> (r: bool)
        ensures
            r == (self is Const),
    {
        match self {
            GenericInfo::Type(_) => false,
            GenericInfo::Const(_) => true,
        }
    }

    /// The type of the parameter.
    pub fn ty(&self) -> (r: &Type)
        ensures
            *r == self.spec_ty(),
    {
        match self {
            GenericInfo::Type(info) => info.ty(),
            GenericInfo::Const(info) => info.ty(),
        }
    }

    /// The [`TypeId`] of the parameter's type.
    pub fn type_id(&self) -> (r: TypeId)
        ensures
            r == self.spec_ty().spec_id(),
    {
        self.ty().id()
    }

    /// The path of the parameter's type.
    pub fn type_path(&self) -> (r: &'static str)
        ensures
            r@ == self.spec_ty().spec_table().spec_path(),
    {
        self.ty().path()
    }

    /// The [`TypePathTable`] of the parameter's type.
    pub fn type_path_table(&self) -> (r: &TypePathTable)
        ensures
            *r == self.spec_ty().spec_table(),
    {
        self.ty().type_path_table()
    }

    /// Whether the given type is the parameter's type; only the [`TypeId`]s are compared.
    pub fn is<T: ?Sized + 'static>(&self) -> bool {
        self.ty().is::<T>()
    }
}

impl From<TypeParamInfo> for GenericInfo {
    fn from(value: TypeParamInfo) -> (r: Self) {
        GenericInfo::Type(value)
    }
}

impl vstd::std_specs::convert::FromSpecImpl<TypeParamInfo> for GenericInfo {
    open spec fn obeys_from_spec() -> bool {
        true
    }

    open spec fn from_spec(v: TypeParamInfo) -> Self {
        GenericInfo::Type(v)
    }
}

impl From<ConstParamInfo> for GenericInfo {
    fn from(value: ConstParamInfo) -> (r: Self) {
        GenericInfo::Const(value)
    }
}

impl vstd::std_specs::convert::FromSpecImpl<ConstParamInfo> for GenericInfo {
    open spec fn obeys_from_spec() -> bool {
        true
    }

    open spec fn from_spec(v: ConstParamInfo) -> Self {
        GenericInfo::Const(v)
    }
}

/// The first position in `params` of a parameter named `name`.
pub open spec fn spec_first_named(params: Seq<GenericInfo>, name: Seq<char>) -> Option<int> {
    if exists|i: int| 0 <= i < params.len() && #[trigger] params[i].spec_name() == name {
        Some(choose|i: int|
            0 <= i < params.len() && #[trigger] params[i].spec_name() == name
            && forall|j: int| 0 <= j < i ==> params[j].spec_name() != name)
    } else {
        None
    }
}

/// The generic parameters of a type, in order.
#[derive(Clone, Debug)]
pub struct Generics(Vec<GenericInfo>);

impl View for Generics {
    type V = Seq<GenericInfo>;

    closed spec fn view(&self) -> Seq<GenericInfo> {
        self.0@
    }
}

impl Generics {
    /// An empty list of parameters.
    pub fn new() -> (r: Self)
        ensures
            r@ == Seq::<GenericInfo>::empty(),
    {
        Generics(Vec::new())
    }

    /// The parameter named `name`, the first one if several are (a linear search).
    pub fn get(&self, name: &str) -> (r: Option<&GenericInfo>)
        ensures
            match spec_first_named(self@, name@) {
                Some(i) => r == Some(&self@[i]),
                None => r is None,
            },
    {
        let mut i: usize = 0;
        while i < self.0.len()
            invariant
                i <= self.0@.len(),
                forall|j: int| 0 <= j < i ==> self.0@[j].spec_name() != name@,
            decreases self.0@.len() - i,
        {
            let info = &self.0[i];
            if str_eq(info.name(), name) {
                proof {
                    let k = spec_first_named(self@, name@);
                    assert(self@[i as int].spec_name() == name@);
                    let c = k.unwrap();
                    if c < i {
                        assert(self@[c].spec_name() != name@);
                    }
                    if (i as int) < c {
                        assert(self@[i as int].spec_name() != name@);
                    }
                }
                return Some(info);
            }
            i = i + 1;
        }
        proof {
            assert forall|j: int| 0 <= j < self@.len() implies #[trigger] self@[j].spec_name()
                != name@ by {}
        }
        None
    }

    /// The same list, with `info` added at the end.
    pub fn with(self, info: GenericInfo) -> (r: Self)
        ensures
            r@ == self@.push(info),
    {
        let mut v = self.0;
        v.push(info);
        Generics(v)
    }
}

impl Default for Generics {
    fn default() -> (r: Self)
        ensures
            r@ == Seq::<GenericInfo>::empty(),
    {
        Generics::new()
    }
}

impl core::ops::Deref for Generics {
    type Target = [GenericInfo];

    fn deref(&self) -> (r: &[GenericInfo])
        ensures
            r@ == self@,
    {
        self.0.as_slice()
    }
}

} // verus!
