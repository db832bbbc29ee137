use core::any::TypeId;
use vstd::prelude::*;

use crate::info::array_info::ArrayInfo;
use crate::info::enum_info::EnumInfo;
use crate::info::generics::{GenericInfo, Generics};
use crate::info::list_info::ListInfo;
use crate::info::opaque_info::OpaqueInfo;
use crate::info::struct_info::StructInfo;
use crate::info::tuple_info::TupleInfo;
use crate::info::tuple_struct_info::TupleStructInfo;
use crate::info::type_path::{TypePathTable, opt_text};
use crate::info::type_struct::Type;

verus! {

/// The "kind" of a reflected type: which family of types it belongs to.
#[derive(Debug, PartialEq, Eq, Clone, Copy, Structural)]
pub enum ReflectKind {
    Struct,
    TupleStruct,
    Tuple,
    List,
    Array,
    /// Key-value maps.
    MapLike,
    /// Sets of values.
    SetLike,
    Enum,
    Opaque,
}

/// The name of a kind as its debug form shows it.
pub open spec fn spec_kind_debug_name(kind: ReflectKind) -> Seq<char> {
    match kind {
        ReflectKind::Struct => "Struct"@,
        ReflectKind::TupleStruct => "TupleStruct"@,
        ReflectKind::Tuple => "Tuple"@,
        ReflectKind::List => "List"@,
        ReflectKind::Array => "Array"@,
        ReflectKind::MapLike => "Map"@,
        ReflectKind::SetLike => "Set"@,
        ReflectKind::Enum => "Enum"@,
        ReflectKind::Opaque => "Opaque"@,
    }
}

/// The human readable name of a kind, as it is displayed.
pub open spec fn spec_kind_name(kind: ReflectKind) -> Seq<char> {
    match kind {
        ReflectKind::Struct => "struct"@,
        ReflectKind::TupleStruct => "tuple struct"@,
        ReflectKind::Tuple => "tuple"@,
        ReflectKind::List => "list"@,
        ReflectKind::Array => "array"@,
        ReflectKind::MapLike => "map"@,
        ReflectKind::SetLike => "set"@,
        ReflectKind::Enum => "enum"@,
        ReflectKind::Opaque => "opaque"@,
    }
}

impl ReflectKind {
    /// The name of this kind, as it is displayed.
    pub fn name(&self) -> (r: &'static str)
        ensures
            r@ == spec_kind_name(*self),
    {
        match self {
            ReflectKind::Struct => "struct",
            ReflectKind::TupleStruct => "tuple struct",
            ReflectKind::Tuple => "tuple",
            ReflectKind::List => "list",
            ReflectKind::Array => "array",
            ReflectKind::MapLike => "map",
            ReflectKind::SetLike => "set",
            ReflectKind::Enum => "enum",
            ReflectKind::Opaque => "opaque",
        }
    }

    /// The name of this kind as its debug form shows it.
    pub fn debug_name(&self) -> (r: &'static str)
        ensures
            r@ == spec_kind_debug_name(*self),
    {
        match self {
            ReflectKind::Struct => "Struct",
            ReflectKind::TupleStruct => "TupleStruct",
            ReflectKind::Tuple => "Tuple",
            ReflectKind::List => "List",
            ReflectKind::Array => "Array",
            ReflectKind::MapLike => "Map",
            ReflectKind::SetLike => "Set",
            ReflectKind::Enum => "Enum",
            ReflectKind::Opaque => "Opaque",
        }
    }

    /// The displayed form of this kind.
    pub fn to_string(&self) -> (r: String)
        ensures
            r@ == spec_kind_name(*self),
    {
        String::from_str(self.name())
    }
}

/// Error returned when a type information of one kind was expected,
/// but one of another kind was found.
#[derive(Debug, Clone, Copy, PartialEq, Eq, Structural)]
pub struct ReflectKindError {
    pub expected: ReflectKind,
    pub received: ReflectKind,
}

impl ReflectKindError {
    /// The displayed form of this error.
    pub fn to_string(&self) -> (r: String)
        ensures
            r@ == "kind mismatch: expected "@ + spec_kind_debug_name(self.expected) + ", received "@
                + spec_kind_debug_name(self.received),
    {
        let mut s = String::from_str("kind mismatch: expected ");
        s.append(self.expected.debug_name());
        s.append(", received ");
        s.append(self.received.debug_name());
        s
    }
}


/// Information on a type, by its kind.
#[derive(Debug, Clone)]
pub enum TypeInfo {
    Struct(StructInfo),
    TupleStruct(TupleStructInfo),
    Tuple(TupleInfo),
    List(ListInfo),
    Array(ArrayInfo),
    Enum(EnumInfo),
    Opaque(OpaqueInfo),
}

impl TypeInfo {
    /// The kind of the type.
    pub open spec fn spec_kind(&self) -> ReflectKind {
        match self {
            TypeInfo::Struct(_) => ReflectKind::Struct,
            TypeInfo::TupleStruct(_) => ReflectKind::TupleStruct,
            TypeInfo::Tuple(_) => ReflectKind::Tuple,
            TypeInfo::List(_) => ReflectKind::List,
            TypeInfo::Array(_) => ReflectKind::Array,
            TypeInfo::Enum(_) => ReflectKind::Enum,
            TypeInfo::Opaque(_) => ReflectKind::Opaque,
        }
    }

    /// The type.
    pub open spec fn spec_ty(&self) -> Type {
        match self {
            TypeInfo::Struct(info) => info.spec_ty(),
            TypeInfo::TupleStruct(info) => info.spec_ty(),
            TypeInfo::Tuple(info) => info.spec_ty(),
            TypeInfo::List(info) => info.spec_ty(),
            TypeInfo::Array(info) => info.spec_ty(),
            TypeInfo::Enum(info) => info.spec_ty(),
            TypeInfo::Opaque(info) => info.spec_ty(),
        }
    }

    /// The generic parameters of the type.
    pub open spec fn spec_generics(&self) -> Seq<GenericInfo> {
        match self {
            TypeInfo::Struct(info) => info.spec_generics(),
            TypeInfo::TupleStruct(info) => info.spec_generics(),
            TypeInfo::Tuple(info) => info.spec_generics(),
            TypeInfo::List(info) => info.spec_generics(),
            TypeInfo::Array(info) => info.spec_generics(),
            TypeInfo::Enum(info) => info.spec_generics(),
            TypeInfo::Opaque(info) => info.spec_generics(),
        }
    }

    /// The docs of the type.
    pub open spec fn spec_docs(&self) -> Option<Seq<char>> {
        match self {
            TypeInfo::Struct(info) => info.spec_docs(),
            TypeInfo::TupleStruct(info) => info.spec_docs(),
            TypeInfo::Tuple(info) => info.spec_docs(),
            TypeInfo::List(info) => info.spec_docs(),
            TypeInfo::Array(info) => info.spec_docs(),
            TypeInfo::Enum(info) => info.spec_docs(),
            TypeInfo::Opaque(info) => info.spec_docs(),
        }
    }

    /// The struct information, or an error that names the kind found.
    pub fn as_struct(&self) -> (r: Result<&StructInfo, ReflectKindError>)
        ensures
            match self {
                TypeInfo::Struct(info) => r == Ok::<&StructInfo, ReflectKindError>(info),
                _ => r == Err::<&StructInfo, ReflectKindError>(
                    ReflectKindError { expected: ReflectKind::Struct, received: self.spec_kind() },
                ),
            },
    {
        match self {
            TypeInfo::Struct(info) => Ok(info),
            _ => Err(ReflectKindError { expected: ReflectKind::Struct, received: self.kind() }),
        }
    }

    /// The tuple struct information, or an error that names the kind found.
    pub fn as_tuple_struct(&self) -> (r: Result<&TupleStructInfo, ReflectKindError>)
        ensures
            match self {
                TypeInfo::TupleStruct(info) => r == Ok::<&TupleStructInfo, ReflectKindError>(info),
                _ => r == Err::<&TupleStructInfo, ReflectKindError>(
                    ReflectKindError { expected: ReflectKind::TupleStruct, received: self.spec_kind() },
                ),
            },
    {
        match self {
            TypeInfo::TupleStruct(info) => Ok(info),
            _ => Err(ReflectKindError { expected: ReflectKind::TupleStruct, received: self.kind() }),
        }
    }

    /// The tuple information, or an error that names the kind found.
    pub fn as_tuple(&self) -> (r: Result<&TupleInfo, ReflectKindError>)
        ensures
            match self {
                TypeInfo::Tuple(info) => r == Ok::<&TupleInfo, ReflectKindError>(info),
                _ => r == Err::<&TupleInfo, ReflectKindError>(
                    ReflectKindError { expected: ReflectKind::Tuple, received: self.spec_kind() },
                ),
            },
    {
        match self {
            TypeInfo::Tuple(info) => Ok(info),
            _ => Err(ReflectKindError { expected: ReflectKind::Tuple, received: self.kind() }),
        }
    }

    /// The list information, or an error that names the kind found.
    pub fn as_list(&self) -> (r: Result<&ListInfo, ReflectKindError>)
        ensures
            match self {
                TypeInfo::List(info) => r == Ok::<&ListInfo, ReflectKindError>(info),
                _ => r == Err::<&ListInfo, ReflectKindError>(
                    ReflectKindError { expected: ReflectKind::List, received: self.spec_kind() },
                ),
            },
    {
        match self {
            TypeInfo::List(info) => Ok(info),
            _ => Err(ReflectKindError { expected: ReflectKind::List, received: self.kind() }),
        }
    }

    /// The array information, or an error that names the kind found.
    pub fn as_array(&self) -> (r: Result<&ArrayInfo, ReflectKindError>)
        ensures
            match self {
                TypeInfo::Array(info) => r == Ok::<&ArrayInfo, ReflectKindError>(info),
                _ => r == Err::<&ArrayInfo, ReflectKindError>(
                    ReflectKindError { expected: ReflectKind::Array, received: self.spec_kind() },
                ),
            },
    {
        match self {
            TypeInfo::Array(info) => Ok(info),
            _ => Err(ReflectKindError { expected: ReflectKind::Array, received: self.kind() }),
        }
    }

    /// The enum information, or an error that names the kind found.
    pub fn as_enum(&self) -> (r: Result<&EnumInfo, ReflectKindError>)
        ensures
            match self {
                TypeInfo::Enum(info) => r == Ok::<&EnumInfo, ReflectKindError>(info),
                _ => r == Err::<&EnumInfo, ReflectKindError>(
                    ReflectKindError { expected: ReflectKind::Enum, received: self.spec_kind() },
                ),
            },
    {
        match self {
            TypeInfo::Enum(info) => Ok(info),
            _ => Err(ReflectKindError { expected: ReflectKind::Enum, received: self.kind() }),
        }
    }

    /// The opaque information, or an error that names the kind found.
    pub fn as_opaque(&self) -> (r: Result<&OpaqueInfo, ReflectKindError>)
        ensures
            match self {
                TypeInfo::Opaque(info) => r == Ok::<&OpaqueInfo, ReflectKindError>(info),
                _ => r == Err::<&OpaqueInfo, ReflectKindError>(
                    ReflectKindError { expected: ReflectKind::Opaque, received: self.spec_kind() },
                ),
            },
    {
        match self {
            TypeInfo::Opaque(info) => Ok(info),
            _ => Err(ReflectKindError { expected: ReflectKind::Opaque, received: self.kind() }),
        }
    }

    /// The generic parameters of the type.
    pub fn generics(&self) -> (r: &Generics)
        ensures
            r@ == self.spec_generics(),
    {
        match self {
            TypeInfo::Struct(info) => info.generics(),
            TypeInfo::TupleStruct(info) => info.generics(),
            TypeInfo::Tuple(info) => info.generics(),
            TypeInfo::List(info) => info.generics(),
            TypeInfo::Array(info) => info.generics(),
            TypeInfo::Enum(info) => info.generics(),
            TypeInfo::Opaque(info) => info.generics(),
        }
    }

    /// The type.
    pub fn ty(&self) -> (r: &Type)
        ensures
            *r == self.spec_ty(),
    {
        match self {
            TypeInfo::Struct(info) => info.ty(),
            TypeInfo::TupleStruct(info) => info.ty(),
            TypeInfo::Tuple(info) => info.ty(),
            TypeInfo::List(info) => info.ty(),
            TypeInfo::Array(info) => info.ty(),
            TypeInfo::Enum(info) => info.ty(),
            TypeInfo::Opaque(info) => info.ty(),
        }
    }

    /// The [`TypeId`] of the type.
    pub fn type_id(&self) -> (r: TypeId)
        ensures
            r == self.spec_ty().spec_id(),
    {
        self.ty().id()
    }

    /// The [`TypePathTable`] of the type.
    pub fn type_path_table(&self) -> (r: &TypePathTable)
        ensures
            *r == self.spec_ty().spec_table(),
    {
        self.ty().type_path_table()
    }

    /// The path of the type.
    pub fn type_path(&self) -> (r: &'static str)
        ensures
            r@ == self.spec_ty().spec_table().spec_path(),
    {
        self.ty().path()
    }

    /// Whether the given type is this one; only the [`TypeId`]s are compared.
    pub fn is<T: ?Sized + 'static>(&self) -> bool {
        self.ty().is::<T>()
    }

    /// The kind of the type.
    pub fn kind(&self) -> (r: ReflectKind)
        ensures
            r == self.spec_kind(),
    {
        match self {
            TypeInfo::Struct(_) => ReflectKind::Struct,
            TypeInfo::TupleStruct(_) => ReflectKind::TupleStruct,
            TypeInfo::Tuple(_) => ReflectKind::Tuple,
            TypeInfo::List(_) => ReflectKind::List,
            TypeInfo::Array(_) => ReflectKind::Array,
            TypeInfo::Enum(_) => ReflectKind::Enum,
            TypeInfo::Opaque(_) => ReflectKind::Opaque,
        }
    }

    /// The docs of the type.
    pub fn docs(&self) -> (r: Option<&'static str>)
        ensures
            opt_text(r) == self.spec_docs(),
    {
        match self {
            TypeInfo::Struct(info) => info.docs(),
            TypeInfo::TupleStruct(info) => info.docs(),
            TypeInfo::Tuple(info) => info.docs(),
            TypeInfo::List(info) => info.docs(),
            TypeInfo::Array(info) => info.docs(),
            TypeInfo::Enum(info) => info.docs(),
            TypeInfo::Opaque(info) => info.docs(),
        }
    }
}

/// The kind of type information names its variant: each cast succeeds exactly on the
/// information of its own kind.
pub proof fn law_kind_names_variant(info: TypeInfo)
    ensures
        (info is Struct) == (info.spec_kind() == ReflectKind::Struct),
        (info is TupleStruct) == (info.spec_kind() == ReflectKind::TupleStruct),
        (info is Tuple) == (info.spec_kind() == ReflectKind::Tuple),
        (info is List) == (info.spec_kind() == ReflectKind::List),
        (info is Array) == (info.spec_kind() == ReflectKind::Array),
        (info is Enum) == (info.spec_kind() == ReflectKind::Enum),
        (info is Opaque) == (info.spec_kind() == ReflectKind::Opaque),
        info.spec_kind() != ReflectKind::MapLike,
        info.spec_kind() != ReflectKind::SetLike,
{
}

} // verus!
