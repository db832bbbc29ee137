# vct_reflect

Runtime type information for Rust values, with its logic verified by Verus.

- `src/info`: type paths (`TypePath`, `TypePathTable`, `Type`), the information
  tables of structs, tuple structs, tuples, lists, arrays, enums and their variants,
  fields and generic parameters, and `TypeInfo`, which holds one of them by kind.
  Lookups by name and by position are proved against the field and variant lists.
- `src/registry`: a registry of types by `TypeId`, by full path and by short name,
  where a short name shared by several types is ambiguous. The indexes are proved
  to agree with the registrations after every change.
- `src/access`: the parser of reflection access paths (`.field`, `#0`, `.0`, `[3]`),
  proved against a grammar over the path's UTF-8 bytes, and the display of parsed
  paths, proved to read back to the same accessors.
- `src/ops`: the error values of reflection operations and their messages; the
  rules by which enum values are compared and applied (`enum_partial_eq_outcome`,
  `enum_apply_plan`); and value models of the dynamic types, each holding its values
  by value: `DynamicEnum` (whose struct variant is a `DynamicStruct`),
  `DynamicStruct` (fields by name, each name once), `DynamicTuple`,
  `DynamicTupleStruct`, `DynamicList`,
  `DynamicArray` (fixed length, `DifferentSize` on a mismatch), `DynamicMap` (each
  key once, viewed as a `Map`) and `DynamicSet` (each value once, viewed as a
  `Set`). Their `try_apply` functions are proved to apply field by field, stopping at
  the first error, and their `reflect_partial_eq` functions to compare as the
  original rules do. The values they hold are of one type that says, through the
  `ApplyValue` and `ValueEq` traits, what applying and comparing do on it;
  `FieldValue` is one such type with two kinds (an opaque number or a list of
  bytes), which refuses a value of the other kind with `MismatchedKinds`.
- `app/`: the parts that hold type-erased values (`dyn Any` downcasts) or need
  static storage: type traits, the `Typed` accessor and the registry of type-trait
  records built on the verified registry.

Left out: the runtime over `dyn Reflect` trait objects (the `Reflect` and
`PartialReflect` traits, values of mixed types inside one dynamic value, path access
on reflected values, hashing of reflected values, custom attributes and the
type-information cells). Its traits name their own trait objects in their methods,
which the verifier refuses as a cyclic definition; the rules of the dynamic types
are kept as the verified models above instead.
