# az_objectstream

A Verus-verified library for the AZ `ObjectStream` container format: the
stream vocabulary (tags, encodings, header flags, version rules), the
in-memory element tree, the builtin leaf serializers, asset payload layouts,
container families, the reflection read context that resolves elements
against registered `ClassData` and advances them to their current version,
the binary stream reader (stream header, element headers and payloads,
and the open/close steps that resolve each element), the XML/JSON element
reader, and the lowering of captured `GenericClassInfo` records.

Layout:

- `src/` is the verified library. Every executable function there carries a
  contract that Verus checks; the few calls into `std`, `uuid` and `hex`
  stand behind small trusted wrappers in `text.rs`, `az_uuid.rs`, `error.rs` and
  `binary.rs`, each
  with a doc comment saying what it assumes of the outside function.
  Public proof functions state the laws the library keeps (round trips,
  involutions, what a finalized child is bound to, and so on).
- `tests/` exercises the library on concrete values.
- `app/` is ordinary Rust around the library: error types with `Display`,
  serde forms of the library's values, the floating-point serializers,
  registries of the converters and codecs an application supplies, and the
  XML/JSON document parsing that feeds the library's text reader.

Not included: writing `ObjectStream` payloads (binary, XML or JSON), the
serde deserializer over element trees and the typed field reader, the
lowering of a whole captured `SerializeContext` document (`$id`/`$ref`
validation, recipes, root selection), data overlays, and the asset-id and
component-id decoders.  The AZ type tables these rely on (builtin type
UUIDs, intrinsic type names, the generic-family UUID derivations) are
taken from the caller.
