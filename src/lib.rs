//! Schema registry, wire format and code generation for a compact, tagless binary
//! format: varint numbers, length-prefixed byte strings, positional struct fields and
//! enums as an index followed by a payload.
//!
//! - `types`: the value types a field may have.
//! - `registry`: the ordered collection of named containers.
//! - `wire`: the byte-level rules, with their round-trip laws.
//! - `codec`: encoding of runtime values against a registry, guarded by a shape check.
//! - `decode`: decoding of runtime values, and the round-trip law.
//! - `ser`, `des`, `type_checking`, `runtime`, `code_gen`: generation of the JavaScript
//!   unit: runtime, encode and decode functions, validators and the two dispatch functions.
//! - `ident`, `names`, `text`: identifiers derived from names, name checks, text helpers.

pub mod code_gen;
pub mod codec;
pub mod decode;
pub mod des;
pub mod ident;
pub mod names;
pub mod registry;
pub mod runtime;
pub mod ser;
pub mod text;
pub mod type_checking;
pub mod types;
pub mod wire;
