use vstd::prelude::*;
use vstd::string::*;

use crate::ident::{obj_identifier, to_obj_identifier};
use crate::registry::StructField;
use crate::text::{join, lemma_join_push};
use crate::types::{NumberMeta, ValueType};

pub mod enum_ty;
pub mod strukt;
pub mod tuple_struct;

verus! {

/// How a field is reached from the value that holds it.
#[derive(Debug, Clone, Copy)]
pub enum FieldAccessor {
    Object(&'static str),
    Array(usize),
    Direct,
}

/// Whether the value sits in the payload of an enum variant.
#[derive(Debug, Clone, Copy, PartialEq, Eq, Structural)]
pub enum InnerTypeAccess {
    Direct,
    EnumInner,
}

pub open spec fn field_accessor_text(a: FieldAccessor) -> Seq<char> {
    match a {
        FieldAccessor::Object(n) => "."@ + n@,
        FieldAccessor::Array(i) => "["@ + crate::text::decimal(i as nat) + "]"@,
        FieldAccessor::Direct => Seq::empty(),
    }
}

pub open spec fn inner_access_text(a: InnerTypeAccess) -> Seq<char> {
    match a {
        InnerTypeAccess::Direct => Seq::empty(),
        InnerTypeAccess::EnumInner => ".value"@,
    }
}

/// The expression that reaches the value to encode.
pub open spec fn target_text(access: InnerTypeAccess, accessor: FieldAccessor) -> Seq<char> {
    "v"@ + inner_access_text(access) + field_accessor_text(accessor)
}

/// The runtime's constant for a number width.
pub open spec fn byte_amount_text(bytes: u8) -> Seq<char> {
    if bytes == 1 {
        "U8_BYTES"@
    } else if bytes == 2 {
        "U16_BYTES"@
    } else if bytes == 4 {
        "U32_BYTES"@
    } else if bytes == 8 {
        "U64_BYTES"@
    } else {
        "U128_BYTES"@
    }
}

pub open spec fn bool_text(b: bool) -> Seq<char> {
    if b {
        "true"@
    } else {
        "false"@
    }
}

pub open spec fn number_accessor_text(
    meta: NumberMeta,
    access: InnerTypeAccess,
    accessor: FieldAccessor,
) -> Seq<char> {
    "s.serialize_number("@ + byte_amount_text(meta.bytes) + ","@ + bool_text(meta.signed) + ","@
        + target_text(access, accessor) + ")"@
}

pub open spec fn object_accessor_text(
    obj_ident: Seq<char>,
    access: InnerTypeAccess,
    accessor: FieldAccessor,
) -> Seq<char> {
    "serialize_"@ + obj_ident + "(s, "@ + target_text(access, accessor) + ")"@
}

/// The statement that encodes a value of type `ty`, reached through `access` and `accessor`.
/// Each arm calls the runtime method of its wire rule, the one `codec::enc` applies:
/// a number goes to `serialize_number` (varint, zigzag first when signed), a text or a
/// byte string to `serialize_string` / `serialize_bytes` (length, then the raw bytes), an
/// array to `serialize_array` (count, then the items), an optional to the presence flag
/// and then its value, and an object to the encode function of its container.
pub open spec fn accessor_text(ty: ValueType, access: InnerTypeAccess, accessor: FieldAccessor) -> Seq<
    char,
>
    decreases ty,
{
    match ty {
        ValueType::Number(m) => number_accessor_text(m, access, accessor),
        ValueType::String => "s.serialize_string("@ + target_text(access, accessor) + ")"@,
        ValueType::Bytes => "s.serialize_bytes("@ + target_text(access, accessor) + ")"@,
        ValueType::Array(t) => "s.serialize_array((s, v) => "@ + accessor_text(
            *t,
            InnerTypeAccess::Direct,
            FieldAccessor::Direct,
        ) + ","@ + target_text(access, accessor) + ")"@,
        ValueType::Object(n) => object_accessor_text(obj_identifier(n@), access, accessor),
        ValueType::Optional(t) => "if ("@ + target_text(access, accessor)
            + " !== undefined) { s.serialize_number(U32_BYTES, false, 1); "@ + accessor_text(
            *t,
            access,
            accessor,
        ) + " } else { s.serialize_number(U32_BYTES, false, 0) }"@,
    }
}

/// One encode statement per positional field, the field's position as accessor.
pub open spec fn tuple_parts(fields: Seq<ValueType>, access: InnerTypeAccess) -> Seq<Seq<char>> {
    Seq::new(
        fields.len(),
        |i: int| accessor_text(fields[i], access, FieldAccessor::Array(i as usize)),
    )
}

/// One encode statement per named field, in declaration order.
pub open spec fn struct_parts(fields: Seq<StructField>, access: InnerTypeAccess) -> Seq<Seq<char>> {
    Seq::new(
        fields.len(),
        |i: int| accessor_text(fields[i].v_type, access, FieldAccessor::Object(fields[i].name)),
    )
}

pub open spec fn tuple_accessors_text(fields: Seq<ValueType>, access: InnerTypeAccess) -> Seq<char> {
    join(tuple_parts(fields, access), ";"@)
}

pub open spec fn struct_accessors_text(fields: Seq<StructField>, access: InnerTypeAccess) -> Seq<
    char,
> {
    join(struct_parts(fields, access), ";"@)
}

fn push_target(out: &mut String, access: InnerTypeAccess, accessor: FieldAccessor)
    ensures
        final(out)@ == old(out)@ + target_text(access, accessor),
{
    out.append("v");
    match access {
        InnerTypeAccess::Direct => {},
        InnerTypeAccess::EnumInner => out.append(".value"),
    }
    match accessor {
        FieldAccessor::Object(n) => {
            out.append(".");
            out.append(n);
        },
        FieldAccessor::Array(i) => {
            out.append("[");
            crate::text::push_decimal(out, i);
            out.append("]");
        },
        FieldAccessor::Direct => {},
    }
    assert(final(out)@ =~= old(out)@ + target_text(access, accessor));
}

/// Encodes a number with its width and signedness.
pub fn gen_accessor_number(
    number_meta: NumberMeta,
    field_access: InnerTypeAccess,
    field_accessor: FieldAccessor,
) -> (r: String)
    ensures
        r@ == number_accessor_text(number_meta, field_access, field_accessor),
{
    let mut out = String::new();
    out.append("s.serialize_number(");
    let b = number_meta.bytes;
    if b == 1 {
        out.append("U8_BYTES");
    } else if b == 2 {
        out.append("U16_BYTES");
    } else if b == 4 {
        out.append("U32_BYTES");
    } else if b == 8 {
        out.append("U64_BYTES");
    } else {
        out.append("U128_BYTES");
    }
    out.append(",");
    if number_meta.signed {
        out.append("true");
    } else {
        out.append("false");
    }
    out.append(",");
    push_target(&mut out, field_access, field_accessor);
    out.append(")");
    assert(out@ =~= number_accessor_text(number_meta, field_access, field_accessor));
    out
}

/// Encodes a value of another container by calling that container's encode function,
/// whose identifier is `obj_ident`.
pub fn gen_accessor_object(
    obj_ident: &str,
    field_access: InnerTypeAccess,
    field_accessor: FieldAccessor,
) -> (r: String)
    ensures
        r@ == object_accessor_text(obj_ident@, field_access, field_accessor),
{
    let mut out = String::new();
    out.append("serialize_");
    out.append(obj_ident);
    out.append("(s, ");
    push_target(&mut out, field_access, field_accessor);
    out.append(")");
    assert(out@ =~= object_accessor_text(obj_ident@, field_access, field_accessor));
    out
}

/// Generates the statement that encodes a value of type `ty`.
pub fn gen_accessor(ty: &ValueType, field_access: InnerTypeAccess, field_accessor: FieldAccessor) -> (r:
    String)
    ensures
        r@ == accessor_text(*ty, field_access, field_accessor),
    decreases ty,
{
    match ty {
        ValueType::Number(m) => gen_accessor_number(*m, field_access, field_accessor),
        ValueType::String => {
            let mut out = String::new();
            out.append("s.serialize_string(");
            push_target(&mut out, field_access, field_accessor);
            out.append(")");
            assert(out@ =~= accessor_text(*ty, field_access, field_accessor));
            out
        },
        ValueType::Bytes => {
            let mut out = String::new();
            out.append("s.serialize_bytes(");
            push_target(&mut out, field_access, field_accessor);
            out.append(")");
            assert(out@ =~= accessor_text(*ty, field_access, field_accessor));
            out
        },
        ValueType::Array(t) => {
            let inner = gen_accessor(t, InnerTypeAccess::Direct, FieldAccessor::Direct);
            let mut out = String::new();
            out.append("s.serialize_array((s, v) => ");
            out.append(inner.as_str());
            out.append(",");
            push_target(&mut out, field_access, field_accessor);
            out.append(")");
            assert(out@ =~= accessor_text(*ty, field_access, field_accessor));
            out
        },
        ValueType::Object(n) => {
            let ident = to_obj_identifier(n);
            gen_accessor_object(ident.as_str(), field_access, field_accessor)
        },
        ValueType::Optional(t) => {
            let inner = gen_accessor(t, field_access, field_accessor);
            let mut out = String::new();
            out.append("if (");
            push_target(&mut out, field_access, field_accessor);
            out.append(" !== undefined) { s.serialize_number(U32_BYTES, false, 1); ");
            out.append(inner.as_str());
            out.append(" } else { s.serialize_number(U32_BYTES, false, 0) }");
            assert(out@ =~= accessor_text(*ty, field_access, field_accessor));
            out
        },
    }
}

/// Encode statements for positional fields, joined by `;`.
pub fn gen_accessors_tuple(fields: &[ValueType], field_access: InnerTypeAccess) -> (r: String)
    ensures
        r@ == tuple_accessors_text(fields@, field_access),
{
    let ghost parts = tuple_parts(fields@, field_access);
    let mut out = String::new();
    let mut i: usize = 0;
    while i < fields.len()
        invariant
            i <= fields@.len(),
            parts == tuple_parts(fields@, field_access),
            out@ == join(parts.take(i as int), ";"@),
        decreases fields@.len() - i,
    {
        proof {
            lemma_join_push(parts, ";"@, i as int);
        }
        if i > 0 {
            out.append(";");
        }
        let a = gen_accessor(&fields[i], field_access, FieldAccessor::Array(i));
        out.append(a.as_str());
        i = i + 1;
    }
    assert(parts.take(fields@.len() as int) =~= parts);
    out
}

/// Encode statements for named fields, joined by `;`.
pub fn gen_accessors_struct(fields: &[StructField], field_access: InnerTypeAccess) -> (r: String)
    ensures
        r@ == struct_accessors_text(fields@, field_access),
{
    let ghost parts = struct_parts(fields@, field_access);
    let mut out = String::new();
    let mut i: usize = 0;
    while i < fields.len()
        invariant
            i <= fields@.len(),
            parts == struct_parts(fields@, field_access),
            out@ == join(parts.take(i as int), ";"@),
        decreases fields@.len() - i,
    {
        proof {
            lemma_join_push(parts, ";"@, i as int);
        }
        if i > 0 {
            out.append(";");
        }
        let a = gen_accessor(&fields[i].v_type, field_access, FieldAccessor::Object(fields[i].name));
        out.append(a.as_str());
        i = i + 1;
    }
    assert(parts.take(fields@.len() as int) =~= parts);
    out
}

} // verus!
