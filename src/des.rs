use vstd::prelude::*;
use vstd::string::*;

use crate::ident::{obj_identifier, to_obj_identifier};
use crate::registry::{BindingType, Container, EnumVariant, EnumVariantType, StructField};
use crate::ser::{bool_text, byte_amount_text};
use crate::text::{decimal, join, lemma_join_push, push_decimal};
use crate::types::{NumberMeta, ValueType};

verus! {

/// The expression that reads a value of type `ty` from the deserializer `d`: the mirror of
/// `ser::accessor_text`, one runtime read per wire rule, as `decode::dec` applies them.
pub open spec fn des_text(ty: ValueType) -> Seq<char>
    decreases ty,
{
    match ty {
        ValueType::Number(m) => "d.deserialize_number("@ + byte_amount_text(m.bytes) + ","@
            + bool_text(m.signed) + ")"@,
        ValueType::String => "d.deserialize_string()"@,
        ValueType::Bytes => "d.deserialize_bytes()"@,
        ValueType::Array(t) => "d.deserialize_array(() => "@ + des_text(*t) + ")"@,
        ValueType::Optional(t) => "d.deserialize_optional(() => "@ + des_text(*t) + ")"@,
        ValueType::Object(n) => "deserialize_"@ + obj_identifier(n@) + "(d)"@,
    }
}

/// Positional fields read in order, as array elements.
pub open spec fn tuple_des_parts(tys: Seq<ValueType>) -> Seq<Seq<char>> {
    Seq::new(tys.len(), |i: int| des_text(tys[i]))
}

/// Named fields read in declared order, as object members.
pub open spec fn struct_des_parts(fs: Seq<StructField>) -> Seq<Seq<char>> {
    Seq::new(fs.len(), |i: int| fs[i].name@ + ": "@ + des_text(fs[i].v_type))
}

pub open spec fn des_payload_text(inner: EnumVariantType) -> Seq<char> {
    match inner {
        EnumVariantType::Empty => Seq::empty(),
        EnumVariantType::Tuple(tys) => ", value: ["@ + join(tuple_des_parts(tys@), ", "@) + "]"@,
        EnumVariantType::NewType(fs) => ", value: { "@ + join(struct_des_parts(fs@), ", "@)
            + " }"@,
    }
}

/// The case for the variant at position `index`: the index read decides the variant.
pub open spec fn des_case_text(index: nat, v: EnumVariant) -> Seq<char> {
    "case "@ + decimal(index) + ": return { tag: \""@ + v.name@ + "\""@ + des_payload_text(
        v.inner_type,
    ) + " };"@
}

pub open spec fn des_case_parts(vs: Seq<EnumVariant>) -> Seq<Seq<char>> {
    Seq::new(vs.len(), |i: int| des_case_text(i as nat, vs[i]))
}

/// The decode function of a container. An enum reads its index first and throws
/// `InvalidDiscriminant` for an index no variant has.
pub open spec fn des_function_text(c: Container) -> Seq<char> {
    let head = "const deserialize_"@ + obj_identifier(c.name@);
    match c.ty {
        BindingType::Struct(s) => head + " = (d) => ({ "@ + join(struct_des_parts(s.fields@), ", "@)
            + " })"@,
        BindingType::TupleStruct(t) => head + " = (d) => ["@ + join(tuple_des_parts(t.fields@), ", "@)
            + "]"@,
        BindingType::UnitStruct(_) => head + " = (d) => ({})"@,
        BindingType::Enum(e) => head + " = (d) => { switch (d.deserialize_index()) { "@
            + join(des_case_parts(e.variants@), " "@) + " default: throw \"InvalidDiscriminant\" } }"@,
    }
}

pub open spec fn des_function_parts(cs: Seq<Container>) -> Seq<Seq<char>> {
    Seq::new(cs.len(), |i: int| des_function_text(cs[i]))
}

fn push_number_meta(out: &mut String, m: NumberMeta)
    ensures
        final(out)@ == old(out)@ + byte_amount_text(m.bytes) + ","@ + bool_text(m.signed),
{
    let b = m.bytes;
    if b == 1 {
        out.append("U8_BYTES");
    } else if b == 2 {
        out.append("U16_BYTES");
    } else if b == 4 {
        out.append("U32_BYTES");
    } else if b == 8 {
        out.append("U64_BYTES");
    } else {
        out.append("U128_BYTES");
    }
    out.append(",");
    if m.signed {
        out.append("true");
    } else {
        out.append("false");
    }
    assert(final(out)@ =~= old(out)@ + byte_amount_text(m.bytes) + ","@ + bool_text(m.signed));
}

/// Generates the expression that reads a value of type `ty`.
pub fn gen_des_accessor(ty: &ValueType) -> (r: String)
    ensures
        r@ == des_text(*ty),
    decreases ty,
{
    let mut out = String::new();
    match ty {
        ValueType::Number(m) => {
            out.append("d.deserialize_number(");
            push_number_meta(&mut out, *m);
            out.append(")");
        },
        ValueType::String => out.append("d.deserialize_string()"),
        ValueType::Bytes => out.append("d.deserialize_bytes()"),
        ValueType::Array(t) => {
            let inner = gen_des_accessor(t);
            out.append("d.deserialize_array(() => ");
            out.append(inner.as_str());
            out.append(")");
        },
        ValueType::Optional(t) => {
            let inner = gen_des_accessor(t);
            out.append("d.deserialize_optional(() => ");
            out.append(inner.as_str());
            out.append(")");
        },
        ValueType::Object(n) => {
            let ident = to_obj_identifier(n);
            out.append("deserialize_");
            out.append(ident.as_str());
            out.append("(d)");
        },
    }
    assert(out@ =~= des_text(*ty));
    out
}

/// Generates the reads of positional fields, joined by `, `.
pub fn gen_des_tuple(tys: &[ValueType]) -> (r: String)
    ensures
        r@ == join(tuple_des_parts(tys@), ", "@),
{
    let ghost parts = tuple_des_parts(tys@);
    let mut out = String::new();
    let mut i: usize = 0;
    while i < tys.len()
        invariant
            i <= tys@.len(),
            parts == tuple_des_parts(tys@),
            out@ == join(parts.take(i as int), ", "@),
        decreases tys@.len() - i,
    {
        proof {
            lemma_join_push(parts, ", "@, i as int);
        }
        if i > 0 {
            out.append(", ");
        }
        let a = gen_des_accessor(&tys[i]);
        out.append(a.as_str());
        i = i + 1;
    }
    assert(parts.take(tys@.len() as int) =~= parts);
    out
}

/// Generates the reads of named fields, joined by `, `.
pub fn gen_des_struct(fs: &[StructField]) -> (r: String)
    ensures
        r@ == join(struct_des_parts(fs@), ", "@),
{
    let ghost parts = struct_des_parts(fs@);
    let mut out = String::new();
    let mut i: usize = 0;
    while i < fs.len()
        invariant
            i <= fs@.len(),
            parts == struct_des_parts(fs@),
            out@ == join(parts.take(i as int), ", "@),
        decreases fs@.len() - i,
    {
        proof {
            lemma_join_push(parts, ", "@, i as int);
        }
        if i > 0 {
            out.append(", ");
        }
        let a = gen_des_accessor(&fs[i].v_type);
        out.append(fs[i].name);
        out.append(": ");
        out.append(a.as_str());
        i = i + 1;
    }
    assert(parts.take(fs@.len() as int) =~= parts);
    out
}

/// Generates the case for the variant at position `index`.
pub fn gen_des_case(index: usize, v: &EnumVariant) -> (r: String)
    ensures
        r@ == des_case_text(index as nat, *v),
{
    let mut out = String::new();
    out.append("case ");
    push_decimal(&mut out, index);
    out.append(": return { tag: \"");
    out.append(v.name);
    out.append("\"");
    match &v.inner_type {
        EnumVariantType::Empty => {},
        EnumVariantType::Tuple(tys) => {
            let body = gen_des_tuple(tys.as_slice());
            out.append(", value: [");
            out.append(body.as_str());
            out.append("]");
        },
        EnumVariantType::NewType(fs) => {
            let body = gen_des_struct(fs.as_slice());
            out.append(", value: { ");
            out.append(body.as_str());
            out.append(" }");
        },
    }
    out.append(" };");
    assert(out@ =~= des_case_text(index as nat, *v));
    out
}

fn gen_des_cases(vs: &[EnumVariant]) -> (r: String)
    ensures
        r@ == join(des_case_parts(vs@), " "@),
{
    let ghost parts = des_case_parts(vs@);
    let mut out = String::new();
    let mut i: usize = 0;
    while i < vs.len()
        invariant
            i <= vs@.len(),
            parts == des_case_parts(vs@),
            out@ == join(parts.take(i as int), " "@),
        decreases vs@.len() - i,
    {
        proof {
            lemma_join_push(parts, " "@, i as int);
        }
        if i > 0 {
            out.append(" ");
        }
        let c = gen_des_case(i, &vs[i]);
        out.append(c.as_str());
        i = i + 1;
    }
    assert(parts.take(vs@.len() as int) =~= parts);
    out
}

/// Generates the decode function of a container.
pub fn gen_des_function(c: &Container) -> (r: String)
    ensures
        r@ == des_function_text(*c),
{
    let ident = to_obj_identifier(c.name);
    let mut out = String::new();
    out.append("const deserialize_");
    out.append(ident.as_str());
    match &c.ty {
        BindingType::Struct(s) => {
            let body = gen_des_struct(s.fields.as_slice());
            out.append(" = (d) => ({ ");
            out.append(body.as_str());
            out.append(" })");
        },
        BindingType::TupleStruct(t) => {
            let body = gen_des_tuple(t.fields.as_slice());
            out.append(" = (d) => [");
            out.append(body.as_str());
            out.append("]");
        },
        BindingType::UnitStruct(_) => out.append(" = (d) => ({})"),
        BindingType::Enum(e) => {
            let body = gen_des_cases(e.variants.as_slice());
            out.append(" = (d) => { switch (d.deserialize_index()) { ");
            out.append(body.as_str());
            out.append(" default: throw \"InvalidDiscriminant\" } }");
        },
    }
    assert(out@ =~= des_function_text(*c));
    out
}

/// Generates the decode functions of all containers, one per line.
pub fn gen_des_functions(cs: &[Container]) -> (r: String)
    ensures
        r@ == join(des_function_parts(cs@), "\n"@),
{
    let ghost parts = des_function_parts(cs@);
    let mut out = String::new();
    let mut i: usize = 0;
    while i < cs.len()
        invariant
            i <= cs@.len(),
            parts == des_function_parts(cs@),
            out@ == join(parts.take(i as int), "\n"@),
        decreases cs@.len() - i,
    {
        proof {
            lemma_join_push(parts, "\n"@, i as int);
        }
        if i > 0 {
            out.append("\n");
        }
        let f = gen_des_function(&cs[i]);
        out.append(f.as_str());
        i = i + 1;
    }
    assert(parts.take(cs@.len() as int) =~= parts);
    out
}

} // verus!
