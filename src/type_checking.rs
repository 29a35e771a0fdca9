use vstd::prelude::*;
use vstd::string::*;

use crate::ident::{obj_identifier, to_obj_identifier};
use crate::registry::{BindingType, Container, EnumVariant, EnumVariantType, StructField};
use crate::text::{decimal, join, lemma_join_push, push_decimal};
use crate::types::ValueType;

verus! {

/// The condition that the value of expression `e` has the shape of `ty`.
pub open spec fn check_text(ty: ValueType, e: Seq<char>) -> Seq<char>
    decreases ty,
{
    match ty {
        ValueType::Number(_) => "(typeof "@ + e + " === \"number\" || typeof "@ + e
            + " === \"bigint\")"@,
        ValueType::String => "typeof "@ + e + " === \"string\""@,
        ValueType::Bytes => "(Array.isArray("@ + e + ") || "@ + e + " instanceof Uint8Array)"@,
        ValueType::Array(t) => "(Array.isArray("@ + e + ") && "@ + e + ".every((v) => "@
            + check_text(*t, "v"@) + "))"@,
        ValueType::Optional(t) => "("@ + e + " === undefined || "@ + check_text(*t, e) + ")"@,
        ValueType::Object(n) => "is_"@ + obj_identifier(n@) + "("@ + e + ")"@,
    }
}

/// One ` && ` condition per named field of the object `prefix`.
pub open spec fn struct_check_parts(fs: Seq<StructField>, prefix: Seq<char>) -> Seq<Seq<char>> {
    Seq::new(fs.len(), |i: int| " && "@ + check_text(fs[i].v_type, prefix + "."@ + fs[i].name@))
}

/// One ` && ` condition per positional field of the array `prefix`.
pub open spec fn tuple_check_parts(tys: Seq<ValueType>, prefix: Seq<char>) -> Seq<Seq<char>> {
    Seq::new(
        tys.len(),
        |i: int| " && "@ + check_text(tys[i], prefix + "["@ + decimal(i as nat) + "]"@),
    )
}

/// `prefix` is an object and every declared field conforms.
pub open spec fn struct_check_text(fs: Seq<StructField>, prefix: Seq<char>) -> Seq<char> {
    "typeof "@ + prefix + " === \"object\" && "@ + prefix + " !== null"@ + join(
        struct_check_parts(fs, prefix),
        Seq::empty(),
    )
}

/// `prefix` is an array of the declared length and every field conforms.
pub open spec fn tuple_check_text(tys: Seq<ValueType>, prefix: Seq<char>) -> Seq<char> {
    "Array.isArray("@ + prefix + ") && "@ + prefix + ".length === "@ + decimal(tys.len()) + join(
        tuple_check_parts(tys, prefix),
        Seq::empty(),
    )
}

pub open spec fn check_payload_text(inner: EnumVariantType) -> Seq<char> {
    match inner {
        EnumVariantType::Empty => "true"@,
        EnumVariantType::Tuple(tys) => tuple_check_text(tys@, "v.value"@),
        EnumVariantType::NewType(fs) => struct_check_text(fs@, "v.value"@),
    }
}

pub open spec fn check_case_text(v: EnumVariant) -> Seq<char> {
    "case \""@ + v.name@ + "\": return "@ + check_payload_text(v.inner_type) + ";"@
}

pub open spec fn check_case_parts(vs: Seq<EnumVariant>) -> Seq<Seq<char>> {
    Seq::new(vs.len(), |i: int| check_case_text(vs[i]))
}

/// The `is_<ID>` validator of a container.
pub open spec fn check_function_text(c: Container) -> Seq<char> {
    let head = "const is_"@ + obj_identifier(c.name@) + " = (v) => "@;
    match c.ty {
        BindingType::Struct(s) => head + "("@ + struct_check_text(s.fields@, "v"@) + ")"@,
        BindingType::TupleStruct(t) => head + "("@ + tuple_check_text(t.fields@, "v"@) + ")"@,
        BindingType::UnitStruct(_) => head + "(typeof v === \"object\" && v !== null)"@,
        BindingType::Enum(e) => head
            + "{ if (typeof v !== \"object\" || v === null) return false; switch (v.tag) { "@ + join(
            check_case_parts(e.variants@),
            " "@,
        ) + " default: return false } }"@,
    }
}

pub open spec fn check_function_parts(cs: Seq<Container>) -> Seq<Seq<char>> {
    Seq::new(cs.len(), |i: int| check_function_text(cs[i]))
}

/// Generates the condition that the value of `e` has the shape of `ty`.
pub fn gen_check(ty: &ValueType, e: &str) -> (r: String)
    ensures
        r@ == check_text(*ty, e@),
    decreases ty,
{
    let mut out = String::new();
    match ty {
        ValueType::Number(_) => {
            out.append("(typeof ");
            out.append(e);
            out.append(" === \"number\" || typeof ");
            out.append(e);
            out.append(" === \"bigint\")");
        },
        ValueType::String => {
            out.append("typeof ");
            out.append(e);
            out.append(" === \"string\"");
        },
        ValueType::Bytes => {
            out.append("(Array.isArray(");
            out.append(e);
            out.append(") || ");
            out.append(e);
            out.append(" instanceof Uint8Array)");
        },
        ValueType::Array(t) => {
            let inner = gen_check(t, "v");
            out.append("(Array.isArray(");
            out.append(e);
            out.append(") && ");
            out.append(e);
            out.append(".every((v) => ");
            out.append(inner.as_str());
            out.append("))");
        },
        ValueType::Optional(t) => {
            let inner = gen_check(t, e);
            out.append("(");
            out.append(e);
            out.append(" === undefined || ");
            out.append(inner.as_str());
            out.append(")");
        },
        ValueType::Object(n) => {
            let ident = to_obj_identifier(n);
            out.append("is_");
            out.append(ident.as_str());
            out.append("(");
            out.append(e);
            out.append(")");
        },
    }
    assert(out@ =~= check_text(*ty, e@));
    out
}

/// Generates the check that `prefix` is an object whose declared fields conform.
pub fn gen_struct_check(fs: &[StructField], prefix: &str) -> (r: String)
    ensures
        r@ == struct_check_text(fs@, prefix@),
{
    let ghost parts = struct_check_parts(fs@, prefix@);
    let mut out = String::new();
    out.append("typeof ");
    out.append(prefix);
    out.append(" === \"object\" && ");
    out.append(prefix);
    out.append(" !== null");
    let ghost head = out@;
    let mut i: usize = 0;
    while i < fs.len()
        invariant
            i <= fs@.len(),
            parts == struct_check_parts(fs@, prefix@),
            out@ == head + join(parts.take(i as int), Seq::empty()),
        decreases fs@.len() - i,
    {
        proof {
            lemma_join_push(parts, Seq::empty(), i as int);
        }
        let mut target = String::new();
        target.append(prefix);
        target.append(".");
        target.append(fs[i].name);
        let c = gen_check(&fs[i].v_type, target.as_str());
        out.append(" && ");
        out.append(c.as_str());
        i = i + 1;
        assert(out@ =~= head + join(parts.take(i as int), Seq::empty()));
    }
    assert(parts.take(fs@.len() as int) =~= parts);
    assert(out@ =~= struct_check_text(fs@, prefix@));
    out
}

/// Generates the check that `prefix` is an array of the declared fields.
pub fn gen_tuple_check(tys: &[ValueType], prefix: &str) -> (r: String)
    ensures
        r@ == tuple_check_text(tys@, prefix@),
{
    let ghost parts = tuple_check_parts(tys@, prefix@);
    let mut out = String::new();
    out.append("Array.isArray(");
    out.append(prefix);
    out.append(") && ");
    out.append(prefix);
    out.append(".length === ");
    push_decimal(&mut out, tys.len());
    let ghost head = out@;
    let mut i: usize = 0;
    while i < tys.len()
        invariant
            i <= tys@.len(),
            parts == tuple_check_parts(tys@, prefix@),
            out@ == head + join(parts.take(i as int), Seq::empty()),
        decreases tys@.len() - i,
    {
        proof {
            lemma_join_push(parts, Seq::empty(), i as int);
        }
        let mut target = String::new();
        target.append(prefix);
        target.append("[");
        push_decimal(&mut target, i);
        target.append("]");
        let c = gen_check(&tys[i], target.as_str());
        out.append(" && ");
        out.append(c.as_str());
        i = i + 1;
        assert(out@ =~= head + join(parts.take(i as int), Seq::empty()));
    }
    assert(parts.take(tys@.len() as int) =~= parts);
    assert(out@ =~= tuple_check_text(tys@, prefix@));
    out
}

fn gen_check_case(v: &EnumVariant) -> (r: String)
    ensures
        r@ == check_case_text(*v),
{
    let mut out = String::new();
    out.append("case \"");
    out.append(v.name);
    out.append("\": return ");
    match &v.inner_type {
        EnumVariantType::Empty => out.append("true"),
        EnumVariantType::Tuple(tys) => {
            let c = gen_tuple_check(tys.as_slice(), "v.value");
            out.append(c.as_str());
        },
        EnumVariantType::NewType(fs) => {
            let c = gen_struct_check(fs.as_slice(), "v.value");
            out.append(c.as_str());
        },
    }
    out.append(";");
    assert(out@ =~= check_case_text(*v));
    out
}

fn gen_check_cases(vs: &[EnumVariant]) -> (r: String)
    ensures
        r@ == join(check_case_parts(vs@), " "@),
{
    let ghost parts = check_case_parts(vs@);
    let mut out = String::new();
    let mut i: usize = 0;
    while i < vs.len()
        invariant
            i <= vs@.len(),
            parts == check_case_parts(vs@),
            out@ == join(parts.take(i as int), " "@),
        decreases vs@.len() - i,
    {
        proof {
            lemma_join_push(parts, " "@, i as int);
        }
        if i > 0 {
            out.append(" ");
        }
        let c = gen_check_case(&vs[i]);
        out.append(c.as_str());
        i = i + 1;
    }
    assert(parts.take(vs@.len() as int) =~= parts);
    out
}

/// Generates the `is_<ID>` validator of a container.
pub fn gen_check_function(c: &Container) -> (r: String)
    ensures
        r@ == check_function_text(*c),
{
    let ident = to_obj_identifier(c.name);
    let mut out = String::new();
    out.append("const is_");
    out.append(ident.as_str());
    out.append(" = (v) => ");
    match &c.ty {
        BindingType::Struct(s) => {
            let body = gen_struct_check(s.fields.as_slice(), "v");
            out.append("(");
            out.append(body.as_str());
            out.append(")");
        },
        BindingType::TupleStruct(t) => {
            let body = gen_tuple_check(t.fields.as_slice(), "v");
            out.append("(");
            out.append(body.as_str());
            out.append(")");
        },
        BindingType::UnitStruct(_) => out.append("(typeof v === \"object\" && v !== null)"),
        BindingType::Enum(e) => {
            let body = gen_check_cases(e.variants.as_slice());
            out.append("{ if (typeof v !== \"object\" || v === null) return false; switch (v.tag) { ");
            out.append(body.as_str());
            out.append(" default: return false } }");
        },
    }
    assert(out@ =~= check_function_text(*c));
    out
}

/// Generates the validators of all containers, one per line.
pub fn gen_type_checkings(cs: &[Container]) -> (r: String)
    ensures
        r@ == join(check_function_parts(cs@), "\n"@),
{
    let ghost parts = check_function_parts(cs@);
    let mut out = String::new();
    let mut i: usize = 0;
    while i < cs.len()
        invariant
            i <= cs@.len(),
            parts == check_function_parts(cs@),
            out@ == join(parts.take(i as int), "\n"@),
        decreases cs@.len() - i,
    {
        proof {
            lemma_join_push(parts, "\n"@, i as int);
        }
        if i > 0 {
            out.append("\n");
        }
        let f = gen_check_function(&cs[i]);
        out.append(f.as_str());
        i = i + 1;
    }
    assert(parts.take(cs@.len() as int) =~= parts);
    out
}

} // verus!
