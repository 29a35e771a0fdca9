use vstd::prelude::*;
use vstd::string::*;

use crate::ident::{obj_identifier, to_obj_identifier};
use crate::names::{container_names_ok, container_names_valid, names_valid};
use crate::registry::{variants_indexed, BindingType, Container, EnumVariant};
use crate::des::{des_function_parts, gen_des_functions};
use crate::runtime::{runtime_text, RUNTIME};
use crate::ser::{enum_ty, strukt, tuple_struct};
use crate::type_checking::{check_function_parts, gen_type_checkings};
use crate::text::{join, lemma_join_push, same_text};

verus! {

/// Why a registry cannot be turned into code.
#[derive(Debug, Clone, Copy, PartialEq, Eq, Structural)]
pub enum GenError {
    DuplicateName,
    IdentifierCollision,
    InvalidName,
    VariantIndexGap,
}

/// No two containers share a name.
pub open spec fn names_unique(cs: Seq<Container>) -> bool {
    forall|i: int, j: int| 0 <= i < j < cs.len() ==> cs[i].name@ != cs[j].name@
}

pub open spec fn container_indexed(c: Container) -> bool {
    match c.ty {
        BindingType::Enum(e) => variants_indexed(e.variants@),
        _ => true,
    }
}

/// Every enum's variant indices run from 0 without gaps.
pub open spec fn enums_indexed(cs: Seq<Container>) -> bool {
    forall|i: int| 0 <= i < cs.len() ==> #[trigger] container_indexed(cs[i])
}

/// No two containers derive the same identifier.
pub open spec fn identifiers_unique(cs: Seq<Container>) -> bool {
    forall|i: int, j: int|
        0 <= i < j < cs.len() ==> obj_identifier(cs[i].name@) != obj_identifier(cs[j].name@)
}

/// What checking a registry reports.
pub open spec fn registry_check(cs: Seq<Container>) -> Result<(), GenError> {
    if !names_unique(cs) {
        Err(GenError::DuplicateName)
    } else if !identifiers_unique(cs) {
        Err(GenError::IdentifierCollision)
    } else if !names_valid(cs) {
        Err(GenError::InvalidName)
    } else if !enums_indexed(cs) {
        Err(GenError::VariantIndexGap)
    } else {
        Ok(())
    }
}

/// The encode function of one container.
pub open spec fn container_function_text(c: Container) -> Seq<char> {
    let ident = obj_identifier(c.name@);
    match c.ty {
        BindingType::Struct(s) => strukt::function_text(ident, s.fields@),
        BindingType::TupleStruct(t) => tuple_struct::function_text(ident, t.fields@),
        BindingType::UnitStruct(_) => "const serialize_"@ + ident + " = (s, v) => {}"@,
        BindingType::Enum(e) => enum_ty::function_text(ident, e.variants@),
    }
}

pub open spec fn function_parts(cs: Seq<Container>) -> Seq<Seq<char>> {
    Seq::new(cs.len(), |i: int| container_function_text(cs[i]))
}

/// The case of the dispatch switch for the container `name`, whose identifier is `ident`.
pub open spec fn ser_case_text(name: Seq<char>, ident: Seq<char>, type_checks: bool) -> Seq<char> {
    if type_checks {
        "case \""@ + name + "\": if (is_"@ + ident + "(value)) { serialize_"@ + ident
            + "(s, value) } else throw \"ShapeMismatch\"; break"@
    } else {
        "case \""@ + name + "\": serialize_"@ + ident + "(s, value); break"@
    }
}

pub open spec fn ser_case_parts(cs: Seq<Container>, type_checks: bool) -> Seq<Seq<char>> {
    Seq::new(
        cs.len(),
        |i: int| ser_case_text(cs[i].name@, obj_identifier(cs[i].name@), type_checks),
    )
}

/// The public `serialize(type, value)` entry point: it rejects a type key that is not a
/// string, dispatches on the registered names, and throws for any other name.
pub open spec fn serialize_func_text(cs: Seq<Container>, type_checks: bool) -> Seq<char> {
    "module.exports.serialize = (type, value) => {\n    if (!(typeof type === \"string\")) {\n        throw \"MalformedTypeKey\"\n    }\n    const s = new Serializer()\n    switch (type) {\n        "@
        + join(ser_case_parts(cs, type_checks), ";"@)
        + "\n        default: throw \"UnknownType\"\n    }\n    return s.finish()\n}"@
}

/// The case of the `deserialize` switch for the container `name`, whose identifier is `ident`.
pub open spec fn des_dispatch_case_text(name: Seq<char>, ident: Seq<char>) -> Seq<char> {
    "case \""@ + name + "\": return deserialize_"@ + ident + "(d)"@
}

pub open spec fn des_dispatch_parts(cs: Seq<Container>) -> Seq<Seq<char>> {
    Seq::new(cs.len(), |i: int| des_dispatch_case_text(cs[i].name@, obj_identifier(cs[i].name@)))
}

/// The public `deserialize(type, bytes)` entry point: it rejects a type key that is not a
/// string, dispatches on the registered names, and throws for any other name.
pub open spec fn deserialize_func_text(cs: Seq<Container>) -> Seq<char> {
    "module.exports.deserialize = (type, bytes) => {\n    if (!(typeof type === \"string\")) {\n        throw \"MalformedTypeKey\"\n    }\n    const d = new Deserializer(bytes)\n    switch (type) {\n        "@
        + join(des_dispatch_parts(cs), ";"@)
        + "\n        default: throw \"UnknownType\"\n    }\n}"@
}

/// The validators, each line closed by a newline, or nothing when they are not asked for.
pub open spec fn checks_text(cs: Seq<Container>, type_checks: bool) -> Seq<char> {
    if type_checks {
        join(check_function_parts(cs), "\n"@) + "\n"@
    } else {
        Seq::empty()
    }
}

/// The whole generated unit, in this order: the read/write runtime, the encode
/// functions, the decode functions, the validators when asked for, `serialize`, and
/// `deserialize` last.
pub open spec fn js_text(cs: Seq<Container>, type_checks: bool) -> Seq<char> {
    runtime_text() + "\n"@ + join(function_parts(cs), "\n"@) + "\n"@ + join(
        des_function_parts(cs),
        "\n"@,
    ) + "\n"@ + checks_text(cs, type_checks) + serialize_func_text(cs, type_checks) + "\n"@
        + deserialize_func_text(cs)
}

fn variants_are_indexed(vs: &[EnumVariant]) -> (r: bool)
    ensures
        r == variants_indexed(vs@),
{
    let mut i: usize = 0;
    while i < vs.len()
        invariant
            i <= vs@.len(),
            forall|k: int| 0 <= k < i ==> #[trigger] vs@[k].index == k,
        decreases vs@.len() - i,
    {
        if vs[i].index != i {
            return false;
        }
        i = i + 1;
    }
    true
}

/// Checks that names are unique and that enum variant indices have no gaps.
pub fn check_registry(cs: &[Container]) -> (r: Result<(), GenError>)
    ensures
        r == registry_check(cs@),
{
    let mut i: usize = 0;
    while i < cs.len()
        invariant
            i <= cs@.len(),
            forall|a: int, b: int| 0 <= a < i && a < b < cs@.len() ==> cs@[a].name@ != cs@[b].name@,
        decreases cs@.len() - i,
    {
        let mut j: usize = i + 1;
        while j < cs.len()
            invariant
                i < j <= cs@.len(),
                i < cs@.len(),
                forall|a: int, b: int|
                    0 <= a < i && a < b < cs@.len() ==> cs@[a].name@ != cs@[b].name@,
                forall|b: int| i < b < j ==> cs@[i as int].name@ != cs@[b].name@,
            decreases cs@.len() - j,
        {
            if same_text(cs[i].name, cs[j].name) {
                return Err(GenError::DuplicateName);
            }
            j = j + 1;
        }
        i = i + 1;
    }
    let mut idents: Vec<String> = Vec::new();
    let mut m: usize = 0;
    while m < cs.len()
        invariant
            m <= cs@.len(),
            names_unique(cs@),
            idents@.len() == m,
            forall|a: int| 0 <= a < m ==> #[trigger] idents@[a]@ == obj_identifier(cs@[a].name@),
        decreases cs@.len() - m,
    {
        idents.push(to_obj_identifier(cs[m].name));
        m = m + 1;
    }
    let mut i: usize = 0;
    while i < cs.len()
        invariant
            i <= cs@.len(),
            names_unique(cs@),
            idents@.len() == cs@.len(),
            forall|a: int| 0 <= a < cs@.len() ==> #[trigger] idents@[a]@ == obj_identifier(cs@[a].name@),
            forall|a: int, b: int|
                0 <= a < i && a < b < cs@.len() ==> obj_identifier(cs@[a].name@) != obj_identifier(
                    cs@[b].name@,
                ),
        decreases cs@.len() - i,
    {
        let mut j: usize = i + 1;
        while j < cs.len()
            invariant
                i < j <= cs@.len(),
                i < cs@.len(),
                names_unique(cs@),
                idents@.len() == cs@.len(),
                forall|a: int| 0 <= a < cs@.len() ==> #[trigger] idents@[a]@ == obj_identifier(cs@[a].name@),
                forall|a: int, b: int|
                    0 <= a < i && a < b < cs@.len() ==> obj_identifier(cs@[a].name@) != obj_identifier(
                        cs@[b].name@,
                    ),
                forall|b: int| i < b < j ==> obj_identifier(cs@[i as int].name@) != obj_identifier(cs@[b].name@),
            decreases cs@.len() - j,
        {
            assert(idents@[i as int]@ == obj_identifier(cs@[i as int].name@));
            assert(idents@[j as int]@ == obj_identifier(cs@[j as int].name@));
            if idents[i] == idents[j] {
                assert(!identifiers_unique(cs@));
                return Err(GenError::IdentifierCollision);
            }
            j = j + 1;
        }
        i = i + 1;
    }
    let mut n: usize = 0;
    while n < cs.len()
        invariant
            n <= cs@.len(),
            names_unique(cs@),
            identifiers_unique(cs@),
            forall|a: int| 0 <= a < n ==> #[trigger] container_names_ok(cs@[a]),
        decreases cs@.len() - n,
    {
        if !container_names_valid(&cs[n]) {
            assert(!container_names_ok(cs@[n as int]));
            return Err(GenError::InvalidName);
        }
        n = n + 1;
    }
    let mut k: usize = 0;
    while k < cs.len()
        invariant
            k <= cs@.len(),
            names_unique(cs@),
            identifiers_unique(cs@),
            names_valid(cs@),
            forall|a: int| 0 <= a < k ==> #[trigger] container_indexed(cs@[a]),
        decreases cs@.len() - k,
    {
        if let BindingType::Enum(e) = &cs[k].ty {
            if !variants_are_indexed(e.variants.as_slice()) {
                assert(!container_indexed(cs@[k as int]));
                return Err(GenError::VariantIndexGap);
            }
        }
        k = k + 1;
    }
    Ok(())
}

/// Generates the encode function of one container.
pub fn gen_container_function(c: &Container) -> (r: String)
    ensures
        r@ == container_function_text(*c),
{
    match &c.ty {
        BindingType::Struct(s) => strukt::gen_function(c.name, s.fields.as_slice()),
        BindingType::TupleStruct(t) => tuple_struct::gen_function(c.name, t.fields.as_slice()),
        BindingType::UnitStruct(_) => {
            let ident = to_obj_identifier(c.name);
            let mut out = String::new();
            out.append("const serialize_");
            out.append(ident.as_str());
            out.append(" = (s, v) => {}");
            assert(out@ =~= container_function_text(*c));
            out
        },
        BindingType::Enum(e) => enum_ty::gen_function(c.name, e.variants.as_slice()),
    }
}

/// Generates the encode functions of all containers, one per line.
pub fn gen_ser_des_functions(cs: &[Container]) -> (r: String)
    ensures
        r@ == join(function_parts(cs@), "\n"@),
{
    let ghost parts = function_parts(cs@);
    let mut out = String::new();
    let mut i: usize = 0;
    while i < cs.len()
        invariant
            i <= cs@.len(),
            parts == function_parts(cs@),
            out@ == join(parts.take(i as int), "\n"@),
        decreases cs@.len() - i,
    {
        proof {
            lemma_join_push(parts, "\n"@, i as int);
        }
        if i > 0 {
            out.append("\n");
        }
        let f = gen_container_function(&cs[i]);
        out.append(f.as_str());
        i = i + 1;
    }
    assert(parts.take(cs@.len() as int) =~= parts);
    out
}

/// Generates the dispatch case of the container `name`, whose identifier is `ident`.
pub fn gen_ser_case_for_ident(name: &str, ident: &str, type_checks: bool) -> (r: String)
    ensures
        r@ == ser_case_text(name@, ident@, type_checks),
{
    let mut out = String::new();
    out.append("case \"");
    out.append(name);
    if type_checks {
        out.append("\": if (is_");
        out.append(ident);
        out.append("(value)) { serialize_");
        out.append(ident);
        out.append("(s, value) } else throw \"ShapeMismatch\"; break");
    } else {
        out.append("\": serialize_");
        out.append(ident);
        out.append("(s, value); break");
    }
    assert(out@ =~= ser_case_text(name@, ident@, type_checks));
    out
}

/// Generates the dispatch case of a container.
pub fn gen_ser_case(define: &Container, type_checks: bool) -> (r: String)
    ensures
        r@ == ser_case_text(define.name@, obj_identifier(define.name@), type_checks),
{
    let ident = to_obj_identifier(define.name);
    gen_ser_case_for_ident(define.name, ident.as_str(), type_checks)
}

/// Generates the dispatch cases of all containers, joined by `;`.
pub fn gen_ser_cases(defines: &[Container], type_checks: bool) -> (r: String)
    ensures
        r@ == join(ser_case_parts(defines@, type_checks), ";"@),
{
    let ghost parts = ser_case_parts(defines@, type_checks);
    let mut out = String::new();
    let mut i: usize = 0;
    while i < defines.len()
        invariant
            i <= defines@.len(),
            parts == ser_case_parts(defines@, type_checks),
            out@ == join(parts.take(i as int), ";"@),
        decreases defines@.len() - i,
    {
        proof {
            lemma_join_push(parts, ";"@, i as int);
        }
        if i > 0 {
            out.append(";");
        }
        let c = gen_ser_case(&defines[i], type_checks);
        out.append(c.as_str());
        i = i + 1;
    }
    assert(parts.take(defines@.len() as int) =~= parts);
    out
}

/// Generates the public `serialize` entry point.
pub fn gen_serialize_func(defines: &[Container], type_checks: bool) -> (r: String)
    ensures
        r@ == serialize_func_text(defines@, type_checks),
{
    let cases = gen_ser_cases(defines, type_checks);
    let mut out = String::new();
    out.append(
        "module.exports.serialize = (type, value) => {\n    if (!(typeof type === \"string\")) {\n        throw \"MalformedTypeKey\"\n    }\n    const s = new Serializer()\n    switch (type) {\n        ",
    );
    out.append(cases.as_str());
    out.append("\n        default: throw \"UnknownType\"\n    }\n    return s.finish()\n}");
    assert(out@ =~= serialize_func_text(defines@, type_checks));
    out
}

/// Generates the dispatch case of `deserialize` for the container `name`, whose
/// identifier is `ident`.
pub fn gen_des_dispatch_case_for_ident(name: &str, ident: &str) -> (r: String)
    ensures
        r@ == des_dispatch_case_text(name@, ident@),
{
    let mut out = String::new();
    out.append("case \"");
    out.append(name);
    out.append("\": return deserialize_");
    out.append(ident);
    out.append("(d)");
    assert(out@ =~= des_dispatch_case_text(name@, ident@));
    out
}

/// Generates the public `deserialize` entry point.
pub fn gen_deserialize_func(defines: &[Container]) -> (r: String)
    ensures
        r@ == deserialize_func_text(defines@),
{
    let ghost parts = des_dispatch_parts(defines@);
    let mut cases = String::new();
    let mut i: usize = 0;
    while i < defines.len()
        invariant
            i <= defines@.len(),
            parts == des_dispatch_parts(defines@),
            cases@ == join(parts.take(i as int), ";"@),
        decreases defines@.len() - i,
    {
        proof {
            lemma_join_push(parts, ";"@, i as int);
        }
        if i > 0 {
            cases.append(";");
        }
        let ident = to_obj_identifier(defines[i].name);
        let c = gen_des_dispatch_case_for_ident(defines[i].name, ident.as_str());
        cases.append(c.as_str());
        i = i + 1;
    }
    assert(parts.take(defines@.len() as int) =~= parts);
    let mut out = String::new();
    out.append(
        "module.exports.deserialize = (type, bytes) => {\n    if (!(typeof type === \"string\")) {\n        throw \"MalformedTypeKey\"\n    }\n    const d = new Deserializer(bytes)\n    switch (type) {\n        ",
    );
    out.append(cases.as_str());
    out.append("\n        default: throw \"UnknownType\"\n    }\n}");
    assert(out@ =~= deserialize_func_text(defines@));
    out
}

/// Generates the whole unit of a registry, or reports why the registry is ill-formed;
/// an ill-formed registry yields no code at all.
pub fn generate_js(tys: &[Container], js_type_checks: bool) -> (r: Result<String, GenError>)
    ensures
        match registry_check(tys@) {
            Ok(_) => r matches Ok(s) && s@ == js_text(tys@, js_type_checks),
            Err(e) => r == Err::<String, GenError>(e),
        },
{
    check_registry(tys)?;
    let ser_body = gen_ser_des_functions(tys);
    let des_body = gen_des_functions(tys);
    let serialize = gen_serialize_func(tys, js_type_checks);
    let deserialize = gen_deserialize_func(tys);
    let mut out = String::new();
    out.append(RUNTIME);
    out.append("\n");
    out.append(ser_body.as_str());
    out.append("\n");
    out.append(des_body.as_str());
    out.append("\n");
    if js_type_checks {
        let checks = gen_type_checkings(tys);
        out.append(checks.as_str());
        out.append("\n");
    }
    out.append(serialize.as_str());
    out.append("\n");
    out.append(deserialize.as_str());
    assert(out@ =~= js_text(tys@, js_type_checks));
    Ok(out)
}

/// Generation depends on the registry and the option alone: the same registry
/// snapshot yields the same text each time, and the dispatch case of a container
/// calls the identifier derived from its name alone.
pub proof fn law_generation_deterministic(
    cs1: Seq<Container>,
    cs2: Seq<Container>,
    type_checks: bool,
    i: int,
)
    requires
        cs1 == cs2,
        0 <= i < cs1.len(),
    ensures
        js_text(cs1, type_checks) == js_text(cs2, type_checks),
        ser_case_parts(cs1, type_checks)[i] == ser_case_text(
            cs1[i].name@,
            obj_identifier(cs1[i].name@),
            type_checks,
        ),
{
}

} // verus!
