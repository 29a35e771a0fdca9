use vstd::prelude::*;
use vstd::string::*;

use crate::ident::{obj_identifier, to_obj_identifier};
use crate::registry::{EnumVariant, EnumVariantType};
use crate::ser::{
    gen_accessors_struct, gen_accessors_tuple, struct_accessors_text, tuple_accessors_text,
    InnerTypeAccess,
};
use crate::text::{decimal, join, lemma_join_push, push_decimal};

verus! {

/// The statements that encode a variant's payload, each closed by `;`.
pub open spec fn case_body_text(inner: EnumVariantType) -> Seq<char> {
    match inner {
        EnumVariantType::Empty => Seq::empty(),
        EnumVariantType::Tuple(fields) => tuple_accessors_text(fields@, InnerTypeAccess::EnumInner)
            + "; "@,
        EnumVariantType::NewType(fields) => struct_accessors_text(
            fields@,
            InnerTypeAccess::EnumInner,
        ) + "; "@,
    }
}

/// The switch case of a variant: its index as an unsigned number, then its payload.
pub open spec fn case_text(index: nat, variant: EnumVariant) -> Seq<char> {
    "case \""@ + variant.name@ + "\": s.serialize_number(U32_BYTES, false, "@ + decimal(index)
        + "); "@ + case_body_text(variant.inner_type) + "break"@
}

/// The cases of all variants, the position of each as its index.
pub open spec fn case_parts(variants: Seq<EnumVariant>) -> Seq<Seq<char>> {
    Seq::new(variants.len(), |i: int| case_text(i as nat, variants[i]))
}

/// The encode function of an enum: a switch over the variant tag.
pub open spec fn function_text(obj_ident: Seq<char>, variants: Seq<EnumVariant>) -> Seq<char> {
    "const serialize_"@ + obj_ident + " = (s, v) => { switch (v.tag) { "@ + join(
        case_parts(variants),
        ";"@,
    ) + " } }"@
}

/// Generates the switch case of the variant at position `index`.
pub fn gen_case_for_variant(index: usize, variant: &EnumVariant) -> (r: String)
    ensures
        r@ == case_text(index as nat, *variant),
{
    let mut out = String::new();
    out.append("case \"");
    out.append(variant.name);
    out.append("\": s.serialize_number(U32_BYTES, false, ");
    push_decimal(&mut out, index);
    out.append("); ");
    match &variant.inner_type {
        EnumVariantType::Empty => {},
        EnumVariantType::Tuple(fields) => {
            let body = gen_accessors_tuple(fields.as_slice(), InnerTypeAccess::EnumInner);
            out.append(body.as_str());
            out.append("; ");
        },
        EnumVariantType::NewType(fields) => {
            let body = gen_accessors_struct(fields.as_slice(), InnerTypeAccess::EnumInner);
            out.append(body.as_str());
            out.append("; ");
        },
    }
    out.append("break");
    assert(out@ =~= case_text(index as nat, *variant));
    out
}

/// Generates the encode function of an enum whose identifier is `obj_ident`.
pub fn gen_function_for_ident(obj_ident: &str, variants: &[EnumVariant]) -> (r: String)
    ensures
        r@ == function_text(obj_ident@, variants@),
{
    let ghost parts = case_parts(variants@);
    let mut cases = String::new();
    let mut i: usize = 0;
    while i < variants.len()
        invariant
            i <= variants@.len(),
            parts == case_parts(variants@),
            cases@ == join(parts.take(i as int), ";"@),
        decreases variants@.len() - i,
    {
        proof {
            lemma_join_push(parts, ";"@, i as int);
        }
        if i > 0 {
            cases.append(";");
        }
        let c = gen_case_for_variant(i, &variants[i]);
        cases.append(c.as_str());
        i = i + 1;
    }
    assert(parts.take(variants@.len() as int) =~= parts);
    let mut out = String::new();
    out.append("const serialize_");
    out.append(obj_ident);
    out.append(" = (s, v) => { switch (v.tag) { ");
    out.append(cases.as_str());
    out.append(" } }");
    assert(out@ =~= function_text(obj_ident@, variants@));
    out
}

/// Generates the encode function of the enum named `obj_name`.
pub fn gen_function(obj_name: &str, variants: &[EnumVariant]) -> (r: String)
    ensures
        r@ == function_text(obj_identifier(obj_name@), variants@),
{
    let ident = to_obj_identifier(obj_name);
    gen_function_for_ident(ident.as_str(), variants)
}

} // verus!
