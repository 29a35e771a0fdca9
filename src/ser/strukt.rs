use vstd::prelude::*;
use vstd::string::*;

use crate::ident::{obj_identifier, to_obj_identifier};
use crate::registry::StructField;
use crate::ser::{gen_accessors_struct, struct_accessors_text, InnerTypeAccess};

verus! {

/// The encode function of a struct: its fields in declaration order.
pub open spec fn function_text(obj_ident: Seq<char>, fields: Seq<StructField>) -> Seq<char> {
    "const serialize_"@ + obj_ident + " = (s, v) => { "@ + struct_accessors_text(
        fields,
        InnerTypeAccess::Direct,
    ) + " }"@
}

/// Generates the encode function of a struct whose identifier is `obj_ident`.
pub fn gen_function_for_ident(obj_ident: &str, fields: &[StructField]) -> (r: String)
    ensures
        r@ == function_text(obj_ident@, fields@),
{
    let body = gen_accessors_struct(fields, InnerTypeAccess::Direct);
    let mut out = String::new();
    out.append("const serialize_");
    out.append(obj_ident);
    out.append(" = (s, v) => { ");
    out.append(body.as_str());
    out.append(" }");
    assert(out@ =~= function_text(obj_ident@, fields@));
    out
}

/// Generates the encode function of the struct named `obj_name`.
pub fn gen_function(obj_name: &str, fields: &[StructField]) -> (r: String)
    ensures
        r@ == function_text(obj_identifier(obj_name@), fields@),
{
    let ident = to_obj_identifier(obj_name);
    gen_function_for_ident(ident.as_str(), fields)
}

} // verus!
