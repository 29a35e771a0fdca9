use vstd::prelude::*;

use crate::registry::{BindingType, Container, EnumVariant, EnumVariantType, StructField};

verus! {

pub open spec fn is_digit(c: char) -> bool {
    48 <= (c as nat) <= 57
}

pub open spec fn ident_char(c: char) -> bool {
    let n = c as nat;
    (97 <= n <= 122) || (65 <= n <= 90) || (48 <= n <= 57) || n == 95
}

proof fn lemma_ascii_byte(c: char, b: u8)
    requires
        c as u8 == b,
        (c as nat) < 128,
    ensures
        c as nat == b as nat,
{
}

/// An ASCII identifier: letters, digits and `_`, not starting with a digit. Such a name
/// can stand in the generated code as a member name and inside a string literal as is.
pub open spec fn ident_ok(s: Seq<char>) -> bool {
    vstd::utf8::is_ascii_chars(s) && s.len() > 0 && !is_digit(s[0]) && forall|i: int|
        0 <= i < s.len() ==> #[trigger] ident_char(s[i])
}

pub open spec fn fields_ok(fs: Seq<StructField>) -> bool {
    forall|i: int| 0 <= i < fs.len() ==> #[trigger] ident_ok(fs[i].name@)
}

pub open spec fn variant_ok(v: EnumVariant) -> bool {
    ident_ok(v.name@) && match v.inner_type {
        EnumVariantType::NewType(fs) => fields_ok(fs@),
        _ => true,
    }
}

/// The container's name, and the names of its fields and variants, are identifiers.
pub open spec fn container_names_ok(c: Container) -> bool {
    ident_ok(c.name@) && match c.ty {
        BindingType::Struct(s) => fields_ok(s.fields@),
        BindingType::Enum(e) => forall|i: int|
            0 <= i < e.variants@.len() ==> #[trigger] variant_ok(e.variants@[i]),
        _ => true,
    }
}

pub open spec fn names_valid(cs: Seq<Container>) -> bool {
    forall|i: int| 0 <= i < cs.len() ==> #[trigger] container_names_ok(cs[i])
}

fn ident_byte(b: u8) -> (r: bool)
    ensures
        r == ((97 <= b <= 122) || (65 <= b <= 90) || (48 <= b <= 57) || b == 95),
{
    (97 <= b && b <= 122) || (65 <= b && b <= 90) || (48 <= b && b <= 57) || b == 95
}

/// Whether `s` is an ASCII identifier. Names outside ASCII, which Rust would accept, are
/// refused on purpose: every name is written into the generated code as is, as a member
/// name or inside a string literal, and this rule makes that safe without escaping.
pub fn is_identifier(s: &str) -> (r: bool)
    ensures
        r == ident_ok(s@),
{
    if !s.is_ascii() {
        return false;
    }
    let b = s.as_bytes();
    proof {
        vstd::utf8::is_ascii_chars_encode_utf8(s@);
        vstd::utf8::is_ascii_chars_nat_bound(s@);
    }
    if b.len() == 0 {
        return false;
    }
    proof {
        lemma_ascii_byte(s@[0], b@[0]);
    }
    if 48 <= b[0] && b[0] <= 57 {
        return false;
    }
    let mut i: usize = 0;
    while i < b.len()
        invariant
            i <= b@.len(),
            b@.len() == s@.len(),
            forall|j: int| 0 <= j < s@.len() ==> s@[j] as u8 == b@[j],
            forall|j: int| 0 <= j < s@.len() ==> (s@[j] as nat) < 128,
            forall|j: int| 0 <= j < i ==> #[trigger] ident_char(s@[j]),
        decreases b@.len() - i,
    {
        proof {
            lemma_ascii_byte(s@[i as int], b@[i as int]);
        }
        if !ident_byte(b[i]) {
            assert(!ident_char(s@[i as int]));
            return false;
        }
        i = i + 1;
    }
    true
}

fn fields_are_valid(fs: &[StructField]) -> (r: bool)
    ensures
        r == fields_ok(fs@),
{
    let mut i: usize = 0;
    while i < fs.len()
        invariant
            i <= fs@.len(),
            forall|j: int| 0 <= j < i ==> #[trigger] ident_ok(fs@[j].name@),
        decreases fs@.len() - i,
    {
        if !is_identifier(fs[i].name) {
            return false;
        }
        i = i + 1;
    }
    true
}

fn variant_is_valid(v: &EnumVariant) -> (r: bool)
    ensures
        r == variant_ok(*v),
{
    if !is_identifier(v.name) {
        return false;
    }
    match &v.inner_type {
        EnumVariantType::NewType(fs) => fields_are_valid(fs.as_slice()),
        _ => true,
    }
}

fn variants_are_valid(vs: &[EnumVariant]) -> (r: bool)
    ensures
        r == forall|i: int| 0 <= i < vs@.len() ==> #[trigger] variant_ok(vs@[i]),
{
    let mut i: usize = 0;
    while i < vs.len()
        invariant
            i <= vs@.len(),
            forall|j: int| 0 <= j < i ==> #[trigger] variant_ok(vs@[j]),
        decreases vs@.len() - i,
    {
        if !variant_is_valid(&vs[i]) {
            return false;
        }
        i = i + 1;
    }
    true
}

/// Whether the container's name and the names of its fields and variants are identifiers.
pub fn container_names_valid(c: &Container) -> (r: bool)
    ensures
        r == container_names_ok(*c),
{
    if !is_identifier(c.name) {
        return false;
    }
    match &c.ty {
        BindingType::Struct(s) => fields_are_valid(s.fields.as_slice()),
        BindingType::Enum(e) => variants_are_valid(e.variants.as_slice()),
        _ => true,
    }
}

} // verus!
