use postcard_bindgen_core::code_gen::{generate_js, gen_ser_case_for_ident, GenError};
use postcard_bindgen_core::ident::to_obj_identifier;
use postcard_bindgen_core::registry::{
    BindingsRegistry, Container, EnumType, EnumVariant, EnumVariantType, StructType, TupleFields,
};
use postcard_bindgen_core::ser::{
    enum_ty, gen_accessor, gen_accessor_number, gen_accessor_object, strukt, FieldAccessor,
    InnerTypeAccess,
};
use postcard_bindgen_core::des::gen_des_accessor;
use postcard_bindgen_core::registry::UnitStructType;
use postcard_bindgen_core::type_checking::{gen_check, gen_tuple_check};
use postcard_bindgen_core::types::{NumberMeta, ValueType};

fn registry() -> Vec<Container> {
    let mut registry = BindingsRegistry::default();
    let mut pair = StructType::new();
    pair.register_field::<u8>("a");
    pair.register_field::<u16>("b");
    registry.register_struct_binding("Pair", "".into(), pair);
    let mut choice = EnumType::new();
    choice.register_variant("A");
    let mut fields = TupleFields::default();
    fields.register_field::<u8>();
    choice.register_variant_tuple("B", fields);
    registry.register_enum_binding("MyChoice", "".into(), choice);
    registry.into_entries()
}

#[test]
fn identifier_is_upper_snake_case() {
    assert_eq!(to_obj_identifier("MyChoice"), "MY_CHOICE");
    assert_eq!(to_obj_identifier("Pair"), "PAIR");
}

#[test]
fn number_accessor_text() {
    let meta = NumberMeta { bytes: 2, signed: true };
    assert_eq!(
        gen_accessor_number(meta, InnerTypeAccess::EnumInner, FieldAccessor::Array(12)),
        "s.serialize_number(U16_BYTES,true,v.value[12])"
    );
    assert_eq!(
        gen_accessor(&ValueType::String, InnerTypeAccess::Direct, FieldAccessor::Object("name")),
        "s.serialize_string(v.name)"
    );
}

#[test]
fn nested_accessor_text() {
    let ty = ValueType::Optional(Box::new(ValueType::Array(Box::new(ValueType::Object("InnerThing")))));
    assert_eq!(
        gen_accessor(&ty, InnerTypeAccess::Direct, FieldAccessor::Object("x")),
        "if (v.x !== undefined) { s.serialize_number(U32_BYTES, false, 1); s.serialize_array((s, v) => serialize_INNER_THING(s, v),v.x) } else { s.serialize_number(U32_BYTES, false, 0) }"
    );
    assert_eq!(
        gen_accessor_object("ID", InnerTypeAccess::Direct, FieldAccessor::Direct),
        "serialize_ID(s, v)"
    );
}

#[test]
fn struct_function_text() {
    let reg = registry();
    let fields = match &reg[0].ty {
        postcard_bindgen_core::registry::BindingType::Struct(s) => &s.fields,
        _ => unreachable!(),
    };
    assert_eq!(
        strukt::gen_function("Pair", fields),
        "const serialize_PAIR = (s, v) => { s.serialize_number(U8_BYTES,false,v.a);s.serialize_number(U16_BYTES,false,v.b) }"
    );
}

#[test]
fn enum_function_text() {
    let reg = registry();
    let variants = match &reg[1].ty {
        postcard_bindgen_core::registry::BindingType::Enum(e) => &e.variants,
        _ => unreachable!(),
    };
    assert_eq!(
        enum_ty::gen_function_for_ident("C", variants),
        "const serialize_C = (s, v) => { switch (v.tag) { case \"A\": s.serialize_number(U32_BYTES, false, 0); break;case \"B\": s.serialize_number(U32_BYTES, false, 1); s.serialize_number(U8_BYTES,false,v.value[0]); break } }"
    );
}

#[test]
fn dispatch_case_text() {
    assert_eq!(
        gen_ser_case_for_ident("Pair", "PAIR", true),
        "case \"Pair\": if (is_PAIR(value)) { serialize_PAIR(s, value) } else throw \"ShapeMismatch\"; break"
    );
    assert_eq!(
        gen_ser_case_for_ident("Pair", "PAIR", false),
        "case \"Pair\": serialize_PAIR(s, value); break"
    );
}

#[test]
fn generate_is_deterministic() {
    let a = generate_js(&registry(), true).unwrap();
    let b = generate_js(&registry(), true).unwrap();
    assert_eq!(a, b);
    assert!(a.starts_with("const U8_BYTES = 1\n"));
    let order = [
        "class Serializer",
        "class Deserializer",
        "\nconst serialize_PAIR = (s, v) => {",
        "\nconst serialize_MY_CHOICE = (s, v) => {",
        "\nconst deserialize_PAIR = (d) => ({ a: d.deserialize_number(U8_BYTES,false), b: d.deserialize_number(U16_BYTES,false) })",
        "\nconst deserialize_MY_CHOICE = (d) => { switch (d.deserialize_index()) { case 0: return { tag: \"A\" }; case 1: return { tag: \"B\", value: [d.deserialize_number(U8_BYTES,false)] }; default: throw \"InvalidDiscriminant\" } }",
        "\nconst is_PAIR = (v) => (typeof v === \"object\" && v !== null && (typeof v.a === \"number\" || typeof v.a === \"bigint\") && (typeof v.b === \"number\" || typeof v.b === \"bigint\"))",
        "\nconst is_MY_CHOICE = (v) => {",
        "\nmodule.exports.serialize = ",
        "\nmodule.exports.deserialize = ",
    ];
    let mut at = 0;
    for part in order {
        let found = a[at..].find(part).unwrap_or_else(|| panic!("missing {}", part));
        at += found + part.len();
    }
    assert!(a.contains("case \"Pair\": return deserialize_PAIR(d)"));
    assert!(a.contains("\nconst serialize_MY_CHOICE = (s, v) => {"));
    assert!(a.contains("case \"MyChoice\": if (is_MY_CHOICE(value))"));
    assert!(a.contains("default: throw \"UnknownType\""));
    assert!(a.ends_with("default: throw \"UnknownType\"\n    }\n}"));
    let plain = generate_js(&registry(), false).unwrap();
    assert!(!plain.contains("const is_"));
    assert!(plain.contains("case \"Pair\": serialize_PAIR(s, value); break"));
}

#[test]
fn duplicate_names_give_no_output() {
    let mut reg = registry();
    reg.push(Container { path: "".into(), name: "Pair", ty: postcard_bindgen_core::registry::BindingType::UnitStruct(UnitStructType::new()) });
    assert_eq!(generate_js(&reg, false), Err(GenError::DuplicateName));
}

#[test]
fn variant_index_gap_gives_no_output() {
    let mut e = EnumType::new();
    e.variants.push(EnumVariant { index: 1, name: "A", inner_type: EnumVariantType::Empty });
    let mut registry = BindingsRegistry::default();
    registry.register_enum_binding("Gap", "".into(), e);
    assert_eq!(generate_js(&registry.into_entries(), false), Err(GenError::VariantIndexGap));
}

#[test]
fn identifier_collision_gives_no_output() {
    let mut registry = BindingsRegistry::default();
    registry.register_unit_struct_binding("FooBar", "".into(), UnitStructType::new());
    registry.register_unit_struct_binding("Foo_Bar", "".into(), UnitStructType::new());
    assert_eq!(generate_js(&registry.into_entries(), false), Err(GenError::IdentifierCollision));
}

#[test]
fn invalid_names_give_no_output() {
    let mut registry = BindingsRegistry::default();
    registry.register_unit_struct_binding("Bad\"Name", "".into(), UnitStructType::new());
    assert_eq!(generate_js(&registry.into_entries(), false), Err(GenError::InvalidName));
    let mut registry = BindingsRegistry::default();
    let mut e = EnumType::new();
    e.register_variant("A\\B");
    registry.register_enum_binding("E", "".into(), e);
    assert_eq!(generate_js(&registry.into_entries(), false), Err(GenError::InvalidName));
    let mut registry = BindingsRegistry::default();
    let mut st = StructType::new();
    st.register_field::<u8>("1x");
    registry.register_struct_binding("S", "".into(), st);
    assert_eq!(generate_js(&registry.into_entries(), false), Err(GenError::InvalidName));
}

#[test]
fn decode_and_check_texts() {
    let ty = ValueType::Optional(Box::new(ValueType::Array(Box::new(ValueType::Object("InnerThing")))));
    assert_eq!(
        gen_des_accessor(&ty),
        "d.deserialize_optional(() => d.deserialize_array(() => deserialize_INNER_THING(d)))"
    );
    assert_eq!(
        gen_check(&ty, "v.x"),
        "(v.x === undefined || (Array.isArray(v.x) && v.x.every((v) => is_INNER_THING(v))))"
    );
    assert_eq!(
        gen_tuple_check(&[ValueType::String], "v"),
        "Array.isArray(v) && v.length === 1 && typeof v[0] === \"string\""
    );
}

#[test]
fn byte_strings_use_raw_byte_calls() {
    assert_eq!(
        gen_accessor(&ValueType::Bytes, InnerTypeAccess::EnumInner, FieldAccessor::Array(0)),
        "s.serialize_bytes(v.value[0])"
    );
    assert_eq!(gen_des_accessor(&ValueType::Bytes), "d.deserialize_bytes()");
    let unit = generate_js(&registry(), false).unwrap();
    assert!(unit.contains("serialize_bytes(value) { this.serialize_varint(value.length); for (const b of value) { this.bytes.push(b) } }"));
    assert!(unit.contains("throw \"MalformedTypeKey\""));
    assert!(unit.contains("default: throw \"UnknownType\""));
    assert!(!unit.contains("deserialize_number(U32_BYTES"));
}
