use postcard_bindgen_core::codec::{serialize, Value};
use postcard_bindgen_core::decode::deserialize;
use postcard_bindgen_core::registry::{
    BindingsRegistry, Container, EnumType, StructFields, StructType, TupleFields, UnitStructType,
};
use postcard_bindgen_core::wire::CodecError;

fn registry() -> Vec<Container> {
    let mut registry = BindingsRegistry::default();
    let mut pair = StructType::new();
    pair.register_field::<u8>("a");
    pair.register_field::<u16>("b");
    registry.register_struct_binding("Pair", "".into(), pair);

    let mut choice = EnumType::new();
    choice.register_variant("A");
    let mut fields = TupleFields::default();
    fields.register_field::<u8>();
    choice.register_variant_tuple("B", fields);
    let mut fields = StructFields::default();
    fields.register_field::<&str>("name");
    fields.register_field::<i64>("delta");
    choice.register_unnamed_struct("C", fields);
    registry.register_enum_binding("Choice", "".into(), choice);

    registry.register_unit_struct_binding("Unit", "".into(), UnitStructType::new());

    let mut outer = StructType::new();
    outer.register_field::<Vec<i8>>("xs");
    outer.register_field::<Option<&str>>("label");
    registry.register_struct_binding("Outer", "".into(), outer);
    registry.into_entries()
}

fn same(a: &Value, b: &Value) -> bool {
    format!("{:?}", a) == format!("{:?}", b)
}

#[test]
fn pair_decodes_back() {
    let reg = registry();
    let v = deserialize(&reg, "Pair", &[0x05, 0xAC, 0x02], 8).unwrap();
    assert!(same(&v, &Value::Record(vec![Value::UInt(5), Value::UInt(300)])));
}

#[test]
fn round_trip_of_each_shape() {
    let reg = registry();
    let values = [
        ("Pair", Value::Record(vec![Value::UInt(255), Value::UInt(65535)])),
        ("Choice", Value::Variant(0, vec![])),
        ("Choice", Value::Variant(1, vec![Value::UInt(7)])),
        (
            "Choice",
            Value::Variant(2, vec![Value::Bytes(b"hello".to_vec()), Value::Int(i64::MIN as i128)]),
        ),
        ("Unit", Value::Record(vec![])),
        (
            "Outer",
            Value::Record(vec![
                Value::List(vec![Value::Int(-1), Value::Int(-128), Value::Int(127)]),
                Value::Present(Box::new(Value::Bytes(b"x".to_vec()))),
            ]),
        ),
        ("Outer", Value::Record(vec![Value::List(vec![]), Value::Absent])),
    ];
    for (name, v) in values.iter() {
        let bytes = serialize(&reg, name, v).unwrap();
        let back = deserialize(&reg, name, &bytes, 8).unwrap();
        assert!(same(&back, v), "{} {:?} {:?}", name, v, back);
    }
}

#[test]
fn trailing_bytes_are_tolerated() {
    let reg = registry();
    let v = deserialize(&reg, "Choice", &[0x01, 0x07, 0xFF, 0xFF], 8).unwrap();
    assert!(same(&v, &Value::Variant(1, vec![Value::UInt(7)])));
}

#[test]
fn unknown_discriminant_fails() {
    let reg = registry();
    assert_eq!(
        deserialize(&reg, "Choice", &[0x03], 8).map(|_| ()),
        Err(CodecError::InvalidDiscriminant)
    );
    assert_eq!(
        deserialize(&reg, "Outer", &[0x00, 0x02], 8).map(|_| ()),
        Err(CodecError::InvalidDiscriminant)
    );
}

#[test]
fn truncated_input_fails_with_underrun() {
    let reg = registry();
    assert_eq!(deserialize(&reg, "Pair", &[0x05, 0xAC], 8).map(|_| ()), Err(CodecError::BufferUnderrun));
    assert_eq!(
        deserialize(&reg, "Choice", &[0x02, 0x05, b'a'], 8).map(|_| ()),
        Err(CodecError::BufferUnderrun)
    );
    assert_eq!(
        deserialize(&reg, "Outer", &[0x03, 0x01], 8).map(|_| ()),
        Err(CodecError::BufferUnderrun)
    );
}

#[test]
fn decode_errors_by_kind() {
    let reg = registry();
    assert_eq!(deserialize(&reg, "Nope", &[0x00], 8).map(|_| ()), Err(CodecError::UnknownType));
    assert_eq!(
        deserialize(&reg, "Pair", &[0xAC, 0x02, 0x00], 8).map(|_| ()),
        Err(CodecError::NumericOverflow)
    );
    assert_eq!(deserialize(&reg, "Pair", &[0x01, 0x01], 0).map(|_| ()), Err(CodecError::DepthExceeded));
}
