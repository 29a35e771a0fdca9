use postcard_bindgen_core::codec::{serialize, Value};
use postcard_bindgen_core::registry::{
    BindingsRegistry, Container, EnumType, StructType, TupleFields, TupleStructType,
};
use postcard_bindgen_core::types::NumberMeta;
use postcard_bindgen_core::wire::{
    read_bytes, read_signed, read_unsigned, read_varint_at, write_bytes, write_presence,
    write_signed, write_unsigned, write_varint, zigzag_decode, zigzag_encode, CodecError,
};

fn pair_and_choice() -> Vec<Container> {
    let mut registry = BindingsRegistry::default();
    let mut pair = StructType::new();
    pair.register_field::<u8>("a");
    pair.register_field::<u16>("b");
    registry.register_struct_binding("Pair", "".into(), pair);

    let mut choice = EnumType::new();
    choice.register_variant("A");
    let mut fields = TupleFields::default();
    fields.register_field::<u8>();
    choice.register_variant_tuple("B", fields);
    registry.register_enum_binding("Choice", "".into(), choice);

    let mut maybe = TupleStructType::new();
    maybe.register_field::<Option<u8>>();
    registry.register_tuple_struct_binding("Maybe", "".into(), maybe);
    registry.into_entries()
}

#[test]
fn pair_encodes_to_three_bytes() {
    let reg = pair_and_choice();
    let v = Value::Record(vec![Value::UInt(5), Value::UInt(300)]);
    assert_eq!(serialize(&reg, "Pair", &v), Ok(vec![0x05, 0xAC, 0x02]));
    let (a, pos) = read_unsigned(&[0x05, 0xAC, 0x02], 0, NumberMeta { bytes: 1, signed: false }).unwrap();
    let (b, end) = read_unsigned(&[0x05, 0xAC, 0x02], pos, NumberMeta { bytes: 2, signed: false }).unwrap();
    assert_eq!((a, b, end), (5, 300, 3));
}

#[test]
fn choice_variants_encode_their_index() {
    let reg = pair_and_choice();
    assert_eq!(serialize(&reg, "Choice", &Value::Variant(0, vec![])), Ok(vec![0x00]));
    assert_eq!(
        serialize(&reg, "Choice", &Value::Variant(1, vec![Value::UInt(7)])),
        Ok(vec![0x01, 0x07])
    );
    assert_eq!(
        serialize(&reg, "Choice", &Value::Variant(2, vec![])),
        Err(CodecError::ShapeMismatch)
    );
}

#[test]
fn unknown_type_fails() {
    let reg = pair_and_choice();
    assert_eq!(
        serialize(&reg, "DoesNotExist", &Value::Record(vec![])),
        Err(CodecError::UnknownType)
    );
    assert_eq!(serialize(&[], "DoesNotExist", &Value::Record(vec![])), Err(CodecError::UnknownType));
}

#[test]
fn shape_mismatch_fails() {
    let reg = pair_and_choice();
    let too_big = Value::Record(vec![Value::UInt(256), Value::UInt(1)]);
    assert_eq!(serialize(&reg, "Pair", &too_big), Err(CodecError::ShapeMismatch));
    let missing = Value::Record(vec![Value::UInt(1)]);
    assert_eq!(serialize(&reg, "Pair", &missing), Err(CodecError::ShapeMismatch));
    let signed = Value::Record(vec![Value::Int(1), Value::UInt(1)]);
    assert_eq!(serialize(&reg, "Pair", &signed), Err(CodecError::ShapeMismatch));
}

#[test]
fn optional_presence_flag() {
    let reg = pair_and_choice();
    assert_eq!(serialize(&reg, "Maybe", &Value::Record(vec![Value::Absent])), Ok(vec![0x00]));
    assert_eq!(
        serialize(&reg, "Maybe", &Value::Record(vec![Value::Present(Box::new(Value::UInt(200)))])),
        Ok(vec![0x01, 0xC8, 0x01])
    );
    let mut out = Vec::new();
    write_presence(&mut out, false);
    write_presence(&mut out, true);
    assert_eq!(out, vec![0x00, 0x01]);
}

#[test]
fn zigzag_boundaries_round_trip() {
    let widths: [(u8, i128); 5] = [
        (1, i8::MIN as i128),
        (2, i16::MIN as i128),
        (4, i32::MIN as i128),
        (8, i64::MIN as i128),
        (16, i128::MIN),
    ];
    for (bytes, min) in widths {
        let meta = NumberMeta { bytes, signed: true };
        for n in [-1i128, min, 0, 1, -(min + 1)] {
            let mut out = Vec::new();
            write_signed(&mut out, meta, n);
            assert_eq!(read_signed(&out, 0, meta), Ok((n, out.len())));
        }
    }
    let mut out = Vec::new();
    write_signed(&mut out, NumberMeta { bytes: 1, signed: true }, -1);
    assert_eq!(out, vec![0x01]);
    let mut out = Vec::new();
    write_signed(&mut out, NumberMeta { bytes: 1, signed: true }, -128);
    assert_eq!(out, vec![0xFF, 0x01]);
}

#[test]
fn zigzag_values() {
    assert_eq!(zigzag_encode(0), 0);
    assert_eq!(zigzag_encode(-1), 1);
    assert_eq!(zigzag_encode(1), 2);
    assert_eq!(zigzag_encode(-2), 3);
    assert_eq!(zigzag_encode(i128::MIN), u128::MAX);
    assert_eq!(zigzag_decode(u128::MAX), i128::MIN);
    assert_eq!(zigzag_decode(3), -2);
}

#[test]
fn varint_groups() {
    let mut out = Vec::new();
    write_varint(&mut out, 300);
    assert_eq!(out, vec![0xAC, 0x02]);
    assert_eq!(read_varint_at(&out, 0), Ok((300, 2)));
    let mut out = Vec::new();
    write_varint(&mut out, u128::MAX);
    assert_eq!(out.len(), 19);
    assert_eq!(read_varint_at(&out, 0), Ok((u128::MAX, 19)));
    assert_eq!(read_varint_at(&[0x80, 0x80], 0), Err(CodecError::BufferUnderrun));
}

#[test]
fn unsigned_round_trip_and_overflow() {
    let meta = NumberMeta { bytes: 8, signed: false };
    let mut out = Vec::new();
    write_unsigned(&mut out, meta, u64::MAX as u128);
    assert_eq!(read_unsigned(&out, 0, meta), Ok((u64::MAX as u128, out.len())));
    let narrow = NumberMeta { bytes: 1, signed: false };
    assert_eq!(read_unsigned(&[0xAC, 0x02], 0, narrow), Err(CodecError::NumericOverflow));
    let mut big = vec![0xFF; 19];
    big.push(0x01);
    assert_eq!(read_varint_at(&big, 0), Err(CodecError::NumericOverflow));
}

#[test]
fn bytes_round_trip() {
    let mut out = Vec::new();
    write_bytes(&mut out, b"hi");
    assert_eq!(out, vec![0x02, b'h', b'i']);
    out.push(0x99);
    assert_eq!(read_bytes(&out, 0), Ok((b"hi".to_vec(), 3)));
}

#[test]
fn truncated_buffer_fails() {
    assert_eq!(read_bytes(&[0x05, 0x01, 0x02], 0), Err(CodecError::BufferUnderrun));
    assert_eq!(read_bytes(&[], 0), Err(CodecError::BufferUnderrun));
    assert_eq!(read_bytes(&[0x80], 0), Err(CodecError::BufferUnderrun));
}
