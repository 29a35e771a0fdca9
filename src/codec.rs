use vstd::prelude::*;

use crate::registry::{BindingType, Container, EnumType, EnumVariantType, StructField};
use crate::text::same_text;
use crate::types::{NumberMeta, ValueType};
use crate::wire::{
    encode_bytes, encode_number, in_range, presence_flag, varint, write_bytes, write_presence,
    write_signed, write_unsigned, write_varint, CodecError,
};

verus! {

/// A runtime value as the encoder sees it. Text is carried as its UTF-8 bytes; the
/// fields of a struct or a variant payload are positional.
#[derive(Debug)]
pub enum Value {
    UInt(u128),
    Int(i128),
    Bytes(Vec<u8>),
    List(Vec<Value>),
    Absent,
    Present(Box<Value>),
    Record(Vec<Value>),
    Variant(usize, Vec<Value>),
}

/// The position of the first container named `name`, searching from `i`.
pub open spec fn lookup_from(reg: Seq<Container>, name: Seq<char>, i: int) -> Option<int>
    decreases reg.len() - i,
{
    if i < 0 || i >= reg.len() {
        None
    } else if reg[i].name@ == name {
        Some(i)
    } else {
        lookup_from(reg, name, i + 1)
    }
}

pub open spec fn lookup(reg: Seq<Container>, name: Seq<char>) -> Option<int> {
    lookup_from(reg, name, 0)
}

pub open spec fn field_types(fs: Seq<StructField>) -> Seq<ValueType> {
    fs.map_values(|f: StructField| f.v_type)
}

/// Whether `v` has the shape of `ty`.
pub open spec fn conforms(reg: Seq<Container>, ty: ValueType, v: Value) -> bool
    decreases v, 1nat,
{
    match ty {
        ValueType::Number(m) => match v {
            Value::UInt(x) => !m.signed && in_range(m, x as int),
            Value::Int(x) => m.signed && in_range(m, x as int),
            _ => false,
        },
        ValueType::String => v is Bytes,
        ValueType::Bytes => v is Bytes,
        ValueType::Array(t) => match v {
            Value::List(items) => items_conform(reg, *t, items@),
            _ => false,
        },
        ValueType::Optional(t) => match v {
            Value::Absent => true,
            Value::Present(b) => conforms(reg, *t, *b),
            _ => false,
        },
        ValueType::Object(n) => match lookup(reg, n@) {
            Some(k) => container_conforms(reg, reg[k].ty, v),
            None => false,
        },
    }
}

pub open spec fn items_conform(reg: Seq<Container>, t: ValueType, vs: Seq<Value>) -> bool
    decreases vs, 0nat,
{
    if vs.len() == 0 {
        true
    } else {
        items_conform(reg, t, vs.drop_last()) && conforms(reg, t, vs.last())
    }
}

pub open spec fn fields_conform(reg: Seq<Container>, tys: Seq<ValueType>, vs: Seq<Value>) -> bool
    decreases vs, 0nat,
{
    if vs.len() == 0 {
        tys.len() == 0
    } else {
        tys.len() == vs.len() && fields_conform(reg, tys.drop_last(), vs.drop_last()) && conforms(
            reg,
            tys.last(),
            vs.last(),
        )
    }
}

/// Whether `v` has the shape of a container: the validator that guards encoding.
pub open spec fn container_conforms(reg: Seq<Container>, bt: BindingType, v: Value) -> bool
    decreases v, 0nat,
{
    match v {
        Value::Record(vs) => match bt {
            BindingType::Struct(s) => fields_conform(reg, field_types(s.fields@), vs@),
            BindingType::TupleStruct(t) => fields_conform(reg, t.fields@, vs@),
            BindingType::UnitStruct(_) => vs@.len() == 0,
            BindingType::Enum(_) => false,
        },
        Value::Variant(idx, vs) => match bt {
            BindingType::Enum(e) => idx < e.variants@.len() && match e.variants@[idx as int].inner_type {
                EnumVariantType::Empty => vs@.len() == 0,
                EnumVariantType::Tuple(tys) => fields_conform(reg, tys@, vs@),
                EnumVariantType::NewType(fs) => fields_conform(reg, field_types(fs@), vs@),
            },
            _ => false,
        },
        _ => false,
    }
}

/// The wire bytes of `v` as a value of type `ty` (meaningful where `v` conforms).
pub open spec fn enc(reg: Seq<Container>, ty: ValueType, v: Value) -> Seq<u8>
    decreases v, 1nat,
{
    match ty {
        ValueType::Number(m) => match v {
            Value::UInt(x) => encode_number(m, x as int),
            Value::Int(x) => encode_number(m, x as int),
            _ => Seq::empty(),
        },
        ValueType::String | ValueType::Bytes => match v {
            Value::Bytes(b) => encode_bytes(b@),
            _ => Seq::empty(),
        },
        ValueType::Array(t) => match v {
            Value::List(items) => varint(items@.len()) + enc_items(reg, *t, items@),
            _ => Seq::empty(),
        },
        ValueType::Optional(t) => match v {
            Value::Present(b) => presence_flag(true) + enc(reg, *t, *b),
            _ => presence_flag(false),
        },
        ValueType::Object(n) => match lookup(reg, n@) {
            Some(k) => enc_container(reg, reg[k].ty, v),
            None => Seq::empty(),
        },
    }
}

/// Array items back to back, in order.
pub open spec fn enc_items(reg: Seq<Container>, t: ValueType, vs: Seq<Value>) -> Seq<u8>
    decreases vs, 0nat,
{
    if vs.len() == 0 {
        Seq::empty()
    } else {
        enc_items(reg, t, vs.drop_last()) + enc(reg, t, vs.last())
    }
}

/// Fields back to back in declared order, without tags or separators.
pub open spec fn enc_fields(reg: Seq<Container>, tys: Seq<ValueType>, vs: Seq<Value>) -> Seq<u8>
    decreases vs, 0nat,
{
    if vs.len() == 0 || tys.len() == 0 {
        Seq::empty()
    } else {
        enc_fields(reg, tys.drop_last(), vs.drop_last()) + enc(reg, tys.last(), vs.last())
    }
}

/// The wire bytes of a container value: its fields, or a variant index and its payload.
pub open spec fn enc_container(reg: Seq<Container>, bt: BindingType, v: Value) -> Seq<u8>
    decreases v, 0nat,
{
    match v {
        Value::Record(vs) => match bt {
            BindingType::Struct(s) => enc_fields(reg, field_types(s.fields@), vs@),
            BindingType::TupleStruct(t) => enc_fields(reg, t.fields@, vs@),
            _ => Seq::empty(),
        },
        Value::Variant(idx, vs) => match bt {
            BindingType::Enum(e) => varint(idx as nat) + if idx < e.variants@.len() {
                match e.variants@[idx as int].inner_type {
                    EnumVariantType::Tuple(tys) => enc_fields(reg, tys@, vs@),
                    EnumVariantType::NewType(fs) => enc_fields(reg, field_types(fs@), vs@),
                    EnumVariantType::Empty => Seq::empty(),
                }
            } else {
                Seq::empty()
            },
            _ => Seq::empty(),
        },
        _ => Seq::empty(),
    }
}

/// What `serialize(name, v)` produces.
pub open spec fn serialize_result(reg: Seq<Container>, name: Seq<char>, v: Value) -> Result<
    Seq<u8>,
    CodecError,
> {
    match lookup(reg, name) {
        None => Err(CodecError::UnknownType),
        Some(k) => if container_conforms(reg, reg[k].ty, v) {
            Ok(enc_container(reg, reg[k].ty, v))
        } else {
            Err(CodecError::ShapeMismatch)
        },
    }
}

/// Finds the first container named `name`.
pub fn find_container(reg: &[Container], name: &str) -> (r: Option<usize>)
    ensures
        match lookup(reg@, name@) {
            Some(k) => r == Some(k as usize),
            None => r is None,
        },
        r matches Some(k) ==> k < reg@.len() && lookup(reg@, name@) == Some(k as int),
{
    let mut i: usize = 0;
    while i < reg.len()
        invariant
            i <= reg@.len(),
            lookup(reg@, name@) == lookup_from(reg@, name@, i as int),
        decreases reg@.len() - i,
    {
        if same_text(reg[i].name, name) {
            return Some(i);
        }
        i = i + 1;
    }
    None
}

proof fn lemma_items_prefix(reg: Seq<Container>, t: ValueType, vs: Seq<Value>, j: int)
    requires
        items_conform(reg, t, vs),
        0 <= j <= vs.len(),
    ensures
        items_conform(reg, t, vs.take(j)),
    decreases vs.len(),
{
    if j < vs.len() {
        lemma_items_prefix(reg, t, vs.drop_last(), j);
        assert(vs.drop_last().take(j) =~= vs.take(j));
    } else {
        assert(vs.take(j) =~= vs);
    }
}

proof fn lemma_fields_prefix(reg: Seq<Container>, tys: Seq<ValueType>, vs: Seq<Value>, j: int)
    requires
        fields_conform(reg, tys, vs),
        0 <= j <= vs.len(),
    ensures
        fields_conform(reg, tys.take(j), vs.take(j)),
        tys.len() == vs.len(),
    decreases vs.len(),
{
    if vs.len() == 0 {
        assert(tys.take(j) =~= tys);
        assert(vs.take(j) =~= vs);
    } else if j < vs.len() {
        lemma_fields_prefix(reg, tys.drop_last(), vs.drop_last(), j);
        assert(vs.drop_last().take(j) =~= vs.take(j));
        assert(tys.drop_last().take(j) =~= tys.take(j));
    } else {
        assert(vs.take(j) =~= vs);
        assert(tys.take(j) =~= tys);
    }
}

proof fn lemma_field_types_take(fs: Seq<StructField>, j: int)
    requires
        0 <= j <= fs.len(),
    ensures
        field_types(fs.take(j)) == field_types(fs).take(j),
        field_types(fs).len() == fs.len(),
{
    assert(field_types(fs.take(j)) =~= field_types(fs).take(j));
}

fn signed_in_range(m: NumberMeta, x: i128) -> (r: bool)
    requires
        m.signed,
    ensures
        r == in_range(m, x as int),
{
    let half: u128 = crate::wire::width_max(m.bytes) / 2;
    let ghost wb = crate::wire::width_bound(m.bytes) as int;
    assert(wb % 2 == 0 && wb >= 2);
    assert(half == wb / 2 - 1);
    if x >= 0 {
        (x as u128) <= half
    } else {
        let neg: u128 = (-(x + 1)) as u128;
        neg <= half
    }
}

/// Whether `v` has the shape of `ty`.
pub fn check_value(reg: &[Container], ty: &ValueType, v: &Value) -> (r: bool)
    ensures
        r == conforms(reg@, *ty, *v),
    decreases v, 1nat,
{
    match ty {
        ValueType::Number(m) => match v {
            Value::UInt(x) => !m.signed && *x <= crate::wire::width_max(m.bytes),
            Value::Int(x) => m.signed && signed_in_range(*m, *x),
            _ => false,
        },
        ValueType::String | ValueType::Bytes => match v {
            Value::Bytes(_) => true,
            _ => false,
        },
        ValueType::Array(t) => match v {
            Value::List(items) => check_items(reg, t, items.as_slice()),
            _ => false,
        },
        ValueType::Optional(t) => match v {
            Value::Absent => true,
            Value::Present(b) => check_value(reg, t, b),
            _ => false,
        },
        ValueType::Object(n) => match find_container(reg, n) {
            Some(k) => check_container(reg, &reg[k].ty, v),
            None => false,
        },
    }
}

/// Whether every item has the shape of `t`.
pub fn check_items(reg: &[Container], t: &ValueType, vs: &[Value]) -> (r: bool)
    ensures
        r == items_conform(reg@, *t, vs@),
    decreases vs@, 0nat,
{
    let mut i: usize = 0;
    while i < vs.len()
        invariant
            i <= vs@.len(),
            items_conform(reg@, *t, vs@.take(i as int)),
        decreases vs@.len() - i,
    {
        assert(vs@.take(i + 1).drop_last() =~= vs@.take(i as int));
        if !check_value(reg, t, &vs[i]) {
            proof {
                if items_conform(reg@, *t, vs@) {
                    lemma_items_prefix(reg@, *t, vs@, i + 1);
                }
            }
            return false;
        }
        i = i + 1;
    }
    assert(vs@.take(vs@.len() as int) =~= vs@);
    true
}

/// Whether each value has the shape of the field type at its position.
pub fn check_fields(reg: &[Container], tys: &[ValueType], vs: &[Value]) -> (r: bool)
    ensures
        r == fields_conform(reg@, tys@, vs@),
    decreases vs@, 0nat,
{
    if tys.len() != vs.len() {
        return false;
    }
    let mut i: usize = 0;
    while i < vs.len()
        invariant
            i <= vs@.len(),
            tys@.len() == vs@.len(),
            fields_conform(reg@, tys@.take(i as int), vs@.take(i as int)),
        decreases vs@.len() - i,
    {
        assert(vs@.take(i + 1).drop_last() =~= vs@.take(i as int));
        assert(tys@.take(i + 1).drop_last() =~= tys@.take(i as int));
        if !check_value(reg, &tys[i], &vs[i]) {
            proof {
                if fields_conform(reg@, tys@, vs@) {
                    lemma_fields_prefix(reg@, tys@, vs@, i + 1);
                }
            }
            return false;
        }
        i = i + 1;
    }
    assert(vs@.take(vs@.len() as int) =~= vs@);
    assert(tys@.take(tys@.len() as int) =~= tys@);
    true
}

/// Whether each value has the shape of the named field at its position.
pub fn check_struct_fields(reg: &[Container], fs: &[StructField], vs: &[Value]) -> (r: bool)
    ensures
        r == fields_conform(reg@, field_types(fs@), vs@),
    decreases vs@, 0nat,
{
    let ghost tys = field_types(fs@);
    proof {
        lemma_field_types_take(fs@, 0);
    }
    if fs.len() != vs.len() {
        return false;
    }
    let mut i: usize = 0;
    while i < vs.len()
        invariant
            i <= vs@.len(),
            tys == field_types(fs@),
            tys.len() == vs@.len(),
            fs@.len() == vs@.len(),
            fields_conform(reg@, tys.take(i as int), vs@.take(i as int)),
        decreases vs@.len() - i,
    {
        assert(vs@.take(i + 1).drop_last() =~= vs@.take(i as int));
        assert(tys.take(i + 1).drop_last() =~= tys.take(i as int));
        assert(tys[i as int] == fs@[i as int].v_type);
        if !check_value(reg, &fs[i].v_type, &vs[i]) {
            proof {
                if fields_conform(reg@, tys, vs@) {
                    lemma_fields_prefix(reg@, tys, vs@, i + 1);
                }
            }
            return false;
        }
        i = i + 1;
    }
    assert(vs@.take(vs@.len() as int) =~= vs@);
    assert(tys.take(tys.len() as int) =~= tys);
    true
}

/// Whether `v` has the shape of a container: the validator that guards encoding.
pub fn check_container(reg: &[Container], bt: &BindingType, v: &Value) -> (r: bool)
    ensures
        r == container_conforms(reg@, *bt, *v),
    decreases v, 0nat,
{
    match v {
        Value::Record(vs) => match bt {
            BindingType::Struct(s) => check_struct_fields(reg, s.fields.as_slice(), vs.as_slice()),
            BindingType::TupleStruct(t) => check_fields(reg, t.fields.as_slice(), vs.as_slice()),
            BindingType::UnitStruct(_) => vs.len() == 0,
            BindingType::Enum(_) => false,
        },
        Value::Variant(idx, vs) => match bt {
            BindingType::Enum(e) => {
                if *idx >= e.variants.len() {
                    return false;
                }
                match &e.variants[*idx].inner_type {
                    EnumVariantType::Empty => vs.len() == 0,
                    EnumVariantType::Tuple(tys) => check_fields(reg, tys.as_slice(), vs.as_slice()),
                    EnumVariantType::NewType(fs) => check_struct_fields(
                        reg,
                        fs.as_slice(),
                        vs.as_slice(),
                    ),
                }
            },
            _ => false,
        },
        _ => false,
    }
}

/// Appends the wire bytes of `v` as a value of type `ty`.
pub fn write_value(reg: &[Container], ty: &ValueType, v: &Value, out: &mut Vec<u8>)
    requires
        conforms(reg@, *ty, *v),
    ensures
        final(out)@ == old(out)@ + enc(reg@, *ty, *v),
    decreases v, 1nat,
{
    match ty {
        ValueType::Number(m) => match v {
            Value::UInt(x) => write_unsigned(out, *m, *x),
            Value::Int(x) => write_signed(out, *m, *x),
            _ => {},
        },
        ValueType::String | ValueType::Bytes => match v {
            Value::Bytes(b) => write_bytes(out, b.as_slice()),
            _ => {},
        },
        ValueType::Array(t) => match v {
            Value::List(items) => {
                let ghost start = out@;
                write_varint(out, items.len() as u128);
                write_items(reg, t, items.as_slice(), out);
                assert(out@ =~= start + enc(reg@, *ty, *v));
            },
            _ => {},
        },
        ValueType::Optional(t) => match v {
            Value::Present(b) => {
                let ghost start = out@;
                write_presence(out, true);
                write_value(reg, t, b, out);
                assert(out@ =~= start + enc(reg@, *ty, *v));
            },
            _ => write_presence(out, false),
        },
        ValueType::Object(n) => match find_container(reg, n) {
            Some(k) => write_container(reg, &reg[k].ty, v, out),
            None => {},
        },
    }
}

/// Appends the items of an array, each as a value of type `t`.
pub fn write_items(reg: &[Container], t: &ValueType, vs: &[Value], out: &mut Vec<u8>)
    requires
        items_conform(reg@, *t, vs@),
    ensures
        final(out)@ == old(out)@ + enc_items(reg@, *t, vs@),
    decreases vs@, 0nat,
{
    let ghost start = out@;
    let mut i: usize = 0;
    while i < vs.len()
        invariant
            i <= vs@.len(),
            items_conform(reg@, *t, vs@),
            out@ == start + enc_items(reg@, *t, vs@.take(i as int)),
        decreases vs@.len() - i,
    {
        proof {
            lemma_items_prefix(reg@, *t, vs@, i + 1);
            assert(vs@.take(i + 1).drop_last() =~= vs@.take(i as int));
        }
        write_value(reg, t, &vs[i], out);
        i = i + 1;
        assert(out@ =~= start + enc_items(reg@, *t, vs@.take(i as int)));
    }
    assert(vs@.take(vs@.len() as int) =~= vs@);
}

/// Appends positional fields in declared order.
pub fn write_fields(reg: &[Container], tys: &[ValueType], vs: &[Value], out: &mut Vec<u8>)
    requires
        fields_conform(reg@, tys@, vs@),
    ensures
        final(out)@ == old(out)@ + enc_fields(reg@, tys@, vs@),
    decreases vs@, 0nat,
{
    let ghost start = out@;
    proof {
        lemma_fields_prefix(reg@, tys@, vs@, 0);
    }
    let mut i: usize = 0;
    while i < vs.len()
        invariant
            i <= vs@.len(),
            tys@.len() == vs@.len(),
            fields_conform(reg@, tys@, vs@),
            out@ == start + enc_fields(reg@, tys@.take(i as int), vs@.take(i as int)),
        decreases vs@.len() - i,
    {
        proof {
            lemma_fields_prefix(reg@, tys@, vs@, i + 1);
            assert(vs@.take(i + 1).drop_last() =~= vs@.take(i as int));
            assert(tys@.take(i + 1).drop_last() =~= tys@.take(i as int));
        }
        write_value(reg, &tys[i], &vs[i], out);
        i = i + 1;
        assert(out@ =~= start + enc_fields(reg@, tys@.take(i as int), vs@.take(i as int)));
    }
    assert(vs@.take(vs@.len() as int) =~= vs@);
    assert(tys@.take(tys@.len() as int) =~= tys@);
}

/// Appends named fields in declared order, names dropped.
pub fn write_struct_fields(reg: &[Container], fs: &[StructField], vs: &[Value], out: &mut Vec<u8>)
    requires
        fields_conform(reg@, field_types(fs@), vs@),
    ensures
        final(out)@ == old(out)@ + enc_fields(reg@, field_types(fs@), vs@),
    decreases vs@, 0nat,
{
    let ghost start = out@;
    let ghost tys = field_types(fs@);
    proof {
        lemma_field_types_take(fs@, 0);
        lemma_fields_prefix(reg@, tys, vs@, 0);
    }
    let mut i: usize = 0;
    while i < vs.len()
        invariant
            i <= vs@.len(),
            tys == field_types(fs@),
            tys.len() == vs@.len(),
            fs@.len() == vs@.len(),
            fields_conform(reg@, tys, vs@),
            out@ == start + enc_fields(reg@, tys.take(i as int), vs@.take(i as int)),
        decreases vs@.len() - i,
    {
        proof {
            lemma_fields_prefix(reg@, tys, vs@, i + 1);
            assert(vs@.take(i + 1).drop_last() =~= vs@.take(i as int));
            assert(tys.take(i + 1).drop_last() =~= tys.take(i as int));
            assert(tys[i as int] == fs@[i as int].v_type);
        }
        write_value(reg, &fs[i].v_type, &vs[i], out);
        i = i + 1;
        assert(out@ =~= start + enc_fields(reg@, tys.take(i as int), vs@.take(i as int)));
    }
    assert(vs@.take(vs@.len() as int) =~= vs@);
    assert(tys.take(tys.len() as int) =~= tys);
}

/// Appends the wire bytes of a container value.
pub fn write_container(reg: &[Container], bt: &BindingType, v: &Value, out: &mut Vec<u8>)
    requires
        container_conforms(reg@, *bt, *v),
    ensures
        final(out)@ == old(out)@ + enc_container(reg@, *bt, *v),
    decreases v, 0nat,
{
    match v {
        Value::Record(vs) => match bt {
            BindingType::Struct(s) => write_struct_fields(reg, s.fields.as_slice(), vs.as_slice(), out),
            BindingType::TupleStruct(t) => write_fields(reg, t.fields.as_slice(), vs.as_slice(), out),
            _ => {
                assert(old(out)@ + enc_container(reg@, *bt, *v) =~= old(out)@);
            },
        },
        Value::Variant(idx, vs) => match bt {
            BindingType::Enum(e) => {
                let ghost start = out@;
                write_varint(out, *idx as u128);
                match &e.variants[*idx].inner_type {
                    EnumVariantType::Empty => {},
                    EnumVariantType::Tuple(tys) => write_fields(reg, tys.as_slice(), vs.as_slice(), out),
                    EnumVariantType::NewType(fs) => write_struct_fields(
                        reg,
                        fs.as_slice(),
                        vs.as_slice(),
                        out,
                    ),
                }
                assert(out@ =~= start + enc_container(reg@, *bt, *v));
            },
            _ => {},
        },
        _ => {},
    }
}

/// Encodes `value` as the registered container `name`: fails with `UnknownType`
/// where no container has that name, and with `ShapeMismatch` where the value does not
/// have the container's shape.
pub fn serialize(reg: &[Container], name: &str, value: &Value) -> (r: Result<Vec<u8>, CodecError>)
    ensures
        match serialize_result(reg@, name@, *value) {
            Ok(b) => r matches Ok(v) && v@ == b,
            Err(e) => r == Err::<Vec<u8>, CodecError>(e),
        },
{
    let k = match find_container(reg, name) {
        Some(k) => k,
        None => return Err(CodecError::UnknownType),
    };
    if !check_container(reg, &reg[k].ty, value) {
        return Err(CodecError::ShapeMismatch);
    }
    let mut out: Vec<u8> = Vec::new();
    write_container(reg, &reg[k].ty, value, &mut out);
    assert(out@ =~= enc_container(reg@, reg@[k as int].ty, *value));
    Ok(out)
}

/// Asking to encode under a name that no container has fails with `UnknownType`,
/// whatever the value.
pub proof fn law_unknown_type(reg: Seq<Container>, name: Seq<char>, v: Value)
    requires
        forall|i: int| 0 <= i < reg.len() ==> #[trigger] reg[i].name@ != name,
    ensures
        serialize_result(reg, name, v) == Err::<Seq<u8>, CodecError>(CodecError::UnknownType),
{
    lemma_lookup_absent(reg, name, 0);
}

proof fn lemma_lookup_absent(reg: Seq<Container>, name: Seq<char>, i: int)
    requires
        0 <= i,
        forall|j: int| 0 <= j < reg.len() ==> #[trigger] reg[j].name@ != name,
    ensures
        lookup_from(reg, name, i) is None,
    decreases reg.len() - i,
{
    if i < reg.len() {
        lemma_lookup_absent(reg, name, i + 1);
    }
}

/// Fields go on the wire back to back in declared order: two fields encode as the
/// first's bytes then the second's, and declaring them the other way round puts the
/// second's bytes first.
pub proof fn law_field_order(reg: Seq<Container>, t1: ValueType, v1: Value, t2: ValueType, v2: Value)
    ensures
        enc_fields(reg, seq![t1, t2], seq![v1, v2]) == enc(reg, t1, v1) + enc(reg, t2, v2),
        enc_fields(reg, seq![t2, t1], seq![v2, v1]) == enc(reg, t2, v2) + enc(reg, t1, v1),
{
    assert(seq![t1, t2].drop_last() =~= seq![t1]);
    assert(seq![v1, v2].drop_last() =~= seq![v1]);
    assert(seq![t2, t1].drop_last() =~= seq![t2]);
    assert(seq![v2, v1].drop_last() =~= seq![v2]);
    assert(seq![t1].drop_last() =~= Seq::<ValueType>::empty());
    assert(seq![v1].drop_last() =~= Seq::<Value>::empty());
    assert(seq![t2].drop_last() =~= Seq::<ValueType>::empty());
    assert(seq![v2].drop_last() =~= Seq::<Value>::empty());
    assert(seq![t1].last() == t1);
    assert(seq![v1].last() == v1);
    assert(enc_fields(reg, Seq::<ValueType>::empty(), Seq::<Value>::empty()) == Seq::<u8>::empty());
    assert(enc_fields(reg, seq![t1], seq![v1]) =~= enc(reg, t1, v1));
    assert(seq![t2].last() == t2);
    assert(seq![v2].last() == v2);
    assert(enc_fields(reg, seq![t2], seq![v2]) =~= enc(reg, t2, v2));
}

/// One field more appends that field's bytes and changes nothing before them.
pub proof fn law_field_appended(
    reg: Seq<Container>,
    tys: Seq<ValueType>,
    vs: Seq<Value>,
    t: ValueType,
    v: Value,
)
    requires
        tys.len() == vs.len(),
    ensures
        enc_fields(reg, tys.push(t), vs.push(v)) == enc_fields(reg, tys, vs) + enc(reg, t, v),
{
    assert(tys.push(t).drop_last() =~= tys);
    assert(vs.push(v).drop_last() =~= vs);
}

/// In an enum whose variants were registered in order, the variant at position `n`
/// carries index `n`, and its encoding starts with `n` as an unsigned varint.
pub proof fn law_variant_index(reg: Seq<Container>, e: EnumType, n: usize, payload: Vec<Value>)
    requires
        e.wf(),
        n < e.variants@.len(),
    ensures
        e.variants@[n as int].index == n,
        enc_container(reg, BindingType::Enum(e), Value::Variant(n, payload)).take(
            varint(n as nat).len() as int,
        ) == varint(n as nat),
{
    let bytes = enc_container(reg, BindingType::Enum(e), Value::Variant(n, payload));
    assert(bytes.take(varint(n as nat).len() as int) =~= varint(n as nat));
}

/// An absent optional encodes to the single flag byte 0; a present one to the flag byte
/// 1 followed by the inner value's encoding.
pub proof fn law_optional_flag(reg: Seq<Container>, t: ValueType, inner: Box<Value>)
    ensures
        enc(reg, ValueType::Optional(Box::new(t)), Value::Absent) == seq![0u8],
        enc(reg, ValueType::Optional(Box::new(t)), Value::Present(inner)) == seq![1u8] + enc(
            reg,
            t,
            *inner,
        ),
{
    crate::wire::law_presence_flag(enc(reg, t, *inner));
}

} // verus!
