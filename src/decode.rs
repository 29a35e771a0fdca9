use vstd::prelude::*;

use crate::codec::{
    conforms, container_conforms, enc, enc_container, enc_fields, enc_items, field_types,
    fields_conform, find_container, items_conform, lookup, serialize_result, Value,
};
use crate::registry::{BindingType, Container, EnumVariantType, StructField};
use crate::types::ValueType;
use crate::wire::{
    decode_bytes, decode_number, read_bytes, read_signed, read_unsigned, read_varint,
    read_varint_at, CodecError,
};

verus! {

/// The mathematical content of a runtime value.
pub enum Model {
    UInt(int),
    Int(int),
    Bytes(Seq<u8>),
    List(Seq<Model>),
    Absent,
    Present(Box<Model>),
    Record(Seq<Model>),
    Variant(nat, Seq<Model>),
}

pub open spec fn model(v: Value) -> Model
    decreases v, 1nat,
{
    match v {
        Value::UInt(x) => Model::UInt(x as int),
        Value::Int(x) => Model::Int(x as int),
        Value::Bytes(b) => Model::Bytes(b@),
        Value::List(items) => Model::List(models(items@)),
        Value::Absent => Model::Absent,
        Value::Present(b) => Model::Present(Box::new(model(*b))),
        Value::Record(vs) => Model::Record(models(vs@)),
        Value::Variant(i, vs) => Model::Variant(i as nat, models(vs@)),
    }
}

pub open spec fn models(vs: Seq<Value>) -> Seq<Model>
    decreases vs, 0nat,
{
    if vs.len() == 0 {
        Seq::empty()
    } else {
        models(vs.drop_last()).push(model(vs.last()))
    }
}

/// Decodes a value of type `ty` from the front of `s`, with at most `fuel` levels of
/// nesting: the value and the number of bytes it took.
pub open spec fn dec(reg: Seq<Container>, ty: ValueType, s: Seq<u8>, fuel: nat) -> Result<
    (Model, nat),
    CodecError,
>
    decreases fuel, 0nat, 0nat,
{
    if fuel == 0 {
        Err(CodecError::DepthExceeded)
    } else {
        match ty {
            ValueType::Number(m) => match decode_number(m, s) {
                Ok((n, k)) => Ok((if m.signed { Model::Int(n) } else { Model::UInt(n) }, k)),
                Err(e) => Err(e),
            },
            ValueType::String | ValueType::Bytes => match decode_bytes(s) {
                Ok((b, k)) => Ok((Model::Bytes(b), k)),
                Err(e) => Err(e),
            },
            ValueType::Array(t) => match read_varint(s) {
                None => Err(CodecError::BufferUnderrun),
                Some((n, k)) => if n > usize::MAX {
                    Err(CodecError::NumericOverflow)
                } else {
                    match dec_items(reg, *t, s.skip(k as int), n, (fuel - 1) as nat) {
                        Ok((ms, k2)) => Ok((Model::List(ms), k + k2)),
                        Err(e) => Err(e),
                    }
                },
            },
            ValueType::Optional(t) => match read_varint(s) {
                None => Err(CodecError::BufferUnderrun),
                Some((flag, k)) => if flag == 0 {
                    Ok((Model::Absent, k))
                } else if flag == 1 {
                    match dec(reg, *t, s.skip(k as int), (fuel - 1) as nat) {
                        Ok((m, k2)) => Ok((Model::Present(Box::new(m)), k + k2)),
                        Err(e) => Err(e),
                    }
                } else {
                    Err(CodecError::InvalidDiscriminant)
                },
            },
            ValueType::Object(n) => match lookup(reg, n@) {
                None => Err(CodecError::UnknownType),
                Some(i) => dec_container(reg, reg[i].ty, s, (fuel - 1) as nat),
            },
        }
    }
}

/// Decodes `n` items of type `t` back to back.
pub open spec fn dec_items(reg: Seq<Container>, t: ValueType, s: Seq<u8>, n: nat, fuel: nat) -> Result<
    (Seq<Model>, nat),
    CodecError,
>
    decreases fuel, 1nat, n,
{
    if n == 0 {
        Ok((Seq::empty(), 0nat))
    } else {
        match dec_items(reg, t, s, (n - 1) as nat, fuel) {
            Ok((ms, k)) => match dec(reg, t, s.skip(k as int), fuel) {
                Ok((m, k2)) => Ok((ms.push(m), k + k2)),
                Err(e) => Err(e),
            },
            Err(e) => Err(e),
        }
    }
}

/// Decodes one value per field type, in declared order.
pub open spec fn dec_fields(reg: Seq<Container>, tys: Seq<ValueType>, s: Seq<u8>, fuel: nat) -> Result<
    (Seq<Model>, nat),
    CodecError,
>
    decreases fuel, 1nat, tys.len(),
{
    if tys.len() == 0 {
        Ok((Seq::empty(), 0nat))
    } else {
        match dec_fields(reg, tys.drop_last(), s, fuel) {
            Ok((ms, k)) => match dec(reg, tys.last(), s.skip(k as int), fuel) {
                Ok((m, k2)) => Ok((ms.push(m), k + k2)),
                Err(e) => Err(e),
            },
            Err(e) => Err(e),
        }
    }
}

/// Decodes a container value: its fields, or a variant index and that variant's payload.
pub open spec fn dec_container(reg: Seq<Container>, bt: BindingType, s: Seq<u8>, fuel: nat) -> Result<
    (Model, nat),
    CodecError,
>
    decreases fuel, 2nat, 0nat,
{
    match bt {
        BindingType::Struct(st) => match dec_fields(reg, field_types(st.fields@), s, fuel) {
            Ok((ms, k)) => Ok((Model::Record(ms), k)),
            Err(e) => Err(e),
        },
        BindingType::TupleStruct(t) => match dec_fields(reg, t.fields@, s, fuel) {
            Ok((ms, k)) => Ok((Model::Record(ms), k)),
            Err(e) => Err(e),
        },
        BindingType::UnitStruct(_) => Ok((Model::Record(Seq::empty()), 0nat)),
        BindingType::Enum(e) => match read_varint(s) {
            None => Err(CodecError::BufferUnderrun),
            Some((idx, k)) => if idx < e.variants@.len() {
                let payload = match e.variants@[idx as int].inner_type {
                    EnumVariantType::Empty => Ok((Seq::empty(), 0nat)),
                    EnumVariantType::Tuple(tys) => dec_fields(reg, tys@, s.skip(k as int), fuel),
                    EnumVariantType::NewType(fs) => dec_fields(
                        reg,
                        field_types(fs@),
                        s.skip(k as int),
                        fuel,
                    ),
                };
                match payload {
                    Ok((ms, k2)) => Ok((Model::Variant(idx, ms), k + k2)),
                    Err(e) => Err(e),
                }
            } else {
                Err(CodecError::InvalidDiscriminant)
            },
        },
    }
}

pub open spec fn max(a: nat, b: nat) -> nat {
    if a >= b {
        a
    } else {
        b
    }
}

/// The nesting depth that decoding `v` as a value of type `ty` takes.
pub open spec fn need(reg: Seq<Container>, ty: ValueType, v: Value) -> nat
    decreases v, 1nat,
{
    match ty {
        ValueType::Array(t) => match v {
            Value::List(items) => 1 + need_items(reg, *t, items@),
            _ => 1,
        },
        ValueType::Optional(t) => match v {
            Value::Present(b) => 1 + need(reg, *t, *b),
            _ => 1,
        },
        ValueType::Object(n) => match lookup(reg, n@) {
            Some(i) => 1 + need_container(reg, reg[i].ty, v),
            None => 1,
        },
        _ => 1,
    }
}

pub open spec fn need_items(reg: Seq<Container>, t: ValueType, vs: Seq<Value>) -> nat
    decreases vs, 0nat,
{
    if vs.len() == 0 {
        0
    } else {
        max(need_items(reg, t, vs.drop_last()), need(reg, t, vs.last()))
    }
}

pub open spec fn need_fields(reg: Seq<Container>, tys: Seq<ValueType>, vs: Seq<Value>) -> nat
    decreases vs, 0nat,
{
    if vs.len() == 0 || tys.len() == 0 {
        0
    } else {
        max(need_fields(reg, tys.drop_last(), vs.drop_last()), need(reg, tys.last(), vs.last()))
    }
}

pub open spec fn need_container(reg: Seq<Container>, bt: BindingType, v: Value) -> nat
    decreases v, 0nat,
{
    match v {
        Value::Record(vs) => match bt {
            BindingType::Struct(s) => need_fields(reg, field_types(s.fields@), vs@),
            BindingType::TupleStruct(t) => need_fields(reg, t.fields@, vs@),
            _ => 0,
        },
        Value::Variant(idx, vs) => match bt {
            BindingType::Enum(e) => if idx < e.variants@.len() {
                match e.variants@[idx as int].inner_type {
                    EnumVariantType::Tuple(tys) => need_fields(reg, tys@, vs@),
                    EnumVariantType::NewType(fs) => need_fields(reg, field_types(fs@), vs@),
                    EnumVariantType::Empty => 0,
                }
            } else {
                0
            },
            _ => 0,
        },
        _ => 0,
    }
}

proof fn lemma_value_round_trip(reg: Seq<Container>, ty: ValueType, v: Value, rest: Seq<u8>, fuel: nat)
    requires
        conforms(reg, ty, v),
        fuel >= need(reg, ty, v),
    ensures
        dec(reg, ty, enc(reg, ty, v) + rest, fuel) == Ok::<(Model, nat), CodecError>(
            (model(v), enc(reg, ty, v).len()),
        ),
    decreases v, 1nat,
{
    let e = enc(reg, ty, v);
    let s = e + rest;
    match ty {
        ValueType::Number(m) => {
            match v {
                Value::UInt(x) => crate::wire::law_number_round_trip(m, x as int, rest),
                Value::Int(x) => crate::wire::law_number_round_trip(m, x as int, rest),
                _ => {},
            }
        },
        ValueType::String | ValueType::Bytes => {
            if let Value::Bytes(b) = v {
                crate::wire::law_bytes_round_trip(b@, rest);
            }
        },
        ValueType::Array(t) => {
            if let Value::List(items) = v {
                let body = enc_items(reg, *t, items@);
                crate::wire::lemma_read_varint_of_varint(items@.len(), body + rest);
                assert(s =~= crate::wire::varint(items@.len()) + (body + rest));
                let k = crate::wire::varint(items@.len()).len();
                assert(s.skip(k as int) =~= body + rest);
                assert(items@.len() <= usize::MAX) by {
                    vstd::std_specs::vec::axiom_spec_len(&items);
                }
                lemma_items_round_trip(reg, *t, items@, rest, (fuel - 1) as nat);
            }
        },
        ValueType::Optional(t) => {
            match v {
                Value::Present(b) => {
                    let inner = enc(reg, *t, *b);
                    crate::wire::lemma_read_varint_of_varint(1, inner + rest);
                    assert(s =~= crate::wire::varint(1) + (inner + rest));
                    assert(crate::wire::varint(1) == seq![1u8]);
                    assert(s.skip(1) =~= inner + rest);
                    lemma_value_round_trip(reg, *t, *b, rest, (fuel - 1) as nat);
                },
                _ => {
                    crate::wire::lemma_read_varint_of_varint(0, rest);
                },
            }
        },
        ValueType::Object(n) => {
            if let Some(i) = lookup(reg, n@) {
                lemma_container_round_trip(reg, reg[i].ty, v, rest, (fuel - 1) as nat);
            }
        },
    }
}

proof fn lemma_items_round_trip(reg: Seq<Container>, t: ValueType, vs: Seq<Value>, rest: Seq<u8>, fuel: nat)
    requires
        items_conform(reg, t, vs),
        fuel >= need_items(reg, t, vs),
    ensures
        dec_items(reg, t, enc_items(reg, t, vs) + rest, vs.len(), fuel) == Ok::<
            (Seq<Model>, nat),
            CodecError,
        >((models(vs), enc_items(reg, t, vs).len())),
    decreases vs, 0nat,
{
    if vs.len() > 0 {
        let dl = vs.drop_last();
        let last_bytes = enc(reg, t, vs.last());
        let s = enc_items(reg, t, vs) + rest;
        assert(s =~= enc_items(reg, t, dl) + (last_bytes + rest));
        lemma_items_round_trip(reg, t, dl, last_bytes + rest, fuel);
        let k = enc_items(reg, t, dl).len();
        assert(s.skip(k as int) =~= last_bytes + rest);
        lemma_value_round_trip(reg, t, vs.last(), rest, fuel);
        assert((vs.len() - 1) as nat == dl.len());
    }
}

proof fn lemma_fields_round_trip(
    reg: Seq<Container>,
    tys: Seq<ValueType>,
    vs: Seq<Value>,
    rest: Seq<u8>,
    fuel: nat,
)
    requires
        fields_conform(reg, tys, vs),
        fuel >= need_fields(reg, tys, vs),
    ensures
        dec_fields(reg, tys, enc_fields(reg, tys, vs) + rest, fuel) == Ok::<
            (Seq<Model>, nat),
            CodecError,
        >((models(vs), enc_fields(reg, tys, vs).len())),
    decreases vs, 0nat,
{
    if vs.len() > 0 {
        let dl = vs.drop_last();
        let tl = tys.drop_last();
        let last_bytes = enc(reg, tys.last(), vs.last());
        let s = enc_fields(reg, tys, vs) + rest;
        assert(s =~= enc_fields(reg, tl, dl) + (last_bytes + rest));
        lemma_fields_round_trip(reg, tl, dl, last_bytes + rest, fuel);
        let k = enc_fields(reg, tl, dl).len();
        assert(s.skip(k as int) =~= last_bytes + rest);
        lemma_value_round_trip(reg, tys.last(), vs.last(), rest, fuel);
    } else {
        assert(enc_fields(reg, tys, vs) + rest =~= rest);
    }
}

proof fn lemma_container_round_trip(reg: Seq<Container>, bt: BindingType, v: Value, rest: Seq<u8>, fuel: nat)
    requires
        container_conforms(reg, bt, v),
        fuel >= need_container(reg, bt, v),
    ensures
        dec_container(reg, bt, enc_container(reg, bt, v) + rest, fuel) == Ok::<
            (Model, nat),
            CodecError,
        >((model(v), enc_container(reg, bt, v).len())),
    decreases v, 0nat,
{
    let s = enc_container(reg, bt, v) + rest;
    match v {
        Value::Record(vs) => match bt {
            BindingType::Struct(st) => {
                lemma_fields_round_trip(reg, field_types(st.fields@), vs@, rest, fuel);
            },
            BindingType::TupleStruct(t) => {
                lemma_fields_round_trip(reg, t.fields@, vs@, rest, fuel);
            },
            _ => {
                assert(models(vs@) =~= Seq::<Model>::empty());
            },
        },
        Value::Variant(idx, vs) => {
            if let BindingType::Enum(e) = bt {
                let payload = enc_container(reg, bt, v).skip(crate::wire::varint(idx as nat).len() as int);
                assert(enc_container(reg, bt, v) =~= crate::wire::varint(idx as nat) + payload);
                crate::wire::lemma_read_varint_of_varint(idx as nat, payload + rest);
                assert(s =~= crate::wire::varint(idx as nat) + (payload + rest));
                let k = crate::wire::varint(idx as nat).len();
                assert(s.skip(k as int) =~= payload + rest);
                match e.variants@[idx as int].inner_type {
                    EnumVariantType::Tuple(tys) => {
                        assert(payload =~= enc_fields(reg, tys@, vs@));
                        lemma_fields_round_trip(reg, tys@, vs@, rest, fuel);
                    },
                    EnumVariantType::NewType(fs) => {
                        assert(payload =~= enc_fields(reg, field_types(fs@), vs@));
                        lemma_fields_round_trip(reg, field_types(fs@), vs@, rest, fuel);
                    },
                    EnumVariantType::Empty => {
                        assert(payload =~= Seq::<u8>::empty());
                        assert(models(vs@) =~= Seq::<Model>::empty());
                    },
                }
            }
        },
        _ => {},
    }
}

proof fn lemma_items_err(reg: Seq<Container>, t: ValueType, s: Seq<u8>, j: nat, n: nat, fuel: nat)
    requires
        j <= n,
        dec_items(reg, t, s, j, fuel) is Err,
    ensures
        dec_items(reg, t, s, n, fuel) == dec_items(reg, t, s, j, fuel),
    decreases n,
{
    if n > j {
        lemma_items_err(reg, t, s, j, (n - 1) as nat, fuel);
    }
}

proof fn lemma_fields_err(reg: Seq<Container>, tys: Seq<ValueType>, s: Seq<u8>, j: int, fuel: nat)
    requires
        0 <= j <= tys.len(),
        dec_fields(reg, tys.take(j), s, fuel) is Err,
    ensures
        dec_fields(reg, tys, s, fuel) == dec_fields(reg, tys.take(j), s, fuel),
    decreases tys.len(),
{
    if j == tys.len() {
        assert(tys.take(j) =~= tys);
    } else {
        assert(tys.drop_last().take(j) =~= tys.take(j));
        lemma_fields_err(reg, tys.drop_last(), s, j, fuel);
    }
}

/// Decodes a value of type `ty` starting at `pos`, with at most `fuel` levels of nesting.
pub fn decode_value(reg: &[Container], ty: &ValueType, buf: &[u8], pos: usize, fuel: usize) -> (r: Result<
    (Value, usize),
    CodecError,
>)
    requires
        pos <= buf@.len(),
    ensures
        match dec(reg@, *ty, buf@.subrange(pos as int, buf@.len() as int), fuel as nat) {
            Ok((m, k)) => r matches Ok((v, end)) && model(v) == m && end == pos + k,
            Err(e) => r == Err::<(Value, usize), CodecError>(e),
        },
        r matches Ok((_, end)) ==> pos <= end <= buf@.len(),
    decreases fuel, 0nat, 0nat,
{
    let ghost s = buf@.subrange(pos as int, buf@.len() as int);
    let total: usize = buf.len();
    proof {
        crate::wire::lemma_read_varint_len(s);
    }
    if fuel == 0 {
        return Err(CodecError::DepthExceeded);
    }
    match ty {
        ValueType::Number(m) => {
            proof {
                crate::wire::lemma_decode_number_range(*m, s);
            }
            if m.signed {
                let (n, end) = match read_signed(buf, pos, *m) {
                    Ok(p) => p,
                    Err(err) => return Err(err),
                };
                Ok((Value::Int(n), end))
            } else {
                let (n, end) = match read_unsigned(buf, pos, *m) {
                    Ok(p) => p,
                    Err(err) => return Err(err),
                };
                Ok((Value::UInt(n), end))
            }
        },
        ValueType::String | ValueType::Bytes => {
            let (b, end) = match read_bytes(buf, pos) {
                Ok(p) => p,
                Err(err) => return Err(err),
            };
            Ok((Value::Bytes(b), end))
        },
        ValueType::Array(t) => {
            proof {
                crate::wire::lemma_read_varint_len(s);
            }
            let (n, start) = match read_varint_at(buf, pos) {
                Ok(p) => p,
                Err(err) => return Err(err),
            };
            if n > usize::MAX as u128 {
                return Err(CodecError::NumericOverflow);
            }
            assert(read_varint(s) matches Some((_, k)) && start == pos + k);
            assert(buf@.subrange(start as int, buf@.len() as int) =~= s.skip(start - pos));
            let (items, end) = match decode_items(reg, t, buf, start, n as usize, fuel - 1) {
                Ok(p) => p,
                Err(err) => return Err(err),
            };
            Ok((Value::List(items), end))
        },
        ValueType::Optional(t) => {
            proof {
                crate::wire::lemma_read_varint_len(s);
            }
            let (flag, start) = match read_varint_at(buf, pos) {
                Ok(p) => p,
                Err(CodecError::NumericOverflow) => return Err(CodecError::InvalidDiscriminant),
                Err(e) => return Err(e),
            };
            if flag == 0 {
                assert(read_varint(s) matches Some((_, k)) && start == pos + k);
                Ok((Value::Absent, start))
            } else if flag == 1 {
                assert(read_varint(s) matches Some((_, k)) && start == pos + k);
            assert(buf@.subrange(start as int, buf@.len() as int) =~= s.skip(start - pos));
                let (v, end) = match decode_value(reg, t, buf, start, fuel - 1) {
                    Ok(p) => p,
                    Err(err) => return Err(err),
                };
                Ok((Value::Present(Box::new(v)), end))
            } else {
                Err(CodecError::InvalidDiscriminant)
            }
        },
        ValueType::Object(n) => match find_container(reg, n) {
            Some(i) => decode_container(reg, &reg[i].ty, buf, pos, fuel - 1),
            None => Err(CodecError::UnknownType),
        },
    }
}

/// Decodes `n` items of type `t` back to back, starting at `pos`.
pub fn decode_items(reg: &[Container], t: &ValueType, buf: &[u8], pos: usize, n: usize, fuel: usize) -> (r:
    Result<(Vec<Value>, usize), CodecError>)
    requires
        pos <= buf@.len(),
    ensures
        match dec_items(reg@, *t, buf@.subrange(pos as int, buf@.len() as int), n as nat, fuel as nat) {
            Ok((ms, k)) => r matches Ok((vs, end)) && models(vs@) == ms && end == pos + k,
            Err(e) => r == Err::<(Vec<Value>, usize), CodecError>(e),
        },
        r matches Ok((_, end)) ==> pos <= end <= buf@.len(),
    decreases fuel, 1nat, 0nat,
{
    let ghost s = buf@.subrange(pos as int, buf@.len() as int);
    let mut vals: Vec<Value> = Vec::new();
    let mut cur: usize = pos;
    let mut i: usize = 0;
    assert(models(vals@) =~= Seq::<Model>::empty());
    while i < n
        invariant
            pos <= cur <= buf@.len(),
            i <= n,
            s == buf@.subrange(pos as int, buf@.len() as int),
            dec_items(reg@, *t, s, i as nat, fuel as nat) == Ok::<(Seq<Model>, nat), CodecError>(
                (models(vals@), (cur - pos) as nat),
            ),
        decreases n - i,
    {
        let ghost prev = vals@;
        assert(buf@.subrange(cur as int, buf@.len() as int) =~= s.skip(cur - pos));
        match decode_value(reg, t, buf, cur, fuel) {
            Ok((v, end)) => {
                vals.push(v);
                assert(vals@.drop_last() =~= prev);
                cur = end;
                i = i + 1;
            },
            Err(e) => {
                proof {
                    lemma_items_err(reg@, *t, s, (i + 1) as nat, n as nat, fuel as nat);
                }
                return Err(e);
            },
        }
    }
    Ok((vals, cur))
}

/// Decodes one value per field type, in declared order, starting at `pos`.
pub fn decode_fields(reg: &[Container], tys: &[ValueType], buf: &[u8], pos: usize, fuel: usize) -> (r:
    Result<(Vec<Value>, usize), CodecError>)
    requires
        pos <= buf@.len(),
    ensures
        match dec_fields(reg@, tys@, buf@.subrange(pos as int, buf@.len() as int), fuel as nat) {
            Ok((ms, k)) => r matches Ok((vs, end)) && models(vs@) == ms && end == pos + k,
            Err(e) => r == Err::<(Vec<Value>, usize), CodecError>(e),
        },
        r matches Ok((_, end)) ==> pos <= end <= buf@.len(),
    decreases fuel, 1nat, 0nat,
{
    let ghost s = buf@.subrange(pos as int, buf@.len() as int);
    let mut vals: Vec<Value> = Vec::new();
    let mut cur: usize = pos;
    let mut i: usize = 0;
    assert(models(vals@) =~= Seq::<Model>::empty());
    assert(tys@.take(0) =~= Seq::<ValueType>::empty());
    while i < tys.len()
        invariant
            pos <= cur <= buf@.len(),
            i <= tys@.len(),
            s == buf@.subrange(pos as int, buf@.len() as int),
            dec_fields(reg@, tys@.take(i as int), s, fuel as nat) == Ok::<
                (Seq<Model>, nat),
                CodecError,
            >((models(vals@), (cur - pos) as nat)),
        decreases tys@.len() - i,
    {
        let ghost prev = vals@;
        assert(buf@.subrange(cur as int, buf@.len() as int) =~= s.skip(cur - pos));
        assert(tys@.take(i + 1).drop_last() =~= tys@.take(i as int));
        match decode_value(reg, &tys[i], buf, cur, fuel) {
            Ok((v, end)) => {
                vals.push(v);
                assert(vals@.drop_last() =~= prev);
                cur = end;
                i = i + 1;
            },
            Err(e) => {
                proof {
                    lemma_fields_err(reg@, tys@, s, i + 1, fuel as nat);
                }
                return Err(e);
            },
        }
    }
    assert(tys@.take(tys@.len() as int) =~= tys@);
    Ok((vals, cur))
}

/// Decodes one value per named field, in declared order, starting at `pos`.
pub fn decode_struct_fields(reg: &[Container], fs: &[StructField], buf: &[u8], pos: usize, fuel: usize) -> (r:
    Result<(Vec<Value>, usize), CodecError>)
    requires
        pos <= buf@.len(),
    ensures
        match dec_fields(
            reg@,
            field_types(fs@),
            buf@.subrange(pos as int, buf@.len() as int),
            fuel as nat,
        ) {
            Ok((ms, k)) => r matches Ok((vs, end)) && models(vs@) == ms && end == pos + k,
            Err(e) => r == Err::<(Vec<Value>, usize), CodecError>(e),
        },
        r matches Ok((_, end)) ==> pos <= end <= buf@.len(),
    decreases fuel, 1nat, 0nat,
{
    let ghost s = buf@.subrange(pos as int, buf@.len() as int);
    let ghost tys = field_types(fs@);
    let mut vals: Vec<Value> = Vec::new();
    let mut cur: usize = pos;
    let mut i: usize = 0;
    assert(models(vals@) =~= Seq::<Model>::empty());
    assert(tys.take(0) =~= Seq::<ValueType>::empty());
    while i < fs.len()
        invariant
            pos <= cur <= buf@.len(),
            i <= fs@.len(),
            tys == field_types(fs@),
            tys.len() == fs@.len(),
            s == buf@.subrange(pos as int, buf@.len() as int),
            dec_fields(reg@, tys.take(i as int), s, fuel as nat) == Ok::<(Seq<Model>, nat), CodecError>(
                (models(vals@), (cur - pos) as nat),
            ),
        decreases fs@.len() - i,
    {
        let ghost prev = vals@;
        assert(buf@.subrange(cur as int, buf@.len() as int) =~= s.skip(cur - pos));
        assert(tys.take(i + 1).drop_last() =~= tys.take(i as int));
        assert(tys[i as int] == fs@[i as int].v_type);
        match decode_value(reg, &fs[i].v_type, buf, cur, fuel) {
            Ok((v, end)) => {
                vals.push(v);
                assert(vals@.drop_last() =~= prev);
                cur = end;
                i = i + 1;
            },
            Err(e) => {
                proof {
                    lemma_fields_err(reg@, tys, s, i + 1, fuel as nat);
                }
                return Err(e);
            },
        }
    }
    assert(tys.take(tys.len() as int) =~= tys);
    Ok((vals, cur))
}

/// Decodes a container value starting at `pos`.
pub fn decode_container(reg: &[Container], bt: &BindingType, buf: &[u8], pos: usize, fuel: usize) -> (r:
    Result<(Value, usize), CodecError>)
    requires
        pos <= buf@.len(),
    ensures
        match dec_container(reg@, *bt, buf@.subrange(pos as int, buf@.len() as int), fuel as nat) {
            Ok((m, k)) => r matches Ok((v, end)) && model(v) == m && end == pos + k,
            Err(e) => r == Err::<(Value, usize), CodecError>(e),
        },
        r matches Ok((_, end)) ==> pos <= end <= buf@.len(),
    decreases fuel, 2nat, 0nat,
{
    let ghost s = buf@.subrange(pos as int, buf@.len() as int);
    match bt {
        BindingType::Struct(st) => {
            let (vals, end) = match decode_struct_fields(reg, st.fields.as_slice(), buf, pos, fuel) {
                Ok(p) => p,
                Err(err) => return Err(err),
            };
            Ok((Value::Record(vals), end))
        },
        BindingType::TupleStruct(t) => {
            let (vals, end) = match decode_fields(reg, t.fields.as_slice(), buf, pos, fuel) {
                Ok(p) => p,
                Err(err) => return Err(err),
            };
            Ok((Value::Record(vals), end))
        },
        BindingType::UnitStruct(_) => {
            let vals: Vec<Value> = Vec::new();
            assert(models(vals@) =~= Seq::<Model>::empty());
            Ok((Value::Record(vals), pos))
        },
        BindingType::Enum(e) => {
            let count: usize = e.variants.len();
            let total: usize = buf.len();
            proof {
                crate::wire::lemma_read_varint_len(s);
            }
            let (idx, start) = match read_varint_at(buf, pos) {
                Ok(p) => p,
                Err(CodecError::NumericOverflow) => return Err(CodecError::InvalidDiscriminant),
                Err(err) => return Err(err),
            };
            if idx >= count as u128 {
                return Err(CodecError::InvalidDiscriminant);
            }
            let i: usize = idx as usize;
            assert(read_varint(s) matches Some((_, k)) && start == pos + k);
            assert(buf@.subrange(start as int, buf@.len() as int) =~= s.skip(start - pos));
            let (vals, end) = match &e.variants[i].inner_type {
                EnumVariantType::Empty => {
                    let vals: Vec<Value> = Vec::new();
                    assert(models(vals@) =~= Seq::<Model>::empty());
                    (vals, start)
                },
                EnumVariantType::Tuple(tys) => match decode_fields(reg, tys.as_slice(), buf, start, fuel) {
                    Ok(p) => p,
                    Err(err) => return Err(err),
                },
                EnumVariantType::NewType(fs) => match decode_struct_fields(reg, fs.as_slice(), buf, start, fuel) {
                    Ok(p) => p,
                    Err(err) => return Err(err),
                },
            };
            Ok((Value::Variant(i, vals), end))
        },
    }
}

/// What `deserialize(name, bytes)` produces. Bytes after the value are left unread and
/// are not an error: a caller that wants them gone checks the length itself.
pub open spec fn deserialize_result(reg: Seq<Container>, name: Seq<char>, s: Seq<u8>, fuel: nat) -> Result<
    Model,
    CodecError,
> {
    match lookup(reg, name) {
        None => Err(CodecError::UnknownType),
        Some(i) => match dec_container(reg, reg[i].ty, s, fuel) {
            Ok((m, _)) => Ok(m),
            Err(e) => Err(e),
        },
    }
}

/// Decodes a value of the registered container `name` from the front of `buf`, with at
/// most `max_depth` levels of nesting. Fails with `UnknownType` where no container has
/// that name, and otherwise with the first decoding failure.
pub fn deserialize(reg: &[Container], name: &str, buf: &[u8], max_depth: usize) -> (r: Result<Value, CodecError>)
    ensures
        match deserialize_result(reg@, name@, buf@, max_depth as nat) {
            Ok(m) => r matches Ok(v) && model(v) == m,
            Err(e) => r == Err::<Value, CodecError>(e),
        },
{
    let i = match find_container(reg, name) {
        Some(i) => i,
        None => return Err(CodecError::UnknownType),
    };
    assert(buf@.subrange(0, buf@.len() as int) =~= buf@);
    match decode_container(reg, &reg[i].ty, buf, 0, max_depth) {
        Ok((v, _)) => Ok(v),
        Err(e) => Err(e),
    }
}

/// Decoding what encoding a value produced, followed by any bytes, gives back that
/// value, given enough nesting depth.
pub proof fn law_round_trip(reg: Seq<Container>, name: Seq<char>, v: Value, rest: Seq<u8>, fuel: nat)
    requires
        serialize_result(reg, name, v) is Ok,
        lookup(reg, name) matches Some(i) ==> fuel >= need_container(reg, reg[i].ty, v),
    ensures
        deserialize_result(reg, name, serialize_result(reg, name, v)->Ok_0 + rest, fuel) == Ok::<
            Model,
            CodecError,
        >(model(v)),
{
    if let Some(i) = lookup(reg, name) {
        lemma_container_round_trip(reg, reg[i].ty, v, rest, fuel);
    }
}

} // verus!
