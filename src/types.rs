use vstd::prelude::*;

verus! {

/// Byte width (1, 2, 4, 8 or 16) and signedness of a number.
#[derive(Debug, Clone, Copy, PartialEq, Eq, Structural)]
pub struct NumberMeta {
    pub bytes: u8,
    pub signed: bool,
}

/// The value types that fields of a container may have.
#[derive(Debug)]
pub enum ValueType {
    Number(NumberMeta),
    String,
    Bytes,
    Array(Box<ValueType>),
    Object(&'static str),
    Optional(Box<ValueType>),
}

pub open spec fn number_type(bytes: u8, signed: bool) -> ValueType {
    ValueType::Number(NumberMeta { bytes, signed })
}

/// A Rust type that has a counterpart among the value types.
pub trait GenJsBinding {
    spec fn spec_type() -> ValueType;

    fn get_type() -> (r: ValueType)
        ensures
            r == Self::spec_type(),
    ;
}

impl GenJsBinding for u8 {
    open spec fn spec_type() -> ValueType {
        number_type(1, false)
    }

    fn get_type() -> (r: ValueType) {
        ValueType::Number(NumberMeta { bytes: 1, signed: false })
    }
}

impl GenJsBinding for u16 {
    open spec fn spec_type() -> ValueType {
        number_type(2, false)
    }

    fn get_type() -> (r: ValueType) {
        ValueType::Number(NumberMeta { bytes: 2, signed: false })
    }
}

impl GenJsBinding for u32 {
    open spec fn spec_type() -> ValueType {
        number_type(4, false)
    }

    fn get_type() -> (r: ValueType) {
        ValueType::Number(NumberMeta { bytes: 4, signed: false })
    }
}

impl GenJsBinding for u64 {
    open spec fn spec_type() -> ValueType {
        number_type(8, false)
    }

    fn get_type() -> (r: ValueType) {
        ValueType::Number(NumberMeta { bytes: 8, signed: false })
    }
}

impl GenJsBinding for u128 {
    open spec fn spec_type() -> ValueType {
        number_type(16, false)
    }

    fn get_type() -> (r: ValueType) {
        ValueType::Number(NumberMeta { bytes: 16, signed: false })
    }
}

impl GenJsBinding for i8 {
    open spec fn spec_type() -> ValueType {
        number_type(1, true)
    }

    fn get_type() -> (r: ValueType) {
        ValueType::Number(NumberMeta { bytes: 1, signed: true })
    }
}

impl GenJsBinding for i16 {
    open spec fn spec_type() -> ValueType {
        number_type(2, true)
    }

    fn get_type() -> (r: ValueType) {
        ValueType::Number(NumberMeta { bytes: 2, signed: true })
    }
}

impl GenJsBinding for i32 {
    open spec fn spec_type() -> ValueType {
        number_type(4, true)
    }

    fn get_type() -> (r: ValueType) {
        ValueType::Number(NumberMeta { bytes: 4, signed: true })
    }
}

impl GenJsBinding for i64 {
    open spec fn spec_type() -> ValueType {
        number_type(8, true)
    }

    fn get_type() -> (r: ValueType) {
        ValueType::Number(NumberMeta { bytes: 8, signed: true })
    }
}

impl GenJsBinding for i128 {
    open spec fn spec_type() -> ValueType {
        number_type(16, true)
    }

    fn get_type() -> (r: ValueType) {
        ValueType::Number(NumberMeta { bytes: 16, signed: true })
    }
}

impl GenJsBinding for &str {
    open spec fn spec_type() -> ValueType {
        ValueType::String
    }

    fn get_type() -> (r: ValueType) {
        ValueType::String
    }
}

impl GenJsBinding for String {
    open spec fn spec_type() -> ValueType {
        ValueType::String
    }

    fn get_type() -> (r: ValueType) {
        ValueType::String
    }
}

impl GenJsBinding for &[u8] {
    open spec fn spec_type() -> ValueType {
        ValueType::Bytes
    }

    fn get_type() -> (r: ValueType) {
        ValueType::Bytes
    }
}

impl<T: GenJsBinding> GenJsBinding for Vec<T> {
    open spec fn spec_type() -> ValueType {
        ValueType::Array(Box::new(T::spec_type()))
    }

    fn get_type() -> (r: ValueType) {
        ValueType::Array(Box::new(T::get_type()))
    }
}

impl<T: GenJsBinding> GenJsBinding for Option<T> {
    open spec fn spec_type() -> ValueType {
        ValueType::Optional(Box::new(T::spec_type()))
    }

    fn get_type() -> (r: ValueType) {
        ValueType::Optional(Box::new(T::get_type()))
    }
}

} // verus!
