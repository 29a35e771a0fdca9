use vstd::prelude::*;

use crate::types::{GenJsBinding, ValueType};

verus! {

/// A named, registered type definition.
#[derive(Debug)]
pub struct Container {
    pub path: String,
    pub name: &'static str,
    pub ty: BindingType,
}

/// The shape of a container.
#[derive(Debug)]
pub enum BindingType {
    Struct(StructType),
    TupleStruct(TupleStructType),
    UnitStruct(UnitStructType),
    Enum(EnumType),
}

/// A sum type: on the wire, the variant index followed by its payload.
#[derive(Debug)]
pub struct EnumType {
    pub variants: Vec<EnumVariant>,
}

/// Every variant's index is its position: indices run from 0 without gaps.
pub open spec fn variants_indexed(vs: Seq<EnumVariant>) -> bool {
    forall|i: int| 0 <= i < vs.len() ==> #[trigger] vs[i].index == i
}

impl EnumType {
    pub open spec fn wf(&self) -> bool {
        variants_indexed(self.variants@)
    }

    pub fn new() -> (r: Self)
        ensures
            r.variants@.len() == 0,
            r.wf(),
    {
        Self { variants: Vec::new() }
    }

    /// Appends a variant without payload; its index is the number of variants before it.
    pub fn register_variant(&mut self, name: &'static str)
        ensures
            final(self).variants@ == old(self).variants@.push(
                (EnumVariant {
                    index: old(self).variants@.len() as usize,
                    name,
                    inner_type: EnumVariantType::Empty,
                }),
            ),
            old(self).wf() ==> final(self).wf(),
    {
        let index = self.variants.len();
        self.variants.push(EnumVariant { index, name, inner_type: EnumVariantType::Empty });
    }

    /// Appends a variant with positional fields.
    pub fn register_variant_tuple(&mut self, name: &'static str, fields: TupleFields)
        ensures
            final(self).variants@ == old(self).variants@.push(
                (EnumVariant {
                    index: old(self).variants@.len() as usize,
                    name,
                    inner_type: EnumVariantType::Tuple(fields.0),
                }),
            ),
            old(self).wf() ==> final(self).wf(),
    {
        let index = self.variants.len();
        self.variants.push(
            EnumVariant { index, name, inner_type: EnumVariantType::Tuple(fields.into_inner()) },
        );
    }

    /// Appends a variant with named fields.
    pub fn register_unnamed_struct(&mut self, name: &'static str, fields: StructFields)
        ensures
            final(self).variants@ == old(self).variants@.push(
                (EnumVariant {
                    index: old(self).variants@.len() as usize,
                    name,
                    inner_type: EnumVariantType::NewType(fields.0),
                }),
            ),
            old(self).wf() ==> final(self).wf(),
    {
        let index = self.variants.len();
        self.variants.push(
            EnumVariant { index, name, inner_type: EnumVariantType::NewType(fields.into_inner()) },
        );
    }
}

#[derive(Debug)]
pub struct EnumVariant {
    pub index: usize,
    pub name: &'static str,
    pub inner_type: EnumVariantType,
}

/// The payload of a variant.
#[derive(Debug)]
pub enum EnumVariantType {
    Empty,
    Tuple(Vec<ValueType>),
    NewType(Vec<StructField>),
}

/// A struct with named fields, encoded in declaration order.
#[derive(Debug)]
pub struct StructType {
    pub fields: Vec<StructField>,
}

impl StructType {
    pub fn new() -> (r: Self)
        ensures
            r.fields@.len() == 0,
    {
        Self { fields: Vec::new() }
    }

    pub fn register_field<T: GenJsBinding>(&mut self, name: &'static str)
        ensures
            final(self).fields@ == old(self).fields@.push(
                (StructField { name, v_type: T::spec_type() }),
            ),
    {
        let v_type = T::get_type();
        self.fields.push(StructField { name, v_type });
    }
}

/// A struct with positional fields.
#[derive(Debug)]
pub struct TupleStructType {
    pub fields: Vec<ValueType>,
}

impl TupleStructType {
    pub fn new() -> (r: Self)
        ensures
            r.fields@.len() == 0,
    {
        Self { fields: Vec::new() }
    }

    pub fn register_field<T: GenJsBinding>(&mut self)
        ensures
            final(self).fields@ == old(self).fields@.push(T::spec_type()),
    {
        let v_type = T::get_type();
        self.fields.push(v_type);
    }
}

/// A struct without fields: nothing on the wire.
#[derive(Debug)]
pub struct UnitStructType;

impl UnitStructType {
    pub fn new() -> (r: Self) {
        Self {  }
    }
}

#[derive(Debug)]
pub struct StructField {
    pub name: &'static str,
    pub v_type: ValueType,
}

/// Named fields of an enum variant, collected before the variant is registered.
#[derive(Debug)]
pub struct StructFields(pub Vec<StructField>);

impl Default for StructFields {
    fn default() -> (r: Self)
        ensures
            r.0@.len() == 0,
    {
        StructFields(Vec::new())
    }
}

impl StructFields {
    pub fn register_field<T: GenJsBinding>(&mut self, name: &'static str)
        ensures
            final(self).0@ == old(self).0@.push((StructField { name, v_type: T::spec_type() })),
    {
        let v_type = T::get_type();
        self.0.push(StructField { name, v_type });
    }

    fn into_inner(self) -> (r: Vec<StructField>)
        ensures
            r == self.0,
    {
        self.0
    }
}

/// Positional fields of an enum variant, collected before the variant is registered.
pub struct TupleFields(pub Vec<ValueType>);

impl Default for TupleFields {
    fn default() -> (r: Self)
        ensures
            r.0@.len() == 0,
    {
        TupleFields(Vec::new())
    }
}

impl TupleFields {
    pub fn register_field<T: GenJsBinding>(&mut self)
        ensures
            final(self).0@ == old(self).0@.push(T::spec_type()),
    {
        let v_type = T::get_type();
        self.0.push(v_type);
    }

    fn into_inner(self) -> (r: Vec<ValueType>)
        ensures
            r == self.0,
    {
        self.0
    }
}

/// The ordered collection of registered containers.
#[derive(Debug)]
pub struct BindingsRegistry(pub Vec<Container>);

impl Default for BindingsRegistry {
    fn default() -> (r: Self)
        ensures
            r.0@.len() == 0,
    {
        BindingsRegistry(Vec::new())
    }
}

impl BindingsRegistry {
    pub open spec fn view(&self) -> Seq<Container> {
        self.0@
    }

    pub fn register_struct_binding(&mut self, name: &'static str, path: String, value: StructType)
        ensures
            final(self)@ == old(self)@.push(
                (Container { path, name, ty: BindingType::Struct(value) }),
            ),
    {
        self.0.push(Container { path, name, ty: BindingType::Struct(value) });
    }

    pub fn register_tuple_struct_binding(
        &mut self,
        name: &'static str,
        path: String,
        value: TupleStructType,
    )
        ensures
            final(self)@ == old(self)@.push(
                (Container { path, name, ty: BindingType::TupleStruct(value) }),
            ),
    {
        self.0.push(Container { path, name, ty: BindingType::TupleStruct(value) });
    }

    pub fn register_unit_struct_binding(
        &mut self,
        name: &'static str,
        path: String,
        value: UnitStructType,
    )
        ensures
            final(self)@ == old(self)@.push(
                (Container { path, name, ty: BindingType::UnitStruct(value) }),
            ),
    {
        self.0.push(Container { path, name, ty: BindingType::UnitStruct(value) });
    }

    pub fn register_enum_binding(&mut self, name: &'static str, path: String, value: EnumType)
        ensures
            final(self)@ == old(self)@.push(
                (Container { path, name, ty: BindingType::Enum(value) }),
            ),
    {
        self.0.push(Container { path, name, ty: BindingType::Enum(value) });
    }

    pub fn into_entries(self) -> (r: Vec<Container>)
        ensures
            r@ == self@,
    {
        self.0
    }
}

/// Implemented by each schema-defining type: appends its containers to a registry.
pub trait JsBindings {
    fn create_bindings(registry: &mut BindingsRegistry);
}

} // verus!
