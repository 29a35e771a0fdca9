use postcard_bindgen_core::registry::{
    BindingType, BindingsRegistry, EnumType, EnumVariantType, JsBindings, StructFields,
    StructType, TupleFields, TupleStructType, UnitStructType,
};
use postcard_bindgen_core::types::ValueType;

#[test]
fn test_registry_struct() {
    #[allow(unused)]
    struct Test {
        a: u8,
        b: u16,
        c: &'static str,
    }

    impl JsBindings for Test {
        fn create_bindings(registry: &mut BindingsRegistry) {
            let mut ty = StructType::new();

            ty.register_field::<u8>("a".into());
            ty.register_field::<u16>("b".into());
            ty.register_field::<&str>("c".into());

            registry.register_struct_binding("Test", "".into(), ty);
        }
    }

    let mut registry = BindingsRegistry::default();
    Test::create_bindings(&mut registry);
}

#[test]
fn test_registry_tuple_struct() {
    #[allow(dead_code)]
    struct Test(u8, &'static str, &'static [u8]);

    impl JsBindings for Test {
        fn create_bindings(registry: &mut BindingsRegistry) {
            let mut ty = TupleStructType::new();

            ty.register_field::<u8>();
            ty.register_field::<&str>();
            ty.register_field::<&[u8]>();

            registry.register_tuple_struct_binding("Test", "".into(), ty);
        }
    }

    let mut registry = BindingsRegistry::default();
    Test::create_bindings(&mut registry);
}

#[test]
fn test_registry_enum() {
    #[allow(unused)]
    enum Test {
        A,
        B(u8),
        C { a: &'static str, b: u16 },
    }

    impl JsBindings for Test {
        fn create_bindings(registry: &mut BindingsRegistry) {
            let mut ty = EnumType::new();

            ty.register_variant("A".into());

            let mut fields = TupleFields::default();
            fields.register_field::<u8>();
            ty.register_variant_tuple("B".into(), fields);

            let mut fields = StructFields::default();
            fields.register_field::<&str>("a".into());
            fields.register_field::<u16>("b".into());
            ty.register_unnamed_struct("C".into(), fields);

            registry.register_enum_binding("Test", "".into(), ty);
        }
    }

    let mut registry = BindingsRegistry::default();
    Test::create_bindings(&mut registry);
}

#[test]
fn struct_fields_keep_declaration_order() {
    let mut ty = StructType::new();
    ty.register_field::<u8>("a");
    ty.register_field::<Option<u16>>("b");
    ty.register_field::<Vec<i32>>("c");
    assert_eq!(ty.fields.len(), 3);
    assert_eq!(ty.fields[0].name, "a");
    assert_eq!(ty.fields[1].name, "b");
    assert_eq!(ty.fields[2].name, "c");
    match &ty.fields[1].v_type {
        ValueType::Optional(inner) => match inner.as_ref() {
            ValueType::Number(m) => {
                assert_eq!(m.bytes, 2);
                assert!(!m.signed);
            }
            other => panic!("unexpected inner type {:?}", other),
        },
        other => panic!("unexpected type {:?}", other),
    }
    match &ty.fields[2].v_type {
        ValueType::Array(inner) => match inner.as_ref() {
            ValueType::Number(m) => {
                assert_eq!(m.bytes, 4);
                assert!(m.signed);
            }
            other => panic!("unexpected item type {:?}", other),
        },
        other => panic!("unexpected type {:?}", other),
    }
}

#[test]
fn variant_index_follows_registration_order() {
    let mut ty = EnumType::new();
    ty.register_variant("A");
    let mut fields = TupleFields::default();
    fields.register_field::<u8>();
    ty.register_variant_tuple("B", fields);
    let mut fields = StructFields::default();
    fields.register_field::<&str>("x");
    ty.register_unnamed_struct("C", fields);
    assert_eq!(ty.variants.len(), 3);
    for (n, v) in ty.variants.iter().enumerate() {
        assert_eq!(v.index, n);
    }
    assert!(matches!(ty.variants[0].inner_type, EnumVariantType::Empty));
    assert!(matches!(&ty.variants[1].inner_type, EnumVariantType::Tuple(f) if f.len() == 1));
    assert!(matches!(&ty.variants[2].inner_type, EnumVariantType::NewType(f) if f.len() == 1 && f[0].name == "x"));
}

#[test]
fn registry_keeps_order_of_registration() {
    let mut registry = BindingsRegistry::default();
    registry.register_unit_struct_binding("First", "a::b".into(), UnitStructType::new());
    registry.register_struct_binding("Second", "".into(), StructType::new());
    let entries = registry.into_entries();
    assert_eq!(entries.len(), 2);
    assert_eq!(entries[0].name, "First");
    assert_eq!(entries[0].path, "a::b");
    assert!(matches!(entries[0].ty, BindingType::UnitStruct(_)));
    assert_eq!(entries[1].name, "Second");
    assert!(matches!(entries[1].ty, BindingType::Struct(_)));
}
