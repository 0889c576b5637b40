use structmap::{
    Converter, FieldDef, FieldValue, FieldsShape, Foo, Profile, RecordPlan, StrMap, ToHashMap,
    TypeShape, derive_hash_map_param, record_to_field_value, record_to_primitive,
};

#[test]
fn foo_flattens_to_named_entries() {
    let foo = Foo { a: 1, b: 2 };
    let map = foo.to_map();
    assert_eq!(map.len(), 2);
    assert_eq!(map.get(&"a".to_string()), Some(&FieldValue::Int(1)));
    assert_eq!(map.get(&"b".to_string()), Some(&FieldValue::Int(2)));
}

#[test]
fn foo_builds_from_mapping() {
    let mut map: StrMap<FieldValue> = StrMap::new();
    map.insert("a".to_string(), FieldValue::Int(3));
    map.insert("b".to_string(), FieldValue::Int(4));
    let foo = Foo::from_map(map).unwrap();
    assert_eq!(foo, Foo { a: 3, b: 4 });
}

#[test]
fn foo_missing_field_fails_naming_the_type() {
    let mut map: StrMap<FieldValue> = StrMap::new();
    map.insert("a".to_string(), FieldValue::Int(3));
    let err = Foo::from_map(map).unwrap_err();
    assert_eq!(err.message(), "invalid type: i32");
}

#[test]
fn foo_round_trip() {
    let foo = Foo { a: -7, b: 2_000_000_000 };
    let map = foo.to_map();
    assert_eq!(Foo::from_map(map).unwrap(), Foo { a: -7, b: 2_000_000_000 });
}

#[test]
fn foo_extra_keys_are_ignored() {
    let mut map: StrMap<FieldValue> = StrMap::new();
    map.insert("a".to_string(), FieldValue::Int(10));
    map.insert("b".to_string(), FieldValue::Int(20));
    map.insert("unexpected".to_string(), FieldValue::Bool(true));
    map.insert("another".to_string(), FieldValue::Null);
    assert_eq!(Foo::from_map(map).unwrap(), Foo { a: 10, b: 20 });
}

#[test]
fn foo_entry_order_is_irrelevant() {
    let mut map: StrMap<FieldValue> = StrMap::new();
    map.insert("b".to_string(), FieldValue::Int(4));
    map.insert("a".to_string(), FieldValue::Int(3));
    assert_eq!(Foo::from_map(map).unwrap(), Foo { a: 3, b: 4 });
}

#[test]
fn foo_field_type_mismatch_propagates() {
    let mut map: StrMap<FieldValue> = StrMap::new();
    map.insert("a".to_string(), FieldValue::Bool(false));
    map.insert("b".to_string(), FieldValue::Int(4));
    let err = Foo::from_map(map).unwrap_err();
    assert_eq!(err.message(), "invalid type: i32");
}

#[test]
fn bool_from_int_is_never_coerced() {
    let r = <bool as Converter>::to_primitive(FieldValue::Int(1));
    assert_eq!(r.unwrap_err().message(), "invalid type: bool");
}

#[test]
fn bool_round_trip() {
    assert_eq!(<bool as Converter>::to_primitive(true.to_field_value()).unwrap(), true);
    assert_eq!(<bool as Converter>::to_primitive(false.to_field_value()).unwrap(), false);
}

#[test]
fn integer_widening_and_narrowing() {
    assert_eq!(127i8.to_field_value(), FieldValue::Int(127));
    assert_eq!(<i8 as Converter>::to_primitive(FieldValue::Int(127)).unwrap(), 127i8);
    assert_eq!(<i8 as Converter>::to_primitive(FieldValue::Int(-128)).unwrap(), -128i8);
    let err = <i8 as Converter>::to_primitive(FieldValue::Int(128)).unwrap_err();
    assert_eq!(err.message(), "invalid type: i8");
    let err = <i8 as Converter>::to_primitive(FieldValue::Int(-129)).unwrap_err();
    assert_eq!(err.message(), "invalid type: i8");
}

#[test]
fn unsigned_narrowing_rejects_negative_and_large() {
    assert_eq!(<u8 as Converter>::to_primitive(FieldValue::Int(255)).unwrap(), 255u8);
    assert_eq!(
        <u8 as Converter>::to_primitive(FieldValue::Int(-1)).unwrap_err().message(),
        "invalid type: u8"
    );
    assert_eq!(<u16 as Converter>::to_primitive(FieldValue::Int(65535)).unwrap(), 65535u16);
    assert_eq!(
        <u16 as Converter>::to_primitive(FieldValue::Int(65536)).unwrap_err().message(),
        "invalid type: u16"
    );
    assert_eq!(
        <u32 as Converter>::to_primitive(FieldValue::Int(4_294_967_295)).unwrap(),
        4_294_967_295u32
    );
    assert_eq!(
        <u32 as Converter>::to_primitive(FieldValue::Int(4_294_967_296)).unwrap_err().message(),
        "invalid type: u32"
    );
}

#[test]
fn int_widths_report_their_own_name() {
    assert_eq!(
        <i16 as Converter>::to_primitive(FieldValue::Int(40_000)).unwrap_err().message(),
        "invalid type: i16"
    );
    assert_eq!(
        <i32 as Converter>::to_primitive(FieldValue::Int(3_000_000_000)).unwrap_err().message(),
        "invalid type: i32"
    );
    assert_eq!(
        <i64 as Converter>::to_primitive(FieldValue::Bool(true)).unwrap_err().message(),
        "invalid type: i64"
    );
    assert_eq!(
        <i64 as Converter>::to_primitive(FieldValue::Int(i64::MIN)).unwrap(),
        i64::MIN
    );
}

#[test]
fn string_conversion_is_identity() {
    let s = "hello".to_string();
    assert_eq!(s.to_field_value(), FieldValue::String("hello".to_string()));
    assert_eq!(
        <String as Converter>::to_primitive(FieldValue::String("world".to_string())).unwrap(),
        "world".to_string()
    );
    assert_eq!(
        <String as Converter>::to_primitive(FieldValue::Int(3)).unwrap_err().message(),
        "invalid type: String"
    );
}

#[test]
fn char_requires_a_single_character_string() {
    assert_eq!('x'.to_field_value(), FieldValue::String("x".to_string()));
    assert_eq!(
        <char as Converter>::to_primitive(FieldValue::String("x".to_string())).unwrap(),
        'x'
    );
    assert_eq!(
        <char as Converter>::to_primitive(FieldValue::String("ab".to_string()))
            .unwrap_err()
            .message(),
        "invalid type: char"
    );
    assert_eq!(
        <char as Converter>::to_primitive(FieldValue::String(String::new()))
            .unwrap_err()
            .message(),
        "invalid type: char"
    );
    assert_eq!(
        <char as Converter>::to_primitive(FieldValue::Bool(true)).unwrap_err().message(),
        "invalid type: char"
    );
}

#[test]
fn optional_null_is_absent_regardless_of_element() {
    assert_eq!(<Option<i32> as Converter>::to_primitive(FieldValue::Null).unwrap(), None);
    assert_eq!(<Option<String> as Converter>::to_primitive(FieldValue::Null).unwrap(), None);
    assert_eq!(
        <Option<i32> as Converter>::to_primitive(FieldValue::Int(5)).unwrap(),
        Some(5)
    );
    assert_eq!(
        <Option<i32> as Converter>::to_primitive(FieldValue::Bool(true))
            .unwrap_err()
            .message(),
        "invalid type: i32"
    );
}

#[test]
fn optional_flattens_to_null_or_value() {
    let none: Option<i32> = None;
    assert_eq!(none.to_field_value(), FieldValue::Null);
    let some: Option<i32> = Some(9);
    assert_eq!(some.to_field_value(), FieldValue::Int(9));
}

#[test]
fn sequence_preserves_order() {
    let v: Vec<u32> = vec![3, 1, 2];
    let fv = v.to_field_value();
    assert_eq!(
        fv,
        FieldValue::Array(vec![FieldValue::Int(3), FieldValue::Int(1), FieldValue::Int(2)])
    );
    let back = <Vec<u32> as Converter>::to_primitive(fv).unwrap();
    assert_eq!(back, vec![3, 1, 2]);
}

#[test]
fn sequence_fails_fast_with_element_error() {
    let fv = FieldValue::Array(vec![
        FieldValue::Int(1),
        FieldValue::Int(-1),
        FieldValue::Bool(true),
    ]);
    let err = <Vec<u32> as Converter>::to_primitive(fv).unwrap_err();
    assert_eq!(err.message(), "invalid type: u32");
    let err = <Vec<u32> as Converter>::to_primitive(FieldValue::Bool(false)).unwrap_err();
    assert_eq!(err.message(), "invalid type: Vec<T>");
}

#[test]
fn mapping_converts_each_value() {
    let mut m: StrMap<u8> = StrMap::new();
    m.insert("one".to_string(), 1);
    m.insert("two".to_string(), 2);
    let fv = m.to_field_value();
    let back = <StrMap<u8> as Converter>::to_primitive(fv).unwrap();
    assert_eq!(back.get(&"one".to_string()), Some(&1));
    assert_eq!(back.get(&"two".to_string()), Some(&2));
    assert_eq!(back.len(), 2);
    assert_eq!(
        <StrMap<u8> as Converter>::to_primitive(FieldValue::Int(3)).unwrap_err().message(),
        "invalid type: HashMap<K, V>"
    );
}

#[test]
fn mapping_value_failure_aborts() {
    let entries = vec![
        ("ok".to_string(), FieldValue::Int(1)),
        ("bad".to_string(), FieldValue::Int(300)),
    ];
    let err = <StrMap<u8> as Converter>::to_primitive(FieldValue::Mapping(entries)).unwrap_err();
    assert_eq!(err.message(), "invalid type: u8");
}

#[test]
fn profile_round_trip_keeps_order_and_fields() {
    let p = Profile {
        name: "ada".to_string(),
        tags: vec![5, 4, 4, 9],
        nickname: Some("al".to_string()),
    };
    let map = p.to_map();
    let back = Profile::from_map(map).unwrap();
    assert_eq!(back.name, "ada");
    assert_eq!(back.tags, vec![5, 4, 4, 9]);
    assert_eq!(back.nickname, Some("al".to_string()));
}

#[test]
fn profile_absent_nickname_round_trips() {
    let p = Profile { name: "bo".to_string(), tags: vec![], nickname: None };
    let map = p.to_map();
    assert_eq!(map.get(&"nickname".to_string()), Some(&FieldValue::Null));
    let back = Profile::from_map(map).unwrap();
    assert_eq!(back.nickname, None);
    assert_eq!(back.tags, Vec::<u32>::new());
}

#[test]
fn profile_missing_sequence_field_names_its_type() {
    let mut map: StrMap<FieldValue> = StrMap::new();
    map.insert("name".to_string(), FieldValue::String("x".to_string()));
    map.insert("nickname".to_string(), FieldValue::Null);
    let err = Profile::from_map(map).unwrap_err();
    assert_eq!(err.message(), "invalid type: Vec<u32>");
}

#[test]
fn records_nest_through_the_conversion_protocol() {
    let foo = Foo { a: 6, b: 7 };
    let fv = record_to_field_value(&foo);
    match &fv {
        FieldValue::Mapping(entries) => assert_eq!(entries.len(), 2),
        _ => panic!("a record must flatten to a mapping"),
    }
    let back: Foo = record_to_primitive(fv).unwrap();
    assert_eq!(back, Foo { a: 6, b: 7 });
    let err: Result<Foo, _> = record_to_primitive(FieldValue::Int(1));
    assert_eq!(err.unwrap_err().message(), "invalid type: Mapper");
}

#[test]
fn nested_record_through_converter_impl() {
    let foo = Foo { a: 1, b: 2 };
    let fv = foo.to_field_value();
    let back = <Foo as Converter>::to_primitive(fv).unwrap();
    assert_eq!(back, Foo { a: 1, b: 2 });
}

#[test]
fn generator_accepts_only_named_field_structs() {
    let fields = vec![
        FieldDef { name: "a".to_string(), ty: "i32".to_string() },
        FieldDef { name: "b".to_string(), ty: "i32".to_string() },
    ];
    let plan = derive_hash_map_param(
        "Foo".to_string(),
        TypeShape::Struct(FieldsShape::Named(fields)),
    )
    .unwrap();
    assert_eq!(
        plan,
        RecordPlan {
            name: "Foo".to_string(),
            fields: vec![
                FieldDef { name: "a".to_string(), ty: "i32".to_string() },
                FieldDef { name: "b".to_string(), ty: "i32".to_string() },
            ],
        }
    );
}

#[test]
fn generator_rejects_other_shapes() {
    assert_eq!(
        derive_hash_map_param("E".to_string(), TypeShape::Enum).unwrap_err().message(),
        "invalid type: Enum"
    );
    assert_eq!(
        derive_hash_map_param("U".to_string(), TypeShape::Union).unwrap_err().message(),
        "invalid type: Union"
    );
    assert_eq!(
        derive_hash_map_param("T".to_string(), TypeShape::Struct(FieldsShape::Unnamed))
            .unwrap_err()
            .message(),
        "invalid type: Unnamed"
    );
    assert_eq!(
        derive_hash_map_param("Z".to_string(), TypeShape::Struct(FieldsShape::Unit))
            .unwrap_err()
            .message(),
        "invalid type: Unit"
    );
}

#[test]
fn strmap_insert_get_remove() {
    let mut m: StrMap<u32> = StrMap::new();
    assert_eq!(m.len(), 0);
    m.insert("k".to_string(), 1);
    m.insert("k".to_string(), 2);
    assert_eq!(m.len(), 1);
    assert_eq!(m.get(&"k".to_string()), Some(&2));
    assert!(m.contains_key(&"k".to_string()));
    assert!(!m.contains_key(&"missing".to_string()));
    assert_eq!(m.remove(&"k".to_string()), Some(2));
    assert_eq!(m.remove(&"k".to_string()), None);
    assert_eq!(m.len(), 0);
}
