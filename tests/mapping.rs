use paperclip_core::escape::{escape_name, reference_name, reference_path};
use paperclip_core::mapper::{TypeDesc, CollectionKind, Declared, MapKind};
use paperclip_core::model::{DataType, DataTypeFormat, ExtraProps, Schema, SchemaGraph};
use paperclip_core::typed::TypedData;

fn raw(t: TypedData) -> Schema {
    let mut g = SchemaGraph::new();
    TypeDesc::Typed(t).raw_schema(&mut g)
}

fn declared(g: &mut SchemaGraph, name: Option<&str>, description: &str) -> TypeDesc {
    let mut n = Schema::new();
    n.data_type = Some(DataType::Object);
    let node = g.add(n);
    TypeDesc::Declared(Declared {
        name: name.map(|s| s.to_string()),
        description: description.to_string(),
        node,
    })
}

#[test]
fn primitive_i16_has_bounds() {
    let n = raw(TypedData::I16);
    assert_eq!(n.data_type, Some(DataType::Integer));
    assert_eq!(n.format, Some(DataTypeFormat::Int32));
    assert_eq!(n.minimum, Some(-32768));
    assert_eq!(n.maximum, Some(32767));
}

#[test]
fn primitive_table_rows() {
    let rows = vec![
        (TypedData::Bool, DataType::Boolean, None),
        (TypedData::String, DataType::String, None),
        (TypedData::Char, DataType::String, None),
        (TypedData::Utf8PathBuf, DataType::String, Some(DataTypeFormat::Binary)),
        (TypedData::F32, DataType::Number, Some(DataTypeFormat::Float)),
        (TypedData::F64, DataType::Number, Some(DataTypeFormat::Double)),
        (TypedData::I32, DataType::Integer, Some(DataTypeFormat::Int32)),
        (TypedData::U32, DataType::Integer, Some(DataTypeFormat::Int32)),
        (TypedData::I64, DataType::Integer, Some(DataTypeFormat::Int64)),
        (TypedData::Usize, DataType::Integer, Some(DataTypeFormat::Int64)),
        (TypedData::Uuid, DataType::String, Some(DataTypeFormat::Uuid)),
        (TypedData::Url, DataType::String, Some(DataTypeFormat::Url)),
        (TypedData::ChronoNaiveDate, DataType::String, Some(DataTypeFormat::Date)),
        (TypedData::ChronoNaiveDateTime, DataType::String, Some(DataTypeFormat::DateTime)),
        (TypedData::NamedFile, DataType::File, Some(DataTypeFormat::Binary)),
        (TypedData::Ipv6Addr, DataType::String, Some(DataTypeFormat::IpV6)),
    ];
    for (t, dt, f) in rows {
        let n = raw(t);
        assert_eq!(n.data_type, Some(dt));
        assert_eq!(n.format, f);
    }
}

#[test]
fn unsigned_and_wide_bounds() {
    let n = raw(TypedData::U8);
    assert_eq!((n.minimum, n.maximum), (Some(0), Some(255)));
    let n = raw(TypedData::U128);
    assert_eq!((n.minimum, n.maximum), (Some(0), Some(u128::MAX)));
    let n = raw(TypedData::I128);
    assert_eq!(n.minimum, Some(i128::MIN));
    let n = raw(TypedData::U64);
    assert_eq!((n.minimum, n.maximum), (None, None));
}

#[test]
fn untyped_values_are_unconstrained() {
    let mut g = SchemaGraph::new();
    for t in vec![TypeDesc::Unit, TypeDesc::JsonValue, TypeDesc::YamlValue] {
        let n = t.raw_schema(&mut g);
        assert_eq!(n.data_type, None);
        assert_eq!(n.format, None);
    }
}

#[test]
fn optional_passes_inner_through() {
    let mut g = SchemaGraph::new();
    let inner = TypeDesc::Typed(TypedData::I32);
    let opt = TypeDesc::Optional(Box::new(TypeDesc::Typed(TypedData::I32)));
    assert!(inner.required());
    assert!(!opt.required());
    let a = inner.raw_schema(&mut g);
    let b = opt.raw_schema(&mut g);
    assert_eq!(a.data_type, b.data_type);
    assert_eq!(a.format, b.format);
    assert_eq!(a.minimum, b.minimum);
    let pet = declared(&mut g, Some("Pet"), "");
    let opt_pet = TypeDesc::Optional(Box::new(declared(&mut g, Some("Pet"), "")));
    assert_eq!(pet.name(), opt_pet.name());
}

#[test]
fn vec_is_array_of_referenced_items() {
    let mut g = SchemaGraph::new();
    let pet = declared(&mut g, Some("Pet"), "");
    let v = TypeDesc::Collection(CollectionKind::Vec, Box::new(pet));
    let n = v.raw_schema(&mut g);
    assert_eq!(n.data_type, Some(DataType::Array));
    let j = n.items.unwrap();
    assert_eq!(g.get(j).reference.as_deref(), Some("#/definitions/Pet"));
    assert_eq!(g.get(j).data_type, Some(DataType::Object));
}

#[test]
fn fixed_array_and_set_are_arrays() {
    let mut g = SchemaGraph::new();
    let a = TypeDesc::FixedArray(Box::new(TypeDesc::Typed(TypedData::U8)), 4);
    let n = a.raw_schema(&mut g);
    assert_eq!(n.data_type, Some(DataType::Array));
    assert_eq!(g.get(n.items.unwrap()).maximum, Some(255));
    let s = TypeDesc::Collection(CollectionKind::BTreeSet, Box::new(TypeDesc::Typed(TypedData::Str)));
    let n = s.raw_schema(&mut g);
    assert_eq!(n.data_type, Some(DataType::Array));
    assert_eq!(g.get(n.items.unwrap()).data_type, Some(DataType::String));
}

#[test]
fn map_is_object_with_value_schema() {
    let mut g = SchemaGraph::new();
    let m = TypeDesc::MapOf(MapKind::BTreeMap, Box::new(TypeDesc::Typed(TypedData::Bool)));
    let n = m.raw_schema(&mut g);
    assert_eq!(n.data_type, Some(DataType::Object));
    match n.extra_props {
        Some(ExtraProps::Node(j)) => assert_eq!(g.get(j).data_type, Some(DataType::Boolean)),
        other => panic!("unexpected {:?}", other),
    }
    assert!(n.properties.is_empty());
}

#[test]
fn reference_and_description_coexist() {
    let mut g = SchemaGraph::new();
    let pet = declared(&mut g, Some("Pet"), "A pet.");
    let j = pet.schema_with_ref(&mut g);
    let n = g.get(j);
    assert_eq!(n.reference.as_deref(), Some("#/definitions/Pet"));
    assert_eq!(n.description.as_deref(), Some("A pet."));
}

#[test]
fn unnamed_type_falls_back_to_embedded_name() {
    let mut g = SchemaGraph::new();
    let mut base = Schema::new();
    base.data_type = Some(DataType::Object);
    base.name = Some("Inner<T>".to_string());
    let node = g.add(base);
    let t = TypeDesc::Declared(Declared { name: None, description: String::new(), node });
    let j = t.schema_with_ref(&mut g);
    assert_eq!(g.get(j).reference.as_deref(), Some("#/definitions/Inner%3CT%3E"));
    assert_eq!(g.get(j).description, None);
    let p = TypeDesc::Typed(TypedData::I64);
    let k = p.schema_with_ref(&mut g);
    assert_eq!(g.get(k).reference, None);
}

#[test]
fn generic_names_are_escaped() {
    assert_eq!(escape_name("Page<Vec<Pet>>"), "Page%3CVec%3CPet%3E%3E");
    assert_eq!(reference_path("Page<Pet>"), "#/definitions/Page%3CPet%3E");
    assert_eq!(reference_path("Pet"), "#/definitions/Pet");
}

#[test]
fn reference_path_round_trips() {
    for name in ["Page<Pet>", "Map<K, V>", "Plain", "", "a%b"] {
        let p = reference_path(name);
        assert_eq!(reference_name(&p), Some(name.to_string()));
    }
    assert_eq!(reference_name("#/other/Pet"), None);
    assert_eq!(reference_name("#/def"), None);
}
