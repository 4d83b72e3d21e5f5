use paperclip_core::any::contains_any;
use paperclip_core::mapper::{TypeDesc, Declared};
use paperclip_core::model::{DataType, DataTypeFormat, ExtraProps, Schema, SchemaGraph};
use paperclip_core::resolve::{resolve, ResolveError};
use paperclip_core::typed::TypedData;
use paperclip_core::declare::{enum_schema, struct_schema};

fn typed(dt: DataType) -> Schema {
    let mut n = Schema::new();
    n.data_type = Some(dt);
    n
}

#[test]
fn untyped_node_contains_any() {
    let mut g = SchemaGraph::new();
    let i = g.add(Schema::new());
    assert!(contains_any(&g, i));
}

#[test]
fn primitive_properties_do_not_contain_any() {
    let mut g = SchemaGraph::new();
    let a = g.add(typed(DataType::String));
    let b = g.add(typed(DataType::Integer));
    let mut o = typed(DataType::Object);
    o.properties.push(("a".to_string(), a));
    o.properties.push(("b".to_string(), b));
    let i = g.add(o);
    assert!(!contains_any(&g, i));
}

#[test]
fn nested_untyped_property_contains_any() {
    let mut g = SchemaGraph::new();
    let a = g.add(Schema::new());
    let mut o = typed(DataType::Object);
    o.properties.push(("free".to_string(), a));
    let i = g.add(o);
    assert!(contains_any(&g, i));
    let mut m = typed(DataType::Object);
    m.extra_props = Some(ExtraProps::Allowed(true));
    let k = g.add(m);
    assert!(contains_any(&g, k));
}

#[test]
fn self_reference_ends_without_any() {
    let mut g = SchemaGraph::new();
    let mut n = typed(DataType::Object);
    n.name = Some("Node".to_string());
    let i = g.add(n);
    let mut n = typed(DataType::Object);
    n.name = Some("Node".to_string());
    n.properties.push(("next".to_string(), i));
    g.set(i, n);
    assert!(!contains_any(&g, i));
}

fn cyclic_graph() -> (SchemaGraph, Vec<(String, usize)>) {
    let mut g = SchemaGraph::new();
    let a = g.add(typed(DataType::Object));
    let mut b = typed(DataType::Object);
    b.properties.push(("parent".to_string(), a));
    let b = g.add(b);
    let mut a2 = typed(DataType::Object);
    a2.properties.push(("child".to_string(), b));
    g.set(a, a2);
    let leaf = g.add(typed(DataType::String));
    let mut c = typed(DataType::Array);
    c.items = Some(leaf);
    let c = g.add(c);
    let roots = vec![("A".to_string(), a), ("B".to_string(), b), ("C".to_string(), c)];
    (g, roots)
}

#[test]
fn resolve_names_roots_and_marks_cycles() {
    let (mut g, roots) = cyclic_graph();
    assert_eq!(resolve(&mut g, &roots), Ok(()));
    assert_eq!(g.get(0).name.as_deref(), Some("A"));
    assert_eq!(g.get(1).name.as_deref(), Some("B"));
    assert_eq!(g.get(3).name.as_deref(), Some("C"));
    assert!(g.get(0).cyclic);
    assert!(g.get(1).cyclic);
    assert!(!g.get(2).cyclic);
    assert!(!g.get(3).cyclic);
}

#[test]
fn resolve_twice_changes_nothing() {
    let (mut g, roots) = cyclic_graph();
    assert_eq!(resolve(&mut g, &roots), Ok(()));
    let first: Vec<(Option<String>, bool)> = (0..g.len()).map(|i| (g.get(i).name.clone(), g.get(i).cyclic)).collect();
    assert_eq!(resolve(&mut g, &roots), Ok(()));
    let second: Vec<(Option<String>, bool)> = (0..g.len()).map(|i| (g.get(i).name.clone(), g.get(i).cyclic)).collect();
    assert_eq!(first, second);
}

#[test]
fn resolve_refuses_name_collision() {
    let mut g = SchemaGraph::new();
    let a = g.add(typed(DataType::Object));
    let b = g.add(typed(DataType::Object));
    let roots = vec![("Page<Pet>".to_string(), a), ("Page%3CPet%3E".to_string(), b)];
    assert_eq!(resolve(&mut g, &roots), Err(ResolveError::NameCollision(0, 1)));
    assert_eq!(g.get(a).name, None);
    let same = vec![("Pet".to_string(), a), ("Pet".to_string(), a)];
    assert_eq!(resolve(&mut g, &same), Ok(()));
}

#[test]
fn resolve_refuses_missing_node() {
    let mut g = SchemaGraph::new();
    g.add(typed(DataType::Object));
    let roots = vec![("A".to_string(), 0), ("B".to_string(), 7)];
    assert_eq!(resolve(&mut g, &roots), Err(ResolveError::MissingNode(1)));
}

#[test]
fn struct_with_required_and_optional_fields() {
    let mut g = SchemaGraph::new();
    let fields = vec![
        ("id".to_string(), TypeDesc::Typed(TypedData::String)),
        ("count".to_string(), TypeDesc::Optional(Box::new(TypeDesc::Typed(TypedData::I32)))),
    ];
    let s = struct_schema(&mut g, &fields);
    assert_eq!(s.data_type, Some(DataType::Object));
    assert_eq!(s.required, vec!["id".to_string()]);
    assert_eq!(s.properties.len(), 2);
    assert_eq!(s.properties[0].0, "id");
    let id = g.get(s.properties[0].1);
    assert_eq!((id.data_type, id.format), (Some(DataType::String), None));
    assert_eq!(s.properties[1].0, "count");
    let count = g.get(s.properties[1].1);
    assert_eq!((count.data_type, count.format), (Some(DataType::Integer), Some(DataTypeFormat::Int32)));
    assert_eq!(count.reference, None);
}

#[test]
fn struct_field_of_declared_type_is_a_reference() {
    let mut g = SchemaGraph::new();
    let owner = g.add(typed(DataType::Object));
    let fields = vec![(
        "owner".to_string(),
        TypeDesc::Declared(Declared { name: Some("Owner".to_string()), description: String::new(), node: owner }),
    )];
    let s = struct_schema(&mut g, &fields);
    let f = g.get(s.properties[0].1);
    assert_eq!(f.reference.as_deref(), Some("#/definitions/Owner"));
    assert_eq!(s.required, vec!["owner".to_string()]);
}

#[test]
fn enum_keeps_only_unit_variants() {
    let variants = vec![("Red".to_string(), false), ("Rgb".to_string(), true), ("Blue".to_string(), false)];
    let s = enum_schema(&variants);
    assert_eq!(s.data_type, Some(DataType::String));
    assert_eq!(s.enum_variants, vec!["Red".to_string(), "Blue".to_string()]);
}
