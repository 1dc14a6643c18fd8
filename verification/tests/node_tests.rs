use pctx::json::JsonValue;
use pctx::node::{last_segment, normalize, SchemaBody};
use pctx::schema::{InstanceTy, ObjectRules, RawNode, RawSchema, SubSchemas, TypeField};

fn node(ty: TypeField) -> RawNode {
    let mut n = RawNode::anything();
    n.ty = ty;
    n
}

fn schema(n: RawNode) -> RawSchema {
    RawSchema::Node(Box::new(n))
}

#[test]
fn test_normalize_primitives() {
    assert!(normalize(&schema(node(TypeField::Single(InstanceTy::Boolean)))).is_bool());
    assert!(normalize(&schema(node(TypeField::Single(InstanceTy::Number)))).is_num());
    assert!(normalize(&schema(node(TypeField::Single(InstanceTy::Integer)))).is_int());
    assert!(normalize(&schema(node(TypeField::Single(InstanceTy::Str)))).is_str());
    assert!(normalize(&schema(node(TypeField::Missing))).is_any());
    assert!(normalize(&RawSchema::Flag(true)).is_any());
    let prim = normalize(&schema(node(TypeField::Single(InstanceTy::Integer))));
    assert!(prim.is_primitive());
    assert!(!prim.is_nullable());
}

#[test]
fn test_normalize_lone_null_type_is_nullable_any() {
    let n = normalize(&schema(node(TypeField::Single(InstanceTy::Null))));
    assert!(n.is_any());
    assert!(n.is_nullable(), "the bare null type admits null");
}

#[test]
fn test_normalize_type_list_lifts_null() {
    let n = normalize(&schema(node(TypeField::Many(vec![
        InstanceTy::Str,
        InstanceTy::Null,
    ]))));
    assert!(n.is_str());
    assert!(n.is_nullable());
}

#[test]
fn test_normalize_union_drops_null_members() {
    let mut n = RawNode::anything();
    n.subschemas = Some(Box::new(SubSchemas {
        one_of: Some(vec![
            schema(node(TypeField::Single(InstanceTy::Str))),
            schema(node(TypeField::Single(InstanceTy::Null))),
            schema(node(TypeField::Single(InstanceTy::Integer))),
        ]),
        any_of: None,
    }));
    let u = normalize(&schema(n));
    assert!(u.is_union());
    assert!(u.is_nullable());
    match &u.body {
        SchemaBody::Union { members } => {
            assert_eq!(members.len(), 2, "the null member must be lifted, not kept");
        }
        _ => panic!("expected a union"),
    }
}

#[test]
fn test_normalize_all_null_union_degrades_to_any() {
    let mut n = RawNode::anything();
    n.subschemas = Some(Box::new(SubSchemas {
        one_of: Some(vec![schema(node(TypeField::Single(InstanceTy::Null)))]),
        any_of: None,
    }));
    let u = normalize(&schema(n));
    assert!(u.is_any());
    assert!(u.is_nullable());
}

#[test]
fn test_normalize_object_against_map_split() {
    let mut with_props = node(TypeField::Single(InstanceTy::Object));
    with_props.object = Some(Box::new(ObjectRules {
        properties: vec![(
            "a".to_string(),
            schema(node(TypeField::Single(InstanceTy::Str))),
        )],
        required: vec![],
        additional: None,
    }));
    assert!(normalize(&schema(with_props)).is_obj());

    let mut empty_props = node(TypeField::Single(InstanceTy::Object));
    empty_props.object = Some(Box::new(ObjectRules {
        properties: vec![],
        required: vec![],
        additional: None,
    }));
    assert!(normalize(&schema(empty_props)).is_map());

    let bare = node(TypeField::Single(InstanceTy::Object));
    assert!(normalize(&schema(bare)).is_map());
}

#[test]
fn test_normalize_enum_detection() {
    let mut s = node(TypeField::Single(InstanceTy::Str));
    s.enum_values = Some(vec![
        JsonValue::Str("a".to_string()),
        JsonValue::Str("".to_string()),
        JsonValue::Number("3".to_string()),
    ]);
    let e = normalize(&schema(s));
    assert!(e.is_enum());

    // only empty strings: no usable literal, stays a string
    let mut s2 = node(TypeField::Single(InstanceTy::Str));
    s2.enum_values = Some(vec![JsonValue::Str("".to_string())]);
    assert!(normalize(&schema(s2)).is_str());
}

#[test]
fn test_normalize_reference_key() {
    let mut r = RawNode::anything();
    r.reference = Some("#/$defs/Thing".to_string());
    let n = normalize(&schema(r));
    assert!(n.is_ref());
    match &n.body {
        SchemaBody::Ref { key } => assert_eq!(key, "Thing"),
        _ => panic!("expected a reference"),
    }
}

#[test]
fn test_last_segment() {
    assert_eq!(last_segment("#/$defs/Node"), "Node");
    assert_eq!(last_segment("plain"), "plain");
    assert_eq!(last_segment("trailing/"), "");
    assert_eq!(last_segment(""), "");
}
