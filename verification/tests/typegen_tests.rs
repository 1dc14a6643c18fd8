use pctx::json::JsonValue;
use pctx::schema::{
    ArrayRules, InstanceTy, ItemsField, ObjectRules, RawNode, RawSchema, TypeField,
};
use pctx::typegen::{generate_types, RootSchema};

fn node(ty: TypeField) -> RawNode {
    let mut n = RawNode::anything();
    n.ty = ty;
    n
}

fn schema(n: RawNode) -> RawSchema {
    RawSchema::Node(Box::new(n))
}

fn string_schema() -> RawSchema {
    schema(node(TypeField::Single(InstanceTy::Str)))
}

#[test]
fn test_primitive_required_property() {
    // an object with one required string property
    let mut obj = node(TypeField::Single(InstanceTy::Object));
    obj.object = Some(Box::new(ObjectRules {
        properties: vec![("x".to_string(), string_schema())],
        required: vec!["x".to_string()],
        additional: None,
    }));
    let root = RootSchema { schema: schema(obj), definitions: vec![] };
    let result = generate_types(&root, "Foo").expect("generation should succeed");
    assert_eq!(result.types, "interface Foo {\n  x: string;\n}");
    assert_eq!(result.types_generated, 1);
    assert_eq!(result.type_signature, "Foo");
}

#[test]
fn test_optional_nullable_array_of_enums() {
    // tags is an optional, nullable array of the enum "a" | "b"
    let mut item = node(TypeField::Single(InstanceTy::Str));
    item.enum_values = Some(vec![
        JsonValue::Str("a".to_string()),
        JsonValue::Str("b".to_string()),
    ]);
    let mut tags = node(TypeField::Many(vec![InstanceTy::Array, InstanceTy::Null]));
    tags.array = Some(Box::new(ArrayRules {
        items: ItemsField::Single(Box::new(schema(item))),
    }));
    let mut obj = node(TypeField::Single(InstanceTy::Object));
    obj.object = Some(Box::new(ObjectRules {
        properties: vec![("tags".to_string(), schema(tags))],
        required: vec![],
        additional: None,
    }));
    let root = RootSchema { schema: schema(obj), definitions: vec![] };
    let result = generate_types(&root, "Bar").expect("generation should succeed");
    assert_eq!(
        result.types,
        "interface Bar {\n  tags?: (\"a\" | \"b\")[] | null;\n}"
    );
}

#[test]
fn test_recursive_definition() {
    // Node = { child?: Node } through a `$ref`, declared exactly once
    let mut child = RawNode::anything();
    child.reference = Some("#/$defs/Node".to_string());
    let mut obj = node(TypeField::Single(InstanceTy::Object));
    obj.object = Some(Box::new(ObjectRules {
        properties: vec![("child".to_string(), schema(child))],
        required: vec![],
        additional: None,
    }));
    let mut root_ref = RawNode::anything();
    root_ref.reference = Some("#/$defs/Node".to_string());
    let root = RootSchema {
        schema: schema(root_ref),
        definitions: vec![("Node".to_string(), schema(obj))],
    };
    let result = generate_types(&root, "").expect("generation should succeed");
    assert_eq!(result.types, "interface Node {\n  child?: Node;\n}");
    assert_eq!(result.types_generated, 1);
    assert_eq!(result.type_signature, "Node");
    assert_eq!(result.types.matches("interface ").count(), 1);
}

#[test]
fn test_missing_reference_is_reported() {
    let mut root_ref = RawNode::anything();
    root_ref.reference = Some("#/$defs/Ghost".to_string());
    let root = RootSchema { schema: schema(root_ref), definitions: vec![] };
    let err = generate_types(&root, "X").expect_err("missing target must fail");
    assert!(err.message().contains("`#/$defs/Ghost` does not exist"));
}

#[test]
fn test_emitter_deterministic() {
    let mut obj = node(TypeField::Single(InstanceTy::Object));
    obj.object = Some(Box::new(ObjectRules {
        properties: vec![
            ("a".to_string(), string_schema()),
            ("b".to_string(), schema(node(TypeField::Single(InstanceTy::Integer)))),
        ],
        required: vec!["a".to_string()],
        additional: Some(Box::new(schema(RawNode::anything()))),
    }));
    let root = RootSchema { schema: schema(obj), definitions: vec![] };
    let first = generate_types(&root, "Same").expect("generation should succeed");
    let second = generate_types(&root, "Same").expect("generation should succeed");
    assert_eq!(first.types, second.types);
    assert_eq!(first.type_signature, second.type_signature);
}

#[test]
fn test_map_and_union_signatures() {
    // an object without properties becomes an index signature
    let mut map_node = node(TypeField::Single(InstanceTy::Object));
    map_node.object = Some(Box::new(ObjectRules {
        properties: vec![],
        required: vec![],
        additional: Some(Box::new(string_schema())),
    }));
    let root = RootSchema { schema: schema(map_node), definitions: vec![] };
    let result = generate_types(&root, "M").expect("generation should succeed");
    assert_eq!(result.types, "");
    assert_eq!(result.types_generated, 0);
    assert_eq!(result.type_signature, "{ [key: string]: string | undefined }");

    // a multi-member type list becomes a union
    let many = node(TypeField::Many(vec![
        InstanceTy::Str,
        InstanceTy::Integer,
        InstanceTy::Null,
    ]));
    let root2 = RootSchema { schema: schema(many), definitions: vec![] };
    let result2 = generate_types(&root2, "U").expect("generation should succeed");
    assert_eq!(result2.type_signature, "string | number | null");
}

#[test]
fn test_number_enum_rendering() {
    let mut n = node(TypeField::Single(InstanceTy::Integer));
    n.enum_values = Some(vec![
        JsonValue::Number("1".to_string()),
        JsonValue::Number("2".to_string()),
        JsonValue::Str("".to_string()),
    ]);
    let root = RootSchema { schema: schema(n), definitions: vec![] };
    let result = generate_types(&root, "E").expect("generation should succeed");
    assert_eq!(result.type_signature, "1 | 2");
}

#[test]
fn test_docstring_escapes_comment_end() {
    let doc = pctx::emit::generate_docstring("line one\nbad */ end");
    assert_eq!(doc, "/**\n* line one\n* bad *-/ end\n*/");
}

#[test]
fn test_description_becomes_jsdoc() {
    let mut prop = node(TypeField::Single(InstanceTy::Str));
    prop.description = Some("the name".to_string());
    let mut obj = node(TypeField::Single(InstanceTy::Object));
    obj.description = Some("a person".to_string());
    obj.object = Some(Box::new(ObjectRules {
        properties: vec![("name".to_string(), schema(prop))],
        required: vec!["name".to_string()],
        additional: None,
    }));
    let root = RootSchema { schema: schema(obj), definitions: vec![] };
    let result = generate_types(&root, "Person").expect("generation should succeed");
    assert_eq!(
        result.types,
        "/**\n* a person\n*/\ninterface Person {\n/**\n* the name\n*/\n  name: string;\n}"
    );
}

#[test]
fn test_reference_cycle_is_reported() {
    let mut to_b = RawNode::anything();
    to_b.reference = Some("#/$defs/B".to_string());
    let mut to_a = RawNode::anything();
    to_a.reference = Some("#/$defs/A".to_string());
    let mut root_ref = RawNode::anything();
    root_ref.reference = Some("#/$defs/A".to_string());
    let root = RootSchema {
        schema: schema(root_ref),
        definitions: vec![
            ("A".to_string(), schema(to_b)),
            ("B".to_string(), schema(to_a)),
        ],
    };
    let err = generate_types(&root, "X").expect_err("a pure reference cycle must fail");
    assert!(err.message().contains("does not terminate"));
}
