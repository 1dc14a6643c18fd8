//! The JSON Schema data model: the raw node shape a tool descriptor
//! carries, and the closed variant set the normalizer lowers it to.
//!
//! A raw schema keeps only the keywords the generator reads: `type`,
//! `$ref`, `oneOf`/`anyOf`, `enum`, object and array validation, the
//! description, and the reserved `x-type-name` extension that threads an
//! assigned identifier through round-trips.  The normalizer is total: every
//! raw schema lowers to exactly one variant, unsupported forms degrade to
//! `Any`, and a `null` found in a type list or among union members is
//! lifted into the `nullable` flag of the resulting node, never kept as a
//! member.

use vstd::prelude::*;

verus! {

use crate::json::JsonValue;

/// A raw schema: the boolean form admitted by JSON Schema, or a node.
pub enum RawSchema {
    Flag(bool),
    Node(Box<RawNode>),
}

/// The instance types the `type` keyword can name.
#[derive(Clone, Copy, PartialEq, Eq, Structural, Debug)]
pub enum InstanceTy {
    Null,
    Boolean,
    Object,
    Array,
    Number,
    Integer,
    Str,
}

/// The `type` keyword: absent, a single name, or a list of names.
pub enum TypeField {
    Missing,
    Single(InstanceTy),
    Many(Vec<InstanceTy>),
}

/// The `oneOf` and `anyOf` keyword lists, present only when the raw node
/// carried a subschema section at all.
pub struct SubSchemas {
    pub one_of: Option<Vec<RawSchema>>,
    pub any_of: Option<Vec<RawSchema>>,
}

/// Object validation: declared properties in order, required names, and
/// the `additionalProperties` schema.
pub struct ObjectRules {
    pub properties: Vec<(String, RawSchema)>,
    pub required: Vec<String>,
    pub additional: Option<Box<RawSchema>>,
}

/// The `items` keyword: absent, one schema, or a tuple of schemas.
pub enum ItemsField {
    Missing,
    Single(Box<RawSchema>),
    Many(Vec<RawSchema>),
}

/// Array validation.
pub struct ArrayRules {
    pub items: ItemsField,
}

/// One raw schema node.
pub struct RawNode {
    pub ty: TypeField,
    pub reference: Option<String>,
    pub subschemas: Option<Box<SubSchemas>>,
    pub enum_values: Option<Vec<JsonValue>>,
    pub object: Option<Box<ObjectRules>>,
    pub array: Option<Box<ArrayRules>>,
    pub description: Option<String>,
    pub ext_type_name: Option<String>,
}

impl RawNode {
    /// A node with every keyword absent: the schema that admits anything.
    pub fn anything() -> (r: RawNode)
        ensures
            r.ty is Missing,
            r.reference is None,
            r.subschemas is None,
            r.enum_values is None,
            r.object is None,
            r.array is None,
            r.description is None,
            r.ext_type_name is None,
    {
        RawNode {
            ty: TypeField::Missing,
            reference: None,
            subschemas: None,
            enum_values: None,
            object: None,
            array: None,
            description: None,
            ext_type_name: None,
        }
    }
}

/// The schema that admits anything, as a whole raw schema.
pub fn anything_schema() -> (r: RawSchema)
    ensures
        r matches RawSchema::Node(n) && n.ty is Missing && n.reference is None && n.subschemas
            is None && n.enum_values is None && n.object is None && n.array is None,
{
    RawSchema::Node(Box::new(RawNode::anything()))
}

/// An object schema without declared properties whose values follow the
/// given schema: the raw form of an index signature.
pub fn map_schema(value_schema: RawSchema) -> (r: RawSchema)
    ensures
        r matches RawSchema::Node(n) && (n.ty matches TypeField::Single(InstanceTy::Object))
            && (n.object matches Some(rules) && rules.properties@.len() == 0
            && rules.required@.len() == 0 && (rules.additional matches Some(a) && *a
            == value_schema)),
{
    let mut node = RawNode::anything();
    node.ty = TypeField::Single(InstanceTy::Object);
    node.object = Some(
        Box::new(
            ObjectRules {
                properties: Vec::new(),
                required: Vec::new(),
                additional: Some(Box::new(value_schema)),
            },
        ),
    );
    RawSchema::Node(Box::new(node))
}

/// Whether a raw schema is the null schema: its `type` is exactly `null`,
/// alone or as a singleton list.
pub open spec fn is_null_raw(s: RawSchema) -> bool {
    match s {
        RawSchema::Node(n) => match n.ty {
            TypeField::Single(t) => t is Null,
            TypeField::Many(ts) => ts@.len() == 1 && ts@[0] is Null,
            TypeField::Missing => false,
        },
        RawSchema::Flag(_) => false,
    }
}

/// Whether a raw schema is the null schema (executable form).
pub fn is_null_schema(s: &RawSchema) -> (r: bool)
    ensures
        r == is_null_raw(*s),
{
    match s {
        RawSchema::Node(n) => match &n.ty {
            TypeField::Single(t) => matches!(t, InstanceTy::Null),
            TypeField::Many(ts) => ts.len() == 1 && matches!(ts[0], InstanceTy::Null),
            TypeField::Missing => false,
        },
        RawSchema::Flag(_) => false,
    }
}

/// The tag of a normalized schema node.
#[derive(Clone, Copy, PartialEq, Eq, Structural, Debug)]
pub enum SchemaKind {
    Reference,
    Any,
    Boolean,
    Number,
    Str,
    Enum,
    Integer,
    Object,
    Mapping,
    Array,
    Union,
}

/// Whether `vals` holds at least one numeric literal.
pub open spec fn spec_has_number(vals: Seq<JsonValue>) -> bool {
    exists|j: int| 0 <= j < vals.len() && vals[j] is Number
}

/// Whether `vals` holds at least one non-empty string literal.
pub open spec fn spec_has_nonempty_str(vals: Seq<JsonValue>) -> bool {
    exists|j: int|
        {
            &&& 0 <= j < vals.len()
            &&& (#[trigger] vals[j]) matches JsonValue::Str(t) && t@.len() > 0
        }
}

/// Whether some member of `ts` is `null`.
pub open spec fn spec_tys_have_null(ts: Seq<InstanceTy>) -> bool {
    exists|j: int| 0 <= j < ts.len() && ts[j] is Null
}

/// The number of members of `ts` that are not `null`.
pub open spec fn spec_count_non_null(ts: Seq<InstanceTy>) -> nat
    decreases ts.len(),
{
    if ts.len() == 0 {
        0
    } else {
        spec_count_non_null(ts.drop_last()) + if ts.last() is Null {
            0nat
        } else {
            1nat
        }
    }
}

/// Whether some option in `opts` is the null schema.
pub open spec fn spec_opts_have_null(opts: Seq<RawSchema>) -> bool {
    exists|j: int| 0 <= j < opts.len() && is_null_raw(opts[j])
}

/// The first member of `ts` that is not `null`.
pub open spec fn spec_first_non_null(ts: Seq<InstanceTy>) -> InstanceTy
    decreases ts.len(),
{
    if ts.len() == 0 {
        InstanceTy::Null
    } else if !(ts[0] is Null) {
        ts[0]
    } else {
        spec_first_non_null(ts.drop_first())
    }
}

/// The variant a single concrete instance type lowers to on node `n`:
/// number-typed and string-typed nodes become enums when their `enum`
/// keyword offers usable literals, objects split into `Object` and `Mapping`
/// by the emptiness of `properties`, and unknown forms degrade to `Any`.
pub open spec fn spec_single_kind(n: RawNode, t: InstanceTy) -> SchemaKind {
    match t {
        InstanceTy::Boolean => SchemaKind::Boolean,
        InstanceTy::Object => match n.object {
            Some(rules) => if rules.properties@.len() == 0 {
                SchemaKind::Mapping
            } else {
                SchemaKind::Object
            },
            None => SchemaKind::Mapping,
        },
        InstanceTy::Array => if n.array is Some {
            SchemaKind::Array
        } else {
            SchemaKind::Any
        },
        InstanceTy::Number => match n.enum_values {
            Some(vals) => if spec_has_number(vals@) {
                SchemaKind::Enum
            } else {
                SchemaKind::Number
            },
            None => SchemaKind::Number,
        },
        InstanceTy::Integer => match n.enum_values {
            Some(vals) => if spec_has_number(vals@) {
                SchemaKind::Enum
            } else {
                SchemaKind::Integer
            },
            None => SchemaKind::Integer,
        },
        InstanceTy::Str => match n.enum_values {
            Some(vals) => if spec_has_nonempty_str(vals@) {
                SchemaKind::Enum
            } else {
                SchemaKind::Str
            },
            None => SchemaKind::Str,
        },
        InstanceTy::Null => SchemaKind::Any,
    }
}

/// The count of options in a subschema section, or `None` when the section
/// is unusable (neither or both of `oneOf` and `anyOf` given).
pub open spec fn spec_sub_options(sub: SubSchemas) -> Option<Seq<RawSchema>> {
    match (sub.one_of, sub.any_of) {
        (Some(opts), None) => Some(opts@),
        (None, Some(opts)) => Some(opts@),
        _ => None,
    }
}

/// The number of options in `opts` that are not the null schema.
pub open spec fn spec_count_non_null_opts(opts: Seq<RawSchema>) -> nat
    decreases opts.len(),
{
    if opts.len() == 0 {
        0
    } else {
        spec_count_non_null_opts(opts.drop_last()) + if is_null_raw(opts.last()) {
            0nat
        } else {
            1nat
        }
    }
}

/// The variant a raw schema lowers to.  Subschemas are looked at first,
/// then `$ref`, then the `type` keyword.
pub open spec fn spec_raw_kind(s: RawSchema) -> SchemaKind {
    match s {
        RawSchema::Flag(_) => SchemaKind::Any,
        RawSchema::Node(n) => {
            if n.subschemas is Some {
                match spec_sub_options(*n.subschemas->0) {
                    Some(opts) => if spec_count_non_null_opts(opts) == 0 {
                        SchemaKind::Any
                    } else {
                        SchemaKind::Union
                    },
                    None => SchemaKind::Any,
                }
            } else if n.reference is Some {
                SchemaKind::Reference
            } else {
                match n.ty {
                    TypeField::Missing => SchemaKind::Any,
                    TypeField::Single(t) => spec_single_kind(*n, t),
                    TypeField::Many(ts) => {
                        let non_null = spec_count_non_null(ts@);
                        if non_null == 0 {
                            SchemaKind::Any
                        } else if non_null == 1 {
                            spec_single_kind(*n, spec_first_non_null(ts@))
                        } else {
                            SchemaKind::Union
                        }
                    },
                }
            }
        },
    }
}

/// The `nullable` flag the normalizer assigns to a raw schema: whether
/// `null` is among its admitted values — a `null` beside it among union
/// members or in its `type` list, or the bare null type itself.
pub open spec fn spec_raw_nullable(s: RawSchema) -> bool {
    match s {
        RawSchema::Flag(_) => false,
        RawSchema::Node(n) => {
            if n.subschemas is Some {
                match spec_sub_options(*n.subschemas->0) {
                    Some(opts) => spec_opts_have_null(opts),
                    None => false,
                }
            } else if n.reference is Some {
                match n.ty {
                    TypeField::Single(t) => t is Null,
                    TypeField::Many(ts) => spec_tys_have_null(ts@),
                    TypeField::Missing => false,
                }
            } else {
                match n.ty {
                    TypeField::Many(ts) => if spec_count_non_null(ts@) == 0 {
                        ts@.len() > 0
                    } else if spec_count_non_null(ts@) == 1 {
                        ts@.len() > 1
                    } else {
                        spec_tys_have_null(ts@)
                    },
                    TypeField::Single(t) => t is Null,
                    TypeField::Missing => false,
                }
            }
        },
    }
}

} // verus!
