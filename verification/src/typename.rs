//! The type-name assigner: walks a normalized schema and stamps every
//! object with a unique Pascal-cased TypeScript identifier derived from the
//! path it was reached by.
//!
//! An object named `T` hands each property `p` the seed
//! `PascalCase("T p")`, its `additionalProperties` schema the seed
//! `T + "AdditionalProps"`, and each union member its parent seed extended
//! with the member's kind tag and position.  Maps and arrays pass their
//! seed through unchanged; references, primitives, enums and `any` are
//! terminals.

use vstd::prelude::*;

verus! {

use crate::case::Case;
use crate::case::spec_sanitize;
use crate::node::Property;
use crate::node::SchemaBody;
use crate::node::SchemaNode;
use crate::text::chars_of;
use crate::text::push_chars;
use crate::text::push_decimal;
use crate::text::push_str_chars;
use crate::text::spec_decimal;
use crate::text::string_from_chars;

/// The short tag of a node's variant, used to disambiguate union members.
pub open spec fn spec_kind_tag(b: SchemaBody) -> Seq<char> {
    match b {
        SchemaBody::Ref { .. } => seq!['r', 'e', 'f'],
        SchemaBody::Any => seq!['a', 'n', 'y'],
        SchemaBody::Bool => seq!['b', 'o', 'o', 'l'],
        SchemaBody::Number => seq!['f', 'l', 'o', 'a', 't'],
        SchemaBody::Int => seq!['i', 'n', 't'],
        SchemaBody::Str => seq!['s', 't', 'r'],
        SchemaBody::Enum { .. } => seq!['e', 'n', 'u', 'm'],
        SchemaBody::Object { .. } => seq!['o', 'b', 'j'],
        SchemaBody::Mapping { .. } => seq!['m', 'a', 'p'],
        SchemaBody::Array { .. } => seq!['a', 'r', 'r'],
        SchemaBody::Union { .. } => seq!['u', 'n', 'i', 'o', 'n'],
    }
}

/// The short tag of a node's variant (executable form).
pub fn kind_tag(b: &SchemaBody) -> (r: Vec<char>)
    ensures
        r@ == spec_kind_tag(*b),
{
    let tag: &str = match b {
        SchemaBody::Ref { .. } => "ref",
        SchemaBody::Any => "any",
        SchemaBody::Bool => "bool",
        SchemaBody::Number => "float",
        SchemaBody::Int => "int",
        SchemaBody::Str => "str",
        SchemaBody::Enum { .. } => "enum",
        SchemaBody::Object { .. } => "obj",
        SchemaBody::Mapping { .. } => "map",
        SchemaBody::Array { .. } => "arr",
        SchemaBody::Union { .. } => "union",
    };
    proof {
        reveal_strlit("ref");
        reveal_strlit("any");
        reveal_strlit("bool");
        reveal_strlit("float");
        reveal_strlit("int");
        reveal_strlit("str");
        reveal_strlit("enum");
        reveal_strlit("obj");
        reveal_strlit("map");
        reveal_strlit("arr");
        reveal_strlit("union");
    }
    let cs = chars_of(tag);
    assert(cs@ =~= spec_kind_tag(*b));
    cs
}

/// The seed a property named `p` of an object named `t` receives.
pub open spec fn spec_property_seed(t: Seq<char>, p: Seq<char>) -> Seq<char> {
    spec_sanitize(Case::Pascal, t + seq![' '] + p)
}

/// The seed the `additionalProperties` schema of an object named `t`
/// receives.
pub open spec fn spec_additional_seed(t: Seq<char>) -> Seq<char> {
    t + seq!['A', 'd', 'd', 'i', 't', 'i', 'o', 'n', 'a', 'l', 'P', 'r', 'o', 'p', 's']
}

/// The seed member `i` of a union named `t` receives.
pub open spec fn spec_member_seed(t: Seq<char>, b: SchemaBody, i: nat) -> Seq<char> {
    spec_sanitize(Case::Pascal, t + seq![' '] + spec_kind_tag(b) + seq![' '] + spec_decimal(i))
}

/// The naming relation: `new` is `old` with every object's `ty_name`
/// replaced along the seed chain, and nothing else changed.
pub open spec fn names_assigned(old: SchemaNode, new: SchemaNode, seed: Seq<char>) -> bool
    decreases old,
{
    &&& new.nullable == old.nullable
    &&& new.description == old.description
    &&& names_assigned_body(old.body, new.body, seed)
}

/// The naming relation on node bodies.
pub open spec fn names_assigned_body(old: SchemaBody, new: SchemaBody, seed: Seq<char>) -> bool
    decreases old,
{
    match old {
        SchemaBody::Object { ty_name: _, properties: po, required: ro, additional: ao } => {
            &&& new matches SchemaBody::Object {
                ty_name: tn,
                properties: pn,
                required: rn,
                additional: an,
            }
            &&& tn@ == seed
            &&& rn == ro
            &&& pn@.len() == po@.len()
            &&& forall|j: int|
                0 <= j < po@.len() ==> (#[trigger] pn@[j]).name == po@[j].name
            &&& forall|j: int|
                0 <= j < po@.len() ==> names_assigned(
                    (#[trigger] po@[j]).schema,
                    pn@[j].schema,
                    spec_property_seed(seed, po@[j].name@),
                )
            &&& (ao is Some <==> an is Some)
            &&& (ao matches Some(a) ==> names_assigned(
                *a,
                *an->0,
                spec_additional_seed(seed),
            ))
        },
        SchemaBody::Mapping { value: vo } => {
            &&& new matches SchemaBody::Mapping { value: vn }
            &&& names_assigned(*vo, *vn, seed)
        },
        SchemaBody::Array { item: io } => {
            &&& new matches SchemaBody::Array { item: im }
            &&& names_assigned(*io, *im, seed)
        },
        SchemaBody::Union { members: mo } => {
            &&& new matches SchemaBody::Union { members: mn }
            &&& mn@.len() == mo@.len()
            &&& forall|j: int|
                0 <= j < mo@.len() ==> names_assigned(
                    #[trigger] mo@[j],
                    mn@[j],
                    spec_member_seed(seed, mo@[j].body, j as nat),
                )
        },
        _ => new == old,
    }
}

/// Stamp every object reachable from `node` with the identifier its seed
/// chain produces; `seed` itself names `node` when it is an object, and is
/// expected to be already sanitized.
#[verifier::loop_isolation(false)]
pub fn assign_type_names(node: SchemaNode, seed: &str) -> (r: SchemaNode)
    ensures
        names_assigned(node, r, seed@),
    decreases node,
{
    let ghost n0 = node;
    let SchemaNode { nullable, description, body } = node;
    let new_body: SchemaBody = match body {
        SchemaBody::Object { ty_name: _, properties, required, additional } => {
            proof {
                assert(decreases_to!(n0 => n0.body));
            }
            let ghost b0 = n0.body;
            let ghost po = properties@;
            let mut rest = properties;
            let mut out: Vec<Property> = Vec::new();
            while rest.len() > 0
                invariant
                    out@.len() + rest@.len() == po.len(),
                    rest@ =~= po.subrange(out@.len() as int, po.len() as int),
                    forall|j: int|
                        0 <= j < out@.len() ==> (#[trigger] out@[j]).name == po[j].name,
                    forall|j: int|
                        0 <= j < out@.len() ==> names_assigned(
                            (#[trigger] po[j]).schema,
                            out@[j].schema,
                            spec_property_seed(seed@, po[j].name@),
                        ),
                decreases rest@.len(),
            {
                let p = rest.remove(0);
                proof {
                    assert(p == po[out@.len() as int]);
                    assert(decreases_to!(b0 => b0->Object_properties));
                    let ps = b0->Object_properties@;
                    let k = out@.len() as int;
                    assert(decreases_to!(b0->Object_properties => ps));
                    assert(decreases_to!(ps => ps[k]));
                    assert(decreases_to!(ps[k] => ps[k].schema));
                }
                let mut seed_chars = chars_of(seed);
                seed_chars.push(' ');
                push_str_chars(&mut seed_chars, p.name.as_str());
                assert(seed_chars@ =~= seed@ + seq![' '] + p.name@);
                let child_seed_input = string_from_chars(&seed_chars);
                let child_seed = Case::Pascal.sanitize(child_seed_input.as_str());
                let new_schema = assign_type_names(p.schema, child_seed.as_str());
                out.push(Property { name: p.name, schema: new_schema });
                proof {
                    assert(rest@ =~= po.subrange(out@.len() as int, po.len() as int));
                }
            }
            let new_additional = match additional {
                Some(a) => {
                    proof {
                        assert(decreases_to!(b0 => b0->Object_additional));
                        assert(decreases_to!(b0->Object_additional => b0->Object_additional->0));
                    }
                    let mut add_seed = chars_of(seed);
                    push_str_chars(&mut add_seed, "AdditionalProps");
                    proof {
                        reveal_strlit("AdditionalProps");
                        assert(add_seed@ =~= spec_additional_seed(seed@));
                    }
                    let add_seed_str = string_from_chars(&add_seed);
                    Some(Box::new(assign_type_names(*a, add_seed_str.as_str())))
                },
                None => None,
            };
            let ty_name = String::from_str(seed);
            SchemaBody::Object {
                ty_name,
                properties: out,
                required,
                additional: new_additional,
            }
        },
        SchemaBody::Mapping { value } => {
            proof {
                let b0 = n0.body;
                assert(decreases_to!(n0 => n0.body));
                assert(decreases_to!(b0 => b0->Mapping_value));
            }
            SchemaBody::Mapping { value: Box::new(assign_type_names(*value, seed)) }
        },
        SchemaBody::Array { item } => {
            proof {
                let b0 = n0.body;
                assert(decreases_to!(n0 => n0.body));
                assert(decreases_to!(b0 => b0->Array_item));
            }
            SchemaBody::Array { item: Box::new(assign_type_names(*item, seed)) }
        },
        SchemaBody::Union { members } => {
            proof {
                assert(decreases_to!(n0 => n0.body));
            }
            let ghost b0 = n0.body;
            let ghost mo = members@;
            let mut rest = members;
            let mut out: Vec<SchemaNode> = Vec::new();
            while rest.len() > 0
                invariant
                    out@.len() + rest@.len() == mo.len(),
                    rest@ =~= mo.subrange(out@.len() as int, mo.len() as int),
                    forall|j: int|
                        0 <= j < out@.len() ==> names_assigned(
                            #[trigger] mo[j],
                            out@[j],
                            spec_member_seed(seed@, mo[j].body, j as nat),
                        ),
                decreases rest@.len(),
            {
                let m = rest.remove(0);
                proof {
                    assert(m == mo[out@.len() as int]);
                    assert(decreases_to!(b0 => b0->Union_members));
                    let ms = b0->Union_members@;
                    let k = out@.len() as int;
                    assert(decreases_to!(b0->Union_members => ms));
                    assert(decreases_to!(ms => ms[k]));
                }
                let tag = kind_tag(&m.body);
                let mut seed_chars = chars_of(seed);
                seed_chars.push(' ');
                push_chars(&mut seed_chars, &tag);
                seed_chars.push(' ');
                push_decimal(&mut seed_chars, out.len() as u64);
                assert(seed_chars@ =~= seed@ + seq![' '] + spec_kind_tag(m.body) + seq![' ']
                    + spec_decimal(out@.len() as nat));
                let member_seed_input = string_from_chars(&seed_chars);
                let member_seed = Case::Pascal.sanitize(member_seed_input.as_str());
                proof {
                    assert(member_seed@ == spec_member_seed(
                        seed@,
                        mo[out@.len() as int].body,
                        out@.len() as nat,
                    ));
                }
                let named = assign_type_names(m, member_seed.as_str());
                out.push(named);
                proof {
                    assert(rest@ =~= mo.subrange(out@.len() as int, mo.len() as int));
                }
            }
            SchemaBody::Union { members: out }
        },
        other => other,
    };
    SchemaNode { nullable, description, body: new_body }
}

} // verus!
