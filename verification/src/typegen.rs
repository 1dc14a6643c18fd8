//! The generator pipeline for one JSON Schema document: normalize the
//! definitions and the root, assign type names, collect declarations, and
//! render the TypeScript source.

use vstd::prelude::*;

verus! {

use crate::case::Case;
use crate::case::spec_sanitize;
use crate::emit::Definitions;
use crate::emit::ObjectSchemaData;
use crate::emit::SchemaError;
use crate::emit::collect_decls;
use crate::emit::decl_matches;
use crate::emit::render_decls;
use crate::emit::spec_collect;
use crate::emit::spec_render_decls;
use crate::emit::spec_full_sig;
use crate::emit::type_signature;
use crate::node::SchemaNode;
use crate::node::norm_ok;
use crate::node::normalize;
use crate::schema::RawSchema;
use crate::text::chars_of;
use crate::text::push_str_chars;
use crate::text::string_from_chars;
use crate::typename::assign_type_names;
use crate::typename::names_assigned;

/// A root schema document: the root node and its definition table, in
/// declaration order.
pub struct RootSchema {
    pub schema: RawSchema,
    pub definitions: Vec<(String, RawSchema)>,
}

/// What the generator returns for one document.
#[derive(Debug)]
pub struct TypegenResult {
    pub types_generated: usize,
    pub type_signature: String,
    pub types: String,
}

/// The reference depth budget the pipeline works with: one more than the
/// number of definitions, so only a genuine reference cycle can exhaust
/// it.
pub open spec fn spec_pipeline_fuel(nd: nat) -> nat {
    if nd < (usize::MAX - 1) as nat {
        nd + 1
    } else {
        nd
    }
}

/// The named, normalized forms the pipeline derives from a document: the
/// definition table keeps the keys in order, each entry is the
/// normalization of its raw schema named under the seed extended with its
/// key, and the root is the normalization of the root schema named under
/// the seed itself.
pub open spec fn pipeline_ok(
    root: RootSchema,
    seed: Seq<char>,
    root_n: SchemaNode,
    defs: Definitions,
) -> bool {
    &&& defs.entries@.len() == root.definitions@.len()
    &&& forall|j: int|
        0 <= j < root.definitions@.len() ==> {
            &&& (#[trigger] defs.entries@[j]).0 == root.definitions@[j].0
            &&& exists|mid: SchemaNode|
                #[trigger] norm_ok(root.definitions@[j].1, mid) && names_assigned(
                    mid,
                    defs.entries@[j].1,
                    spec_sanitize(
                        Case::Pascal,
                        seed + seq![' '] + root.definitions@[j].0@,
                    ),
                )
        }
    &&& exists|mid: SchemaNode|
        #[trigger] norm_ok(root.schema, mid) && names_assigned(
            mid,
            root_n,
            spec_sanitize(Case::Pascal, seed),
        )
}

/// The generator's specification: a named, normalized root and definition
/// table stand between the document and the output, the output text is
/// the rendering of declarations matching the collection trace's objects
/// exactly (one per first-visited object, in order), `types_generated`
/// counts them, and the signature is the root's rendered type signature.
pub open spec fn typegen_ok(root: RootSchema, seed: Seq<char>, t: TypegenResult) -> bool {
    exists|root_n: SchemaNode, defs: Definitions, ds: Vec<ObjectSchemaData>|
        #![trigger pipeline_ok(root, seed, root_n, defs), spec_render_decls(ds, 0)]
        {
            &&& pipeline_ok(root, seed, root_n, defs)
            &&& ({
                let fuel = spec_pipeline_fuel(defs.entries@.len());
                let tr = spec_collect(root_n, defs, Seq::empty(), fuel);
                &&& tr.ok
                &&& ds@.len() == tr.objects.len()
                &&& forall|j: int|
                    0 <= j < tr.objects.len() ==> decl_matches(
                        (#[trigger] tr.objects[j]).0,
                        ds@[j],
                        defs,
                        tr.objects[j].1,
                    )
                &&& t.types@ == spec_render_decls(ds, 0)
                &&& t.types_generated == ds@.len()
                &&& spec_full_sig(root_n, true, defs, fuel) == Some(t.type_signature@)
            })
        }
}

/// Generate TypeScript for one schema document under the given seed name.
#[verifier::loop_isolation(false)]
#[verifier::rlimit(100)]
#[verifier::spinoff_prover]
pub fn generate_types(root: &RootSchema, seed: &str) -> (r: Result<TypegenResult, SchemaError>)
    ensures
        r matches Ok(t) ==> typegen_ok(*root, seed@, t),
{
    let mut defs = Definitions::new();
    let mut i: usize = 0;
    while i < root.definitions.len()
        invariant
            defs.entries@.len() == i,
            i <= root.definitions@.len(),
            forall|j: int|
                0 <= j < i ==> {
                    &&& (#[trigger] defs.entries@[j]).0 == root.definitions@[j].0
                    &&& exists|mid: SchemaNode|
                        #[trigger] norm_ok(root.definitions@[j].1, mid) && names_assigned(
                            mid,
                            defs.entries@[j].1,
                            spec_sanitize(
                                Case::Pascal,
                                seed@ + seq![' '] + root.definitions@[j].0@,
                            ),
                        )
                },
        decreases root.definitions.len() - i,
    {
        let key = &root.definitions[i].0;
        let mut sc = chars_of(seed);
        sc.push(' ');
        push_str_chars(&mut sc, key.as_str());
        assert(sc@ =~= seed@ + seq![' '] + key@);
        let def_seed_input = string_from_chars(&sc);
        let def_seed = Case::Pascal.sanitize(def_seed_input.as_str());
        let node = normalize(&root.definitions[i].1);
        let ghost mid = node;
        let named = assign_type_names(node, def_seed.as_str());
        proof {
            assert(norm_ok(root.definitions@[i as int].1, mid));
            assert(names_assigned(
                mid,
                named,
                spec_sanitize(Case::Pascal, seed@ + seq![' '] + root.definitions@[i as int].0@),
            ));
        }
        defs.entries.push((key.clone(), named));
        i = i + 1;
    }
    let root_seed = Case::Pascal.sanitize(seed);
    let root_mid = normalize(&root.schema);
    let ghost root_mid_g = root_mid;
    let root_named = assign_type_names(root_mid, root_seed.as_str());
    proof {
        assert(pipeline_ok(*root, seed@, root_named, defs));
    }
    let fuel: usize = if defs.entries.len() < usize::MAX - 1 {
        defs.entries.len() + 1
    } else {
        defs.entries.len()
    };
    assert(fuel as nat == spec_pipeline_fuel(defs.entries@.len()));
    let mut visited: Vec<String> = Vec::new();
    let mut decls: Vec<ObjectSchemaData> = Vec::new();
    match collect_decls(&root_named, &defs, &mut visited, &mut decls, fuel) {
        Err(e) => {
            return Err(e);
        },
        Ok(()) => {},
    }
    let types = render_decls(&decls);
    let sig = match type_signature(&root_named, true, &defs, fuel) {
        Err(e) => {
            return Err(e);
        },
        Ok(s) => s,
    };
    let result = TypegenResult { types_generated: decls.len(), type_signature: sig, types };
    proof {
        let tr = spec_collect(root_named, defs, Seq::<String>::empty(), fuel as nat);
        assert(decls@.len() == tr.objects.len());
        assert(typegen_ok(*root, seed@, result));
    }
    Ok(result)
}

} // verus!
