//! The TypeScript emitter: renders type signatures and `interface`
//! declarations from a named, normalized schema, resolving references
//! through the definition table and breaking reference cycles.

use vstd::prelude::*;

verus! {

use crate::json::JsonValue;
use crate::json::spec_encode;
use crate::json::encode_json_into;
use crate::node::SchemaBody;
use crate::node::Property;
use crate::node::SchemaNode;
use crate::text::push_chars;
use crate::text::chars_of;
use crate::text::push_str_chars;
use crate::text::str_eq;
use crate::text::string_from_chars;

/// An error raised while resolving schema references.
#[derive(Debug)]
pub enum SchemaError {
    /// The definition table has no entry for this reference key.
    MissingRef { key: String },
    /// Following references exceeded the depth the definition table can
    /// support, which only a reference cycle can cause.
    RefDepthExceeded,
}

/// The rendering of a schema error.
pub open spec fn spec_error_message(e: SchemaError) -> Seq<char> {
    match e {
        SchemaError::MissingRef { key } => "Failed following JSON schema reference, `#/$defs/"@
            + key@ + "` does not exist"@,
        SchemaError::RefDepthExceeded => "Failed following JSON schema reference, the reference chain does not terminate"@,
    }
}

impl SchemaError {
    /// The human-readable message of this error.
    pub fn message(&self) -> (r: String)
        ensures
            r@ == spec_error_message(*self),
    {
        match self {
            SchemaError::MissingRef { key } => {
                let mut out = chars_of("Failed following JSON schema reference, `#/$defs/");
                push_str_chars(&mut out, key.as_str());
                push_str_chars(&mut out, "` does not exist");
                string_from_chars(&out)
            },
            SchemaError::RefDepthExceeded => String::from_str(
                "Failed following JSON schema reference, the reference chain does not terminate",
            ),
        }
    }
}

/// The definition table: reference keys to named schema nodes, in
/// insertion order.
pub struct Definitions {
    pub entries: Vec<(String, SchemaNode)>,
}

/// The index of the first entry of `s` whose key reads `key`, or `-1`.
pub open spec fn spec_defs_index(s: Seq<(String, SchemaNode)>, key: Seq<char>) -> int
    decreases s.len(),
{
    if s.len() == 0 {
        -1
    } else if s[0].0@ == key {
        0
    } else {
        let rest = spec_defs_index(s.drop_first(), key);
        if rest == -1 {
            -1
        } else {
            rest + 1
        }
    }
}

proof fn lemma_defs_index_range(s: Seq<(String, SchemaNode)>, key: Seq<char>)
    ensures
        -1 <= spec_defs_index(s, key) < s.len(),
        spec_defs_index(s, key) >= 0 ==> s[spec_defs_index(s, key)].0@ == key,
    decreases s.len(),
{
    if s.len() > 0 && s[0].0@ != key {
        lemma_defs_index_range(s.drop_first(), key);
    }
}

proof fn lemma_defs_index_step(s: Seq<(String, SchemaNode)>, key: Seq<char>, i: int)
    requires
        0 <= i <= s.len(),
        forall|j: int| 0 <= j < i ==> (#[trigger] s[j]).0@ != key,
    ensures
        i < s.len() && s[i].0@ == key ==> spec_defs_index(s, key) == i,
        i == s.len() ==> spec_defs_index(s, key) == -1,
    decreases s.len(),
{
    if s.len() > 0 {
        if s[0].0@ == key {
        } else {
            if i > 0 {
                assert(forall|j: int|
                    0 <= j < i - 1 ==> (#[trigger] s.drop_first()[j]).0@ != key);
                lemma_defs_index_step(s.drop_first(), key, i - 1);
            } else {
                lemma_defs_index_range(s, key);
            }
        }
    }
}

impl Definitions {
    /// An empty definition table.
    pub fn new() -> (r: Definitions)
        ensures
            r.entries@.len() == 0,
    {
        Definitions { entries: Vec::new() }
    }

    /// The node registered under `key`, if any.
    pub fn get(&self, key: &str) -> (r: Option<&SchemaNode>)
        ensures
            r is Some <==> spec_defs_index(self.entries@, key@) >= 0,
            r matches Some(n) ==> *n == self.entries@[spec_defs_index(self.entries@, key@)].1,
    {
        let mut i: usize = 0;
        while i < self.entries.len()
            invariant
                i <= self.entries@.len(),
                forall|j: int| 0 <= j < i ==> (#[trigger] self.entries@[j]).0@ != key@,
            decreases self.entries@.len() - i,
        {
            if str_eq(self.entries[i].0.as_str(), key) {
                proof {
                    lemma_defs_index_step(self.entries@, key@, i as int);
                }
                return Some(&self.entries[i].1);
            }
            i = i + 1;
        }
        proof {
            lemma_defs_index_step(self.entries@, key@, self.entries@.len() as int);
        }
        None
    }
}

/// The body of a documentation comment: each newline continues the comment
/// with `* `, and any `*/` inside the text is defused to `*-/` so the
/// comment cannot terminate early.
pub open spec fn spec_doc_body(s: Seq<char>) -> Seq<char>
    decreases s.len(),
{
    if s.len() == 0 {
        Seq::empty()
    } else if s[0] == '\n' {
        seq!['\n', '*', ' '] + spec_doc_body(s.drop_first())
    } else if s.len() >= 2 && s[0] == '*' && s[1] == '/' {
        seq!['*', '-', '/'] + spec_doc_body(s.subrange(2, s.len() as int))
    } else {
        seq![s[0]] + spec_doc_body(s.drop_first())
    }
}

/// The documentation comment for `content`.
pub open spec fn spec_docstring(content: Seq<char>) -> Seq<char> {
    seq!['/', '*', '*', '\n', '*', ' '] + spec_doc_body(content) + seq!['\n', '*', '/']
}

/// Generate a TypeScript documentation comment from a description.
#[verifier::loop_isolation(false)]
pub fn generate_docstring(content: &str) -> (r: String)
    ensures
        r@ == spec_docstring(content@),
{
    let cs = chars_of(content);
    let mut out: Vec<char> = Vec::new();
    push_str_chars(&mut out, "/**\n* ");
    proof {
        reveal_strlit("/**\n* ");
        assert(out@ =~= seq!['/', '*', '*', '\n', '*', ' ']);
    }
    let ghost header = out@;
    proof {
        assert(cs@.subrange(0, cs@.len() as int) =~= cs@);
        assert(out@.subrange(header.len() as int, out@.len() as int) =~= Seq::<char>::empty());
        assert(out@.subrange(0, header.len() as int) =~= header);
    }
    let mut i: usize = 0;
    while i < cs.len()
        invariant
            i <= cs@.len(),
            spec_doc_body(cs@) == out@.subrange(header.len() as int, out@.len() as int) + spec_doc_body(
                cs@.subrange(i as int, cs@.len() as int),
            ),
            out@.len() >= header.len(),
            out@.subrange(0, header.len() as int) == header,
        decreases cs@.len() - i,
    {
        let ghost pre = out@;
        let ghost suffix = cs@.subrange(i as int, cs@.len() as int);
        let c = cs[i];
        if c == '\n' {
            out.push('\n');
            out.push('*');
            out.push(' ');
            i = i + 1;
            proof {
                assert(suffix.drop_first() =~= cs@.subrange(i as int, cs@.len() as int));
                assert(out@.subrange(header.len() as int, out@.len() as int) =~= pre.subrange(header.len() as int, pre.len() as int) + seq!['\n', '*', ' ']);
            }
        } else if c == '*' && i + 1 < cs.len() && cs[i + 1] == '/' {
            out.push('*');
            out.push('-');
            out.push('/');
            i = i + 2;
            proof {
                assert(suffix.subrange(2, suffix.len() as int) =~= cs@.subrange(
                    i as int,
                    cs@.len() as int,
                ));
                assert(out@.subrange(header.len() as int, out@.len() as int) =~= pre.subrange(header.len() as int, pre.len() as int) + seq!['*', '-', '/']);
            }
        } else {
            out.push(c);
            i = i + 1;
            proof {
                if c == '*' && suffix.len() >= 2 && suffix[1] == '/' {
                    assert(i < cs@.len());
                }
                assert(suffix.drop_first() =~= cs@.subrange(i as int, cs@.len() as int));
                assert(out@.subrange(header.len() as int, out@.len() as int) =~= pre.subrange(header.len() as int, pre.len() as int) + seq![c]);
            }
        }
        assert(out@.subrange(0, header.len() as int) =~= header);
    }
    proof {
        assert(cs@.subrange(cs@.len() as int, cs@.len() as int) =~= Seq::<char>::empty());
        assert(spec_doc_body(cs@.subrange(cs@.len() as int, cs@.len() as int))
            =~= Seq::<char>::empty());
    }
    push_str_chars(&mut out, "\n*/");
    proof {
        reveal_strlit("\n*/");
        assert(out@ =~= spec_docstring(content@));
    }
    string_from_chars(&out)
}

/// Whether the rendered signature contains a top-level `|`, and so needs
/// parentheses when suffixed with `[]`.
pub open spec fn spec_has_pipe(s: Seq<char>) -> bool {
    exists|j: int| 0 <= j < s.len() && s[j] == '|'
}

/// The enum literal list from index `i` on, JSON-encoded and joined by
/// ` | `.
pub open spec fn spec_enum_sig(options: Vec<JsonValue>, i: int) -> Seq<char>
    decreases options@.len() - i,
{
    if i < 0 || i >= options@.len() {
        Seq::empty()
    } else if i + 1 == options@.len() {
        spec_encode(options@[i])
    } else {
        spec_encode(options@[i]) + " | "@ + spec_enum_sig(options, i + 1)
    }
}

/// The full type signature of a node: its base signature, ` | null` when
/// it is nullable, and ` | undefined` when it stands in a non-required
/// position.  `None` means a reference could not be resolved.
pub open spec fn spec_full_sig(
    n: SchemaNode,
    required: bool,
    defs: Definitions,
    fuel: nat,
) -> Option<Seq<char>>
    decreases fuel, n, 0int, 1int,
{
    match spec_base_sig(n, defs, fuel) {
        None => None,
        Some(b) => Some(
            b + (if n.nullable {
                " | null"@
            } else {
                Seq::empty()
            }) + (if !required {
                " | undefined"@
            } else {
                Seq::empty()
            }),
        ),
    }
}

/// The base type signature of a node, before nullability suffixes.
pub open spec fn spec_base_sig(n: SchemaNode, defs: Definitions, fuel: nat) -> Option<Seq<char>>
    decreases fuel, n, 0int, 0int,
{
    match n.body {
        SchemaBody::Ref { key } => if fuel == 0 {
            None
        } else {
            let i = spec_defs_index(defs.entries@, key@);
            if i < 0 {
                None
            } else {
                spec_full_sig(defs.entries@[i].1, true, defs, (fuel - 1) as nat)
            }
        },
        SchemaBody::Any => Some("any"@),
        SchemaBody::Bool => Some("boolean"@),
        SchemaBody::Number => Some("number"@),
        SchemaBody::Int => Some("number"@),
        SchemaBody::Str => Some("string"@),
        SchemaBody::Enum { options } => Some(spec_enum_sig(options, 0)),
        SchemaBody::Object { ty_name, .. } => Some(ty_name@),
        SchemaBody::Mapping { value } => match spec_full_sig(*value, false, defs, fuel) {
            None => None,
            Some(v) => Some("{ [key: string]: "@ + v + " }"@),
        },
        SchemaBody::Array { item } => match spec_full_sig(*item, true, defs, fuel) {
            None => None,
            Some(v) => Some(
                (if spec_has_pipe(v) {
                    "("@ + v + ")"@
                } else {
                    v
                }) + "[]"@,
            ),
        },
        SchemaBody::Union { members } => spec_members_sig(members, defs, fuel, 0),
    }
}

/// The signatures of union members from index `i` on, joined by ` | `.
pub open spec fn spec_members_sig(
    members: Vec<SchemaNode>,
    defs: Definitions,
    fuel: nat,
    i: int,
) -> Option<Seq<char>>
    decreases fuel, members, members@.len() - i, 0int,
{
    if i < 0 || i >= members@.len() {
        Some(Seq::empty())
    } else {
        match spec_full_sig(members@[i], true, defs, fuel) {
            None => None,
            Some(h) => if i + 1 == members@.len() {
                Some(h)
            } else {
                match spec_members_sig(members, defs, fuel, i + 1) {
                    None => None,
                    Some(t) => Some(h + " | "@ + t),
                }
            },
        }
    }
}

/// Append the full signature of `n` to `out`; on failure `out` is left in
/// an unspecified state and the error says which reference broke.
#[verifier::loop_isolation(false)]
pub fn full_signature_into(
    n: &SchemaNode,
    required: bool,
    defs: &Definitions,
    fuel: usize,
    out: &mut Vec<char>,
) -> (r: Result<(), SchemaError>)
    ensures
        r is Ok <==> spec_full_sig(*n, required, *defs, fuel as nat) is Some,
        r is Ok ==> final(out)@ == old(out)@ + spec_full_sig(*n, required, *defs, fuel as nat)->0,
    decreases fuel, *n, 0int, 1int,
{
    let res = base_signature_into(n, defs, fuel, out);
    match res {
        Err(e) => Err(e),
        Ok(()) => {
            if n.nullable {
                push_str_chars(out, " | null");
            }
            if !required {
                push_str_chars(out, " | undefined");
            }
            assert(out@ =~= old(out)@ + spec_full_sig(*n, required, *defs, fuel as nat)->0);
            Ok(())
        },
    }
}

/// Append the base signature of `n` to `out`.
#[verifier::loop_isolation(false)]
pub fn base_signature_into(
    n: &SchemaNode,
    defs: &Definitions,
    fuel: usize,
    out: &mut Vec<char>,
) -> (r: Result<(), SchemaError>)
    ensures
        r is Ok <==> spec_base_sig(*n, *defs, fuel as nat) is Some,
        r is Ok ==> final(out)@ == old(out)@ + spec_base_sig(*n, *defs, fuel as nat)->0,
    decreases fuel, *n, 0int, 0int,
{
    let ghost n0 = *n;
    match &n.body {
        SchemaBody::Ref { key } => {
            if fuel == 0 {
                return Err(SchemaError::RefDepthExceeded);
            }
            match defs.get(key.as_str()) {
                None => Err(SchemaError::MissingRef { key: key.clone() }),
                Some(target) => {
                    proof {
                        lemma_defs_index_range(defs.entries@, key@);
                    }
                    full_signature_into(target, true, defs, fuel - 1, out)
                },
            }
        },
        SchemaBody::Any => {
            push_str_chars(out, "any");
            Ok(())
        },
        SchemaBody::Bool => {
            push_str_chars(out, "boolean");
            Ok(())
        },
        SchemaBody::Number => {
            push_str_chars(out, "number");
            Ok(())
        },
        SchemaBody::Int => {
            push_str_chars(out, "number");
            Ok(())
        },
        SchemaBody::Str => {
            push_str_chars(out, "string");
            Ok(())
        },
        SchemaBody::Enum { options } => {
            let mut i: usize = 0;
            while i < options.len()
                invariant
                    i <= options@.len(),
                    out@ + spec_enum_sig(*options, i as int) == old(out)@ + spec_enum_sig(
                        *options,
                        0,
                    ),
                decreases options@.len() - i,
            {
                encode_json_into(&options[i], out);
                if i + 1 < options.len() {
                    push_str_chars(out, " | ");
                }
                i = i + 1;
                assert(out@ + spec_enum_sig(*options, i as int) =~= old(out)@ + spec_enum_sig(
                    *options,
                    0,
                ));
            }
            assert(out@ =~= old(out)@ + spec_enum_sig(*options, 0));
            Ok(())
        },
        SchemaBody::Object { ty_name, .. } => {
            push_str_chars(out, ty_name.as_str());
            Ok(())
        },
        SchemaBody::Mapping { value } => {
            proof {
                let b0 = n0.body;
                assert(decreases_to!(n0 => n0.body));
                assert(decreases_to!(b0 => b0->Mapping_value));
            }
            push_str_chars(out, "{ [key: string]: ");
            let res = full_signature_into(&**value, false, defs, fuel, out);
            match res {
                Err(e) => Err(e),
                Ok(()) => {
                    push_str_chars(out, " }");
                    assert(out@ =~= old(out)@ + spec_base_sig(n0, *defs, fuel as nat)->0);
                    Ok(())
                },
            }
        },
        SchemaBody::Array { item } => {
            proof {
                let b0 = n0.body;
                assert(decreases_to!(n0 => n0.body));
                assert(decreases_to!(b0 => b0->Array_item));
            }
            let mut inner: Vec<char> = Vec::new();
            let res = full_signature_into(&**item, true, defs, fuel, &mut inner);
            match res {
                Err(e) => Err(e),
                Ok(()) => {
                    let mut has_pipe = false;
                    let mut j: usize = 0;
                    while j < inner.len()
                        invariant
                            j <= inner@.len(),
                            has_pipe == exists|k: int| 0 <= k < j && inner@[k] == '|',
                        decreases inner@.len() - j,
                    {
                        if inner[j] == '|' {
                            has_pipe = true;
                        }
                        j = j + 1;
                    }
                    proof {
                        let iv = spec_full_sig(*n0.body->Array_item, true, *defs, fuel as nat)->0;
                        assert(inner@ =~= iv);
                        assert(has_pipe == spec_has_pipe(iv));
                    }
                    if has_pipe {
                        push_str_chars(out, "(");
                        push_chars(out, &inner);
                        push_str_chars(out, ")");
                    } else {
                        push_chars(out, &inner);
                    }
                    push_str_chars(out, "[]");
                    assert(out@ =~= old(out)@ + spec_base_sig(n0, *defs, fuel as nat)->0);
                    Ok(())
                },
            }
        },
        SchemaBody::Union { members } => {
            let ghost b0 = n0.body;
            let mut i: usize = 0;
            while i < members.len()
                invariant
                    i <= members@.len(),
                    spec_members_sig(*members, *defs, fuel as nat, 0) is Some <==>
                    spec_members_sig(*members, *defs, fuel as nat, i as int) is Some,
                    spec_members_sig(*members, *defs, fuel as nat, 0) matches Some(w) ==> out@
                        + spec_members_sig(*members, *defs, fuel as nat, i as int)->0 == old(out)@
                        + w,
                decreases members@.len() - i,
            {
                proof {
                    assert(decreases_to!(n0 => n0.body));
                    assert(decreases_to!(b0 => b0->Union_members));
                    let ms = b0->Union_members@;
                    let k = i as int;
                    assert(decreases_to!(b0->Union_members => ms));
                    assert(decreases_to!(ms => ms[k]));
                }
                let res = full_signature_into(&members[i], true, defs, fuel, out);
                match res {
                    Err(e) => {
                        return Err(e);
                    },
                    Ok(()) => {},
                }
                if i + 1 < members.len() {
                    push_str_chars(out, " | ");
                }
                i = i + 1;
                assert(spec_members_sig(*members, *defs, fuel as nat, 0) matches Some(w) ==> out@
                    + spec_members_sig(*members, *defs, fuel as nat, i as int)->0 =~= old(out)@
                    + w);
            }
            assert(spec_members_sig(*members, *defs, fuel as nat, i as int) matches Some(w)
                && w =~= Seq::<char>::empty());
            assert(spec_members_sig(*members, *defs, fuel as nat, 0) matches Some(w) ==> out@
                =~= old(out)@ + w);
            Ok(())
        },
    }
}

/// The full type signature of a node as a string.
pub fn type_signature(
    n: &SchemaNode,
    required: bool,
    defs: &Definitions,
    fuel: usize,
) -> (r: Result<String, SchemaError>)
    ensures
        r is Ok <==> spec_full_sig(*n, required, *defs, fuel as nat) is Some,
        r matches Ok(s) ==> s@ == spec_full_sig(*n, required, *defs, fuel as nat)->0,
{
    let mut out: Vec<char> = Vec::new();
    match full_signature_into(n, required, defs, fuel, &mut out) {
        Ok(()) => Ok(string_from_chars(&out)),
        Err(e) => Err(e),
    }
}

/// One property of a declaration: its name, documentation, rendered base
/// signature, and the two flags the renderer folds into the line.
pub struct ObjectPropertyData {
    pub name: String,
    pub doc_string: Option<String>,
    pub sig: String,
    pub required: bool,
    pub nullable: bool,
}

/// One `interface` declaration: name, documentation, properties, and the
/// index signature of `additionalProperties` when present.
pub struct ObjectSchemaData {
    pub name: String,
    pub doc_string: Option<String>,
    pub properties: Vec<ObjectPropertyData>,
    pub additional_props_sig: Option<String>,
}

/// Whether `x` reads the same as some name in `names`.
pub open spec fn spec_name_in(names: Seq<String>, x: Seq<char>) -> bool {
    exists|j: int| 0 <= j < names.len() && (#[trigger] names[j])@ == x
}

/// Whether `names` holds a name reading `key` (executable form).
pub fn names_contain(names: &Vec<String>, key: &str) -> (r: bool)
    ensures
        r == spec_name_in(names@, key@),
{
    let mut i: usize = 0;
    while i < names.len()
        invariant
            i <= names@.len(),
            forall|j: int| 0 <= j < i ==> (#[trigger] names@[j])@ != key@,
        decreases names@.len() - i,
    {
        if str_eq(names[i].as_str(), key) {
            return true;
        }
        i = i + 1;
    }
    false
}

/// The description documenting a node: its own, or, for a reference
/// without one, the description of the definition it points to.
pub open spec fn spec_description_of(n: SchemaNode, defs: Definitions, fuel: nat) -> Option<
    Seq<char>,
>
    decreases fuel,
{
    if n.description is Some {
        Some(n.description->0@)
    } else {
        match n.body {
            SchemaBody::Ref { key } => if fuel == 0 {
                None
            } else {
                let i = spec_defs_index(defs.entries@, key@);
                if i < 0 {
                    None
                } else {
                    spec_description_of(defs.entries@[i].1, defs, (fuel - 1) as nat)
                }
            },
            _ => None,
        }
    }
}

/// The description documenting a node (executable form).
pub fn description_of(n: &SchemaNode, defs: &Definitions, fuel: usize) -> (r: Option<String>)
    ensures
        r is Some <==> spec_description_of(*n, *defs, fuel as nat) is Some,
        r matches Some(d) ==> d@ == spec_description_of(*n, *defs, fuel as nat)->0,
    decreases fuel,
{
    if let Some(d) = &n.description {
        return Some(d.clone());
    }
    match &n.body {
        SchemaBody::Ref { key } => {
            if fuel == 0 {
                return None;
            }
            match defs.get(key.as_str()) {
                None => None,
                Some(target) => {
                    proof {
                        lemma_defs_index_range(defs.entries@, key@);
                    }
                    description_of(target, defs, fuel - 1)
                },
            }
        },
        _ => None,
    }
}

/// The rendered line of one property: name, `?` when optional, base
/// signature, and ` | null` when nullable.
pub open spec fn spec_render_prop(p: ObjectPropertyData) -> Seq<char> {
    (match p.doc_string {
        Some(ds) => ds@ + "\n"@,
        None => Seq::empty(),
    }) + "  "@ + p.name@ + (if p.required {
        Seq::empty()
    } else {
        "?"@
    }) + ": "@ + p.sig@ + (if p.nullable {
        " | null"@
    } else {
        Seq::empty()
    }) + ";\n"@
}

/// The rendered property lines from index `i` on.
pub open spec fn spec_render_props(ps: Vec<ObjectPropertyData>, i: int) -> Seq<char>
    decreases ps@.len() - i,
{
    if i < 0 || i >= ps@.len() {
        Seq::empty()
    } else {
        spec_render_prop(ps@[i]) + spec_render_props(ps, i + 1)
    }
}

/// The rendered form of one declaration.
pub open spec fn spec_render_decl(d: ObjectSchemaData) -> Seq<char> {
    (match d.doc_string {
        Some(ds) => ds@ + "\n"@,
        None => Seq::empty(),
    }) + "interface "@ + d.name@ + " {\n"@ + spec_render_props(d.properties, 0) + (
    match d.additional_props_sig {
        Some(a) => "  [key: string]: "@ + a@ + ";\n"@,
        None => Seq::empty(),
    }) + "}"@
}

/// The rendered declarations from index `i` on, separated by blank lines.
pub open spec fn spec_render_decls(ds: Vec<ObjectSchemaData>, i: int) -> Seq<char>
    decreases ds@.len() - i,
{
    if i < 0 || i >= ds@.len() {
        Seq::empty()
    } else if i + 1 == ds@.len() {
        spec_render_decl(ds@[i])
    } else {
        spec_render_decl(ds@[i]) + "\n\n"@ + spec_render_decls(ds, i + 1)
    }
}

/// Append the rendered line of one property to `out`.
#[verifier::rlimit(60)]
fn render_prop_into(p: &ObjectPropertyData, out: &mut Vec<char>)
    ensures
        final(out)@ == old(out)@ + spec_render_prop(*p),
{
    match &p.doc_string {
        Some(pd) => {
            push_str_chars(out, pd.as_str());
            push_str_chars(out, "\n");
        },
        None => {},
    }
    push_str_chars(out, "  ");
    push_str_chars(out, p.name.as_str());
    if !p.required {
        push_str_chars(out, "?");
    }
    push_str_chars(out, ": ");
    push_str_chars(out, p.sig.as_str());
    if p.nullable {
        push_str_chars(out, " | null");
    }
    push_str_chars(out, ";\n");
    assert(out@ =~= old(out)@ + spec_render_prop(*p));
}

/// Append the rendered property lines to `out`.
#[verifier::loop_isolation(false)]
fn render_props_into(ps: &Vec<ObjectPropertyData>, out: &mut Vec<char>)
    ensures
        final(out)@ == old(out)@ + spec_render_props(*ps, 0),
{
    let mut j: usize = 0;
    while j < ps.len()
        invariant
            j <= ps@.len(),
            out@ + spec_render_props(*ps, j as int) == old(out)@ + spec_render_props(*ps, 0),
        decreases ps@.len() - j,
    {
        render_prop_into(&ps[j], out);
        j = j + 1;
        assert(out@ + spec_render_props(*ps, j as int) =~= old(out)@ + spec_render_props(*ps, 0));
    }
    assert(out@ =~= old(out)@ + spec_render_props(*ps, 0));
}

/// Append the rendered form of one declaration to `out`.
#[verifier::loop_isolation(false)]
fn render_decl_into(d: &ObjectSchemaData, out: &mut Vec<char>)
    ensures
        final(out)@ == old(out)@ + spec_render_decl(*d),
{
    match &d.doc_string {
        Some(dsg) => {
            push_str_chars(out, dsg.as_str());
            push_str_chars(out, "\n");
        },
        None => {},
    }
    push_str_chars(out, "interface ");
    push_str_chars(out, d.name.as_str());
    push_str_chars(out, " {\n");
    render_props_into(&d.properties, out);
    match &d.additional_props_sig {
        Some(a) => {
            push_str_chars(out, "  [key: string]: ");
            push_str_chars(out, a.as_str());
            push_str_chars(out, ";\n");
        },
        None => {},
    }
    push_str_chars(out, "}");
    assert(out@ =~= old(out)@ + spec_render_decl(*d));
}

/// Render every collected declaration, separated by blank lines.
#[verifier::loop_isolation(false)]
pub fn render_decls(ds: &Vec<ObjectSchemaData>) -> (r: String)
    ensures
        r@ == spec_render_decls(*ds, 0),
{
    let mut out: Vec<char> = Vec::new();
    let mut i: usize = 0;
    while i < ds.len()
        invariant
            i <= ds@.len(),
            out@ + spec_render_decls(*ds, i as int) == spec_render_decls(*ds, 0),
        decreases ds@.len() - i,
    {
        render_decl_into(&ds[i], &mut out);
        if i + 1 < ds.len() {
            push_str_chars(&mut out, "\n\n");
        }
        i = i + 1;
        assert(out@ + spec_render_decls(*ds, i as int) =~= spec_render_decls(*ds, 0));
    }
    proof {
        assert(out@ =~= spec_render_decls(*ds, 0));
    }
    string_from_chars(&out)
}

/// Build the declaration for one object node: each property line carries
/// its base signature, its required and nullable flags, and its
/// documentation; `additionalProperties` becomes an index signature.
/// Fails exactly when some contained reference cannot be resolved.
#[verifier::loop_isolation(false)]
pub fn collect_object(
    ty_name: &String,
    properties: &Vec<Property>,
    required: &Vec<String>,
    additional: &Option<Box<SchemaNode>>,
    description: &Option<String>,
    defs: &Definitions,
    fuel: usize,
) -> (r: Result<ObjectSchemaData, SchemaError>)
    ensures
        r matches Ok(d) ==> {
            &&& d.name == *ty_name
            &&& (d.doc_string is Some <==> description is Some)
            &&& (description matches Some(c) ==> d.doc_string->0@ == spec_docstring(c@))
            &&& d.properties@.len() == properties@.len()
            &&& forall|j: int|
                0 <= j < properties@.len() ==> {
                    &&& (#[trigger] d.properties@[j]).name == properties@[j].name
                    &&& d.properties@[j].required == spec_name_in(
                        required@,
                        properties@[j].name@,
                    )
                    &&& d.properties@[j].nullable == properties@[j].schema.nullable
                    &&& d.properties@[j].sig@ == spec_base_sig(
                        properties@[j].schema,
                        *defs,
                        fuel as nat,
                    )->0
                    &&& (d.properties@[j].doc_string is Some <==> spec_description_of(
                        properties@[j].schema,
                        *defs,
                        fuel as nat,
                    ) is Some)
                    &&& (d.properties@[j].doc_string matches Some(pd) ==> pd@ == spec_docstring(
                        spec_description_of(properties@[j].schema, *defs, fuel as nat)->0,
                    ))
                }
            &&& (d.additional_props_sig is Some <==> additional is Some)
            &&& (additional matches Some(a) ==> d.additional_props_sig->0@ == spec_full_sig(
                **a,
                false,
                *defs,
                fuel as nat,
            )->0)
        },
        r is Ok <==> ({
            &&& forall|j: int|
                0 <= j < properties@.len() ==> spec_base_sig(
                    (#[trigger] properties@[j]).schema,
                    *defs,
                    fuel as nat,
                ) is Some
            &&& (additional matches Some(a) ==> spec_full_sig(**a, false, *defs, fuel as nat)
                is Some)
        }),
{
    let mut props: Vec<ObjectPropertyData> = Vec::new();
    let mut j: usize = 0;
    while j < properties.len()
        invariant
            j <= properties@.len(),
            props@.len() == j,
            forall|k: int|
                0 <= k < j ==> {
                    &&& (#[trigger] props@[k]).name == properties@[k].name
                    &&& props@[k].required == spec_name_in(required@, properties@[k].name@)
                    &&& props@[k].nullable == properties@[k].schema.nullable
                    &&& spec_base_sig(properties@[k].schema, *defs, fuel as nat) is Some
                    &&& props@[k].sig@ == spec_base_sig(
                        properties@[k].schema,
                        *defs,
                        fuel as nat,
                    )->0
                    &&& (props@[k].doc_string is Some <==> spec_description_of(
                        properties@[k].schema,
                        *defs,
                        fuel as nat,
                    ) is Some)
                    &&& (props@[k].doc_string matches Some(pd) ==> pd@ == spec_docstring(
                        spec_description_of(properties@[k].schema, *defs, fuel as nat)->0,
                    ))
                },
        decreases properties@.len() - j,
    {
        let p = &properties[j];
        let mut sig_chars: Vec<char> = Vec::new();
        match base_signature_into(&p.schema, defs, fuel, &mut sig_chars) {
            Err(e) => {
                return Err(e);
            },
            Ok(()) => {},
        }
        assert(sig_chars@ =~= spec_base_sig(p.schema, *defs, fuel as nat)->0);
        let doc_string = match description_of(&p.schema, defs, fuel) {
            Some(dsc) => Some(generate_docstring(dsc.as_str())),
            None => None,
        };
        props.push(
            ObjectPropertyData {
                name: p.name.clone(),
                doc_string,
                sig: string_from_chars(&sig_chars),
                required: names_contain(required, p.name.as_str()),
                nullable: p.schema.nullable,
            },
        );
        j = j + 1;
    }
    let additional_props_sig = match additional {
        Some(a) => {
            match type_signature(&**a, false, defs, fuel) {
                Err(e) => {
                    return Err(e);
                },
                Ok(s) => Some(s),
            }
        },
        None => None,
    };
    let doc_string = match description {
        Some(c) => Some(generate_docstring(c.as_str())),
        None => None,
    };
    assert forall|jj: int| 0 <= jj < properties@.len() implies spec_base_sig(
        (#[trigger] properties@[jj]).schema,
        *defs,
        fuel as nat,
    ) is Some by {
        assert(props@[jj].sig@ == spec_base_sig(properties@[jj].schema, *defs, fuel as nat)->0);
    }
    Ok(
        ObjectSchemaData {
            name: ty_name.clone(),
            doc_string,
            properties: props,
            additional_props_sig,
        },
    )
}

/// What one collection pass does: whether it succeeds, the visited
/// reference keys afterwards, and the object nodes whose declarations are
/// appended, in emission order, each with the reference depth left when
/// it was reached (signatures inside its declaration resolve at that
/// depth).
pub struct CollectTrace {
    pub ok: bool,
    pub visited: Seq<String>,
    pub objects: Seq<(SchemaNode, nat)>,
}

/// Whether the declaration of this object node can be built: every
/// property's base signature and the `additionalProperties` signature
/// resolve.
pub open spec fn spec_object_decl_ok(node: SchemaNode, defs: Definitions, fuel: nat) -> bool {
    match node.body {
        SchemaBody::Object { properties, additional, .. } => {
            &&& forall|j: int|
                0 <= j < properties@.len() ==> spec_base_sig(
                    (#[trigger] properties@[j]).schema,
                    defs,
                    fuel,
                ) is Some
            &&& (additional matches Some(a) ==> spec_full_sig(*a, false, defs, fuel) is Some)
        },
        _ => true,
    }
}

/// Whether `d` is the declaration of the object node: name, documentation,
/// one line per property with its base signature and flags, and the index
/// signature of `additionalProperties`.
pub open spec fn decl_matches(
    node: SchemaNode,
    d: ObjectSchemaData,
    defs: Definitions,
    fuel: nat,
) -> bool {
    node.body matches SchemaBody::Object { ty_name, properties, required, additional } && {
        &&& d.name == ty_name
        &&& (d.doc_string is Some <==> node.description is Some)
        &&& (node.description matches Some(c) ==> d.doc_string->0@ == spec_docstring(c@))
        &&& d.properties@.len() == properties@.len()
        &&& forall|j: int|
            0 <= j < properties@.len() ==> {
                &&& (#[trigger] d.properties@[j]).name == properties@[j].name
                &&& d.properties@[j].required == spec_name_in(required@, properties@[j].name@)
                &&& d.properties@[j].nullable == properties@[j].schema.nullable
                &&& d.properties@[j].sig@ == spec_base_sig(
                    properties@[j].schema,
                    defs,
                    fuel,
                )->0
                &&& (d.properties@[j].doc_string is Some <==> spec_description_of(
                    properties@[j].schema,
                    defs,
                    fuel,
                ) is Some)
                &&& (d.properties@[j].doc_string matches Some(pd) ==> pd@ == spec_docstring(
                    spec_description_of(properties@[j].schema, defs, fuel)->0,
                ))
            }
        &&& (d.additional_props_sig is Some <==> additional is Some)
        &&& (additional matches Some(a) ==> d.additional_props_sig->0@ == spec_full_sig(
            *a,
            false,
            defs,
            fuel,
        )->0)
    }
}

/// The trace of collecting one node: a reference is followed once and
/// never re-expanded, an object appends itself and then its children,
/// maps, arrays and unions pass through to their children, and leaves
/// contribute nothing.
pub open spec fn spec_collect(
    n: SchemaNode,
    defs: Definitions,
    visited: Seq<String>,
    fuel: nat,
) -> CollectTrace
    decreases fuel, n, 1int, 0int,
{
    match n.body {
        SchemaBody::Ref { key } => {
            if spec_name_in(visited, key@) {
                CollectTrace { ok: true, visited, objects: Seq::empty() }
            } else {
                let v2 = visited.push(key);
                let i = spec_defs_index(defs.entries@, key@);
                if i < 0 || fuel == 0 {
                    CollectTrace { ok: false, visited: v2, objects: Seq::empty() }
                } else {
                    spec_collect(defs.entries@[i].1, defs, v2, (fuel - 1) as nat)
                }
            }
        },
        SchemaBody::Object { properties, additional, .. } => {
            if !spec_object_decl_ok(n, defs, fuel) {
                CollectTrace { ok: false, visited, objects: Seq::empty() }
            } else {
                let tp = spec_collect_props(properties, 0, defs, visited, fuel);
                let tc = if !tp.ok {
                    tp
                } else {
                    match additional {
                        Some(a) => {
                            let ta = spec_collect(*a, defs, tp.visited, fuel);
                            CollectTrace {
                                ok: ta.ok,
                                visited: ta.visited,
                                objects: tp.objects + ta.objects,
                            }
                        },
                        None => tp,
                    }
                };
                CollectTrace {
                    ok: tc.ok,
                    visited: tc.visited,
                    objects: seq![(n, fuel)] + tc.objects,
                }
            }
        },
        SchemaBody::Mapping { value } => spec_collect(*value, defs, visited, fuel),
        SchemaBody::Array { item } => spec_collect(*item, defs, visited, fuel),
        SchemaBody::Union { members } => spec_collect_list(members, 0, defs, visited, fuel),
        _ => CollectTrace { ok: true, visited, objects: Seq::empty() },
    }
}

/// The trace of collecting the property schemas from index `i` on, left
/// to right, stopping at the first failure.
pub open spec fn spec_collect_props(
    props: Vec<Property>,
    i: int,
    defs: Definitions,
    visited: Seq<String>,
    fuel: nat,
) -> CollectTrace
    decreases fuel, props, 0int, props@.len() - i,
{
    if i < 0 || i >= props@.len() {
        CollectTrace { ok: true, visited, objects: Seq::empty() }
    } else {
        let h = spec_collect(props@[i].schema, defs, visited, fuel);
        if !h.ok {
            h
        } else {
            let rest = spec_collect_props(props, i + 1, defs, h.visited, fuel);
            CollectTrace { ok: rest.ok, visited: rest.visited, objects: h.objects + rest.objects }
        }
    }
}

/// The trace of collecting the union members from index `i` on.
pub open spec fn spec_collect_list(
    members: Vec<SchemaNode>,
    i: int,
    defs: Definitions,
    visited: Seq<String>,
    fuel: nat,
) -> CollectTrace
    decreases fuel, members, 0int, members@.len() - i,
{
    if i < 0 || i >= members@.len() {
        CollectTrace { ok: true, visited, objects: Seq::empty() }
    } else {
        let h = spec_collect(members@[i], defs, visited, fuel);
        if !h.ok {
            h
        } else {
            let rest = spec_collect_list(members, i + 1, defs, h.visited, fuel);
            CollectTrace { ok: rest.ok, visited: rest.visited, objects: h.objects + rest.objects }
        }
    }
}

/// Walk a named schema and append one declaration per object found, in
/// first-visit order: exactly the objects of the collection trace, each
/// matched by the appended declaration.  A reference key already visited
/// is not expanded again, which both de-duplicates shared definitions and
/// breaks cycles.  Declarations already in `out` stay untouched.
#[verifier::loop_isolation(false)]
#[verifier::rlimit(100)]
#[verifier::spinoff_prover]
pub fn collect_decls(
    n: &SchemaNode,
    defs: &Definitions,
    visited: &mut Vec<String>,
    out: &mut Vec<ObjectSchemaData>,
    fuel: usize,
) -> (r: Result<(), SchemaError>)
    ensures
        final(out)@.len() >= old(out)@.len(),
        forall|j: int|
            0 <= j < old(out)@.len() ==> (#[trigger] final(out)@[j]) == old(out)@[j],
        ({
            let tr = spec_collect(*n, *defs, old(visited)@, fuel as nat);
            &&& (r is Ok <==> tr.ok)
            &&& (r is Ok ==> final(visited)@ == tr.visited)
            &&& (r is Ok ==> final(out)@.len() == old(out)@.len() + tr.objects.len())
            &&& (r is Ok ==> forall|j: int|
                0 <= j < tr.objects.len() ==> decl_matches(
                    (#[trigger] tr.objects[j]).0,
                    final(out)@[old(out)@.len() + j],
                    *defs,
                    tr.objects[j].1,
                ))
        }),
    decreases fuel, *n, 1int, 0int,
{
    let ghost n0 = *n;
    match &n.body {
        SchemaBody::Ref { key } => {
            if names_contain(visited, key.as_str()) {
                proof {
                    let tr = spec_collect(n0, *defs, old(visited)@, fuel as nat);
                    assert(tr.ok && tr.objects.len() == 0 && tr.visited == old(visited)@);
                }
                return Ok(());
            }
            visited.push(key.clone());
            proof {
                assert(visited@ =~= old(visited)@.push(n0.body->Ref_key));
            }
            match defs.get(key.as_str()) {
                None => {
                    proof {
                        let tr = spec_collect(n0, *defs, old(visited)@, fuel as nat);
                        assert(!tr.ok);
                    }
                    Err(SchemaError::MissingRef { key: key.clone() })
                },
                Some(target) => {
                    if fuel == 0 {
                        proof {
                            let tr = spec_collect(n0, *defs, old(visited)@, fuel as nat);
                            assert(!tr.ok);
                        }
                        return Err(SchemaError::RefDepthExceeded);
                    }
                    proof {
                        lemma_defs_index_range(defs.entries@, key@);
                    }
                    let r1 = collect_decls(target, defs, visited, out, fuel - 1);
                    proof {
                        let tr = spec_collect(n0, *defs, old(visited)@, fuel as nat);
                        assert(r1 is Ok <==> tr.ok);
                        assert(r1 is Ok ==> final(visited)@ == tr.visited);
                        assert(r1 is Ok ==> final(out)@.len() == old(out)@.len()
                            + tr.objects.len());
                    }
                    r1
                },
            }
        },
        SchemaBody::Object { ty_name, properties, required, additional, .. } => {
            let ghost base = out@.len() as int;
            let decl = match collect_object(
                ty_name,
                properties,
                required,
                additional,
                &n.description,
                defs,
                fuel,
            ) {
                Err(e) => {
                    proof {
                        assert(!spec_object_decl_ok(n0, *defs, fuel as nat));
                    }
                    return Err(e);
                },
                Ok(d) => d,
            };
            proof {
                assert(spec_object_decl_ok(n0, *defs, fuel as nat));
                assert(decl_matches(n0, decl, *defs, fuel as nat));
            }
            out.push(decl);
            let ghost v0 = visited@;
            match collect_props_rec(properties, 0, defs, visited, out, fuel) {
                Err(e) => {
                    return Err(e);
                },
                Ok(()) => {},
            }
            let ghost tp = spec_collect_props(*properties, 0, *defs, v0, fuel as nat);
            let res = match additional {
                Some(a) => {
                    proof {
                        let b0 = n0.body;
                        assert(decreases_to!(n0 => n0.body));
                        assert(decreases_to!(b0 => b0->Object_additional));
                        assert(decreases_to!(b0->Object_additional => b0->Object_additional->0));
                    }
                    collect_decls(&**a, defs, visited, out, fuel)
                },
                None => Ok(()),
            };
            match res {
                Err(e) => Err(e),
                Ok(()) => {
                    proof {
                        let tr = spec_collect(n0, *defs, old(visited)@, fuel as nat);
                        assert(tr.ok);
                        assert(final(visited)@ == tr.visited);
                        assert(out@.len() == old(out)@.len() + tr.objects.len());
                        assert forall|j: int| 0 <= j < tr.objects.len() implies decl_matches(
                            (#[trigger] tr.objects[j]).0,
                            out@[base + j],
                            *defs,
                            tr.objects[j].1,
                        ) by {
                            if j > 0 {
                                assert(tr.objects[j] == tr.objects.subrange(
                                    1,
                                    tr.objects.len() as int,
                                )[j - 1]);
                            }
                        }
                    }
                    Ok(())
                },
            }
        },
        SchemaBody::Mapping { value } => {
            proof {
                let b0 = n0.body;
                assert(decreases_to!(n0 => n0.body));
                assert(decreases_to!(b0 => b0->Mapping_value));
            }
            let r1 = collect_decls(&**value, defs, visited, out, fuel);
            proof {
                let tr = spec_collect(n0, *defs, old(visited)@, fuel as nat);
                assert(r1 is Ok <==> tr.ok);
            }
            r1
        },
        SchemaBody::Array { item } => {
            proof {
                let b0 = n0.body;
                assert(decreases_to!(n0 => n0.body));
                assert(decreases_to!(b0 => b0->Array_item));
            }
            let r1 = collect_decls(&**item, defs, visited, out, fuel);
            proof {
                let tr = spec_collect(n0, *defs, old(visited)@, fuel as nat);
                assert(r1 is Ok <==> tr.ok);
            }
            r1
        },
        SchemaBody::Union { members } => {
            let r1 = collect_members_rec(members, 0, defs, visited, out, fuel);
            proof {
                let tr = spec_collect(n0, *defs, old(visited)@, fuel as nat);
                assert(r1 is Ok <==> tr.ok);
                assert(r1 is Ok ==> final(visited)@ == tr.visited);
            }
            r1
        },
        _ => {
            proof {
                let tr = spec_collect(n0, *defs, old(visited)@, fuel as nat);
                assert(tr.ok);
                assert(tr.objects.len() == 0);
            }
            Ok(())
        },
    }
}

/// Collect the property schemas from index `i` on, left to right.
#[verifier::loop_isolation(false)]
#[verifier::rlimit(100)]
#[verifier::spinoff_prover]
fn collect_props_rec(
    props: &Vec<Property>,
    i: usize,
    defs: &Definitions,
    visited: &mut Vec<String>,
    out: &mut Vec<ObjectSchemaData>,
    fuel: usize,
) -> (r: Result<(), SchemaError>)
    requires
        i <= props@.len(),
    ensures
        final(out)@.len() >= old(out)@.len(),
        forall|j: int|
            0 <= j < old(out)@.len() ==> (#[trigger] final(out)@[j]) == old(out)@[j],
        ({
            let tr = spec_collect_props(*props, i as int, *defs, old(visited)@, fuel as nat);
            &&& (r is Ok <==> tr.ok)
            &&& (r is Ok ==> final(visited)@ == tr.visited)
            &&& (r is Ok ==> final(out)@.len() == old(out)@.len() + tr.objects.len())
            &&& (r is Ok ==> forall|j: int|
                0 <= j < tr.objects.len() ==> decl_matches(
                    (#[trigger] tr.objects[j]).0,
                    final(out)@[old(out)@.len() + j],
                    *defs,
                    tr.objects[j].1,
                ))
        }),
    decreases fuel, *props, 0int, props@.len() - i,
{
    if i >= props.len() {
        return Ok(());
    }
    proof {
        let ps = *props;
        let psv = ps@;
        let k = i as int;
        assert(decreases_to!(ps => ps@));
        assert(decreases_to!(psv => psv[k]));
        assert(decreases_to!(psv[k] => psv[k].schema));
    }
    let ghost base = out@.len() as int;
    match collect_decls(&props[i].schema, defs, visited, out, fuel) {
        Err(e) => {
            return Err(e);
        },
        Ok(()) => {},
    }
    let ghost h = spec_collect(props@[i as int].schema, *defs, old(visited)@, fuel as nat);
    match collect_props_rec(props, i + 1, defs, visited, out, fuel) {
        Err(e) => Err(e),
        Ok(()) => {
            proof {
                let tr = spec_collect_props(*props, i as int, *defs, old(visited)@, fuel as nat);
                assert forall|j: int| 0 <= j < tr.objects.len() implies decl_matches(
                    (#[trigger] tr.objects[j]).0,
                    out@[base + j],
                    *defs,
                    tr.objects[j].1,
                ) by {
                    if j >= h.objects.len() {
                        let rest = spec_collect_props(
                            *props,
                            i + 1,
                            *defs,
                            h.visited,
                            fuel as nat,
                        );
                        assert(tr.objects[j] == rest.objects[j - h.objects.len()]);
                    }
                }
            }
            Ok(())
        },
    }
}

/// Collect the union members from index `i` on.
#[verifier::loop_isolation(false)]
#[verifier::rlimit(100)]
#[verifier::spinoff_prover]
fn collect_members_rec(
    members: &Vec<SchemaNode>,
    i: usize,
    defs: &Definitions,
    visited: &mut Vec<String>,
    out: &mut Vec<ObjectSchemaData>,
    fuel: usize,
) -> (r: Result<(), SchemaError>)
    requires
        i <= members@.len(),
    ensures
        final(out)@.len() >= old(out)@.len(),
        forall|j: int|
            0 <= j < old(out)@.len() ==> (#[trigger] final(out)@[j]) == old(out)@[j],
        ({
            let tr = spec_collect_list(*members, i as int, *defs, old(visited)@, fuel as nat);
            &&& (r is Ok <==> tr.ok)
            &&& (r is Ok ==> final(visited)@ == tr.visited)
            &&& (r is Ok ==> final(out)@.len() == old(out)@.len() + tr.objects.len())
            &&& (r is Ok ==> forall|j: int|
                0 <= j < tr.objects.len() ==> decl_matches(
                    (#[trigger] tr.objects[j]).0,
                    final(out)@[old(out)@.len() + j],
                    *defs,
                    tr.objects[j].1,
                ))
        }),
    decreases fuel, *members, 0int, members@.len() - i,
{
    if i >= members.len() {
        return Ok(());
    }
    proof {
        let ms = *members;
        let msv = ms@;
        let k = i as int;
        assert(decreases_to!(ms => ms@));
        assert(decreases_to!(msv => msv[k]));
    }
    let ghost base = out@.len() as int;
    match collect_decls(&members[i], defs, visited, out, fuel) {
        Err(e) => {
            return Err(e);
        },
        Ok(()) => {},
    }
    let ghost h = spec_collect(members@[i as int], *defs, old(visited)@, fuel as nat);
    match collect_members_rec(members, i + 1, defs, visited, out, fuel) {
        Err(e) => Err(e),
        Ok(()) => {
            proof {
                let tr = spec_collect_list(
                    *members,
                    i as int,
                    *defs,
                    old(visited)@,
                    fuel as nat,
                );
                assert forall|j: int| 0 <= j < tr.objects.len() implies decl_matches(
                    (#[trigger] tr.objects[j]).0,
                    out@[base + j],
                    *defs,
                    tr.objects[j].1,
                ) by {
                    if j >= h.objects.len() {
                        let rest = spec_collect_list(
                            *members,
                            i + 1,
                            *defs,
                            h.visited,
                            fuel as nat,
                        );
                        assert(tr.objects[j] == rest.objects[j - h.objects.len()]);
                    }
                }
            }
            Ok(())
        },
    }
}

/// Law: the emitter is deterministic.  The rendering of a declaration
/// table is a function of the table alone, so two runs over the same
/// table yield byte-identical output; `render_decls` ensures its result
/// equals this rendering.
pub proof fn lemma_emitter_deterministic(ds: Vec<ObjectSchemaData>, a: Seq<char>, b: Seq<char>)
    requires
        a == spec_render_decls(ds, 0),
        b == spec_render_decls(ds, 0),
    ensures
        a == b,
{
}

} // verus!
