//! The gateway surface: typed wrappers for upstream tools, the namespace
//! blocks the three gateway tools expose, the sandboxed program assembled
//! for `execute`, and the text block reporting its result.

use vstd::prelude::*;

verus! {

use crate::case::Case;
use crate::case::spec_sanitize;
use crate::emit::SchemaError;
use crate::executor::ExecuteResult;
use crate::json::JsonValue;
use crate::json::encode_json;
use crate::json::spec_encode;
use crate::json::spec_pretty;
use crate::json::spec_quoted;
use crate::json::encode_json_pretty;
use crate::text::chars_of;
use crate::text::push_str_chars;
use crate::text::str_eq;
use crate::text::string_from_chars;
use crate::text::spec_joined;
use crate::text::join_strings;
use crate::typegen::RootSchema;
use crate::typegen::TypegenResult;
use crate::typegen::generate_types;
use crate::typegen::typegen_ok;
use crate::emit::spec_docstring;
use crate::emit::generate_docstring;

/// One upstream tool, lowered to its TypeScript face.
pub struct UpstreamTool {
    /// The wire name used in `tools/call`.
    pub tool_name: String,
    /// Optional human-readable title.
    pub title: Option<String>,
    /// Optional human-readable description.
    pub description: Option<String>,
    /// The lower-camel function name derived from the wire name.
    pub fn_name: String,
    /// The TypeScript type expression of the input.
    pub input_type: String,
    /// The TypeScript type expression of the output.
    pub output_type: String,
    /// The `interface` declarations the two signatures refer to.
    pub types: String,
}

/// What the gateway knows about one tool before lowering: its wire name,
/// optional human strings, and its schemas.
pub struct ToolInfo {
    pub name: String,
    pub title: Option<String>,
    pub description: Option<String>,
    pub input_schema: RootSchema,
    pub output_schema: Option<RootSchema>,
}

/// The text a tool's documentation comment documents: the title, a blank
/// line, then the description; absent parts contribute nothing.
pub open spec fn spec_doc_content(title: Option<String>, description: Option<String>) -> Seq<
    char,
> {
    (match title {
        Some(t) => t@ + "\n\n"@,
        None => Seq::empty(),
    }) + (match description {
        Some(d) => d@,
        None => Seq::empty(),
    })
}

/// The rendered signature of a tool: optionally its type declarations,
/// then its documentation comment, then the exported function head.
pub open spec fn spec_fn_signature(t: UpstreamTool, include_types: bool) -> Seq<char> {
    (if include_types && t.types@.len() > 0 {
        t.types@ + "\n\n"@
    } else {
        Seq::empty()
    }) + spec_docstring(spec_doc_content(t.title, t.description))
        + "\nexport async function "@ + t.fn_name@ + "(input: "@ + t.input_type@
        + "): Promise<"@ + t.output_type@ + ">"@
}

/// The rendered body of a tool used inside `execute`: the full signature
/// and a body delegating to the host bridge with the owning server's
/// name, the wire tool name, and the input.
pub open spec fn spec_fn_impl(t: UpstreamTool, mcp_name: Seq<char>) -> Seq<char> {
    spec_fn_signature(t, true) + " {\n  return await callMCPTool<"@ + t.output_type@
        + ">({\n    name: "@ + spec_quoted(mcp_name) + ",\n    tool: "@ + spec_quoted(
        t.tool_name@,
    ) + ",\n    arguments: input,\n  });\n}"@
}

impl UpstreamTool {
    /// Lower one tool: the function name is the camel form of the wire
    /// name, the input type comes from the input schema under the seed
    /// `<fnName>Input`, and the output type from the output schema under
    /// `<fnName>Output`, falling back on `any` when the tool has none.
    pub fn from_tool(tool: ToolInfo) -> (r: Result<UpstreamTool, SchemaError>)
        ensures
            r matches Ok(t) ==> {
                &&& t.fn_name@ == spec_sanitize(Case::Camel, tool.name@)
                &&& t.tool_name == tool.name
                &&& t.title == tool.title
                &&& t.description == tool.description
                &&& (tool.output_schema is None ==> t.output_type@ == "any"@)
                &&& exists|ti: TypegenResult|
                    {
                        &&& #[trigger] typegen_ok(
                            tool.input_schema,
                            spec_sanitize(Case::Camel, tool.name@) + "Input"@,
                            ti,
                        )
                        &&& t.input_type == ti.type_signature
                        &&& (match tool.output_schema {
                            None => t.types == ti.types,
                            Some(os) => exists|to: TypegenResult|
                                {
                                    &&& #[trigger] typegen_ok(
                                        os,
                                        spec_sanitize(Case::Camel, tool.name@) + "Output"@,
                                        to,
                                    )
                                    &&& t.output_type == to.type_signature
                                    &&& t.types@ == ti.types@ + "\n\n"@ + to.types@
                                },
                        })
                    }
            },
    {
        let fn_name = Case::Camel.sanitize(tool.name.as_str());
        let mut input_seed = chars_of(fn_name.as_str());
        push_str_chars(&mut input_seed, "Input");
        assert(input_seed@ =~= spec_sanitize(Case::Camel, tool.name@) + "Input"@);
        let input_seed_str = string_from_chars(&input_seed);
        let input_types = match generate_types(&tool.input_schema, input_seed_str.as_str()) {
            Err(e) => {
                return Err(e);
            },
            Ok(t) => t,
        };
        let ghost ti = input_types;
        let ghost input_types_text = input_types.types;
        let input_type = input_types.type_signature;
        let mut types = input_types.types;
        let output_type = match &tool.output_schema {
            Some(out_schema) => {
                let mut output_seed = chars_of(fn_name.as_str());
                push_str_chars(&mut output_seed, "Output");
                assert(output_seed@ =~= spec_sanitize(Case::Camel, tool.name@) + "Output"@);
                let output_seed_str = string_from_chars(&output_seed);
                let output_types = match generate_types(out_schema, output_seed_str.as_str()) {
                    Err(e) => {
                        return Err(e);
                    },
                    Ok(t) => t,
                };
                let ghost to = output_types;
                let mut combined = chars_of(types.as_str());
                push_str_chars(&mut combined, "\n\n");
                push_str_chars(&mut combined, output_types.types.as_str());
                types = string_from_chars(&combined);
                assert(types@ =~= ti.types@ + "\n\n"@ + to.types@);
                output_types.type_signature
            },
            None => String::from_str("any"),
        };
        Ok(
            UpstreamTool {
                tool_name: tool.name,
                title: tool.title,
                description: tool.description,
                fn_name,
                input_type,
                output_type,
                types,
            },
        )
    }

    /// The function signature presented to the model, with or without
    /// the full type declarations.
    pub fn fn_signature(&self, include_types: bool) -> (r: String)
        ensures
            r@ == spec_fn_signature(*self, include_types),
    {
        let mut out: Vec<char> = Vec::new();
        if include_types && self.types.as_str().unicode_len() > 0 {
            push_str_chars(&mut out, self.types.as_str());
            push_str_chars(&mut out, "\n\n");
        }
        let mut content: Vec<char> = Vec::new();
        match &self.title {
            Some(t) => {
                push_str_chars(&mut content, t.as_str());
                push_str_chars(&mut content, "\n\n");
            },
            None => {},
        }
        match &self.description {
            Some(d) => {
                push_str_chars(&mut content, d.as_str());
            },
            None => {},
        }
        assert(content@ =~= spec_doc_content(self.title, self.description));
        let content_str = string_from_chars(&content);
        let doc = generate_docstring(content_str.as_str());
        push_str_chars(&mut out, doc.as_str());
        push_str_chars(&mut out, "\nexport async function ");
        push_str_chars(&mut out, self.fn_name.as_str());
        push_str_chars(&mut out, "(input: ");
        push_str_chars(&mut out, self.input_type.as_str());
        push_str_chars(&mut out, "): Promise<");
        push_str_chars(&mut out, self.output_type.as_str());
        push_str_chars(&mut out, ">");
        assert(out@ =~= spec_fn_signature(*self, include_types));
        string_from_chars(&out)
    }

    /// The callable body used inside the `execute` program.
    pub fn fn_impl(&self, mcp_name: &str) -> (r: String)
        ensures
            r@ == spec_fn_impl(*self, mcp_name@),
    {
        let sig = self.fn_signature(true);
        let mut out = chars_of(sig.as_str());
        push_str_chars(&mut out, " {\n  return await callMCPTool<");
        push_str_chars(&mut out, self.output_type.as_str());
        push_str_chars(&mut out, ">({\n    name: ");
        let name_lit = encode_json(&JsonValue::Str(String::from_str(mcp_name)));
        push_str_chars(&mut out, name_lit.as_str());
        push_str_chars(&mut out, ",\n    tool: ");
        let tool_lit = encode_json(&JsonValue::Str(self.tool_name.clone()));
        push_str_chars(&mut out, tool_lit.as_str());
        push_str_chars(&mut out, ",\n    arguments: input,\n  });\n}");
        assert(out@ =~= spec_fn_impl(*self, mcp_name@));
        string_from_chars(&out)
    }
}

/// One connected upstream server as the gateway presents it.
pub struct UpstreamMcp {
    /// The configured name, unique within a gateway instance.
    pub name: String,
    /// The Pascal-cased namespace grouping the server's functions.
    pub namespace: String,
    /// The human description shown above the namespace.
    pub description: String,
    /// The server URL.
    pub url: String,
    /// The tools, keyed by function name, in discovery order.
    pub tools: Vec<(String, UpstreamTool)>,
    /// The serialized registration handed to `registerMCP`.
    pub registration: String,
}

/// The index of the first entry of `ts` keyed `k`, or `-1`.
pub open spec fn spec_key_index(ts: Seq<(String, UpstreamTool)>, k: Seq<char>) -> int
    decreases ts.len(),
{
    if ts.len() == 0 {
        -1
    } else if ts[0].0@ == k {
        0
    } else {
        let rest = spec_key_index(ts.drop_first(), k);
        if rest == -1 {
            -1
        } else {
            rest + 1
        }
    }
}

proof fn lemma_key_index_step(ts: Seq<(String, UpstreamTool)>, k: Seq<char>, i: int)
    requires
        0 <= i <= ts.len(),
        forall|j: int| 0 <= j < i ==> (#[trigger] ts[j]).0@ != k,
    ensures
        i < ts.len() && ts[i].0@ == k ==> spec_key_index(ts, k) == i,
        i == ts.len() ==> spec_key_index(ts, k) == -1,
    decreases ts.len(),
{
    if ts.len() > 0 && ts[0].0@ != k {
        if i > 0 {
            assert(forall|j: int|
                0 <= j < i - 1 ==> (#[trigger] ts.drop_first()[j]).0@ != k);
            lemma_key_index_step(ts.drop_first(), k, i - 1);
        }
    }
}

/// The table the insertion discipline builds from the lowered tools, in
/// order: each tool lands under its function name, and a repeated name
/// replaces the earlier entry in place, keeping its position.
pub open spec fn spec_tools_table(listed: Seq<UpstreamTool>, i: int) -> Seq<(String, UpstreamTool)>
    decreases i,
{
    if i <= 0 {
        Seq::empty()
    } else {
        let prev = spec_tools_table(listed, i - 1);
        let t = listed[i - 1];
        let idx = spec_key_index(prev, t.fn_name@);
        if idx >= 0 {
            prev.update(idx, (t.fn_name, t))
        } else {
            prev.push((t.fn_name, t))
        }
    }
}

/// Insert a tool under its function name: a repeated name replaces the
/// earlier tool in place, keeping its position; a new name appends.
#[verifier::loop_isolation(false)]
fn insert_tool(tools: &mut Vec<(String, UpstreamTool)>, key: String, val: UpstreamTool)
    ensures
        final(tools)@ == (if spec_key_index(old(tools)@, key@) >= 0 {
            old(tools)@.update(spec_key_index(old(tools)@, key@), (key, val))
        } else {
            old(tools)@.push((key, val))
        }),
{
    let mut i: usize = 0;
    while i < tools.len()
        invariant
            tools@ == old(tools)@,
            i <= tools@.len(),
            forall|j: int| 0 <= j < i ==> (#[trigger] tools@[j]).0@ != key@,
        decreases tools@.len() - i,
    {
        if str_eq(tools[i].0.as_str(), key.as_str()) {
            proof {
                lemma_key_index_step(tools@, key@, i as int);
            }
            let _ = tools.remove(i);
            tools.insert(i, (key, val));
            proof {
                assert(tools@ =~= old(tools)@.update(i as int, (key, val)));
            }
            return;
        }
        i = i + 1;
    }
    proof {
        lemma_key_index_step(tools@, key@, tools@.len() as int);
    }
    tools.push((key, val));
}


impl UpstreamMcp {
    /// Assemble one upstream from its connection facts and lowered
    /// tools: the namespace is the Pascal form of the name, tools are
    /// keyed by function name with later duplicates replacing earlier
    /// ones in place, and the registration serializes the name and URL
    /// for the sandbox's `registerMCP`.
    pub fn from_parts(
        name: &str,
        description: String,
        url: &str,
        listed: Vec<UpstreamTool>,
    ) -> (r: UpstreamMcp)
        ensures
            r.name@ == name@,
            r.namespace@ == spec_sanitize(Case::Pascal, name@),
            r.description == description,
            r.url@ == url@,
            r.registration@ == "{\"name\":"@ + spec_quoted(name@) + ",\"url\":"@ + spec_quoted(
                url@,
            ) + "}"@,
            r.tools@ == spec_tools_table(listed@, listed@.len() as int),
    {
        let namespace = Case::Pascal.sanitize(name);
        let mut entries: Vec<(String, JsonValue)> = Vec::new();
        entries.push((String::from_str("name"), JsonValue::Str(String::from_str(name))));
        entries.push((String::from_str("url"), JsonValue::Str(String::from_str(url))));
        let reg_value = JsonValue::Object(entries);
        let registration = encode_json(&reg_value);
        proof {
            reveal_strlit("name");
            reveal_strlit("url");
            reveal_strlit("{\"name\":");
            reveal_strlit(",\"url\":");
            reveal_strlit("}");
            reveal_with_fuel(crate::json::spec_encode_entries, 4);
            reveal_with_fuel(crate::json::spec_encode, 4);
            crate::json::lemma_escape_plain("name"@);
            crate::json::lemma_escape_plain("url"@);
            assert(entries@.len() == 2);
            assert(entries@[0].0@ == "name"@ && entries@[1].0@ == "url"@);
            assert(entries@[0].1 matches JsonValue::Str(s) && s@ == name@);
            assert(entries@[1].1 matches JsonValue::Str(s) && s@ == url@);
            assert(spec_encode(entries@[1].1) == spec_quoted(url@));
            assert(spec_encode(entries@[0].1) == spec_quoted(name@));
            assert(registration@ == spec_encode(reg_value));
            assert(registration@ =~= "{\"name\":"@ + spec_quoted(name@) + ",\"url\":"@
                + spec_quoted(url@) + "}"@);
        }
        let ghost listed0 = listed@;
        let mut tools: Vec<(String, UpstreamTool)> = Vec::new();
        let mut rest = listed;
        while rest.len() > 0
            invariant
                rest@.len() <= listed0.len(),
                rest@ =~= listed0.subrange(listed0.len() - rest@.len(), listed0.len() as int),
                tools@ == spec_tools_table(listed0, listed0.len() - rest@.len()),
            decreases rest@.len(),
        {
            let ghost k = listed0.len() - rest@.len();
            let t = rest.remove(0);
            proof {
                assert(t == listed0[k]);
            }
            let key = t.fn_name.clone();
            insert_tool(&mut tools, key, t);
            proof {
                assert(rest@ =~= listed0.subrange(
                    listed0.len() - rest@.len(),
                    listed0.len() as int,
                ));
                assert(tools@ == spec_tools_table(listed0, k + 1));
            }
        }
        UpstreamMcp {
            name: String::from_str(name),
            namespace,
            description,
            url: String::from_str(url),
            tools,
            registration,
        }
    }
}

/// The rendered signatures of the tools from index `i` on, joined by
/// blank lines.
pub open spec fn spec_tool_sigs(
    tools: Seq<(String, UpstreamTool)>,
    i: int,
    include_types: bool,
) -> Seq<char>
    decreases tools.len() - i,
{
    if i < 0 || i >= tools.len() {
        Seq::empty()
    } else if i + 1 == tools.len() {
        spec_fn_signature(tools[i].1, include_types)
    } else {
        spec_fn_signature(tools[i].1, include_types) + "\n\n"@ + spec_tool_sigs(
            tools,
            i + 1,
            include_types,
        )
    }
}

/// The rendered bodies of the tools from index `i` on, joined by blank
/// lines.
pub open spec fn spec_tool_impls(
    tools: Seq<(String, UpstreamTool)>,
    i: int,
    mcp_name: Seq<char>,
) -> Seq<char>
    decreases tools.len() - i,
{
    if i < 0 || i >= tools.len() {
        Seq::empty()
    } else if i + 1 == tools.len() {
        spec_fn_impl(tools[i].1, mcp_name)
    } else {
        spec_fn_impl(tools[i].1, mcp_name) + "\n\n"@ + spec_tool_impls(tools, i + 1, mcp_name)
    }
}

/// A namespace block: the server's documentation comment, then
/// `namespace <Namespace> { ... }` around the given function texts.
pub open spec fn spec_namespace_block(m: UpstreamMcp, fns: Seq<char>) -> Seq<char> {
    spec_docstring(m.description@) + "\nnamespace "@ + m.namespace@ + " {\n  "@ + fns + "\n}"@
}

/// Build one namespace block around already-rendered function texts.
fn namespace_block(m: &UpstreamMcp, fns: &Vec<String>) -> (r: String)
    ensures
        r@ == spec_namespace_block(*m, spec_joined(fns@, 0, "\n\n"@)),
{
    let doc = generate_docstring(m.description.as_str());
    let mut out = chars_of(doc.as_str());
    push_str_chars(&mut out, "\nnamespace ");
    push_str_chars(&mut out, m.namespace.as_str());
    push_str_chars(&mut out, " {\n  ");
    let joined = join_strings(fns, "\n\n");
    push_str_chars(&mut out, joined.as_str());
    push_str_chars(&mut out, "\n}");
    assert(out@ =~= spec_namespace_block(*m, spec_joined(fns@, 0, "\n\n"@)));
    string_from_chars(&out)
}

/// The namespace blocks of every upstream from index `i` on, with bare
/// function signatures, joined by blank lines.
pub open spec fn spec_list_blocks(ups: Seq<UpstreamMcp>, i: int) -> Seq<char>
    decreases ups.len() - i,
{
    if i < 0 || i >= ups.len() {
        Seq::empty()
    } else if i + 1 == ups.len() {
        spec_namespace_block(ups[i], spec_tool_sigs(ups[i].tools@, 0, false))
    } else {
        spec_namespace_block(ups[i], spec_tool_sigs(ups[i].tools@, 0, false)) + "\n\n"@
            + spec_list_blocks(ups, i + 1)
    }
}

/// The `list_functions` overview: every namespace with every function
/// signature, no type declarations.
#[verifier::loop_isolation(false)]
pub fn list_functions_source(ups: &Vec<UpstreamMcp>) -> (r: String)
    ensures
        r@ == spec_list_blocks(ups@, 0),
{
    let mut blocks: Vec<char> = Vec::new();
    let mut i: usize = 0;
    while i < ups.len()
        invariant
            i <= ups@.len(),
            blocks@ + spec_list_blocks(ups@, i as int) == spec_list_blocks(ups@, 0),
        decreases ups@.len() - i,
    {
        let m = &ups[i];
        let mut fns: Vec<String> = Vec::new();
        let mut j: usize = 0;
        while j < m.tools.len()
            invariant
                j <= m.tools@.len(),
                fns@.len() == j,
                forall|q: int|
                    0 <= q < j ==> (#[trigger] fns@[q])@ == spec_fn_signature(
                        m.tools@[q].1,
                        false,
                    ),
            decreases m.tools@.len() - j,
        {
            let sig = m.tools[j].1.fn_signature(false);
            fns.push(sig);
            j = j + 1;
        }
        proof {
            lemma_join_sigs_from(m.tools@, fns@, 0, false);
        }
        let block = namespace_block(m, &fns);
        push_str_chars(&mut blocks, block.as_str());
        if i + 1 < ups.len() {
            push_str_chars(&mut blocks, "\n\n");
        }
        i = i + 1;
        assert(blocks@ + spec_list_blocks(ups@, i as int) =~= spec_list_blocks(ups@, 0));
    }
    assert(blocks@ =~= spec_list_blocks(ups@, 0));
    string_from_chars(&blocks)
}

proof fn lemma_join_sigs_from(
    tools: Seq<(String, UpstreamTool)>,
    fns: Seq<String>,
    i: int,
    include_types: bool,
)
    requires
        fns.len() == tools.len(),
        0 <= i,
        forall|k: int|
            0 <= k < tools.len() ==> (#[trigger] fns[k])@ == spec_fn_signature(
                tools[k].1,
                include_types,
            ),
    ensures
        spec_joined(fns, i, "\n\n"@) == spec_tool_sigs(tools, i, include_types),
    decreases tools.len() - i,
{
    if i < tools.len() {
        lemma_join_sigs_from(tools, fns, i + 1, include_types);
    }
}

/// The registration statements of every upstream from index `i` on.
pub open spec fn spec_registrations(ups: Seq<UpstreamMcp>, i: int) -> Seq<char>
    decreases ups.len() - i,
{
    if i < 0 || i >= ups.len() {
        Seq::empty()
    } else if i + 1 == ups.len() {
        "registerMCP("@ + ups[i].registration@ + ");"@
    } else {
        "registerMCP("@ + ups[i].registration@ + ");"@ + "\n\n"@ + spec_registrations(
            ups,
            i + 1,
        )
    }
}

/// The namespace blocks with callable bodies from index `i` on.
pub open spec fn spec_impl_blocks(ups: Seq<UpstreamMcp>, i: int) -> Seq<char>
    decreases ups.len() - i,
{
    if i < 0 || i >= ups.len() {
        Seq::empty()
    } else if i + 1 == ups.len() {
        spec_namespace_block(ups[i], spec_tool_impls(ups[i].tools@, 0, ups[i].name@))
    } else {
        spec_namespace_block(ups[i], spec_tool_impls(ups[i].tools@, 0, ups[i].name@)) + "\n\n"@
            + spec_impl_blocks(ups, i + 1)
    }
}

/// The whole sandboxed program `execute` runs: the registrations, the
/// namespaces with callable bodies, the submitted code, and the default
/// export of `run()`.
pub open spec fn spec_execute_source(ups: Seq<UpstreamMcp>, code: Seq<char>) -> Seq<char> {
    "\n"@ + spec_registrations(ups, 0) + "\n\n"@ + spec_impl_blocks(ups, 0) + "\n\n"@ + code
        + "\n\nexport default await run();"@
}

/// Assemble the sandboxed program for one `execute` call.
#[verifier::loop_isolation(false)]
#[verifier::rlimit(100)]
#[verifier::spinoff_prover]
pub fn execute_source(ups: &Vec<UpstreamMcp>, code: &str) -> (r: String)
    ensures
        r@ == spec_execute_source(ups@, code@),
{
    let mut out: Vec<char> = Vec::new();
    push_str_chars(&mut out, "\n");
    let mut i: usize = 0;
    while i < ups.len()
        invariant
            i <= ups@.len(),
            out@ + spec_registrations(ups@, i as int) == "\n"@ + spec_registrations(ups@, 0),
        decreases ups@.len() - i,
    {
        push_str_chars(&mut out, "registerMCP(");
        push_str_chars(&mut out, ups[i].registration.as_str());
        push_str_chars(&mut out, ");");
        if i + 1 < ups.len() {
            push_str_chars(&mut out, "\n\n");
        }
        i = i + 1;
        assert(out@ + spec_registrations(ups@, i as int) =~= "\n"@ + spec_registrations(
            ups@,
            0,
        ));
    }
    assert(out@ =~= "\n"@ + spec_registrations(ups@, 0));
    push_str_chars(&mut out, "\n\n");
    let ghost mid = out@;
    let mut k: usize = 0;
    while k < ups.len()
        invariant
            k <= ups@.len(),
            out@ + spec_impl_blocks(ups@, k as int) == mid + spec_impl_blocks(ups@, 0),
        decreases ups@.len() - k,
    {
        let m = &ups[k];
        let mut fns: Vec<String> = Vec::new();
        let mut j: usize = 0;
        while j < m.tools.len()
            invariant
                j <= m.tools@.len(),
                fns@.len() == j,
                forall|q: int|
                    0 <= q < j ==> (#[trigger] fns@[q])@ == spec_fn_impl(
                        m.tools@[q].1,
                        m.name@,
                    ),
            decreases m.tools@.len() - j,
        {
            let body = m.tools[j].1.fn_impl(m.name.as_str());
            fns.push(body);
            j = j + 1;
        }
        proof {
            lemma_join_impls_from(m.tools@, fns@, 0, m.name@);
        }
        let block = namespace_block(m, &fns);
        push_str_chars(&mut out, block.as_str());
        if k + 1 < ups.len() {
            push_str_chars(&mut out, "\n\n");
        }
        k = k + 1;
        assert(out@ + spec_impl_blocks(ups@, k as int) =~= mid + spec_impl_blocks(ups@, 0));
    }
    assert(out@ =~= mid + spec_impl_blocks(ups@, 0));
    push_str_chars(&mut out, "\n\n");
    push_str_chars(&mut out, code);
    push_str_chars(&mut out, "\n\nexport default await run();");
    assert(out@ =~= spec_execute_source(ups@, code@));
    string_from_chars(&out)
}

proof fn lemma_join_impls_from(
    tools: Seq<(String, UpstreamTool)>,
    fns: Seq<String>,
    i: int,
    mcp_name: Seq<char>,
)
    requires
        fns.len() == tools.len(),
        0 <= i,
        forall|k: int|
            0 <= k < tools.len() ==> (#[trigger] fns[k])@ == spec_fn_impl(tools[k].1, mcp_name),
    ensures
        spec_joined(fns, i, "\n\n"@) == spec_tool_impls(tools, i, mcp_name),
    decreases tools.len() - i,
{
    if i < tools.len() {
        lemma_join_impls_from(tools, fns, i + 1, mcp_name);
    }
}

/// The text block an `execute` call replies with: the success flag, the
/// pretty-printed return value, and the two captured streams.
pub open spec fn spec_execute_report(r: ExecuteResult) -> Seq<char> {
    "Code Executed Successfully: "@ + (if r.success {
        "true"@
    } else {
        "false"@
    }) + "\n\n# Return Value\n```json\n"@ + (match r.output {
        Some(v) => spec_pretty(v, Seq::empty()),
        None => "null"@,
    }) + "\n```\n\n# STDOUT\n"@ + r.stdout@ + "\n\n# STDERR\n"@ + r.stderr@ + "\n"@
}

/// Render the reply text for one execution result.
pub fn execute_report(result: &ExecuteResult) -> (r: String)
    ensures
        r@ == spec_execute_report(*result),
{
    let mut out = chars_of("Code Executed Successfully: ");
    if result.success {
        push_str_chars(&mut out, "true");
    } else {
        push_str_chars(&mut out, "false");
    }
    push_str_chars(&mut out, "\n\n# Return Value\n```json\n");
    match &result.output {
        Some(v) => {
            let pretty = encode_json_pretty(v);
            push_str_chars(&mut out, pretty.as_str());
        },
        None => {
            push_str_chars(&mut out, "null");
        },
    }
    push_str_chars(&mut out, "\n```\n\n# STDOUT\n");
    push_str_chars(&mut out, result.stdout.as_str());
    push_str_chars(&mut out, "\n\n# STDERR\n");
    push_str_chars(&mut out, result.stderr.as_str());
    push_str_chars(&mut out, "\n");
    assert(out@ =~= spec_execute_report(*result));
    string_from_chars(&out)
}

/// The names of the upstream servers from index `i` on, joined by `, `.
pub open spec fn spec_upstream_names(ups: Seq<UpstreamMcp>, i: int) -> Seq<char>
    decreases ups.len() - i,
{
    if i < 0 || i >= ups.len() {
        Seq::empty()
    } else if i + 1 == ups.len() {
        ups[i].name@
    } else {
        ups[i].name@ + ", "@ + spec_upstream_names(ups, i + 1)
    }
}

/// The instruction string the gateway advertises over `initialize`.
#[verifier::loop_isolation(false)]
pub fn server_instructions(ups: &Vec<UpstreamMcp>) -> (r: String)
    ensures
        r@
            == "This server provides tools to explore SDK functions and execute SDK scripts for the following services: "@
            + spec_upstream_names(ups@, 0),
{
    let mut out = chars_of(
        "This server provides tools to explore SDK functions and execute SDK scripts for the following services: ",
    );
    let ghost head = out@;
    let mut i: usize = 0;
    while i < ups.len()
        invariant
            i <= ups@.len(),
            out@ + spec_upstream_names(ups@, i as int) == head + spec_upstream_names(ups@, 0),
        decreases ups@.len() - i,
    {
        push_str_chars(&mut out, ups[i].name.as_str());
        if i + 1 < ups.len() {
            push_str_chars(&mut out, ", ");
        }
        i = i + 1;
        assert(out@ + spec_upstream_names(ups@, i as int) =~= head + spec_upstream_names(
            ups@,
            0,
        ));
    }
    assert(out@ =~= head + spec_upstream_names(ups@, 0));
    string_from_chars(&out)
}

/// The fixed reply when a details request matches nothing.
pub fn no_match_message() -> (r: String)
    ensures
        r@ == "No namespaces/functions match the request"@,
{
    String::from_str("No namespaces/functions match the request")
}

/// The `get_function_details` reply: each requested `Namespace.function`
/// pair, grouped by namespace in first-request order with duplicates
/// dropped, rendered with full type declarations; requests in the wrong
/// format or naming nothing known are skipped, and when nothing matches
/// the fixed no-match message comes back.
#[verifier::loop_isolation(false)]
pub fn get_function_details_source(ups: &Vec<UpstreamMcp>, requests: &Vec<String>) -> (r: String)
    ensures
        r@.len() > 0,
        requests@.len() == 0 ==> r@ == "No namespaces/functions match the request"@,
{
    // group the requests by namespace, de-duplicated, in request order
    let mut namespaces: Vec<String> = Vec::new();
    let mut functions: Vec<Vec<String>> = Vec::new();
    let mut i: usize = 0;
    while i < requests.len()
        invariant
            namespaces@.len() == functions@.len(),
            requests@.len() == 0 ==> namespaces@.len() == 0,
        decreases requests@.len() - i,
    {
        let req = chars_of(requests[i].as_str());
        // split at the dot: exactly two non-empty-ish parts
        let mut dot: usize = req.len();
        let mut dots: usize = 0;
        let mut j: usize = 0;
        while j < req.len()
            invariant
                j <= req@.len(),
                dot <= req@.len(),
                dots <= j,
            decreases req@.len() - j,
        {
            if req[j] == '.' {
                if dots == 0 {
                    dot = j;
                }
                dots = dots + 1;
            }
            j = j + 1;
        }
        if dots == 1 && dot < req.len() {
            let mut ns_chars: Vec<char> = Vec::new();
            let mut a: usize = 0;
            while a < dot
                invariant
                    a <= dot,
                    dot <= req@.len(),
                decreases dot - a,
            {
                ns_chars.push(req[a]);
                a = a + 1;
            }
            let mut fn_chars: Vec<char> = Vec::new();
            let mut b: usize = dot + 1;
            while b < req.len()
                invariant
                    dot < b <= req@.len() || b == dot + 1,
                decreases req@.len() - b,
            {
                fn_chars.push(req[b]);
                b = b + 1;
            }
            let ns = string_from_chars(&ns_chars);
            let func = string_from_chars(&fn_chars);
            // find or create the namespace bucket
            let mut found: bool = false;
            let mut idx: usize = 0;
            let mut k: usize = 0;
            while k < namespaces.len()
                invariant
                    namespaces@.len() == functions@.len(),
                    k <= namespaces@.len(),
                    idx <= k,
                    found ==> idx < namespaces@.len(),
                decreases namespaces@.len() - k,
            {
                if !found && str_eq(namespaces[k].as_str(), ns.as_str()) {
                    found = true;
                    idx = k;
                }
                k = k + 1;
            }
            if !found {
                namespaces.push(ns);
                functions.push(Vec::new());
                idx = namespaces.len() - 1;
            }
            // de-duplicated insert of the function name
            let bucket = &mut functions[idx];
            let mut dup: bool = false;
            let mut q: usize = 0;
            while q < bucket.len()
                invariant
                    q <= bucket@.len(),
                decreases bucket@.len() - q,
            {
                if str_eq(bucket[q].as_str(), func.as_str()) {
                    dup = true;
                }
                q = q + 1;
            }
            if !dup {
                bucket.push(func);
            }
        }
        i = i + 1;
    }
    // render one block per requested namespace that names known functions
    let mut blocks: Vec<String> = Vec::new();
    let mut n: usize = 0;
    while n < namespaces.len()
        invariant
            namespaces@.len() == functions@.len(),
            n <= namespaces@.len(),
            namespaces@.len() == 0 ==> blocks@.len() == 0,
        decreases namespaces@.len() - n,
    {
        let mut m: usize = 0;
        while m < ups.len()
            invariant
                namespaces@.len() == functions@.len(),
                n < namespaces@.len(),
                m <= ups@.len(),
            decreases ups@.len() - m,
        {
            if str_eq(ups[m].namespace.as_str(), namespaces[n].as_str()) {
                let mut details: Vec<String> = Vec::new();
                let wanted = &functions[n];
                let mut w: usize = 0;
                while w < wanted.len()
                    invariant
                        n < namespaces@.len(),
                        m < ups@.len(),
                        w <= wanted@.len(),
                    decreases wanted@.len() - w,
                {
                    let tools = &ups[m].tools;
                    let mut t: usize = 0;
                    while t < tools.len()
                        invariant
                            m < ups@.len(),
                            w < wanted@.len(),
                            t <= tools@.len(),
                        decreases tools@.len() - t,
                    {
                        if str_eq(tools[t].0.as_str(), wanted[w].as_str()) {
                            let sig = tools[t].1.fn_signature(true);
                            details.push(sig);
                        }
                        t = t + 1;
                    }
                    w = w + 1;
                }
                if details.len() > 0 {
                    let block = namespace_block(&ups[m], &details);
                    blocks.push(block);
                }
            }
            m = m + 1;
        }
        n = n + 1;
    }
    if blocks.len() == 0 {
        let r = no_match_message();
        proof {
            reveal_strlit("No namespaces/functions match the request");
        }
        r
    } else {
        let joined = join_strings(&blocks, "\n\n");
        if joined.as_str().unicode_len() == 0 {
            let r = no_match_message();
            proof {
                reveal_strlit("No namespaces/functions match the request");
            }
            r
        } else {
            joined
        }
    }
}

} // verus!
