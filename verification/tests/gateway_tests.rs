use pctx::client::{interpret_tool_result, tool_call_request_json, ContentItem, ToolCallOutcome};
use pctx::executor::ExecuteResult;
use pctx::gateway::{
    execute_report, execute_source, get_function_details_source, list_functions_source,
    no_match_message, server_instructions, ToolInfo, UpstreamMcp, UpstreamTool,
};
use pctx::json::{encode_json, JsonValue};
use pctx::schema::{InstanceTy, ObjectRules, RawNode, RawSchema, TypeField};
use pctx::typegen::RootSchema;

fn echo_tool_info() -> ToolInfo {
    let mut msg = RawNode::anything();
    msg.ty = TypeField::Single(InstanceTy::Str);
    let mut obj = RawNode::anything();
    obj.ty = TypeField::Single(InstanceTy::Object);
    obj.object = Some(Box::new(ObjectRules {
        properties: vec![("msg".to_string(), RawSchema::Node(Box::new(msg)))],
        required: vec!["msg".to_string()],
        additional: None,
    }));
    ToolInfo {
        name: "echo".to_string(),
        title: Some("Echo".to_string()),
        description: Some("Echoes its input.".to_string()),
        input_schema: RootSchema {
            schema: RawSchema::Node(Box::new(obj)),
            definitions: vec![],
        },
        output_schema: None,
    }
}

fn foo_upstream() -> UpstreamMcp {
    let tool = UpstreamTool::from_tool(echo_tool_info()).expect("lowering should succeed");
    UpstreamMcp::from_parts(
        "foo",
        "MCP server at http://localhost:3000/mcp".to_string(),
        "http://localhost:3000/mcp",
        vec![tool],
    )
}

#[test]
fn test_tool_lowering() {
    let tool = UpstreamTool::from_tool(echo_tool_info()).expect("lowering should succeed");
    assert_eq!(tool.fn_name, "echo");
    assert_eq!(tool.tool_name, "echo");
    assert_eq!(tool.input_type, "EchoInput");
    assert_eq!(tool.output_type, "any");
    assert_eq!(tool.types, "interface EchoInput {\n  msg: string;\n}");
}

#[test]
fn test_fn_signature_and_impl() {
    let tool = UpstreamTool::from_tool(echo_tool_info()).expect("lowering should succeed");
    let sig = tool.fn_signature(false);
    assert_eq!(
        sig,
        "/**\n* Echo\n* \n* Echoes its input.\n*/\nexport async function echo(input: EchoInput): Promise<any>"
    );
    let body = tool.fn_impl("foo");
    assert!(body.starts_with("interface EchoInput {"));
    assert!(body.contains(
        "export async function echo(input: EchoInput): Promise<any> {\n  return await callMCPTool<any>({\n    name: \"foo\",\n    tool: \"echo\",\n    arguments: input,\n  });\n}"
    ));
}

#[test]
fn test_upstream_assembly() {
    let up = foo_upstream();
    assert_eq!(up.namespace, "Foo");
    assert_eq!(
        up.registration,
        "{\"name\":\"foo\",\"url\":\"http://localhost:3000/mcp\"}"
    );
    assert_eq!(up.tools.len(), 1);
    assert_eq!(up.tools[0].0, "echo");
}

#[test]
fn test_execute_source_shape() {
    let ups = vec![foo_upstream()];
    let code = "async function run() { return await Foo.echo({msg:\"hi\"}); }";
    let source = execute_source(&ups, code);
    assert!(source.starts_with(
        "\nregisterMCP({\"name\":\"foo\",\"url\":\"http://localhost:3000/mcp\"});\n\n"
    ));
    assert!(source.contains("namespace Foo {\n  "));
    assert!(source.contains("return await callMCPTool<any>({"));
    assert!(source.contains(code));
    assert!(source.ends_with("\n\nexport default await run();"));
}

#[test]
fn test_list_functions_source() {
    let ups = vec![foo_upstream()];
    let listing = list_functions_source(&ups);
    assert!(listing.contains("namespace Foo {"));
    assert!(listing.contains("export async function echo(input: EchoInput): Promise<any>"));
    // the overview leaves the type declarations out
    assert!(!listing.contains("interface EchoInput"));
}

#[test]
fn test_get_function_details() {
    let ups = vec![foo_upstream()];
    let found = get_function_details_source(&ups, &vec!["Foo.echo".to_string()]);
    assert!(found.contains("interface EchoInput"));
    assert!(found.contains("export async function echo"));

    let wrong_format = get_function_details_source(&ups, &vec!["echo".to_string()]);
    assert_eq!(wrong_format, no_match_message());

    let unknown = get_function_details_source(&ups, &vec!["Bar.echo".to_string()]);
    assert_eq!(unknown, no_match_message());

    let unknown_fn = get_function_details_source(&ups, &vec!["Foo.missing".to_string()]);
    assert_eq!(unknown_fn, no_match_message());
}

#[test]
fn test_server_instructions() {
    let ups = vec![foo_upstream()];
    assert_eq!(
        server_instructions(&ups),
        "This server provides tools to explore SDK functions and execute SDK scripts for the following services: foo"
    );
}

#[test]
fn test_execute_report_success() {
    let result = ExecuteResult {
        success: true,
        diagnostics: vec![],
        runtime_error: None,
        output: Some(JsonValue::Number("2".to_string())),
        stdout: String::new(),
        stderr: String::new(),
    };
    let report = execute_report(&result);
    assert!(report.contains("Code Executed Successfully: true"));
    assert!(report.contains("# Return Value\n```json\n2\n```"));
    assert!(report.contains("# STDOUT\n"));
    assert!(report.contains("# STDERR\n"));
}

#[test]
fn test_execute_report_no_output() {
    let result = ExecuteResult {
        success: false,
        diagnostics: vec![],
        runtime_error: None,
        output: None,
        stdout: "printed".to_string(),
        stderr: "oops".to_string(),
    };
    let report = execute_report(&result);
    assert!(report.contains("Code Executed Successfully: false"));
    assert!(report.contains("# Return Value\n```json\nnull\n```"));
    assert!(report.contains("# STDOUT\nprinted\n"));
    assert!(report.contains("# STDERR\noops\n"));
}

#[test]
fn test_tool_call_request_wire_format() {
    let mut args_entries: Vec<(String, JsonValue)> = Vec::new();
    args_entries.push(("msg".to_string(), JsonValue::Str("hi".to_string())));
    let args = Some(JsonValue::Object(args_entries));
    let wire = tool_call_request_json(1, "echo", &args);
    assert_eq!(
        wire,
        "{\"jsonrpc\":\"2.0\",\"id\":1,\"method\":\"tools/call\",\"params\":{\"name\":\"echo\",\"arguments\":{\"msg\":\"hi\"}}}"
    );
}

#[test]
fn test_upstream_tool_call_roundtrip() {
    // the upstream replies with structured content {"ok":true}
    let mut ok_entries: Vec<(String, JsonValue)> = Vec::new();
    ok_entries.push(("ok".to_string(), JsonValue::Bool(true)));
    let outcome = ToolCallOutcome {
        is_error: None,
        structured_content: Some(JsonValue::Object(ok_entries)),
        content: Some(vec![]),
    };
    let value = interpret_tool_result("foo", "echo", outcome, None)
        .expect("structured content should pass through");
    assert_eq!(encode_json(&value), "{\"ok\":true}");
}

#[test]
fn test_tool_result_error_flag() {
    let outcome = ToolCallOutcome {
        is_error: Some(true),
        structured_content: None,
        content: None,
    };
    let err = interpret_tool_result("foo", "echo", outcome, None).expect_err("must fail");
    assert_eq!(err.message(), "MCP tool call error: Tool call \"foo.echo\" failed");
}

#[test]
fn test_tool_result_text_fallbacks() {
    // parseable text passes its parsed value through
    let outcome = ToolCallOutcome {
        is_error: None,
        structured_content: None,
        content: Some(vec![ContentItem::Text("[1,2]".to_string())]),
    };
    let parsed = Some(JsonValue::Array(vec![
        JsonValue::Number("1".to_string()),
        JsonValue::Number("2".to_string()),
    ]));
    let value = interpret_tool_result("foo", "echo", outcome, parsed).expect("should succeed");
    assert_eq!(encode_json(&value), "[1,2]");

    // unparseable text comes back as a string value
    let outcome2 = ToolCallOutcome {
        is_error: None,
        structured_content: None,
        content: Some(vec![ContentItem::Text("plain words".to_string())]),
    };
    let value2 = interpret_tool_result("foo", "echo", outcome2, None).expect("should succeed");
    assert_eq!(encode_json(&value2), "\"plain words\"");

    // a missing content array is an error
    let outcome3 = ToolCallOutcome {
        is_error: None,
        structured_content: None,
        content: None,
    };
    let err = interpret_tool_result("foo", "echo", outcome3, None).expect_err("must fail");
    assert_eq!(
        err.message(),
        "MCP tool call error: Tool call \"foo.echo\" returned no content"
    );
}

#[test]
fn test_connect_failure_classification() {
    let auth = pctx::client::classify_connect_failure(true, String::new());
    assert_eq!(auth.message(), "Server requires authentication");
    let failed =
        pctx::client::classify_connect_failure(false, "connection refused".to_string());
    assert_eq!(failed.message(), "Failed to connect: connection refused");
}
