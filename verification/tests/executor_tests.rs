use pctx::diagnostics::Diagnostic;
use pctx::executor::{
    check_outcome, extract_output, finish_execution, timeout_result, transpile_failure,
    ConsoleBuffers, ExecutionError, ExportValue, PromiseState,
};
use pctx::json::{encode_json, JsonValue};

fn diag(message: &str, code: Option<u32>) -> Diagnostic {
    Diagnostic {
        message: message.to_string(),
        line: Some(1),
        column: Some(1),
        severity: "error".to_string(),
        code,
    }
}

#[test]
fn test_console_capture_order_and_spacing() {
    let mut buffers = ConsoleBuffers::new();
    buffers.log(&vec!["Result:".to_string(), "42".to_string()]);
    buffers.log(&vec!["Done!".to_string()]);
    buffers.log_err(&vec!["warning".to_string(), "here".to_string()]);
    let (stdout, stderr) = buffers.capture();
    assert_eq!(stdout, "Result: 42\nDone!");
    assert_eq!(stderr, "warning here");
}

#[test]
fn test_check_outcome_blocks_on_relevant_diagnostics() {
    let outcome = check_outcome(vec![
        diag("Cannot find name 'console'.", Some(2580)),
        diag("Type 'string' is not assignable to type 'number'.", Some(2322)),
        diag("Something else.", None),
    ])
    .expect("a relevant diagnostic must block execution");
    assert!(!outcome.success);
    assert_eq!(outcome.diagnostics.len(), 2);
    assert_eq!(
        outcome.stderr,
        "Type 'string' is not assignable to type 'number'.\nSomething else."
    );
    assert_eq!(outcome.stdout, "");
    assert!(outcome.runtime_error.is_none());
    assert!(outcome.output.is_none());
}

#[test]
fn test_check_outcome_passes_ignored_codes() {
    let outcome = check_outcome(vec![
        diag("Cannot find name 'console'.", Some(2580)),
        diag("Cannot find name 'Promise'.", Some(2591)),
    ]);
    assert!(outcome.is_none(), "only ignored codes must not block");
}

#[test]
fn test_transpile_failure_message() {
    let r = transpile_failure("unexpected token");
    assert!(!r.success);
    assert_eq!(
        r.runtime_error.unwrap().message,
        "Transpilation failed: unexpected token"
    );
}

#[test]
fn test_timeout_message() {
    let r = timeout_result();
    assert!(!r.success);
    assert_eq!(
        r.runtime_error.unwrap().message,
        "Execution timed out after 10 seconds"
    );
}

#[test]
fn test_extract_output_cases() {
    assert!(extract_output(ExportValue::Undefined).is_none());
    assert!(extract_output(ExportValue::Promise(PromiseState::Pending)).is_none());
    assert!(extract_output(ExportValue::Promise(PromiseState::Rejected)).is_none());
    assert!(extract_output(ExportValue::Unrepresentable).is_none());

    let fulfilled = extract_output(ExportValue::Promise(PromiseState::Fulfilled(
        JsonValue::Number("7".to_string()),
    )))
    .expect("a fulfilled promise yields its value");
    assert_eq!(encode_json(&fulfilled), "7");

    let plain = extract_output(ExportValue::Value(JsonValue::Bool(true)))
        .expect("a plain value yields itself");
    assert_eq!(encode_json(&plain), "true");
}

#[test]
fn test_finish_execution_stderr_fallback() {
    let err = ExecutionError { message: "boom".to_string(), stack: None };
    let r = finish_execution(
        false,
        Some(err),
        None,
        &vec!["out line".to_string()],
        &vec![],
    );
    assert_eq!(r.stdout, "out line");
    assert_eq!(r.stderr, "boom", "an empty captured stderr falls back on the error message");

    let err2 = ExecutionError { message: "boom".to_string(), stack: None };
    let r2 = finish_execution(
        false,
        Some(err2),
        None,
        &vec![],
        &vec!["captured".to_string()],
    );
    assert_eq!(r2.stderr, "captured", "captured stderr wins over the error message");
}
