use pctx::diagnostics::{
    filter_relevant_diagnostics, is_relevant_error, parse_tsgo_diagnostics, Diagnostic,
};

fn diag(message: &str, line: Option<usize>, column: Option<usize>, code: Option<u32>) -> Diagnostic {
    Diagnostic {
        message: message.to_string(),
        line,
        column,
        severity: "error".to_string(),
        code,
    }
}

#[test]
fn lib_test_is_relevant_error_function() {
    // Relevant error (type mismatch TS2322)
    let relevant = diag(
        "Type 'string' is not assignable to type 'number'.",
        Some(1),
        Some(1),
        Some(2322),
    );
    assert!(is_relevant_error(&relevant), "TS2322 should be relevant");

    // Irrelevant error (console TS2580)
    let irrelevant_console = diag("Cannot find name 'console'.", Some(1), Some(1), Some(2580));
    assert!(
        !is_relevant_error(&irrelevant_console),
        "TS2580 should be irrelevant"
    );

    // Irrelevant error (Promise TS2591)
    let irrelevant_promise = diag("Cannot find name 'Promise'.", Some(1), Some(1), Some(2591));
    assert!(
        !is_relevant_error(&irrelevant_promise),
        "TS2591 should be irrelevant"
    );

    // Irrelevant error (implicit any TS7006)
    let irrelevant_implicit_any = diag(
        "Parameter implicitly has an 'any' type.",
        Some(1),
        Some(1),
        Some(7006),
    );
    assert!(
        !is_relevant_error(&irrelevant_implicit_any),
        "TS7006 should be irrelevant"
    );

    // Error without code should be relevant
    let no_code = diag("Some error", Some(1), Some(1), None);
    assert!(
        is_relevant_error(&no_code),
        "Errors without code should be relevant"
    );
}

#[test]
fn ts_go_check_test_is_relevant_error_function() {
    // Relevant error (type mismatch TS2322)
    let relevant = diag(
        "Type 'string' is not assignable to type 'number'.",
        Some(1),
        Some(1),
        Some(2322),
    );
    assert!(is_relevant_error(&relevant), "TS2322 should be relevant");

    // Irrelevant error (console TS2580)
    let irrelevant_console = diag("Cannot find name 'console'.", Some(1), Some(1), Some(2580));
    assert!(
        !is_relevant_error(&irrelevant_console),
        "TS2580 should be irrelevant"
    );

    // Irrelevant error (Promise TS2591)
    let irrelevant_promise = diag("Cannot find name 'Promise'.", Some(1), Some(1), Some(2591));
    assert!(
        !is_relevant_error(&irrelevant_promise),
        "TS2591 should be irrelevant"
    );

    // Irrelevant error (implicit any TS7006)
    let irrelevant_implicit_any = diag(
        "Parameter implicitly has an 'any' type.",
        Some(1),
        Some(1),
        Some(7006),
    );
    assert!(
        !is_relevant_error(&irrelevant_implicit_any),
        "TS7006 should be irrelevant"
    );

    // Error without code should be relevant
    let no_code = diag("Some error", Some(1), Some(1), None);
    assert!(
        is_relevant_error(&no_code),
        "Errors without code should be relevant"
    );
}

#[test]
fn test_full_ignore_list() {
    for code in [
        2307u32, 2304, 7016, 2318, 2580, 2583, 2584, 2585, 2591, 2339, 2693, 7006, 7053, 7005,
        7034, 18046, 2362, 2363,
    ] {
        assert!(
            !is_relevant_error(&diag("x", None, None, Some(code))),
            "code {code} is on the ignore-list"
        );
    }
    for code in [2322u32, 1005, 2345, 2769] {
        assert!(
            is_relevant_error(&diag("x", None, None, Some(code))),
            "code {code} is not on the ignore-list"
        );
    }
}

#[test]
fn test_filter_keeps_order_and_drops_ignored() {
    let input = vec![
        diag("a", None, None, Some(2322)),
        diag("b", None, None, Some(2307)),
        diag("c", None, None, None),
        diag("d", None, None, Some(18046)),
        diag("e", None, None, Some(1005)),
    ];
    let out = filter_relevant_diagnostics(input);
    let msgs: Vec<&str> = out.iter().map(|d| d.message.as_str()).collect();
    assert_eq!(msgs, vec!["a", "c", "e"]);
}

#[test]
fn test_parse_tsgo_diagnostics_basic() {
    let output = "file.ts(1,19): error TS2322: Type 'string' is not assignable to type 'number'.";
    let ds = parse_tsgo_diagnostics(output);
    assert_eq!(ds.len(), 1);
    assert_eq!(ds[0].line, Some(1));
    assert_eq!(ds[0].column, Some(19));
    assert_eq!(ds[0].code, Some(2322));
    assert_eq!(ds[0].severity, "error");
    assert_eq!(
        ds[0].message,
        "Type 'string' is not assignable to type 'number'."
    );
}

#[test]
fn test_parse_tsgo_diagnostics_mixed_lines() {
    let output = "\
warming up\n\
a.ts(10,2): error TS2580: Cannot find name 'console'.\r\n\
not a diagnostic line\n\
b.ts(3,4): error TS7006: Parameter implicitly has an 'any' type.";
    let ds = parse_tsgo_diagnostics(output);
    assert_eq!(ds.len(), 2);
    assert_eq!(ds[0].code, Some(2580));
    assert_eq!(ds[0].line, Some(10));
    assert_eq!(ds[1].code, Some(7006));
    assert_eq!(ds[1].column, Some(4));
}

#[test]
fn test_parse_tsgo_diagnostics_rejects_malformed() {
    assert_eq!(parse_tsgo_diagnostics("").len(), 0);
    assert_eq!(parse_tsgo_diagnostics("(1,2): error TS1: x").len(), 0);
    assert_eq!(parse_tsgo_diagnostics("f.ts(1,2): warning TS1: x").len(), 0);
    assert_eq!(parse_tsgo_diagnostics("f.ts(1,2) error TS1: x").len(), 0);
}
