use pctx::client::extract_sse_data;
use pctx::json::{encode_json, encode_json_pretty, JsonValue};
use pctx::token::{classify_token_ref, TokenRef};

fn sample_value() -> JsonValue {
    // keys in sorted order, since the reference encoder sorts object keys
    JsonValue::Object(vec![
        ("age".to_string(), JsonValue::Number("30".to_string())),
        ("empty".to_string(), JsonValue::Array(vec![])),
        ("name".to_string(), JsonValue::Str("Alice \"A\"".to_string())),
        (
            "tags".to_string(),
            JsonValue::Array(vec![
                JsonValue::Str("a\nb".to_string()),
                JsonValue::Null,
                JsonValue::Bool(false),
            ]),
        ),
    ])
}

#[test]
fn test_encode_matches_reference_encoder() {
    let mine = encode_json(&sample_value());
    let reference: serde_json::Value = serde_json::from_str(&mine).expect("output must be valid JSON");
    assert_eq!(mine, serde_json::to_string(&reference).unwrap());
}

#[test]
fn test_pretty_matches_reference_encoder() {
    let mine = encode_json_pretty(&sample_value());
    let reference: serde_json::Value =
        serde_json::from_str(&mine).expect("output must be valid JSON");
    assert_eq!(mine, serde_json::to_string_pretty(&reference).unwrap());
}

#[test]
fn test_encode_escapes() {
    let v = JsonValue::Str("quote \" slash \\ tab \t ctrl \u{1} end".to_string());
    assert_eq!(
        encode_json(&v),
        "\"quote \\\" slash \\\\ tab \\t ctrl \\u0001 end\""
    );
}

#[test]
fn test_extract_sse_data_plain_json() {
    let body = "  {\"ok\":true} \n";
    assert_eq!(extract_sse_data(body).unwrap(), "{\"ok\":true}");
}

#[test]
fn test_extract_sse_data_event_stream() {
    let body = "event: message\r\ndata: {\"jsonrpc\":\"2.0\"}\r\n\r\n";
    assert_eq!(extract_sse_data(body).unwrap(), "{\"jsonrpc\":\"2.0\"}");
}

#[test]
fn test_extract_sse_data_missing_data_line() {
    let body = "event: message\nid: 7\n";
    let err = extract_sse_data(body).expect_err("a stream without data must fail");
    assert_eq!(err.message(), "MCP tool call error: SSE response missing data line");
}

#[test]
fn test_classify_token_refs() {
    match classify_token_ref("${MY_TOKEN}").unwrap() {
        TokenRef::EnvVar(v) => assert_eq!(v, "MY_TOKEN"),
        _ => panic!("expected an environment reference"),
    }
    match classify_token_ref("keychain://pctx/my-server").unwrap() {
        TokenRef::Keychain { service, account } => {
            assert_eq!(service, "pctx");
            assert_eq!(account, "my-server");
        }
        _ => panic!("expected a keychain reference"),
    }
    match classify_token_ref("command://printf 'x'").unwrap() {
        TokenRef::Command(c) => assert_eq!(c, "printf 'x'"),
        _ => panic!("expected a command reference"),
    }
    match classify_token_ref("sk_live_abc123").unwrap() {
        TokenRef::Literal(v) => assert_eq!(v, "sk_live_abc123"),
        _ => panic!("expected a literal"),
    }
    match classify_token_ref("${UNCLOSED").unwrap() {
        TokenRef::Literal(v) => assert_eq!(v, "${UNCLOSED"),
        _ => panic!("a malformed variable reference is a literal"),
    }
}

#[test]
fn test_classify_invalid_keychain_refs() {
    let err = classify_token_ref("keychain://service-only").expect_err("one part must fail");
    assert!(err.message().contains("Invalid keychain reference"));
    let err2 =
        classify_token_ref("keychain://service/account/extra").expect_err("three parts must fail");
    assert!(err2.message().contains("Invalid keychain reference"));
}

#[test]
fn test_bearer_credentials_header() {
    let creds = pctx::token::bearer_credentials("test_bearer_value");
    assert_eq!(creds.headers.len(), 1);
    assert_eq!(creds.headers[0].0, "Authorization");
    assert_eq!(creds.headers[0].1, "Bearer test_bearer_value");
    assert!(creds.query.is_empty());
}

#[test]
fn test_cached_oauth_header_freshness() {
    let creds = pctx::token::OAuthCredentials {
        access_token: "acc_token_123".to_string(),
        refresh_token: None,
        expires_at: Some(1_000_000),
        token_type: Some("Bearer".to_string()),
    };
    let fresh = pctx::token::cached_oauth_header(&creds, 999_000);
    assert_eq!(fresh.unwrap(), "Bearer acc_token_123");
    let stale = pctx::token::cached_oauth_header(&creds, 999_941);
    assert!(stale.is_none(), "within sixty seconds of expiry is stale");
    let no_expiry = pctx::token::OAuthCredentials {
        access_token: "t".to_string(),
        refresh_token: None,
        expires_at: None,
        token_type: None,
    };
    assert!(pctx::token::cached_oauth_header(&no_expiry, 0).is_none());
}

#[test]
fn test_version() {
    assert_eq!(pctx::version(), "0.1.0");
}
