//! The upstream client's wire logic: Streamable HTTP responses arrive as
//! plain JSON or as an SSE stream whose first `data:` line carries the
//! payload, requests are JSON-RPC 2.0 envelopes, and a tool result is
//! interpreted by fixed preference rules.  The transport itself and the
//! deserialization of envelopes run outside the library and hand these
//! functions plain values.

use vstd::prelude::*;

verus! {

use crate::json::JsonValue;
use crate::json::encode_json_into;
use crate::json::spec_encode;
use crate::json::spec_quoted;
use crate::registry::McpError;
use crate::text::chars_of;
use crate::text::push_decimal;
use crate::text::push_str_chars;
use crate::text::spec_decimal;
use crate::text::string_from_chars;

/// ASCII spacing characters stripped when trimming a payload line.
pub open spec fn spec_is_blank(c: char) -> bool {
    c == ' ' || c == '\t' || c == '\r' || c == '\n'
}

/// `s` without leading and trailing spacing.
pub open spec fn spec_trimmed(s: Seq<char>) -> Seq<char>
    decreases s.len(),
{
    if s.len() == 0 {
        s
    } else if spec_is_blank(s[0]) {
        spec_trimmed(s.drop_first())
    } else if spec_is_blank(s.last()) {
        spec_trimmed(s.drop_last())
    } else {
        s
    }
}

/// Copy the range `[from, to)` of `v`, trimmed of spacing on both sides.
#[verifier::loop_isolation(false)]
fn trimmed_range(v: &Vec<char>, from: usize, to: usize) -> (r: String)
    requires
        from <= to <= v@.len(),
    ensures
        r@ == spec_trimmed(v@.subrange(from as int, to as int)),
{
    let mut a = from;
    let mut b = to;
    while a < b && (v[a] == ' ' || v[a] == '\t' || v[a] == '\r' || v[a] == '\n')
        invariant
            from <= a <= b <= to,
            spec_trimmed(v@.subrange(from as int, to as int)) == spec_trimmed(
                v@.subrange(a as int, b as int),
            ),
        decreases b - a,
    {
        proof {
            assert(v@.subrange(a as int, b as int).drop_first() =~= v@.subrange(
                a + 1,
                b as int,
            ));
        }
        a = a + 1;
    }
    while a < b && (v[b - 1] == ' ' || v[b - 1] == '\t' || v[b - 1] == '\r' || v[b - 1] == '\n')
        invariant
            from <= a <= b <= to,
            a < b ==> !spec_is_blank(v@[a as int]),
            spec_trimmed(v@.subrange(from as int, to as int)) == spec_trimmed(
                v@.subrange(a as int, b as int),
            ),
        decreases b - a,
    {
        proof {
            assert(v@.subrange(a as int, b as int).drop_last() =~= v@.subrange(
                a as int,
                b - 1,
            ));
        }
        b = b - 1;
    }
    let mut out: Vec<char> = Vec::new();
    let mut i = a;
    while i < b
        invariant
            a <= i <= b <= v@.len(),
            out@ == v@.subrange(a as int, i as int),
        decreases b - i,
    {
        out.push(v[i]);
        i = i + 1;
        assert(out@ =~= v@.subrange(a as int, i as int));
    }
    proof {
        assert(out@ =~= v@.subrange(a as int, b as int));
        if a < b {
            assert(!spec_is_blank(v@.subrange(a as int, b as int)[0]));
            assert(!spec_is_blank(v@.subrange(a as int, b as int).last()));
        }
        assert(spec_trimmed(v@.subrange(a as int, b as int)) =~= v@.subrange(
            a as int,
            b as int,
        ));
    }
    string_from_chars(&out)
}

/// Whether the range `[from, from+p.len())` of `v` reads `p`.
#[verifier::loop_isolation(false)]
fn range_starts_with(v: &Vec<char>, from: usize, p: &str) -> (r: bool)
    requires
        from <= v@.len(),
    ensures
        r == (v@.len() - from >= p@.len() && v@.subrange(from as int, from + p@.len() as int)
            == p@),
{
    let pc = chars_of(p);
    if v.len() - from < pc.len() {
        return false;
    }
    let mut i: usize = 0;
    while i < pc.len()
        invariant
            pc@ == p@,
            i <= pc@.len(),
            from + pc@.len() <= v@.len(),
            forall|j: int| 0 <= j < i ==> v@[from + j] == pc@[j],
        decreases pc@.len() - i,
    {
        if v[from + i] != pc[i] {
            assert(v@.subrange(from as int, from + pc@.len() as int)[i as int] != pc@[
                i as int]);
            return false;
        }
        i = i + 1;
    }
    proof {
        assert(v@.subrange(from as int, from + pc@.len() as int) =~= pc@);
    }
    true
}

/// The index of the first newline of `s`, or its length when it has none.
pub open spec fn spec_line_break(s: Seq<char>) -> int
    decreases s.len(),
{
    if s.len() == 0 {
        0
    } else if s[0] == '\n' {
        0
    } else {
        1 + spec_line_break(s.drop_first())
    }
}

/// The first line break lies within the text.
pub proof fn lemma_line_break_bounds(s: Seq<char>)
    ensures
        0 <= spec_line_break(s) <= s.len(),
    decreases s.len(),
{
    if s.len() > 0 && s[0] != '\n' {
        lemma_line_break_bounds(s.drop_first());
    }
}

/// Pin the first line break from a scan's facts.
pub proof fn lemma_line_break_at(s: Seq<char>, i: int)
    requires
        0 <= i <= s.len(),
        forall|j: int| 0 <= j < i ==> s[j] != '\n',
        i < s.len() ==> s[i] == '\n',
    ensures
        spec_line_break(s) == i,
    decreases i,
{
    if s.len() > 0 && s[0] != '\n' {
        assert(forall|j: int| 0 <= j < i - 1 ==> s.drop_first()[j] != '\n');
        lemma_line_break_at(s.drop_first(), i - 1);
    }
}

/// Trimming ignores a trailing spacing character.
proof fn lemma_trim_trailing(x: Seq<char>)
    requires
        x.len() > 0,
        spec_is_blank(x.last()),
    ensures
        spec_trimmed(x) == spec_trimmed(x.drop_last()),
    decreases x.len(),
{
    if spec_is_blank(x[0]) {
        if x.len() == 1 {
            assert(x.drop_last() =~= Seq::<char>::empty());
            assert(x.drop_first() =~= Seq::<char>::empty());
        } else {
            assert(x.drop_first().last() == x.last());
            lemma_trim_trailing(x.drop_first());
            assert(x.drop_first().drop_last() =~= x.drop_last().drop_first());
            assert(x.drop_last()[0] == x[0]);
            assert(x.drop_last().len() > 0);
            assert(spec_trimmed(x) == spec_trimmed(x.drop_first()));
            assert(spec_trimmed(x.drop_last()) == spec_trimmed(x.drop_last().drop_first()));
        }
    }
}

/// The payload of an SSE stream: the rest of the first line opening with
/// `data:`, trimmed; nothing when no line does.  Lines are separated by
/// newlines; a carriage return before the break is spacing and trims
/// away.
pub open spec fn spec_sse_payload(s: Seq<char>) -> Option<Seq<char>>
    decreases s.len(),
    via spec_sse_payload_dec
{
    let p = spec_line_break(s);
    let line = s.subrange(0, p);
    if line.len() >= 5 && line.subrange(0, 5) == "data:"@ {
        Some(spec_trimmed(line.subrange(5, line.len() as int)))
    } else if p >= s.len() {
        None
    } else {
        spec_sse_payload(s.subrange(p + 1, s.len() as int))
    }
}

#[via_fn]
proof fn spec_sse_payload_dec(s: Seq<char>) {
    lemma_line_break_bounds(s);
}

/// Whether a response body opens as an SSE stream.
pub open spec fn spec_sse_opening(s: Seq<char>) -> bool {
    ||| (s.len() >= 6 && s.subrange(0, 6) == "event:"@)
    ||| (s.len() >= 5 && s.subrange(0, 5) == "data:"@)
}

/// Scan the stream from a line boundary for its first `data:` line.
#[verifier::loop_isolation(false)]
#[verifier::rlimit(100)]
#[verifier::spinoff_prover]
fn scan_sse(cs: &Vec<char>, start: usize) -> (r: Option<String>)
    requires
        start <= cs@.len(),
    ensures
        r is Some <==> spec_sse_payload(cs@.subrange(start as int, cs@.len() as int)) is Some,
        r matches Some(p) ==> Some(p@) == spec_sse_payload(
            cs@.subrange(start as int, cs@.len() as int),
        ),
    decreases cs@.len() - start,
{
    let ghost suffix = cs@.subrange(start as int, cs@.len() as int);
    // find the end of this line
    let mut i: usize = start;
    while i < cs.len() && cs[i] != '\n'
        invariant
            start <= i <= cs@.len(),
            forall|j: int| start <= j < i ==> cs@[j] != '\n',
        decreases cs@.len() - i,
    {
        i = i + 1;
    }
    proof {
        assert(forall|j: int| 0 <= j < i - start ==> suffix[j] != '\n');
        lemma_line_break_at(suffix, i - start);
    }
    let ghost p = (i - start) as int;
    let ghost line = suffix.subrange(0, p);
    let is_data = range_starts_with(cs, start, "data:") && i - start >= 5;
    proof {
        reveal_strlit("data:");
        if line.len() >= 5 && line.subrange(0, 5) == "data:"@ {
            assert(cs@.subrange(start as int, start + 5) =~= line.subrange(0, 5));
            assert(is_data);
        }
        if is_data {
            assert(line.subrange(0, 5) =~= cs@.subrange(start as int, start + 5));
        }
    }
    if is_data {
        proof {
            reveal_strlit("data:");
            assert(cs@[start + 4] == "data:"@[4]);
            assert(cs@[start + 4] == ':');
        }
        let mut line_end = i;
        if line_end > start && cs[line_end - 1] == '\r' {
            line_end = line_end - 1;
        }
        let out = trimmed_range(cs, start + 5, line_end);
        proof {
            let body = line.subrange(5, line.len() as int);
            if i - start > 5 && cs@[i - 1] == '\r' {
                assert(body.last() == cs@[i - 1]);
                lemma_trim_trailing(body);
                assert(body.drop_last() =~= cs@.subrange(start + 5, i - 1));
            } else {
                assert(body =~= cs@.subrange(start + 5, line_end as int));
            }
        }
        return Some(out);
    }
    if i >= cs.len() {
        return None;
    }
    let r = scan_sse(cs, i + 1);
    proof {
        assert(cs@.subrange(i + 1, cs@.len() as int) =~= suffix.subrange(
            p + 1,
            suffix.len() as int,
        ));
    }
    r
}

/// Extract the JSON payload of a Streamable HTTP response.  A body that
/// opens with `event:` or `data:` is an SSE stream: the payload is the
/// rest of its first `data:` line, trimmed, and a stream without one is
/// an error.  Any other body is the payload itself, trimmed.
pub fn extract_sse_data(response_text: &str) -> (r: Result<String, McpError>)
    ensures
        !spec_sse_opening(response_text@) ==> (r matches Ok(p) && p@ == spec_trimmed(
            response_text@,
        )),
        spec_sse_opening(response_text@) ==> (r is Ok <==> spec_sse_payload(response_text@)
            is Some),
        (spec_sse_opening(response_text@) && r is Ok) ==> (r matches Ok(p) && Some(p@)
            == spec_sse_payload(response_text@)),
        r matches Err(e) ==> e matches McpError::ToolCall(m) && m@
            == "SSE response missing data line"@,
{
    let cs = chars_of(response_text);
    let is_sse = range_starts_with(&cs, 0, "event:") || range_starts_with(&cs, 0, "data:");
    proof {
        reveal_strlit("event:");
        reveal_strlit("data:");
    }
    assert(is_sse == spec_sse_opening(response_text@));
    if !is_sse {
        let out = trimmed_range(&cs, 0, cs.len());
        proof {
            assert(cs@.subrange(0, cs@.len() as int) =~= response_text@);
        }
        return Ok(out);
    }
    proof {
        assert(cs@.subrange(0, cs@.len() as int) =~= response_text@);
    }
    match scan_sse(&cs, 0) {
        Some(payload) => Ok(payload),
        None => Err(McpError::ToolCall(String::from_str("SSE response missing data line"))),
    }
}

/// The JSON-RPC 2.0 envelope of one `tools/call` request.
pub open spec fn spec_tool_call_request(
    id: nat,
    tool: Seq<char>,
    arguments: Option<JsonValue>,
) -> Seq<char> {
    "{\"jsonrpc\":\"2.0\",\"id\":"@ + spec_decimal(id) + ",\"method\":\"tools/call\",\"params\":{\"name\":"@
        + spec_quoted(tool) + (match arguments {
        Some(a) => ",\"arguments\":"@ + spec_encode(a),
        None => Seq::empty(),
    }) + "}}"@
}

/// Serialize one `tools/call` request.
pub fn tool_call_request_json(id: u64, tool: &str, arguments: &Option<JsonValue>) -> (r: String)
    ensures
        r@ == spec_tool_call_request(id as nat, tool@, *arguments),
{
    let mut out = chars_of("{\"jsonrpc\":\"2.0\",\"id\":");
    push_decimal(&mut out, id);
    push_str_chars(&mut out, ",\"method\":\"tools/call\",\"params\":{\"name\":");
    let mut name_chars: Vec<char> = Vec::new();
    encode_json_into(&JsonValue::Str(String::from_str(tool)), &mut name_chars);
    proof {
        reveal_with_fuel(crate::json::spec_encode, 2);
        assert(name_chars@ =~= spec_quoted(tool@));
    }
    push_str_chars(&mut out, string_from_chars(&name_chars).as_str());
    match arguments {
        Some(a) => {
            push_str_chars(&mut out, ",\"arguments\":");
            encode_json_into(a, &mut out);
        },
        None => {},
    }
    push_str_chars(&mut out, "}}");
    assert(out@ =~= spec_tool_call_request(id as nat, tool@, *arguments));
    string_from_chars(&out)
}

/// One item of a tool result's content array, as the wire carries it.
pub enum ContentItem {
    /// A text item: its text.
    Text(String),
    /// Any other item, already marshaled to a JSON value.
    Other(JsonValue),
}

/// A parsed `tools/call` result.
pub struct ToolCallOutcome {
    pub is_error: Option<bool>,
    pub structured_content: Option<JsonValue>,
    pub content: Option<Vec<ContentItem>>,
}

/// The JSON form of one content item: a text item marshals to
/// `{"type":"text","text":...}`, anything else is already a value.
pub open spec fn spec_content_item_value(c: ContentItem) -> Seq<char> {
    match c {
        ContentItem::Text(t) => "{\"type\":\"text\",\"text\":"@ + spec_quoted(t@) + "}"@,
        ContentItem::Other(v) => spec_encode(v),
    }
}

/// Build the JSON value of one content item.
fn content_item_value(c: ContentItem) -> (r: JsonValue)
    ensures
        spec_encode(r) == spec_content_item_value(c),
{
    match c {
        ContentItem::Text(t) => {
            let mut entries: Vec<(String, JsonValue)> = Vec::new();
            entries.push(
                (String::from_str("type"), JsonValue::Str(String::from_str("text"))),
            );
            entries.push((String::from_str("text"), JsonValue::Str(t)));
            let r = JsonValue::Object(entries);
            proof {
                reveal_strlit("type");
                reveal_strlit("text");
                reveal_strlit("{\"type\":\"text\",\"text\":");
                reveal_strlit("}");
                reveal_with_fuel(crate::json::spec_encode_entries, 4);
                reveal_with_fuel(crate::json::spec_encode, 4);
                crate::json::lemma_escape_plain("type"@);
                crate::json::lemma_escape_plain("text"@);
                assert(spec_encode(r) =~= spec_content_item_value(c));
            }
            r
        },
        ContentItem::Other(v) => v,
    }
}

/// Interpret a `tools/call` result.  An error flag fails the call;
/// otherwise `structuredContent` is preferred; otherwise, when the first
/// content item is text, the caller's parse of that text decides: a
/// JSON value passes through, unparseable text comes back as a string
/// value.  A content array not led by text comes back whole, as an
/// array of item values; a missing array is an error.
///
/// `first_text_json` is the outcome of parsing the first item's text as
/// JSON, which the caller performs; the result is stated for every value
/// of it.
pub fn interpret_tool_result(
    server: &str,
    tool: &str,
    outcome: ToolCallOutcome,
    first_text_json: Option<JsonValue>,
) -> (r: Result<JsonValue, McpError>)
    ensures
        outcome.is_error == Some(true) ==> (r matches Err(e) && (e matches McpError::ToolCall(m)
            && m@ == "Tool call \""@ + server@ + "."@ + tool@ + "\" failed"@)),
        (outcome.is_error != Some(true) && outcome.structured_content is Some) ==> r
            == Ok::<JsonValue, McpError>(outcome.structured_content->0),
        (outcome.is_error != Some(true) && outcome.structured_content is None
            && outcome.content is None) ==> (r matches Err(e) && (e matches McpError::ToolCall(m)
            && m@ == "Tool call \""@ + server@ + "."@ + tool@ + "\" returned no content"@)),
        (outcome.is_error != Some(true) && outcome.structured_content is None
            && outcome.content is Some && outcome.content->0@.len() > 0
            && outcome.content->0@[0] is Text) ==> (match first_text_json {
            Some(v) => r == Ok::<JsonValue, McpError>(v),
            None => r matches Ok(rv) && (rv matches JsonValue::Str(s) && s@
                == outcome.content->0@[0]->Text_0@),
        }),
        (outcome.is_error != Some(true) && outcome.structured_content is None
            && outcome.content is Some && (outcome.content->0@.len() == 0 || !(
        outcome.content->0@[0] is Text))) ==> (r matches Ok(rv) && (rv
            matches JsonValue::Array(vs) && vs@.len() == outcome.content->0@.len() && forall|
            j: int,
        |
            0 <= j < vs@.len() ==> spec_encode(#[trigger] vs@[j]) == spec_content_item_value(
                outcome.content->0@[j],
            ))),
{
    match outcome.is_error {
        Some(true) => {
            let mut msg = chars_of("Tool call \"");
            push_str_chars(&mut msg, server);
            push_str_chars(&mut msg, ".");
            push_str_chars(&mut msg, tool);
            push_str_chars(&mut msg, "\" failed");
            return Err(McpError::ToolCall(string_from_chars(&msg)));
        },
        _ => {},
    }
    match outcome.structured_content {
        Some(v) => {
            return Ok(v);
        },
        None => {},
    }
    let items = match outcome.content {
        None => {
            let mut msg = chars_of("Tool call \"");
            push_str_chars(&mut msg, server);
            push_str_chars(&mut msg, ".");
            push_str_chars(&mut msg, tool);
            push_str_chars(&mut msg, "\" returned no content");
            return Err(McpError::ToolCall(string_from_chars(&msg)));
        },
        Some(items) => items,
    };
    let mut rest = items;
    if rest.len() > 0 && matches!(&rest[0], ContentItem::Text(_)) {
        let first = rest.remove(0);
        match first {
            ContentItem::Text(t) => {
                return match first_text_json {
                    Some(v) => Ok(v),
                    None => Ok(JsonValue::Str(t)),
                };
            },
            _ => {
                proof {
                    assert(false);
                }
            },
        }
    }
    // no leading text item: the whole array comes back as JSON values
    let ghost items0 = rest@;
    let mut values: Vec<JsonValue> = Vec::new();
    while rest.len() > 0
        invariant
            values@.len() + rest@.len() == items0.len(),
            rest@ =~= items0.subrange(values@.len() as int, items0.len() as int),
            forall|j: int|
                0 <= j < values@.len() ==> spec_encode(#[trigger] values@[j])
                    == spec_content_item_value(items0[j]),
        decreases rest@.len(),
    {
        let ghost k = values@.len() as int;
        let c = rest.remove(0);
        proof {
            assert(c == items0[k]);
        }
        let v = content_item_value(c);
        values.push(v);
        proof {
            assert(rest@ =~= items0.subrange(values@.len() as int, items0.len() as int));
        }
    }
    Ok(JsonValue::Array(values))
}

/// Why connecting to an upstream failed: it demanded credentials, or the
/// transport broke.
#[derive(Debug)]
pub enum McpConnectionError {
    /// The server answered with an authentication challenge.
    RequiresAuth,
    /// Connection failed: network error, invalid URL, a broken handshake.
    Failed(String),
}

/// The rendering of a connection error.
pub open spec fn spec_connect_error_message(e: McpConnectionError) -> Seq<char> {
    match e {
        McpConnectionError::RequiresAuth => "Server requires authentication"@,
        McpConnectionError::Failed(m) => "Failed to connect: "@ + m@,
    }
}

impl McpConnectionError {
    /// The human-readable message of this error.
    pub fn message(&self) -> (r: String)
        ensures
            r@ == spec_connect_error_message(*self),
    {
        match self {
            McpConnectionError::RequiresAuth => String::from_str(
                "Server requires authentication",
            ),
            McpConnectionError::Failed(m) => {
                let mut out = chars_of("Failed to connect: ");
                push_str_chars(&mut out, m.as_str());
                string_from_chars(&out)
            },
        }
    }
}

/// Classify a failed `initialize`: an authentication challenge asks the
/// caller to prompt for credentials, anything else carries its detail.
pub fn classify_connect_failure(auth_required: bool, detail: String) -> (r: McpConnectionError)
    ensures
        auth_required ==> r is RequiresAuth,
        !auth_required ==> (r matches McpConnectionError::Failed(m) && m == detail),
{
    if auth_required {
        McpConnectionError::RequiresAuth
    } else {
        McpConnectionError::Failed(detail)
    }
}

} // verus!
