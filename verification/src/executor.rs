//! The executor pipeline's decision logic: diagnostic gating, console
//! capture, default-export extraction, and assembly of the unified
//! execution result.  The JavaScript engine itself runs outside the
//! library and hands these functions plain values.

use vstd::prelude::*;

verus! {

use crate::diagnostics::Diagnostic;
use crate::diagnostics::spec_relevant_prefix;
use crate::diagnostics::filter_relevant_diagnostics;
use crate::json::JsonValue;
use crate::text::chars_of;
use crate::text::push_str_chars;
use crate::text::spec_joined;
use crate::text::join_strings;
use crate::text::string_from_chars;

/// Runtime error information of a failed execution.
pub struct ExecutionError {
    pub message: String,
    pub stack: Option<String>,
}

/// The unified result of one `execute` call.
pub struct ExecuteResult {
    /// Whether the code type-checked and ran to completion.
    pub success: bool,
    /// Type checking diagnostics, after filtering.
    pub diagnostics: Vec<Diagnostic>,
    /// Runtime error information, when execution failed.
    pub runtime_error: Option<ExecutionError>,
    /// The default export of the module, when there was one.
    pub output: Option<JsonValue>,
    /// Captured standard output.
    pub stdout: String,
    /// Captured standard error.
    pub stderr: String,
}

/// The captured console streams of one sandbox: two append-only buffers,
/// one entry per `console` call, each entry the call's arguments joined
/// by single spaces.
pub struct ConsoleBuffers {
    pub stdout: Vec<String>,
    pub stderr: Vec<String>,
}

impl ConsoleBuffers {
    /// Fresh, empty buffers.
    pub fn new() -> (r: ConsoleBuffers)
        ensures
            r.stdout@.len() == 0,
            r.stderr@.len() == 0,
    {
        ConsoleBuffers { stdout: Vec::new(), stderr: Vec::new() }
    }

    /// One `console.log` or `console.info` call: the string forms of all
    /// arguments, joined by single spaces, become one new entry at the
    /// end of the standard output buffer.  The error buffer is untouched.
    pub fn log(&mut self, args: &Vec<String>) -> (entry: String)
        ensures
            entry@ == spec_joined(args@, 0, " "@),
            final(self).stdout@ == old(self).stdout@.push(entry),
            final(self).stderr@ == old(self).stderr@,
    {
        let entry = join_strings(args, " ");
        let copy = entry.clone();
        self.stdout.push(copy);
        entry
    }

    /// One `console.warn` or `console.error` call: mirrors `log` into
    /// the standard error buffer.
    pub fn log_err(&mut self, args: &Vec<String>) -> (entry: String)
        ensures
            entry@ == spec_joined(args@, 0, " "@),
            final(self).stderr@ == old(self).stderr@.push(entry),
            final(self).stdout@ == old(self).stdout@,
    {
        let entry = join_strings(args, " ");
        let copy = entry.clone();
        self.stderr.push(copy);
        entry
    }

    /// The captured streams, each buffer's entries joined by newlines.
    pub fn capture(&self) -> (r: (String, String))
        ensures
            r.0@ == spec_joined(self.stdout@, 0, "\n"@),
            r.1@ == spec_joined(self.stderr@, 0, "\n"@),
    {
        (join_strings(&self.stdout, "\n"), join_strings(&self.stderr, "\n"))
    }
}

/// Law: console capture preserves per-call order within a stream.  A new
/// call appends exactly one entry at the end and leaves every earlier
/// entry where it was.
pub proof fn lemma_console_capture_order(prev: Seq<String>, entry: String)
    ensures
        prev.push(entry).len() == prev.len() + 1,
        prev.push(entry)[prev.len() as int] == entry,
        forall|j: int| 0 <= j < prev.len() ==> prev.push(entry)[j] == prev[j],
{
}

/// The messages of the diagnostics from index `i` on, joined by newlines.
pub open spec fn spec_joined_messages(ds: Seq<Diagnostic>, i: int) -> Seq<char>
    decreases ds.len() - i,
{
    if i < 0 || i >= ds.len() {
        Seq::empty()
    } else if i + 1 == ds.len() {
        ds[i].message@
    } else {
        ds[i].message@ + "\n"@ + spec_joined_messages(ds, i + 1)
    }
}

/// Gate an execution on its type check: when any relevant diagnostic
/// remains after filtering, the result is a failure that carries the
/// retained diagnostics and mirrors their messages into `stderr`, and
/// nothing runs.  With none, nothing is returned and execution proceeds.
#[verifier::loop_isolation(false)]
pub fn check_outcome(diagnostics: Vec<Diagnostic>) -> (r: Option<ExecuteResult>)
    ensures
        r is Some <==> spec_relevant_prefix(diagnostics@, diagnostics@.len() as int).len() > 0,
        r matches Some(res) ==> {
            &&& !res.success
            &&& res.diagnostics@ == spec_relevant_prefix(
                diagnostics@,
                diagnostics@.len() as int,
            )
            &&& res.runtime_error is None
            &&& res.output is None
            &&& res.stdout@ == Seq::<char>::empty()
            &&& res.stderr@ == spec_joined_messages(res.diagnostics@, 0)
        },
{
    let relevant = filter_relevant_diagnostics(diagnostics);
    if relevant.len() == 0 {
        return None;
    }
    let mut msgs: Vec<char> = Vec::new();
    let mut i: usize = 0;
    while i < relevant.len()
        invariant
            i <= relevant@.len(),
            msgs@ + spec_joined_messages(relevant@, i as int) == spec_joined_messages(
                relevant@,
                0,
            ),
        decreases relevant@.len() - i,
    {
        push_str_chars(&mut msgs, relevant[i].message.as_str());
        if i + 1 < relevant.len() {
            push_str_chars(&mut msgs, "\n");
        }
        i = i + 1;
        assert(msgs@ + spec_joined_messages(relevant@, i as int) =~= spec_joined_messages(
            relevant@,
            0,
        ));
    }
    assert(msgs@ =~= spec_joined_messages(relevant@, 0));
    Some(
        ExecuteResult {
            success: false,
            diagnostics: relevant,
            runtime_error: None,
            output: None,
            stdout: String::new(),
            stderr: string_from_chars(&msgs),
        },
    )
}

/// The failure result of a transpilation error.  Nothing ran, so the
/// captured streams are empty and `stderr` falls back on the runtime
/// error's message.
pub fn transpile_failure(detail: &str) -> (r: ExecuteResult)
    ensures
        !r.success,
        r.diagnostics@.len() == 0,
        r.runtime_error matches Some(e) && e.message@ == "Transpilation failed: "@ + detail@
            && e.stack is None,
        r.output is None,
        r.stdout@ == Seq::<char>::empty(),
        r.stderr@ == "Transpilation failed: "@ + detail@,
{
    let mut msg = chars_of("Transpilation failed: ");
    push_str_chars(&mut msg, detail);
    let message = string_from_chars(&msg);
    let stderr = message.clone();
    ExecuteResult {
        success: false,
        diagnostics: Vec::new(),
        runtime_error: Some(ExecutionError { message, stack: None }),
        output: None,
        stdout: String::new(),
        stderr,
    }
}

/// The failure result of the wall-clock timeout.  The runtime is dropped
/// with its buffers, so `stderr` falls back on the runtime error's
/// message.
pub fn timeout_result() -> (r: ExecuteResult)
    ensures
        !r.success,
        r.diagnostics@.len() == 0,
        r.runtime_error matches Some(e) && e.message@ == "Execution timed out after 10 seconds"@
            && e.stack is None,
        r.output is None,
        r.stdout@ == Seq::<char>::empty(),
        r.stderr@ == "Execution timed out after 10 seconds"@,
{
    ExecuteResult {
        success: false,
        diagnostics: Vec::new(),
        runtime_error: Some(
            ExecutionError {
                message: String::from_str("Execution timed out after 10 seconds"),
                stack: None,
            },
        ),
        output: None,
        stdout: String::new(),
        stderr: String::from_str("Execution timed out after 10 seconds"),
    }
}

/// The state of a promise at extraction time.
pub enum PromiseState {
    Fulfilled(JsonValue),
    Pending,
    Rejected,
}

/// What the module namespace's `default` binding looked like.
pub enum ExportValue {
    /// No default export.
    Undefined,
    /// A promise; only a fulfilled one has a value to read.
    Promise(PromiseState),
    /// A plain value that marshaled to JSON.
    Value(JsonValue),
    /// A value that could not be marshaled.
    Unrepresentable,
}

/// Extract the output of an execution from its default export: absent
/// exports, pending or rejected promises, and unmarshalable values yield
/// nothing; a fulfilled promise yields its resolved value; a plain value
/// yields itself.
pub fn extract_output(v: ExportValue) -> (r: Option<JsonValue>)
    ensures
        v is Undefined ==> r is None,
        v matches ExportValue::Promise(PromiseState::Fulfilled(x)) ==> r == Some(x),
        v matches ExportValue::Promise(p) && !(p is Fulfilled) ==> r is None,
        v matches ExportValue::Value(x) ==> r == Some(x),
        v is Unrepresentable ==> r is None,
{
    match v {
        ExportValue::Undefined => None,
        ExportValue::Promise(PromiseState::Fulfilled(x)) => Some(x),
        ExportValue::Promise(_) => None,
        ExportValue::Value(x) => Some(x),
        ExportValue::Unrepresentable => None,
    }
}

/// The decision after driving module evaluation and the event loop
/// together: execution succeeded only when both completed, and when both
/// failed the evaluation error takes precedence.
pub fn combine_drive_errors(
    eval_error: Option<ExecutionError>,
    loop_error: Option<ExecutionError>,
) -> (r: (bool, Option<ExecutionError>))
    ensures
        r.0 == (eval_error is None && loop_error is None),
        eval_error is Some ==> r.1 == eval_error,
        (eval_error is None && loop_error is Some) ==> r.1 == loop_error,
        (r.1 is Some) == !r.0,
{
    match eval_error {
        Some(e) => (false, Some(e)),
        None => match loop_error {
            Some(e) => (false, Some(e)),
            None => (true, None),
        },
    }
}

/// Assemble the final result of an execution that got past the type
/// check: the captured streams are joined by newlines, and when the
/// sandbox produced no captured stderr the runtime error's message takes
/// its place.  Success and the runtime error are consistent: one excludes
/// the other, as `combine_drive_errors` decides them.
pub fn finish_execution(
    success: bool,
    error: Option<ExecutionError>,
    output: Option<JsonValue>,
    stdout_entries: &Vec<String>,
    stderr_entries: &Vec<String>,
) -> (r: ExecuteResult)
    requires
        (error is Some) == !success,
    ensures
        r.success == success,
        r.success ==> r.runtime_error is None,
        !r.success ==> r.runtime_error is Some,
        r.diagnostics@.len() == 0,
        r.output == output,
        r.stdout@ == spec_joined(stdout_entries@, 0, "\n"@),
        spec_joined(stderr_entries@, 0, "\n"@).len() > 0 ==> r.stderr@ == spec_joined(
            stderr_entries@,
            0,
            "\n"@,
        ),
        spec_joined(stderr_entries@, 0, "\n"@).len() == 0 ==> r.stderr@ == (match error {
            Some(e) => e.message@,
            None => Seq::<char>::empty(),
        }),
        r.runtime_error == error,
{
    let stdout = join_strings(stdout_entries, "\n");
    let stderr_captured = join_strings(stderr_entries, "\n");
    let stderr = if stderr_captured.as_str().unicode_len() == 0 {
        match &error {
            Some(e) => e.message.clone(),
            None => String::new(),
        }
    } else {
        stderr_captured
    };
    ExecuteResult {
        success,
        diagnostics: Vec::new(),
        runtime_error: error,
        output,
        stdout,
        stderr,
    }
}

} // verus!
