//! Contracts of Code Mode: bounded programs that call tools through a host.
use crate::json::JsonValue;
use vstd::prelude::*;
use vstd::string::*;

verus! {

/// A program takes at most this many bytes.
pub const MAX_SOURCE_BYTES: usize = 65536;

/// A program may run this many milliseconds where nothing else is asked for.
pub const DEFAULT_TIMEOUT_MS: u64 = 5000;

/// A program may run at most this many milliseconds.
pub const MAX_TIMEOUT_MS: u64 = 30000;

/// A program may call at most this many tools.
pub const MAX_TOOL_CALLS: usize = 32;

/// At most this many calls of a program are open at a time.
pub const MAX_CONCURRENT_TOOL_CALLS: usize = 8;

/// A program may emit at most this many bytes.
pub const MAX_OUTPUT_BYTES: usize = 65536;

/// A program may emit at most this many texts.
pub const MAX_OUTPUT_ITEMS: usize = 256;

/// A call of a tool by a program.
#[derive(Debug)]
pub struct CodeModeToolRequest {
    pub tool_name: String,
    pub arguments: JsonValue,
}

/// What a tool hands back to a program.
#[derive(Debug)]
pub struct CodeModeToolResponse {
    pub success: bool,
    pub output: JsonValue,
    pub error: Option<String>,
}

/// Why a host did not answer a call.
#[derive(Debug)]
pub struct CodeModeHostError {
    pub message: String,
}

impl CodeModeHostError {
    /// A failure with a message.
    pub fn new(message: &str) -> (error: CodeModeHostError)
        ensures
            error.message@ == message@,
    {
        CodeModeHostError { message: message.to_owned() }
    }

    /// The message of the failure.
    pub fn message(&self) -> (message: &str)
        ensures
            message@ == self.message@,
    {
        self.message.as_str()
    }
}

/// A program to be run.
#[derive(Debug)]
pub struct CodeModeExecuteRequest {
    pub source: String,
    pub allowed_tools: Vec<String>,
    pub timeout_ms: Option<u64>,
}

/// What a run came to, in numbers.
#[derive(Debug, Clone, Copy, PartialEq, Eq, Structural)]
pub struct CodeModeStats {
    pub tool_calls: usize,
    pub max_in_flight: usize,
    pub duration_ms: u64,
    pub returned_bytes: usize,
}

impl Default for CodeModeStats {
    /// The numbers of a run that did nothing.
    fn default() -> (stats: CodeModeStats)
        ensures
            stats == (CodeModeStats {
                tool_calls: 0,
                max_in_flight: 0,
                duration_ms: 0,
                returned_bytes: 0,
            }),
    {
        CodeModeStats { tool_calls: 0, max_in_flight: 0, duration_ms: 0, returned_bytes: 0 }
    }
}

/// The kind of a failure of a program.
#[derive(Debug, Clone, Copy, PartialEq, Eq, Structural)]
pub enum CodeModeErrorKind {
    InvalidRequest,
    Runtime,
    Timeout,
    ToolCallBudgetExceeded,
    OutputLimitExceeded,
}

/// The name of a kind.
pub open spec fn kind_name(kind: CodeModeErrorKind) -> Seq<char> {
    match kind {
        CodeModeErrorKind::InvalidRequest => "invalid_request"@,
        CodeModeErrorKind::Runtime => "runtime_error"@,
        CodeModeErrorKind::Timeout => "timeout"@,
        CodeModeErrorKind::ToolCallBudgetExceeded => "tool_call_budget_exceeded"@,
        CodeModeErrorKind::OutputLimitExceeded => "output_limit_exceeded"@,
    }
}

impl CodeModeErrorKind {
    /// The name of the kind.
    pub fn as_str(&self) -> (name: &'static str)
        ensures
            name@ == kind_name(*self),
    {
        match self {
            CodeModeErrorKind::InvalidRequest => "invalid_request",
            CodeModeErrorKind::Runtime => "runtime_error",
            CodeModeErrorKind::Timeout => "timeout",
            CodeModeErrorKind::ToolCallBudgetExceeded => "tool_call_budget_exceeded",
            CodeModeErrorKind::OutputLimitExceeded => "output_limit_exceeded",
        }
    }
}

/// Why a program failed.
#[derive(Debug)]
pub struct CodeModeError {
    pub kind: CodeModeErrorKind,
    pub message: String,
    pub stats: CodeModeStats,
}

/// What a program emitted.
#[derive(Debug)]
pub struct CodeModeExecution {
    pub content: Vec<String>,
    pub stats: CodeModeStats,
}

/// The time that a program gets: what was asked for, at least one millisecond and
/// at most the maximum; the default where nothing was asked for.
pub open spec fn granted_timeout(timeout_ms: Option<u64>) -> u64 {
    let asked = match timeout_ms {
        Some(asked) => asked,
        None => DEFAULT_TIMEOUT_MS,
    };
    if asked < 1 {
        1
    } else if asked > MAX_TIMEOUT_MS {
        MAX_TIMEOUT_MS
    } else {
        asked
    }
}

/// The time that a program gets.
pub fn normalized_timeout_ms(timeout_ms: Option<u64>) -> (granted: u64)
    ensures
        granted == granted_timeout(timeout_ms),
        1 <= granted <= MAX_TIMEOUT_MS,
{
    let asked = match timeout_ms {
        Some(asked) => asked,
        None => DEFAULT_TIMEOUT_MS,
    };
    if asked < 1 {
        1
    } else if asked > MAX_TIMEOUT_MS {
        MAX_TIMEOUT_MS
    } else {
        asked
    }
}

/// The numbers of a run, as a document.
pub open spec fn stats_document(stats: CodeModeStats) -> crate::json::JsonView {
    crate::json::JsonView::Object(
        seq![
            ("tool_calls"@, crate::json::number(stats.tool_calls as u64)),
            ("max_in_flight"@, crate::json::number(stats.max_in_flight as u64)),
            ("duration_ms"@, crate::json::number(stats.duration_ms)),
            ("returned_bytes"@, crate::json::number(stats.returned_bytes as u64)),
        ],
    )
}

/// The numbers of a run, as a document.
pub fn stats_value(stats: &CodeModeStats) -> (document: JsonValue)
    ensures
        document@ == stats_document(*stats),
{
    let mut fields: Vec<(String, JsonValue)> = Vec::new();
    crate::json::add_field(
        &mut fields,
        "tool_calls",
        crate::json::number_value(stats.tool_calls as u64),
    );
    crate::json::add_field(
        &mut fields,
        "max_in_flight",
        crate::json::number_value(stats.max_in_flight as u64),
    );
    crate::json::add_field(
        &mut fields,
        "duration_ms",
        crate::json::number_value(stats.duration_ms),
    );
    crate::json::add_field(
        &mut fields,
        "returned_bytes",
        crate::json::number_value(stats.returned_bytes as u64),
    );
    proof {
        crate::json::lemma_object_view(fields);
        assert(crate::json::fields_view(fields@) =~= stats_document(*stats)->Object_0);
    }
    JsonValue::Object(fields)
}

/// Each figure of a program's run stands under its own name.
pub proof fn law_statistics_are_reported_under_their_names(stats: CodeModeStats)
    ensures
        stats_document(stats) is Object,
        (stats_document(stats)->Object_0).len() == 4,
        stats_document(stats).get("tool_calls"@) == Some(crate::json::number(stats.tool_calls as u64)),
        stats_document(stats).get("max_in_flight"@) == Some(crate::json::number(stats.max_in_flight as u64)),
        stats_document(stats).get("duration_ms"@) == Some(crate::json::number(stats.duration_ms)),
        stats_document(stats).get("returned_bytes"@) == Some(crate::json::number(stats.returned_bytes as u64)),
{
    reveal_strlit("tool_calls");
    reveal_strlit("max_in_flight");
    reveal_strlit("duration_ms");
    reveal_strlit("returned_bytes");
    assert("tool_calls"@.len() == 10);
    assert("max_in_flight"@.len() == 13);
    assert("duration_ms"@.len() == 11);
    assert("returned_bytes"@.len() == 14);
    let fields = stats_document(stats)->Object_0;
    crate::json::law_field_is_found(fields, 0);
    crate::json::law_field_is_found(fields, 1);
    crate::json::law_field_is_found(fields, 2);
    crate::json::law_field_is_found(fields, 3);
}

/// The time a program is granted is what was asked for where that lies between a
/// millisecond and half a minute, the nearer of the two where it does not, and
/// five seconds where nothing was asked; more asked is never less granted.
pub proof fn law_timeout_is_what_was_asked_within_bounds(asked: u64, more: u64)
    ensures
        granted_timeout(None) == 5000,
        1 <= asked <= 30000 ==> granted_timeout(Some(asked)) == asked,
        asked > 30000 ==> granted_timeout(Some(asked)) == 30000,
        granted_timeout(Some(0)) == 1,
        asked <= more ==> granted_timeout(Some(asked)) <= granted_timeout(Some(more)),
{
}

/// What went wrong has a name of its own for each kind.
pub proof fn law_kinds_have_names_of_their_own(a: CodeModeErrorKind, b: CodeModeErrorKind)
    ensures
        kind_name(a) == kind_name(b) <==> a == b,
        kind_name(CodeModeErrorKind::Timeout) == "timeout"@,
        kind_name(CodeModeErrorKind::InvalidRequest) == "invalid_request"@,
        kind_name(CodeModeErrorKind::Runtime) == "runtime_error"@,
        kind_name(CodeModeErrorKind::ToolCallBudgetExceeded) == "tool_call_budget_exceeded"@,
        kind_name(CodeModeErrorKind::OutputLimitExceeded) == "output_limit_exceeded"@,
{
    reveal_strlit("invalid_request");
    reveal_strlit("runtime_error");
    reveal_strlit("timeout");
    reveal_strlit("tool_call_budget_exceeded");
    reveal_strlit("output_limit_exceeded");
    assert("invalid_request"@.len() == 15);
    assert("runtime_error"@.len() == 13);
    assert("timeout"@.len() == 7);
    assert("tool_call_budget_exceeded"@.len() == 25);
    assert("output_limit_exceeded"@.len() == 21);
}

} // verus!
