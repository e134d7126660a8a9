//! The host of a program's calls: which tools it may call, with which arguments,
//! and what it gets back.
use crate::call_guard;
use crate::call_guard::NestedCallGuard;
use crate::code_mode;
use crate::code_mode::{
    stats_value, CodeModeError, CodeModeExecution, CodeModeHostError, CodeModeStats,
    CodeModeToolRequest, CodeModeToolResponse,
};
use crate::composition;
use crate::composition::{copy_counts, CallAccount};
use crate::json;
use crate::json::{add_field, set_field, text_value, JsonValue};
use crate::orchestration;
use crate::text;
use crate::text::{byte_count, clip_bytes, has_prefix, same_text};
use crate::tool_result;
use crate::tool_result::ToolResult;
use vstd::prelude::*;
use vstd::string::*;

verus! {

/// A failure that a program gets to see takes at most this many bytes.
pub const MAX_MODEL_ERROR_BYTES: usize = 16384;

/// So many bytes of a longer failure are kept in front of its ellipsis.
pub const MODEL_ERROR_HEAD_BYTES: usize = 16381;

/// The tools that a program may call: each is named here, and none because of
/// what it does.
pub open spec fn nested_tool_names() -> Seq<Seq<char>> {
    seq![
        "read_files"@,
        "search_project_texts"@,
        "project_overview"@,
        "list_project_tracked_files"@,
        "git_status"@,
        "git_log"@,
        "git_diff_hunks"@,
        "git_review_summary"@,
        "show_changes"@,
    ]
}

/// The fields that only the Server sets.
pub open spec fn forbidden_field_names() -> Seq<Seq<char>> {
    seq![
        "project"@,
        "session_id"@,
        "recording_session_id"@,
        "ack_session_context_revision"@,
        "ack_session_message_ids"@,
        "context_request"@,
        "session_message_resolution"@,
        "expected_failure"@,
        "expected_failure_kind"@,
        "result_expectation"@,
        "accepted_exit_codes"@,
        "assertion_name"@,
    ]
}

/// Whether a field is a private one of the Server.
pub open spec fn is_private(field: Seq<char>) -> bool {
    text::begins_with(field, "__webcodex_"@)
}

/// The first key of a private field.
pub open spec fn first_private(fields: Seq<(Seq<char>, json::JsonView)>) -> Option<Seq<char>>
    decreases fields.len(),
{
    if fields.len() == 0 {
        None
    } else if is_private(fields[0].0) {
        Some(fields[0].0)
    } else {
        first_private(fields.drop_first())
    }
}

/// The characters of each of some names.
pub open spec fn names(values: Seq<&'static str>) -> Seq<Seq<char>> {
    Seq::new(values.len(), |i: int| values[i]@)
}

/// The tools that a program may call.
pub fn read_only_nested_tools() -> (tools: Vec<&'static str>)
    ensures
        names(tools@) == nested_tool_names(),
{
    let tools: Vec<&'static str> = vec![
        "read_files",
        "search_project_texts",
        "project_overview",
        "list_project_tracked_files",
        "git_status",
        "git_log",
        "git_diff_hunks",
        "git_review_summary",
        "show_changes",
    ];
    assert(names(tools@) =~= nested_tool_names());
    tools
}

/// The fields that only the Server sets.
pub fn forbidden_nested_fields() -> (fields: Vec<&'static str>)
    ensures
        names(fields@) == forbidden_field_names(),
{
    let fields: Vec<&'static str> = vec![
        "project",
        "session_id",
        "recording_session_id",
        "ack_session_context_revision",
        "ack_session_message_ids",
        "context_request",
        "session_message_resolution",
        "expected_failure",
        "expected_failure_kind",
        "result_expectation",
        "accepted_exit_codes",
        "assertion_name",
    ];
    assert(names(fields@) =~= forbidden_field_names());
    fields
}

/// Whether a program may call a tool.
pub fn is_admitted_nested_tool(tool_name: &str) -> (found: bool)
    ensures
        found == nested_tool_names().contains(tool_name@),
{
    let tools = read_only_nested_tools();
    let mut i: usize = 0;
    while i < tools.len()
        invariant
            i <= tools@.len(),
            names(tools@) == nested_tool_names(),
            forall|j: int| 0 <= j < i ==> (#[trigger] names(tools@)[j]) != tool_name@,
        decreases tools@.len() - i,
    {
        if same_text(tools[i], tool_name) {
            assert(nested_tool_names()[i as int] == tool_name@);
            return true;
        }
        i = i + 1;
    }
    assert forall|j: int| 0 <= j < nested_tool_names().len() implies nested_tool_names()[j]
        != tool_name@ by {
        assert(names(tools@)[j] == nested_tool_names()[j]);
    }
    false
}

/// The first of some names that is a field.
pub open spec fn first_present(
    fields: Seq<(Seq<char>, json::JsonView)>,
    wanted: Seq<Seq<char>>,
) -> Option<Seq<char>>
    decreases wanted.len(),
{
    if wanted.len() == 0 {
        None
    } else if json::lookup(fields, wanted[0]) is Some {
        Some(wanted[0])
    } else {
        first_present(fields, wanted.drop_first())
    }
}

/// The first of some names that is a field.
pub fn find_present<'a>(fields: &Vec<(String, JsonValue)>, wanted: &'a Vec<&'static str>) -> (found:
    Option<&'a str>)
    ensures
        text::str_of(found) == first_present(json::fields_view(fields@), names(wanted@)),
{
    let ghost all = names(wanted@);
    let ghost held = json::fields_view(fields@);
    let mut i: usize = 0;
    assert(all.skip(0) =~= all);
    while i < wanted.len()
        invariant
            i <= wanted@.len(),
            all == names(wanted@),
            held == json::fields_view(fields@),
            first_present(held, all) == first_present(held, all.skip(i as int)),
        decreases wanted@.len() - i,
    {
        if json::field(fields, wanted[i]).is_some() {
            return Some(wanted[i]);
        }
        assert(all.skip(i as int).drop_first() =~= all.skip(i + 1));
        i = i + 1;
    }
    None
}

fn find_private(fields: &Vec<(String, JsonValue)>) -> (found: Option<&str>)
    ensures
        text::str_of(found) == first_private(json::fields_view(fields@)),
{
    let ghost all = json::fields_view(fields@);
    let mut i: usize = 0;
    assert(all.skip(0) =~= all);
    while i < fields.len()
        invariant
            i <= fields@.len(),
            all == json::fields_view(fields@),
            first_private(all) == first_private(all.skip(i as int)),
        decreases fields@.len() - i,
    {
        if has_prefix(fields[i].0.as_str(), "__webcodex_") {
            return Some(fields[i].0.as_str());
        }
        assert(all.skip(i as int).drop_first() =~= all.skip(i + 1));
        i = i + 1;
    }
    None
}

/// Arguments with the project and the session that the Server chose.
pub open spec fn targeted(
    fields: Seq<(Seq<char>, json::JsonView)>,
    project: Seq<char>,
    session_id: Seq<char>,
) -> Seq<(Seq<char>, json::JsonView)> {
    json::with_field(
        json::with_field(fields, "project"@, json::JsonView::Text(project)),
        "session_id"@,
        json::JsonView::Text(session_id),
    )
}

/// Arguments with the project and the session that the Server chose.
pub fn with_target(fields: Vec<(String, JsonValue)>, project: &str, session_id: &str) -> (arguments:
    JsonValue)
    ensures
        arguments@ == json::JsonView::Object(
            targeted(json::fields_view(fields@), project@, session_id@),
        ),
{
    let located = set_field(fields, "project", text_value(project));
    let all = set_field(located, "session_id", text_value(session_id));
    proof {
        json::lemma_object_view(all);
    }
    JsonValue::Object(all)
}

/// The message for arguments that set a field of the Server.
pub open spec fn server_owned_message(field: Seq<char>) -> Seq<char> {
    "nested tool arguments may not set server-owned field `"@ + field + "`"@
}

/// The arguments with which a tool is called for a program, or why it is not.
pub open spec fn prepared(
    tool_name: Seq<char>,
    arguments: json::JsonView,
    project: Seq<char>,
    session_id: Seq<char>,
) -> Result<json::JsonView, Seq<char>> {
    if tool_name == "code_mode_exec"@ || !nested_tool_names().contains(tool_name) {
        Err("nested tool `"@ + tool_name + "` is not admitted by Code Mode E1"@)
    } else {
        match arguments {
            json::JsonView::Object(fields) => match first_present(
                fields,
                forbidden_field_names(),
            ) {
                Some(field) => Err(server_owned_message(field)),
                None => match first_private(fields) {
                    Some(field) => Err(server_owned_message(field)),
                    None => Ok(json::JsonView::Object(targeted(fields, project, session_id))),
                },
            },
            _ => Err("nested tool arguments must be a JSON object"@),
        }
    }
}

/// Why a tool call was refused before it began.
#[derive(Debug)]
pub enum ToolCallErrorStatus {
    InvalidArguments { message: String },
    InsufficientScope { description: String },
}

/// What a tool call came to.
#[derive(Debug)]
pub struct ToolCallOutcome {
    pub error_status: Option<ToolCallErrorStatus>,
    pub result: Option<ToolResult>,
}

/// Whether a call went well: it was not refused, and the tool succeeded.
pub open spec fn call_succeeded(outcome: ToolCallOutcome) -> bool {
    outcome.error_status is None && (outcome.result matches Some(result) && result.success)
}

/// Whether a call went well.
pub fn nested_success(outcome: &ToolCallOutcome) -> (success: bool)
    ensures
        success == call_succeeded(*outcome),
{
    if outcome.error_status.is_some() {
        return false;
    }
    match &outcome.result {
        Some(result) => result.success,
        None => false,
    }
}

/// What a call hands back: the result of the tool, or the message of a refusal.
pub open spec fn call_result(outcome: ToolCallOutcome) -> Result<ToolResult, Seq<char>> {
    match outcome.error_status {
        Some(ToolCallErrorStatus::InvalidArguments { message }) => Err(message@),
        Some(ToolCallErrorStatus::InsufficientScope { description }) => Err(description@),
        None => match outcome.result {
            Some(result) => Ok(result),
            None => Err("canonical ToolRuntime returned no nested ToolResult"@),
        },
    }
}

/// What a call hands back.
pub fn nested_result(outcome: ToolCallOutcome) -> (result: Result<ToolResult, String>)
    ensures
        match result {
            Ok(held) => call_result(outcome) == Ok::<ToolResult, Seq<char>>(held),
            Err(message) => call_result(outcome) == Err::<ToolResult, Seq<char>>(message@),
        },
{
    match outcome.error_status {
        Some(ToolCallErrorStatus::InvalidArguments { message }) => Err(message),
        Some(ToolCallErrorStatus::InsufficientScope { description }) => Err(description),
        None => match outcome.result {
            Some(result) => Ok(result),
            None => Err("canonical ToolRuntime returned no nested ToolResult".to_owned()),
        },
    }
}

/// How many bytes the result of a call takes as JSON text.
pub open spec fn returned_bytes(outcome: ToolCallOutcome) -> int {
    match outcome.result {
        Some(result) => text::byte_len(
            json::rendered_json(tool_result::result_document(result@)),
        ) as int,
        None => 0,
    }
}

/// How many bytes the result of a call takes as JSON text.
pub fn raw_result_bytes(outcome: &ToolCallOutcome) -> (bytes: usize)
    ensures
        bytes == returned_bytes(*outcome),
{
    match &outcome.result {
        Some(result) => result.serialized_json_len(),
        None => 0,
    }
}

/// The part of a run that went by before it began: no more than the whole.
pub open spec fn waited_within(slot_wait_ms: u64, duration_ms: u64) -> u64 {
    if slot_wait_ms <= duration_ms {
        slot_wait_ms
    } else {
        duration_ms
    }
}

/// What is recorded of a program's calls. The wait for a place to run in is a
/// part of the run.
#[derive(Debug)]
pub struct CodeModeCompositionSummary {
    pub nested_calls: usize,
    pub nested_successes: usize,
    pub nested_failures: usize,
    pub max_in_flight: usize,
    pub duration_ms: u64,
    pub slot_wait_ms: u64,
    pub returned_bytes: usize,
    pub nested_raw_result_bytes_total: usize,
    pub nested_tool_counts: Vec<(String, usize)>,
}

/// The account of a program's calls.
#[derive(Debug)]
pub struct CodeModeCompositionAccumulator {
    pub account: CallAccount,
}

impl CodeModeCompositionAccumulator {
    /// An account of no calls.
    pub fn new() -> (accumulator: CodeModeCompositionAccumulator)
        ensures
            composition::adds_up(accumulator.account),
            composition::is_empty(accumulator.account),
    {
        CodeModeCompositionAccumulator { account: CallAccount::new() }
    }

    /// Enters a call that begins, and hands out its number.
    pub fn begin_call(&mut self, tool_name: &str) -> (ordinal: usize)
        ensures
            composition::adds_up(old(self).account) && old(self).account.nested_calls < usize::MAX
                ==> composition::adds_up(final(self).account),
            composition::begun(old(self).account, final(self).account, tool_name@),
            ordinal == final(self).account.nested_calls,
    {
        self.account.begin_call(tool_name)
    }

    /// Enters the end of a call, with the size of what it handed back.
    pub fn finish_call(&mut self, success: bool, raw_result_bytes: usize)
        ensures
            composition::ended(
                old(self).account,
                final(self).account,
                success,
                raw_result_bytes as int,
            ),
            composition::adds_up(old(self).account) && old(self).account.in_flight > 0
                ==> composition::adds_up(final(self).account),
    {
        self.account.finish_call(success, raw_result_bytes);
    }

    /// What is recorded of the calls, with the numbers of the run.
    pub fn summary(&self, stats: &CodeModeStats, slot_wait_ms: u64) -> (summary:
        CodeModeCompositionSummary)
        ensures
            summary.nested_calls == self.account.nested_calls,
            summary.nested_successes == self.account.nested_successes,
            summary.nested_failures == self.account.nested_failures,
            summary.max_in_flight == self.account.max_in_flight,
            summary.duration_ms == stats.duration_ms,
            summary.slot_wait_ms == waited_within(slot_wait_ms, stats.duration_ms),
            summary.slot_wait_ms <= summary.duration_ms,
            summary.returned_bytes == stats.returned_bytes,
            summary.nested_raw_result_bytes_total == self.account.nested_raw_result_bytes_total,
            composition::counts_view(summary.nested_tool_counts@) == composition::counts_view(
                self.account.nested_tool_counts@,
            ),
    {
        CodeModeCompositionSummary {
            nested_calls: self.account.nested_calls,
            nested_successes: self.account.nested_successes,
            nested_failures: self.account.nested_failures,
            max_in_flight: self.account.max_in_flight,
            duration_ms: stats.duration_ms,
            slot_wait_ms: if slot_wait_ms <= stats.duration_ms {
                slot_wait_ms
            } else {
                stats.duration_ms
            },
            returned_bytes: stats.returned_bytes,
            nested_raw_result_bytes_total: self.account.nested_raw_result_bytes_total,
            nested_tool_counts: copy_counts(&self.account.nested_tool_counts),
        }
    }
}

/// The host of the calls of one program, bound to one project and one session.
#[derive(Debug)]
pub struct RootCodeModeHost {
    pub project: String,
    pub session_id: String,
    pub composition: CodeModeCompositionAccumulator,
}

impl RootCodeModeHost {
    /// A host for a project and a session, with no calls yet.
    pub fn new(project: &str, session_id: &str) -> (host: RootCodeModeHost)
        ensures
            host.project@ == project@,
            host.session_id@ == session_id@,
            composition::adds_up(host.composition.account),
            composition::is_empty(host.composition.account),
    {
        RootCodeModeHost {
            project: project.to_owned(),
            session_id: session_id.to_owned(),
            composition: CodeModeCompositionAccumulator::new(),
        }
    }

    /// Enters a call that begins, and hands out its number and its guard.
    pub fn begin_nested_call(&mut self, tool_name: &str) -> (begun: (usize, NestedCallGuard))
        ensures
            composition::adds_up(old(self).composition.account)
                && old(self).composition.account.nested_calls < usize::MAX ==> composition::adds_up(
                final(self).composition.account,
            ),
            final(self).project == old(self).project,
            final(self).session_id == old(self).session_id,
            composition::begun(
                old(self).composition.account,
                final(self).composition.account,
                tool_name@,
            ),
            begun.0 == final(self).composition.account.nested_calls,
            !begun.1.finished,
    {
        (self.composition.begin_call(tool_name), NestedCallGuard::new())
    }

    /// What is recorded of the calls, with the numbers of the run.
    pub fn composition_summary(&self, stats: &CodeModeStats, slot_wait_ms: u64) -> (summary:
        CodeModeCompositionSummary)
        ensures
            summary.nested_calls == self.composition.account.nested_calls,
            summary.nested_successes == self.composition.account.nested_successes,
            summary.nested_failures == self.composition.account.nested_failures,
            summary.max_in_flight == self.composition.account.max_in_flight,
            summary.duration_ms == stats.duration_ms,
            summary.slot_wait_ms == waited_within(slot_wait_ms, stats.duration_ms),
            summary.slot_wait_ms <= summary.duration_ms,
            summary.returned_bytes == stats.returned_bytes,
            summary.nested_raw_result_bytes_total
                == self.composition.account.nested_raw_result_bytes_total,
            composition::counts_view(summary.nested_tool_counts@) == composition::counts_view(
                self.composition.account.nested_tool_counts@,
            ),
    {
        self.composition.summary(stats, slot_wait_ms)
    }

    /// The arguments with which a tool is called for the program.
    pub fn prepare_arguments(&self, request: &CodeModeToolRequest) -> (result: Result<
        JsonValue,
        CodeModeHostError,
    >)
        ensures
            ({
                let expected = prepared(
                    request.tool_name@,
                    request.arguments@,
                    self.project@,
                    self.session_id@,
                );
                match result {
                    Ok(arguments) => expected == Ok::<json::JsonView, Seq<char>>(arguments@),
                    Err(error) => expected == Err::<json::JsonView, Seq<char>>(error.message@),
                }
            }),
    {
        if same_text(request.tool_name.as_str(), "code_mode_exec") || !is_admitted_nested_tool(
            request.tool_name.as_str(),
        ) {
            let mut message = "nested tool `".to_owned();
            message.append(request.tool_name.as_str());
            message.append("` is not admitted by Code Mode E1");
            return Err(CodeModeHostError { message });
        }
        match request.arguments.duplicate() {
            JsonValue::Object(fields) => {
                proof {
                    json::lemma_object_view(fields);
                }
                let forbidden = forbidden_nested_fields();
                let named = find_present(&fields, &forbidden);
                let owned = match named {
                    Some(field) => Some(field),
                    None => find_private(&fields),
                };
                if let Some(field) = owned {
                    let mut message =
                        "nested tool arguments may not set server-owned field `".to_owned();
                    message.append(field);
                    message.append("`");
                    return Err(CodeModeHostError { message });
                }
                Ok(with_target(fields, self.project.as_str(), self.session_id.as_str()))
            },
            _ => Err(CodeModeHostError::new("nested tool arguments must be a JSON object")),
        }
    }

    /// Begins a call of a tool for the program, with the arguments of the call, its
    /// number and its guard: a call that is refused is not counted.
    pub fn start_call(&mut self, request: &CodeModeToolRequest) -> (start: Result<
        (JsonValue, usize, NestedCallGuard),
        CodeModeHostError,
    >)
        ensures
            composition::adds_up(old(self).composition.account)
                && old(self).composition.account.nested_calls < usize::MAX ==> composition::adds_up(
                final(self).composition.account,
            ),
            final(self).project == old(self).project,
            final(self).session_id == old(self).session_id,
            ({
                let expected = prepared(
                    request.tool_name@,
                    request.arguments@,
                    old(self).project@,
                    old(self).session_id@,
                );
                match start {
                    Ok((arguments, ordinal, guard)) => {
                        &&& !guard.finished
                        &&& expected == Ok::<json::JsonView, Seq<char>>(arguments@)
                        &&& ordinal == final(self).composition.account.nested_calls
                        &&& composition::begun(
                            old(self).composition.account,
                            final(self).composition.account,
                            request.tool_name@,
                        )
                    },
                    Err(error) => {
                        &&& expected == Err::<json::JsonView, Seq<char>>(error.message@)
                        &&& *final(self) == *old(self)
                    },
                }
            }),
    {
        match self.prepare_arguments(request) {
            Ok(arguments) => {
                let (ordinal, guard) = self.begin_nested_call(request.tool_name.as_str());
                Ok((arguments, ordinal, guard))
            },
            Err(error) => Err(error),
        }
    }

    /// Ends a call: what the program gets of it.
    pub fn end_call(&mut self, guard: &mut NestedCallGuard, outcome: ToolCallOutcome) -> (response:
        Result<CodeModeToolResponse, CodeModeHostError>)
        ensures
            final(guard).finished,
            final(self).project == old(self).project,
            final(self).session_id == old(self).session_id,
            call_guard::counted_end(
                old(guard).finished,
                old(self).composition.account,
                final(self).composition.account,
                call_succeeded(outcome),
                returned_bytes(outcome),
            ),
            composition::adds_up(old(self).composition.account)
                && old(self).composition.account.in_flight > 0 ==> composition::adds_up(
                final(self).composition.account,
            ),
            responds(outcome, response),
    {
        let success = nested_success(&outcome);
        guard.finish(&mut self.composition.account, success, raw_result_bytes(&outcome));
        nested_response(outcome)
    }

    /// Ends a call that was given up.
    pub fn give_up_call(&mut self, guard: &mut NestedCallGuard)
        ensures
            final(guard).finished,
            final(self).project == old(self).project,
            final(self).session_id == old(self).session_id,
            call_guard::counted_end(
                old(guard).finished,
                old(self).composition.account,
                final(self).composition.account,
                false,
                0,
            ),
            composition::adds_up(old(self).composition.account)
                && old(self).composition.account.in_flight > 0 ==> composition::adds_up(
                final(self).composition.account,
            ),
    {
        guard.give_up(&mut self.composition.account);
    }
}

/// Whether a program gets the result of a call, or why there is none.
pub open spec fn responds(
    outcome: ToolCallOutcome,
    response: Result<CodeModeToolResponse, CodeModeHostError>,
) -> bool {
    match response {
        Ok(held) => call_result(outcome) matches Ok(result) && held.success == result.success
            && held.output@ == result.output@ && text::text_of(held.error) == text::text_of(
            result.error,
        ),
        Err(error) => call_result(outcome) == Err::<ToolResult, Seq<char>>(error.message@),
    }
}

/// What a call hands back to a program.
pub fn nested_response(outcome: ToolCallOutcome) -> (response: Result<
    CodeModeToolResponse,
    CodeModeHostError,
>)
    ensures
        responds(outcome, response),
{
    match nested_result(outcome) {
        Ok(result) => Ok(
            CodeModeToolResponse {
                success: result.success,
                output: result.output,
                error: result.error,
            },
        ),
        Err(message) => Err(CodeModeHostError { message }),
    }
}

// ---- The result of a program -----------------------------------------------------------

/// A failure as a program's caller gets to see it: whole where it is short, else
/// its beginning and an ellipsis.
pub open spec fn shown_failure(message: Seq<char>) -> Seq<char> {
    if text::byte_len(message) <= MAX_MODEL_ERROR_BYTES {
        message
    } else {
        text::clipped(message, MODEL_ERROR_HEAD_BYTES as nat) + "…"@
    }
}

/// A failure as a program's caller gets to see it.
pub fn bounded_model_error(message: &str) -> (shown: String)
    ensures
        shown@ == shown_failure(message@),
        text::byte_len(shown@) <= MAX_MODEL_ERROR_BYTES,
{
    if byte_count(message) <= MAX_MODEL_ERROR_BYTES {
        return message.to_owned();
    }
    let mut shown = clip_bytes(message, MODEL_ERROR_HEAD_BYTES);
    let ghost head = shown@;
    shown.append("…");
    proof {
        text::lemma_ellipsis_bytes();
        text::lemma_byte_len_add(head, "…"@);
    }
    shown
}

/// The texts of a list, as a document.
pub open spec fn texts_document(content: Seq<Seq<char>>) -> json::JsonView {
    json::JsonView::Array(Seq::new(content.len(), |i: int| json::JsonView::Text(content[i])))
}

fn texts_value(content: &Vec<String>) -> (document: JsonValue)
    ensures
        document@ == texts_document(text::texts(content@)),
{
    let mut items: Vec<JsonValue> = Vec::new();
    let mut i: usize = 0;
    while i < content.len()
        invariant
            i <= content@.len(),
            items@.len() == i,
            forall|j: int|
                0 <= j < i ==> (#[trigger] items@[j])@ == json::JsonView::Text(content@[j]@),
        decreases content@.len() - i,
    {
        items.push(text_value(content[i].as_str()));
        i = i + 1;
    }
    proof {
        json::lemma_array_view(items);
        assert(json::items_view(items@) =~= texts_document(text::texts(content@))->Array_0);
    }
    JsonValue::Array(items)
}

/// The document of a program that ran to its end.
pub open spec fn execution_document(execution: CodeModeExecution) -> json::JsonView {
    json::JsonView::Object(
        seq![
            ("content"@, texts_document(text::texts(execution.content@))),
            ("stats"@, code_mode::stats_document(execution.stats)),
        ],
    )
}

/// The document of a program that failed.
pub open spec fn failure_document(error: CodeModeError) -> json::JsonView {
    json::JsonView::Object(
        seq![
            ("failure_kind"@, json::JsonView::Text(code_mode::kind_name(error.kind))),
            ("message"@, json::JsonView::Text(shown_failure(error.message@))),
            ("stats"@, code_mode::stats_document(error.stats)),
        ],
    )
}

/// The result of a program, and the numbers of its run. What a program says is
/// only in the document; the error itself is the same for every failure.
pub fn execution_result(execution: &Result<CodeModeExecution, CodeModeError>) -> (result: (
    ToolResult,
    CodeModeStats,
))
    ensures
        match *execution {
            Ok(execution) => result.0@ == tool_result::succeeded(execution_document(execution))
                && result.1 == execution.stats,
            Err(error) => result.0@ == tool_result::failed(
                "code mode execution failed"@,
                failure_document(error),
            ) && result.1 == error.stats,
        },
{
    let mut fields: Vec<(String, JsonValue)> = Vec::new();
    match execution {
        Ok(execution) => {
            add_field(&mut fields, "content", texts_value(&execution.content));
            add_field(&mut fields, "stats", stats_value(&execution.stats));
            proof {
                json::lemma_object_view(fields);
                assert(json::fields_view(fields@) =~= execution_document(*execution)->Object_0);
            }
            (ToolResult::ok(JsonValue::Object(fields)), execution.stats)
        },
        Err(error) => {
            add_field(&mut fields, "failure_kind", text_value(error.kind.as_str()));
            let shown = bounded_model_error(error.message.as_str());
            add_field(&mut fields, "message", text_value(shown.as_str()));
            add_field(&mut fields, "stats", stats_value(&error.stats));
            proof {
                json::lemma_object_view(fields);
                assert(json::fields_view(fields@) =~= failure_document(*error)->Object_0);
            }
            (
                ToolResult::err_with_output("code mode execution failed", JsonValue::Object(fields)),
                error.stats,
            )
        },
    }
}

// ---- Laws ---------------------------------------------------------------------------------

/// A tool is called for a program only with the project and the session of its
/// host, and only where the program itself set no field of the Server; every
/// other argument is the program's.
pub proof fn law_host_chooses_project_and_session(
    tool_name: Seq<char>,
    arguments: json::JsonView,
    project: Seq<char>,
    session_id: Seq<char>,
    key: Seq<char>,
)
    ensures
        prepared(tool_name, arguments, project, session_id) matches Ok(made) ==> {
            &&& made.get("project"@) == Some(json::JsonView::Text(project))
            &&& made.get("session_id"@) == Some(json::JsonView::Text(session_id))
            &&& orchestration::server_owned(key) ==> arguments.get(key) is None
            &&& key != "project"@ && key != "session_id"@ ==> made.get(key) == arguments.get(key)
        },
{
    reveal_strlit("project");
    reveal_strlit("session_id");
    assert("project"@.len() != "session_id"@.len());
    if let json::JsonView::Object(fields) = arguments {
        lemma_none_present(fields, forbidden_field_names(), key);
        lemma_none_private(fields, key);
        let located = json::with_field(fields, "project"@, json::JsonView::Text(project));
        lemma_targeted(fields, project, session_id, "project"@);
        lemma_targeted(fields, project, session_id, "session_id"@);
        lemma_targeted(fields, project, session_id, key);
    }
}

pub proof fn lemma_targeted(
    fields: Seq<(Seq<char>, json::JsonView)>,
    project: Seq<char>,
    session_id: Seq<char>,
    key: Seq<char>,
)
    ensures
        json::lookup(targeted(fields, project, session_id), key) == if key == "session_id"@ {
            Some(json::JsonView::Text(session_id))
        } else if key == "project"@ {
            Some(json::JsonView::Text(project))
        } else {
            json::lookup(fields, key)
        },
{
    let located = json::with_field(fields, "project"@, json::JsonView::Text(project));
    json::lemma_with_field_lookup(fields, "project"@, json::JsonView::Text(project), key);
    json::lemma_with_field_lookup(
        located,
        "session_id"@,
        json::JsonView::Text(session_id),
        key,
    );
}

pub proof fn lemma_none_present(
    fields: Seq<(Seq<char>, json::JsonView)>,
    wanted: Seq<Seq<char>>,
    key: Seq<char>,
)
    ensures
        first_present(fields, wanted) is None && wanted.contains(key) ==> json::lookup(
            fields,
            key,
        ) is None,
    decreases wanted.len(),
{
    if wanted.len() > 0 {
        let rest = wanted.drop_first();
        lemma_none_present(fields, rest, key);
        if wanted.contains(key) && wanted[0] != key {
            let i = choose|i: int| 0 <= i < wanted.len() && wanted[i] == key;
            assert(rest[i - 1] == key);
            assert(rest.contains(key));
        }
    }
}

proof fn lemma_none_private(fields: Seq<(Seq<char>, json::JsonView)>, key: Seq<char>)
    ensures
        first_private(fields) is None && is_private(key) ==> json::lookup(fields, key) is None,
    decreases fields.len(),
{
    if fields.len() > 0 {
        lemma_none_private(fields.drop_first(), key);
    }
}

/// A program cannot start another program: that tool is never called for one.
pub proof fn law_programs_do_not_nest(
    arguments: json::JsonView,
    project: Seq<char>,
    session_id: Seq<char>,
)
    ensures
        prepared("code_mode_exec"@, arguments, project, session_id) is Err,
{
}

/// Only a tool that is named is called for a program.
pub proof fn law_only_named_tools_are_called(
    tool_name: Seq<char>,
    arguments: json::JsonView,
    project: Seq<char>,
    session_id: Seq<char>,
)
    ensures
        prepared(tool_name, arguments, project, session_id) is Ok ==> nested_tool_names().contains(
            tool_name,
        ),
{
}

/// A call counts as one that went well exactly where the program gets a result
/// that says so.
pub proof fn law_counted_success_is_what_the_program_sees(outcome: ToolCallOutcome)
    ensures
        call_succeeded(outcome) <==> (call_result(outcome) matches Ok(result) && result.success),
{
}

/// The counts of a program name only tools that programs may call: they do so
/// after every call that begins, if they did before it.
pub proof fn law_counts_name_only_admitted_tools(
    tool_name: Seq<char>,
    arguments: json::JsonView,
    project: Seq<char>,
    session_id: Seq<char>,
    before: composition::CallAccount,
    after: composition::CallAccount,
)
    requires
        forall|i: int|
            0 <= i < before.nested_tool_counts@.len() ==> nested_tool_names().contains(
                (#[trigger] before.nested_tool_counts@[i]).0@,
            ),
        prepared(tool_name, arguments, project, session_id) is Ok,
        composition::begun(before, after, tool_name),
    ensures
        forall|i: int|
            0 <= i < after.nested_tool_counts@.len() ==> nested_tool_names().contains(
                (#[trigger] after.nested_tool_counts@[i]).0@,
            ),
{
    let counts = composition::counts_view(before.nested_tool_counts@);
    let counted = composition::counts_view(after.nested_tool_counts@);
    assert forall|i: int|
        0 <= i < after.nested_tool_counts@.len() implies nested_tool_names().contains(
        (#[trigger] after.nested_tool_counts@[i]).0@,
    ) by {
        composition::law_only_called_tools_are_counted(counts, tool_name, i);
        assert(counted[i].0 == after.nested_tool_counts@[i].0@);
        if counted[i].0 != tool_name {
            let j = choose|j: int|
                0 <= j < counts.len() && #[trigger] counts[j].0 == counted[i].0;
            assert(counts[j].0 == before.nested_tool_counts@[j].0@);
        }
    }
}

/// A program that ran to its end is answered with what it emitted, item by item in
/// the order in which it was emitted, and with the figures of its run.
pub proof fn law_emitted_texts_are_returned_in_order(execution: CodeModeExecution)
    ensures
        execution_document(execution) is Object,
        (execution_document(execution)->Object_0).len() == 2,
        execution_document(execution).get("content"@) matches Some(json::JsonView::Array(items))
            && items.len() == execution.content@.len() && forall|i: int|
            0 <= i < items.len() ==> #[trigger] items[i] == json::JsonView::Text(
                execution.content@[i]@,
            ),
        execution_document(execution).get("stats"@) == Some(
            code_mode::stats_document(execution.stats),
        ),
{
    reveal_strlit("content");
    reveal_strlit("stats");
    assert("content"@.len() == 7);
    assert("stats"@.len() == 5);
    let fields = execution_document(execution)->Object_0;
    json::law_field_is_found(fields, 0);
    json::law_field_is_found(fields, 1);
}

/// A program that failed is answered with the kind of its failure, with what it
/// said, whole where that fits and its beginning where it does not, and with the
/// figures of its run.
pub proof fn law_failure_is_told_as_it_was(error: CodeModeError)
    ensures
        failure_document(error) is Object,
        (failure_document(error)->Object_0).len() == 3,
        failure_document(error).get("failure_kind"@) == Some(
            json::JsonView::Text(code_mode::kind_name(error.kind)),
        ),
        text::byte_len(error.message@) <= 16384 ==> failure_document(error).get("message"@) == Some(
            json::JsonView::Text(error.message@),
        ),
        text::byte_len(error.message@) > 16384 ==> (failure_document(error).get(
            "message"@,
        ) matches Some(json::JsonView::Text(shown)) && shown.len() > 0 && shown.last() == '…'
            && shown.drop_last().is_prefix_of(error.message@) && text::byte_len(shown.drop_last())
            <= 16381),
        failure_document(error).get("stats"@) == Some(code_mode::stats_document(error.stats)),
{
    reveal_strlit("failure_kind");
    reveal_strlit("message");
    reveal_strlit("stats");
    assert("failure_kind"@.len() == 12);
    assert("message"@.len() == 7);
    assert("stats"@.len() == 5);
    reveal_strlit("…");
    let fields = failure_document(error)->Object_0;
    json::law_field_is_found(fields, 0);
    json::law_field_is_found(fields, 1);
    json::law_field_is_found(fields, 2);
    if text::byte_len(error.message@) > 16384 {
        text::lemma_clipped_fits(error.message@, MODEL_ERROR_HEAD_BYTES as nat);
        let kept = text::clipped(error.message@, MODEL_ERROR_HEAD_BYTES as nat);
        assert((kept + "…"@).drop_last() =~= kept);
    }
}

/// The tools that a program may call only look: at files, texts and the history of
/// the project. No other tool is among them.
pub proof fn law_programs_call_tools_that_look(name: Seq<char>)
    ensures
        nested_tool_names().contains(name) <==> name == "read_files"@
            || name == "search_project_texts"@
            || name == "project_overview"@
            || name == "list_project_tracked_files"@
            || name == "git_status"@
            || name == "git_log"@
            || name == "git_diff_hunks"@
            || name == "git_review_summary"@
            || name == "show_changes"@,
{
    let names = nested_tool_names();
    assert(names[0] == "read_files"@);
    assert(names[1] == "search_project_texts"@);
    assert(names[2] == "project_overview"@);
    assert(names[3] == "list_project_tracked_files"@);
    assert(names[4] == "git_status"@);
    assert(names[5] == "git_log"@);
    assert(names[6] == "git_diff_hunks"@);
    assert(names[7] == "git_review_summary"@);
    assert(names[8] == "show_changes"@);
}

/// The fields that only the host sets: the project and the session, what belongs to
/// the session's messages, and what is expected of a result.
pub proof fn law_server_fields_are_these(name: Seq<char>)
    ensures
        forbidden_field_names().contains(name) <==> name == "project"@
            || name == "session_id"@
            || name == "recording_session_id"@
            || name == "ack_session_context_revision"@
            || name == "ack_session_message_ids"@
            || name == "context_request"@
            || name == "session_message_resolution"@
            || name == "expected_failure"@
            || name == "expected_failure_kind"@
            || name == "result_expectation"@
            || name == "accepted_exit_codes"@
            || name == "assertion_name"@,
        is_private("__webcodex_"@ + name),
{
    let names = forbidden_field_names();
    assert(names[0] == "project"@);
    assert(names[1] == "session_id"@);
    assert(names[2] == "recording_session_id"@);
    assert(names[3] == "ack_session_context_revision"@);
    assert(names[4] == "ack_session_message_ids"@);
    assert(names[5] == "context_request"@);
    assert(names[6] == "session_message_resolution"@);
    assert(names[7] == "expected_failure"@);
    assert(names[8] == "expected_failure_kind"@);
    assert(names[9] == "result_expectation"@);
    assert(names[10] == "accepted_exit_codes"@);
    assert(names[11] == "assertion_name"@);
    text::law_prefix_and_suffix(name, "__webcodex_"@, name);
}

/// A call of a program is made where its tool is one that programs may call, its
/// arguments are an object, and none of them is a field that only the host sets.
pub proof fn law_unreserved_arguments_are_passed_on(
    tool_name: Seq<char>,
    fields: Seq<(Seq<char>, json::JsonView)>,
    project: Seq<char>,
    session_id: Seq<char>,
)
    requires
        nested_tool_names().contains(tool_name),
        forall|i: int|
            0 <= i < fields.len() ==> !forbidden_field_names().contains((#[trigger] fields[i]).0)
                && !text::begins_with(fields[i].0, "__webcodex_"@),
    ensures
        prepared(tool_name, json::JsonView::Object(fields), project, session_id) is Ok,
{
    law_programs_call_tools_that_look(tool_name);
    reveal_strlit("code_mode_exec");
    assert("code_mode_exec"@.len() == 14 && "code_mode_exec"@[0] == 'c');
    reveal_strlit("read_files");
    assert("read_files"@.len() == 10);
    reveal_strlit("search_project_texts");
    assert("search_project_texts"@.len() == 20);
    reveal_strlit("project_overview");
    assert("project_overview"@.len() == 16);
    reveal_strlit("list_project_tracked_files");
    assert("list_project_tracked_files"@.len() == 26);
    reveal_strlit("git_status");
    assert("git_status"@.len() == 10);
    reveal_strlit("git_log");
    assert("git_log"@.len() == 7);
    reveal_strlit("git_diff_hunks");
    assert("git_diff_hunks"@.len() == 14 && "git_diff_hunks"@[0] == 'g');
    reveal_strlit("git_review_summary");
    assert("git_review_summary"@.len() == 18);
    reveal_strlit("show_changes");
    assert("show_changes"@.len() == 12);
    assert forall|i: int| 0 <= i < forbidden_field_names().len() implies json::lookup(
        fields,
        #[trigger] forbidden_field_names()[i],
    ) is None by {
        let name = forbidden_field_names()[i];
        assert(forbidden_field_names().contains(name));
        json::law_absent_field_is_not_found(fields, name);
    }
    lemma_first_present_none(fields, forbidden_field_names());
    lemma_first_private_none(fields);
}

proof fn lemma_first_present_none(
    fields: Seq<(Seq<char>, json::JsonView)>,
    wanted: Seq<Seq<char>>,
)
    requires
        forall|i: int| 0 <= i < wanted.len() ==> json::lookup(fields, #[trigger] wanted[i]) is None,
    ensures
        first_present(fields, wanted) is None,
    decreases wanted.len(),
{
    if wanted.len() > 0 {
        assert(json::lookup(fields, wanted[0]) is None);
        let rest = wanted.drop_first();
        assert forall|i: int| 0 <= i < rest.len() implies json::lookup(fields, #[trigger] rest[i])
            is None by {
            assert(rest[i] == wanted[i + 1]);
        }
        lemma_first_present_none(fields, rest);
    }
}

proof fn lemma_first_private_none(fields: Seq<(Seq<char>, json::JsonView)>)
    requires
        forall|i: int|
            0 <= i < fields.len() ==> !text::begins_with(
                (#[trigger] fields[i]).0,
                "__webcodex_"@,
            ),
    ensures
        first_private(fields) is None,
    decreases fields.len(),
{
    if fields.len() > 0 {
        let rest = fields.drop_first();
        assert forall|i: int| 0 <= i < rest.len() implies !text::begins_with(
            (#[trigger] rest[i]).0,
            "__webcodex_"@,
        ) by {
            assert(rest[i] == fields[i + 1]);
        }
        lemma_first_private_none(rest);
    }
}

/// A call that is refused says why: which tool is not one that programs may call,
/// that its arguments are no object, or which field only the host sets.
pub proof fn law_refused_call_says_why(
    tool_name: Seq<char>,
    arguments: json::JsonView,
    project: Seq<char>,
    session_id: Seq<char>,
)
    ensures
        !nested_tool_names().contains(tool_name) ==> prepared(
            tool_name,
            arguments,
            project,
            session_id,
        ) == Err::<json::JsonView, Seq<char>>(
            "nested tool `"@ + tool_name + "` is not admitted by Code Mode E1"@,
        ),
        prepared(tool_name, arguments, project, session_id) is Ok ==> arguments is Object,
        nested_tool_names().contains(tool_name) && tool_name != "code_mode_exec"@ && !(arguments
            is Object) ==> prepared(tool_name, arguments, project, session_id) == Err::<
            json::JsonView,
            Seq<char>,
        >("nested tool arguments must be a JSON object"@),
        prepared(tool_name, arguments, project, session_id) matches Err(message)
            ==> nested_tool_names().contains(tool_name) && tool_name != "code_mode_exec"@
            && arguments is Object ==> exists|field: Seq<char>| #[trigger]
            orchestration::server_owned(field) && message
                == "nested tool arguments may not set server-owned field `"@ + field + "`"@
                && arguments.get(field) is Some,
{
    if nested_tool_names().contains(tool_name) && tool_name != "code_mode_exec"@ {
        if let json::JsonView::Object(fields) = arguments {
            lemma_found_present(fields, forbidden_field_names());
            lemma_found_private(fields);
            if let Some(field) = first_present(fields, forbidden_field_names()) {
                assert(orchestration::server_owned(field));
            } else if let Some(field) = first_private(fields) {
                assert(orchestration::server_owned(field));
            }
        }
    }
}

proof fn lemma_found_present(fields: Seq<(Seq<char>, json::JsonView)>, wanted: Seq<Seq<char>>)
    ensures
        first_present(fields, wanted) matches Some(field) ==> wanted.contains(field)
            && json::lookup(fields, field) is Some,
    decreases wanted.len(),
{
    if wanted.len() > 0 {
        let rest = wanted.drop_first();
        lemma_found_present(fields, rest);
        if json::lookup(fields, wanted[0]) is Some {
            assert(wanted.contains(wanted[0]));
        } else if let Some(field) = first_present(fields, rest) {
            let i = choose|i: int| 0 <= i < rest.len() && rest[i] == field;
            assert(wanted[i + 1] == field);
        }
    }
}

proof fn lemma_found_private(fields: Seq<(Seq<char>, json::JsonView)>)
    ensures
        first_private(fields) matches Some(field) ==> is_private(field) && json::lookup(
            fields,
            field,
        ) is Some,
    decreases fields.len(),
{
    if fields.len() > 0 && !is_private(fields[0].0) {
        lemma_found_private(fields.drop_first());
    }
}

/// What a program gets back of a call: the result of the tool as it is, or, where
/// the call was refused or gave none, why.
pub proof fn law_program_gets_what_the_call_gave(outcome: ToolCallOutcome)
    ensures
        outcome.error_status matches Some(ToolCallErrorStatus::InvalidArguments { message })
            ==> call_result(outcome) == Err::<ToolResult, Seq<char>>(message@),
        outcome.error_status matches Some(ToolCallErrorStatus::InsufficientScope { description })
            ==> call_result(outcome) == Err::<ToolResult, Seq<char>>(description@),
        outcome.error_status is None ==> (outcome.result matches Some(result) ==> call_result(
            outcome,
        ) == Ok::<ToolResult, Seq<char>>(result)),
        outcome.error_status is None && outcome.result is None ==> call_result(outcome) == Err::<
            ToolResult,
            Seq<char>,
        >("canonical ToolRuntime returned no nested ToolResult"@),
        outcome.result is None ==> returned_bytes(outcome) == 0,
{
}

/// The wait for a slot is part of the run: no more of it is reported than the run
/// took, and all of it where it is less.
pub proof fn law_wait_is_within_the_run(slot_wait_ms: u64, duration_ms: u64)
    ensures
        waited_within(slot_wait_ms, duration_ms) <= duration_ms,
        slot_wait_ms <= duration_ms ==> waited_within(slot_wait_ms, duration_ms) == slot_wait_ms,
        slot_wait_ms > duration_ms ==> waited_within(slot_wait_ms, duration_ms) == duration_ms,
{
}

/// A program that ran is answered as a success with what it emitted, each text in
/// its place; one that failed as a failure, with the kind and the message of it. The
/// figures that go with it are those of the run.
pub proof fn law_program_is_answered_as_it_ran(
    execution: Result<CodeModeExecution, CodeModeError>,
    result: (ToolResult, CodeModeStats),
)
    requires
        call_ensures(execution_result, (&execution,), result),
    ensures
        execution matches Ok(ran) ==> {
            &&& result.0.success && result.0.error is None
            &&& result.1 == ran.stats
            &&& result.0.output@.get("content"@) matches Some(json::JsonView::Array(items))
                && items.len() == ran.content@.len() && forall|i: int|
                0 <= i < items.len() ==> #[trigger] items[i] == json::JsonView::Text(
                    ran.content@[i]@,
                )
        },
        execution matches Err(error) ==> {
            &&& !result.0.success && text::text_of(result.0.error) == Some(
                "code mode execution failed"@,
            )
            &&& result.1 == error.stats
            &&& result.0.output@.get("failure_kind"@) == Some(
                json::JsonView::Text(code_mode::kind_name(error.kind)),
            )
            &&& text::byte_len(error.message@) <= 16384 ==> result.0.output@.get("message"@)
                == Some(json::JsonView::Text(error.message@))
        },
{
    match execution {
        Ok(ran) => {
            law_emitted_texts_are_returned_in_order(ran);
        },
        Err(error) => {
            law_failure_is_told_as_it_was(error);
        },
    }
}

/// What is summed up of a program is its account and its run: each figure from where
/// it is kept.
pub proof fn law_summary_holds_the_account(
    accumulator: CodeModeCompositionAccumulator,
    stats: CodeModeStats,
    slot_wait_ms: u64,
    summary: CodeModeCompositionSummary,
)
    requires
        call_ensures(
            CodeModeCompositionAccumulator::summary,
            (&accumulator, &stats, slot_wait_ms),
            summary,
        ),
    ensures
        summary.nested_calls == accumulator.account.nested_calls,
        summary.nested_successes == accumulator.account.nested_successes,
        summary.nested_failures == accumulator.account.nested_failures,
        summary.max_in_flight == accumulator.account.max_in_flight,
        summary.nested_raw_result_bytes_total == accumulator.account.nested_raw_result_bytes_total,
        summary.duration_ms == stats.duration_ms,
        summary.returned_bytes == stats.returned_bytes,
        summary.slot_wait_ms <= stats.duration_ms,
        slot_wait_ms <= stats.duration_ms ==> summary.slot_wait_ms == slot_wait_ms,
        composition::adds_up(accumulator.account) && accumulator.account.in_flight == 0
            ==> summary.nested_successes + summary.nested_failures == summary.nested_calls,
        summary.nested_tool_counts@.len() == accumulator.account.nested_tool_counts@.len(),
        forall|i: int|
            0 <= i < summary.nested_tool_counts@.len() ==> (
            #[trigger] summary.nested_tool_counts@[i]).0@
                == accumulator.account.nested_tool_counts@[i].0@
                && summary.nested_tool_counts@[i].1 == accumulator.account.nested_tool_counts@[i].1,
{
    let shown = composition::counts_view(summary.nested_tool_counts@);
    let counted = composition::counts_view(accumulator.account.nested_tool_counts@);
    assert(shown.len() == counted.len());
    assert forall|i: int| 0 <= i < summary.nested_tool_counts@.len() implies (
    #[trigger] summary.nested_tool_counts@[i]).0@ == accumulator.account.nested_tool_counts@[i].0@
        && summary.nested_tool_counts@[i].1 == accumulator.account.nested_tool_counts@[i].1 by {
        assert(shown[i] == counted[i]);
    }
}

/// The response that a program gets of a call is the result of the tool, in all its
/// parts, where the call gave one, and otherwise an error that says why it did not.
pub proof fn law_response_is_the_result_of_the_tool(
    outcome: ToolCallOutcome,
    response: Result<CodeModeToolResponse, CodeModeHostError>,
)
    requires
        responds(outcome, response),
    ensures
        outcome.error_status is None ==> (outcome.result matches Some(result) ==> (
        response matches Ok(held) && held.success == result.success && held.output@
            == result.output@ && text::text_of(held.error) == text::text_of(result.error))),
        outcome.error_status is None && outcome.result is None ==> (response matches Err(error)
            && error.message@ == "canonical ToolRuntime returned no nested ToolResult"@),
        outcome.error_status matches Some(ToolCallErrorStatus::InvalidArguments { message }) ==> (
        response matches Err(error) && error.message@ == message@),
        outcome.error_status matches Some(ToolCallErrorStatus::InsufficientScope { description })
            ==> (response matches Err(error) && error.message@ == description@),
{
}

} // verus!
