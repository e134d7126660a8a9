//! The shapes of what goes into a program run and of what comes out of it.
use vstd::prelude::*;

use crate::code_mode;
use crate::code_mode::{
    CodeModeErrorKind, MAX_CONCURRENT_TOOL_CALLS, MAX_OUTPUT_BYTES, MAX_OUTPUT_ITEMS,
    MAX_SOURCE_BYTES, MAX_TOOL_CALLS,
};
use crate::json;
use crate::json::{add_field, number_value, text_value, JsonValue, JsonView};
use crate::nested_host::MAX_MODEL_ERROR_BYTES;
use crate::text::same_text;

verus! {

/// What the schema says of the argument `project`.
pub const PROJECT_COPY: &'static str =
    "Required Project target. Nested JavaScript tool calls cannot select or override Project authority.";

/// What the schema says of the argument `session_id`.
pub const SESSION_ID_COPY: &'static str =
    "Required exact Workflow Session. Nested JavaScript tool calls remain bound to this Session and record canonical evidence there.";

/// What the schema says of the argument `source`.
pub const SOURCE_COPY: &'static str =
    "Bounded JavaScript orchestration source. tools.<name>(args) returns a Promise for admitted read-only tools; use Promise.all only for independent observations, keep result-dependent/adaptive calls sequential, and call text(value) for final bounded output. Project/Session are outer-bound. No shell, filesystem, network, Node, Deno, WebAssembly, mutation, validation, Jobs, plugins, or MCP are exposed.";

/// What the schema says of the argument `timeout_ms`.
pub const TIMEOUT_MS_COPY: &'static str =
    "Optional wall-clock budget in milliseconds. Defaults to 5000 and is server-clamped to 1..30000.";

/// The shape of a Session's name.
pub const SESSION_ID_PATTERN: &'static str = "^wc_sess_([A-Za-z0-9_-]{16}|[0-9a-f]{32})$";

/// What the schema says of the numbers of a run.
pub const STATS_COPY: &'static str =
    "Bounded orchestration evidence for this one-shot Code Mode execution.";

/// What the schema says of one emitted text.
pub const EMISSION_COPY: &'static str = "One bounded text(value) emission.";

/// What the schema says of the emitted texts.
pub const CONTENT_COPY: &'static str =
    "Only text(value) emissions selected by the JavaScript orchestration. Nested raw ToolResults are not copied here automatically.";

/// What the schema says of the message of a failed run.
pub const MESSAGE_COPY: &'static str =
    "Model-facing bounded runtime detail for a failed Code Mode execution. Durable Session result audit omits this field.";

/// What the schema says of the kind of a failed run.
pub const FAILURE_KIND_COPY: &'static str =
    "Present on a bounded Code Mode runtime/host failure. Ordinary nested ToolResult business failures remain JavaScript values and do not become this field.";

// ---- Shapes ------------------------------------------------------------

/// The fields of the shape of a described value.
pub open spec fn described(kind: Seq<char>, description: Seq<char>) -> Seq<(Seq<char>, JsonView)> {
    seq![("type"@, JsonView::Text(kind)), ("description"@, JsonView::Text(description))]
}

/// A list of texts.
pub open spec fn text_list(texts: Seq<Seq<char>>) -> JsonView {
    JsonView::Array(Seq::new(texts.len(), |i: int| JsonView::Text(texts[i])))
}

/// The shape of an integer from 0 up to `most`, where there is a most.
pub open spec fn count_shape(most: Option<u64>) -> JsonView {
    let floor = seq![("type"@, JsonView::Text("integer"@)), ("minimum"@, json::number(0))];
    JsonView::Object(
        match most {
            Some(most) => floor.push(("maximum"@, json::number(most))),
            None => floor,
        },
    )
}

/// The shape of the arguments of a run.
pub open spec fn input_shape() -> JsonView {
    JsonView::Object(
        seq![
            ("type"@, JsonView::Text("object"@)),
            (
                "properties"@,
                JsonView::Object(
                    seq![
                        ("project"@, JsonView::Object(described("string"@, PROJECT_COPY@))),
                        (
                            "session_id"@,
                            JsonView::Object(
                                described("string"@, SESSION_ID_COPY@).push(
                                    ("pattern"@, JsonView::Text(SESSION_ID_PATTERN@)),
                                ),
                            ),
                        ),
                        (
                            "source"@,
                            JsonView::Object(
                                described("string"@, SOURCE_COPY@).push(
                                    ("maxLength"@, json::number(MAX_SOURCE_BYTES as u64)),
                                ),
                            ),
                        ),
                        (
                            "timeout_ms"@,
                            JsonView::Object(
                                described("integer"@, TIMEOUT_MS_COPY@).push(
                                    ("minimum"@, json::number(0)),
                                ),
                            ),
                        ),
                    ],
                ),
            ),
            ("required"@, text_list(seq!["project"@, "session_id"@, "source"@])),
            ("additionalProperties"@, JsonView::Bool(false)),
        ],
    )
}

/// The shape of the numbers of a run.
pub open spec fn stats_shape() -> JsonView {
    JsonView::Object(
        seq![
            ("type"@, JsonView::Text("object"@)),
            ("description"@, JsonView::Text(STATS_COPY@)),
            ("additionalProperties"@, JsonView::Bool(false)),
            (
                "properties"@,
                JsonView::Object(
                    seq![
                        ("tool_calls"@, count_shape(Some(MAX_TOOL_CALLS as u64))),
                        ("max_in_flight"@, count_shape(Some(MAX_CONCURRENT_TOOL_CALLS as u64))),
                        ("duration_ms"@, count_shape(None)),
                        ("returned_bytes"@, count_shape(Some(MAX_OUTPUT_BYTES as u64))),
                    ],
                ),
            ),
            (
                "required"@,
                text_list(
                    seq!["tool_calls"@, "max_in_flight"@, "duration_ms"@, "returned_bytes"@],
                ),
            ),
        ],
    )
}

/// The shape of the emitted texts.
pub open spec fn content_shape() -> JsonView {
    JsonView::Object(
        seq![
            ("type"@, JsonView::Text("array"@)),
            ("items"@, JsonView::Object(described("string"@, EMISSION_COPY@))),
            ("description"@, JsonView::Text(CONTENT_COPY@)),
            ("maxItems"@, json::number(MAX_OUTPUT_ITEMS as u64)),
        ],
    )
}

/// The shape of the message of a failed run.
pub open spec fn message_shape() -> JsonView {
    JsonView::Object(
        described("string"@, MESSAGE_COPY@).push(
            ("maxLength"@, json::number(MAX_MODEL_ERROR_BYTES as u64)),
        ),
    )
}

/// The names of the kinds of failures.
pub open spec fn failure_kinds() -> Seq<Seq<char>> {
    seq![
        "invalid_request"@,
        "runtime_error"@,
        "timeout"@,
        "tool_call_budget_exceeded"@,
        "output_limit_exceeded"@,
    ]
}

/// The shape of the kind of a failed run.
pub open spec fn failure_kind_shape() -> JsonView {
    JsonView::Object(
        seq![
            ("type"@, JsonView::Text("string"@)),
            ("enum"@, text_list(failure_kinds())),
            ("description"@, JsonView::Text(FAILURE_KIND_COPY@)),
        ],
    )
}

/// The shapes of what a run hands back.
pub open spec fn output_shapes() -> Seq<(Seq<char>, JsonView)> {
    seq![
        ("content"@, content_shape()),
        ("stats"@, stats_shape()),
        ("message"@, message_shape()),
        ("failure_kind"@, failure_kind_shape()),
    ]
}

/// Every kind of failure is one that the shape of results names, and the shape
/// names no others.
pub proof fn law_failure_kinds_are_named(name: Seq<char>)
    ensures
        failure_kinds().contains(name) <==> exists|kind: CodeModeErrorKind| #[trigger]
            code_mode::kind_name(kind) == name,
{
    let kinds = seq![
        CodeModeErrorKind::InvalidRequest,
        CodeModeErrorKind::Runtime,
        CodeModeErrorKind::Timeout,
        CodeModeErrorKind::ToolCallBudgetExceeded,
        CodeModeErrorKind::OutputLimitExceeded,
    ];
    assert forall|i: int| 0 <= i < kinds.len() implies #[trigger] failure_kinds()[i]
        == code_mode::kind_name(kinds[i]) by {}
    if failure_kinds().contains(name) {
        let i = choose|i: int| 0 <= i < failure_kinds().len() && failure_kinds()[i] == name;
        assert(code_mode::kind_name(kinds[i]) == name);
    }
    if exists|kind: CodeModeErrorKind| #[trigger] code_mode::kind_name(kind) == name {
        let kind = choose|kind: CodeModeErrorKind| #[trigger] code_mode::kind_name(kind) == name;
        let i: int = match kind {
            CodeModeErrorKind::InvalidRequest => 0,
            CodeModeErrorKind::Runtime => 1,
            CodeModeErrorKind::Timeout => 2,
            CodeModeErrorKind::ToolCallBudgetExceeded => 3,
            CodeModeErrorKind::OutputLimitExceeded => 4,
        };
        assert(failure_kinds()[i] == name);
    }
}

// ---- Building them -----------------------------------------------------

fn describe(kind: &str, description: &str) -> (fields: Vec<(String, JsonValue)>)
    ensures
        json::fields_view(fields@) == described(kind@, description@),
{
    let mut fields: Vec<(String, JsonValue)> = Vec::new();
    add_field(&mut fields, "type", text_value(kind));
    add_field(&mut fields, "description", text_value(description));
    assert(json::fields_view(fields@) =~= described(kind@, description@));
    fields
}

fn object(fields: Vec<(String, JsonValue)>) -> (value: JsonValue)
    ensures
        value@ == JsonView::Object(json::fields_view(fields@)),
{
    proof {
        json::lemma_object_view(fields);
    }
    JsonValue::Object(fields)
}

fn texts_value(texts: &[&str]) -> (value: JsonValue)
    ensures
        value@ == text_list(Seq::new(texts@.len(), |i: int| texts@[i]@)),
{
    let mut items: Vec<JsonValue> = Vec::new();
    let mut i: usize = 0;
    while i < texts.len()
        invariant
            i <= texts@.len(),
            items@.len() == i,
            forall|j: int| 0 <= j < i ==> #[trigger] items@[j]@ == JsonView::Text(texts@[j]@),
        decreases texts@.len() - i,
    {
        items.push(text_value(texts[i]));
        i = i + 1;
    }
    proof {
        json::lemma_array_view(items);
        assert(json::items_view(items@) =~= text_list(
            Seq::new(texts@.len(), |i: int| texts@[i]@),
        )->Array_0);
    }
    JsonValue::Array(items)
}

fn count_schema(most: Option<u64>) -> (schema: JsonValue)
    ensures
        schema@ == count_shape(most),
{
    let mut fields: Vec<(String, JsonValue)> = Vec::new();
    add_field(&mut fields, "type", text_value("integer"));
    add_field(&mut fields, "minimum", number_value(0));
    if let Some(most) = most {
        add_field(&mut fields, "maximum", number_value(most));
    }
    assert(json::fields_view(fields@) =~= count_shape(most)->Object_0);
    object(fields)
}

/// The shape of the arguments of a run.
pub fn code_mode_exec_input_schema() -> (schema: JsonValue)
    ensures
        schema@ == input_shape(),
{
    let mut session = describe("string", SESSION_ID_COPY);
    add_field(&mut session, "pattern", text_value(SESSION_ID_PATTERN));
    let mut source = describe("string", SOURCE_COPY);
    add_field(&mut source, "maxLength", number_value(MAX_SOURCE_BYTES as u64));
    let mut timeout = describe("integer", TIMEOUT_MS_COPY);
    add_field(&mut timeout, "minimum", number_value(0));
    let mut properties: Vec<(String, JsonValue)> = Vec::new();
    add_field(&mut properties, "project", object(describe("string", PROJECT_COPY)));
    add_field(&mut properties, "session_id", object(session));
    add_field(&mut properties, "source", object(source));
    add_field(&mut properties, "timeout_ms", object(timeout));
    let required = ["project", "session_id", "source"];
    let mut fields: Vec<(String, JsonValue)> = Vec::new();
    add_field(&mut fields, "type", text_value("object"));
    proof {
        assert(json::fields_view(properties@) =~= input_shape()->Object_0[1].1->Object_0);
        assert(Seq::new(required@.len(), |i: int| required@[i]@) =~= seq![
            "project"@,
            "session_id"@,
            "source"@,
        ]);
    }
    add_field(&mut fields, "properties", object(properties));
    add_field(&mut fields, "required", texts_value(&required));
    add_field(&mut fields, "additionalProperties", JsonValue::Bool(false));
    assert(json::fields_view(fields@) =~= input_shape()->Object_0);
    object(fields)
}

/// The shape of the numbers of a run.
pub fn stats_schema() -> (schema: JsonValue)
    ensures
        schema@ == stats_shape(),
{
    let mut properties: Vec<(String, JsonValue)> = Vec::new();
    add_field(&mut properties, "tool_calls", count_schema(Some(MAX_TOOL_CALLS as u64)));
    add_field(
        &mut properties,
        "max_in_flight",
        count_schema(Some(MAX_CONCURRENT_TOOL_CALLS as u64)),
    );
    add_field(&mut properties, "duration_ms", count_schema(None));
    add_field(&mut properties, "returned_bytes", count_schema(Some(MAX_OUTPUT_BYTES as u64)));
    let required = ["tool_calls", "max_in_flight", "duration_ms", "returned_bytes"];
    proof {
        assert(json::fields_view(properties@) =~= stats_shape()->Object_0[3].1->Object_0);
        assert(Seq::new(required@.len(), |i: int| required@[i]@) =~= seq![
            "tool_calls"@,
            "max_in_flight"@,
            "duration_ms"@,
            "returned_bytes"@,
        ]);
    }
    let mut fields: Vec<(String, JsonValue)> = Vec::new();
    add_field(&mut fields, "type", text_value("object"));
    add_field(&mut fields, "description", text_value(STATS_COPY));
    add_field(&mut fields, "additionalProperties", JsonValue::Bool(false));
    add_field(&mut fields, "properties", object(properties));
    add_field(&mut fields, "required", texts_value(&required));
    assert(json::fields_view(fields@) =~= stats_shape()->Object_0);
    object(fields)
}

/// The shape of the emitted texts.
pub fn content_schema() -> (schema: JsonValue)
    ensures
        schema@ == content_shape(),
{
    let mut fields: Vec<(String, JsonValue)> = Vec::new();
    add_field(&mut fields, "type", text_value("array"));
    add_field(&mut fields, "items", object(describe("string", EMISSION_COPY)));
    add_field(&mut fields, "description", text_value(CONTENT_COPY));
    add_field(&mut fields, "maxItems", number_value(MAX_OUTPUT_ITEMS as u64));
    assert(json::fields_view(fields@) =~= content_shape()->Object_0);
    object(fields)
}

fn message_schema() -> (schema: JsonValue)
    ensures
        schema@ == message_shape(),
{
    let mut fields = describe("string", MESSAGE_COPY);
    add_field(&mut fields, "maxLength", number_value(MAX_MODEL_ERROR_BYTES as u64));
    assert(json::fields_view(fields@) =~= message_shape()->Object_0);
    object(fields)
}

fn failure_kind_schema() -> (schema: JsonValue)
    ensures
        schema@ == failure_kind_shape(),
{
    let kinds = [
        "invalid_request",
        "runtime_error",
        "timeout",
        "tool_call_budget_exceeded",
        "output_limit_exceeded",
    ];
    assert(Seq::new(kinds@.len(), |i: int| kinds@[i]@) =~= failure_kinds());
    let mut fields: Vec<(String, JsonValue)> = Vec::new();
    add_field(&mut fields, "type", text_value("string"));
    add_field(&mut fields, "enum", texts_value(&kinds));
    add_field(&mut fields, "description", text_value(FAILURE_KIND_COPY));
    assert(json::fields_view(fields@) =~= failure_kind_shape()->Object_0);
    object(fields)
}

/// The shapes of what a tool hands back, field by field; `None` for a tool that
/// runs no program.
pub fn output_schema_for_tool(name: &str) -> (shapes: Option<Vec<(String, JsonValue)>>)
    ensures
        match shapes {
            Some(shapes) => name@ == "code_mode_exec"@ && json::fields_view(shapes@)
                == output_shapes(),
            None => name@ != "code_mode_exec"@,
        },
{
    if !same_text(name, "code_mode_exec") {
        return None;
    }
    let mut shapes: Vec<(String, JsonValue)> = Vec::new();
    add_field(&mut shapes, "content", content_schema());
    add_field(&mut shapes, "stats", stats_schema());
    add_field(&mut shapes, "message", message_schema());
    add_field(&mut shapes, "failure_kind", failure_kind_schema());
    assert(json::fields_view(shapes@) =~= output_shapes());
    Some(shapes)
}

/// What a program may be started with: the project, the session, the source and, if
/// need be, a limit in time; the first three have to be there, and nothing else may.
pub proof fn law_input_names_what_a_program_needs()
    ensures
        input_shape().get("type"@) == Some(JsonView::Text("object"@)),
        input_shape().get("additionalProperties"@) == Some(JsonView::Bool(false)),
        input_shape().get("required"@) == Some(
            JsonView::Array(
                seq![
                    JsonView::Text("project"@),
                    JsonView::Text("session_id"@),
                    JsonView::Text("source"@),
                ],
            ),
        ),
        input_shape().get("properties"@) matches Some(properties) && properties is Object && (
        properties->Object_0).len() == 4 && (properties.get("project"@) matches Some(held)
            && held.get("type"@) == Some(JsonView::Text("string"@))) && (properties.get(
            "session_id"@,
        ) matches Some(held) && held.get("type"@) == Some(JsonView::Text("string"@)) && held.get(
            "pattern"@,
        ) == Some(JsonView::Text(SESSION_ID_PATTERN@))) && (properties.get("source"@) matches Some(
            held,
        ) && held.get("type"@) == Some(JsonView::Text("string"@)) && held.get("maxLength"@) == Some(
            json::number(65536),
        )) && (properties.get("timeout_ms"@) matches Some(held) && held.get("type"@) == Some(
            JsonView::Text("integer"@),
        ) && held.get("minimum"@) == Some(json::number(0))),
{
    reveal_strlit("type");
    reveal_strlit("properties");
    reveal_strlit("required");
    reveal_strlit("additionalProperties");
    assert("type"@.len() == 4);
    assert("properties"@.len() == 10);
    assert("required"@.len() == 8);
    assert("additionalProperties"@.len() == 20);
    reveal_strlit("project");
    reveal_strlit("session_id");
    reveal_strlit("source");
    reveal_strlit("timeout_ms");
    assert("project"@.len() == 7);
    assert("session_id"@.len() == 10);
    assert("source"@.len() == 6);
    assert("timeout_ms"@.len() == 10);
    assert("session_id"@[0] != "timeout_ms"@[0]);
    reveal_strlit("description");
    reveal_strlit("pattern");
    reveal_strlit("maxLength");
    reveal_strlit("minimum");
    assert("description"@.len() == 11);
    assert("pattern"@.len() == 7);
    assert("maxLength"@.len() == 9);
    assert("minimum"@.len() == 7);
    assert("pattern"@[0] != "minimum"@[0]);
    let fields = input_shape()->Object_0;
    json::law_field_is_found(fields, 0);
    json::law_field_is_found(fields, 1);
    json::law_field_is_found(fields, 2);
    json::law_field_is_found(fields, 3);
    let texts = seq!["project"@, "session_id"@, "source"@];
    assert(text_list(texts)->Array_0 =~= seq![
        JsonView::Text("project"@),
        JsonView::Text("session_id"@),
        JsonView::Text("source"@),
    ]);
    let properties = fields[1].1->Object_0;
    json::law_field_is_found(properties, 0);
    json::law_field_is_found(properties, 1);
    json::law_field_is_found(properties, 2);
    json::law_field_is_found(properties, 3);
    json::law_field_is_found(properties[0].1->Object_0, 0);
    json::law_field_is_found(properties[1].1->Object_0, 0);
    json::law_field_is_found(properties[1].1->Object_0, 2);
    json::law_field_is_found(properties[2].1->Object_0, 0);
    json::law_field_is_found(properties[2].1->Object_0, 2);
    json::law_field_is_found(properties[3].1->Object_0, 0);
    json::law_field_is_found(properties[3].1->Object_0, 2);
}

/// A count is a whole number from zero on, up to the limit where there is one.
pub proof fn law_counts_begin_at_zero(most: Option<u64>)
    ensures
        count_shape(most).get("type"@) == Some(JsonView::Text("integer"@)),
        count_shape(most).get("minimum"@) == Some(json::number(0)),
        count_shape(most).get("maximum"@) == (match most {
            Some(most) => Some(json::number(most)),
            None => None,
        }),
{
    reveal_strlit("type");
    reveal_strlit("minimum");
    reveal_strlit("maximum");
    assert("type"@.len() == 4);
    assert("minimum"@.len() == 7);
    assert("maximum"@.len() == 7);
    assert("minimum"@[1] != "maximum"@[1]);
    let fields = count_shape(most)->Object_0;
    json::law_field_is_found(fields, 0);
    json::law_field_is_found(fields, 1);
    if most is Some {
        json::law_field_is_found(fields, 2);
    } else {
        json::law_absent_field_is_not_found(fields, "maximum"@);
    }
}

/// The figures of a run are these four, all of them there and nothing else, each
/// within the limit that programs have.
pub proof fn law_figures_are_within_their_limits()
    ensures
        stats_shape().get("type"@) == Some(JsonView::Text("object"@)),
        stats_shape().get("additionalProperties"@) == Some(JsonView::Bool(false)),
        stats_shape().get("properties"@) matches Some(properties) && properties is Object && (
        properties->Object_0).len() == 4 && properties.get("tool_calls"@) == Some(
            count_shape(Some(32)),
        ) && properties.get("max_in_flight"@) == Some(count_shape(Some(8))) && properties.get(
            "duration_ms"@,
        ) == Some(count_shape(None)) && properties.get("returned_bytes"@) == Some(
            count_shape(Some(65536)),
        ),
        stats_shape().get("required"@) == Some(
            JsonView::Array(
                seq![
                    JsonView::Text("tool_calls"@),
                    JsonView::Text("max_in_flight"@),
                    JsonView::Text("duration_ms"@),
                    JsonView::Text("returned_bytes"@),
                ],
            ),
        ),
{
    reveal_strlit("type");
    reveal_strlit("description");
    reveal_strlit("additionalProperties");
    reveal_strlit("properties");
    reveal_strlit("required");
    assert("type"@.len() == 4);
    assert("description"@.len() == 11);
    assert("additionalProperties"@.len() == 20);
    assert("properties"@.len() == 10);
    assert("required"@.len() == 8);
    reveal_strlit("tool_calls");
    reveal_strlit("max_in_flight");
    reveal_strlit("duration_ms");
    reveal_strlit("returned_bytes");
    assert("tool_calls"@.len() == 10);
    assert("max_in_flight"@.len() == 13);
    assert("duration_ms"@.len() == 11);
    assert("returned_bytes"@.len() == 14);
    let fields = stats_shape()->Object_0;
    json::law_field_is_found(fields, 0);
    json::law_field_is_found(fields, 2);
    json::law_field_is_found(fields, 3);
    json::law_field_is_found(fields, 4);
    let properties = fields[3].1->Object_0;
    json::law_field_is_found(properties, 0);
    json::law_field_is_found(properties, 1);
    json::law_field_is_found(properties, 2);
    json::law_field_is_found(properties, 3);
    let texts = seq!["tool_calls"@, "max_in_flight"@, "duration_ms"@, "returned_bytes"@];
    assert(text_list(texts)->Array_0 =~= seq![
        JsonView::Text("tool_calls"@),
        JsonView::Text("max_in_flight"@),
        JsonView::Text("duration_ms"@),
        JsonView::Text("returned_bytes"@),
    ]);
}

/// What a program hands back is a list of texts, of so many items; a failure has a
/// message of so many characters and a kind that is one of those there are.
pub proof fn law_output_is_texts_or_a_failure()
    ensures
        content_shape().get("type"@) == Some(JsonView::Text("array"@)),
        content_shape().get("maxItems"@) == Some(json::number(256)),
        content_shape().get("items"@) matches Some(item) && item.get("type"@) == Some(
            JsonView::Text("string"@),
        ),
        message_shape().get("type"@) == Some(JsonView::Text("string"@)),
        message_shape().get("maxLength"@) == Some(json::number(16384)),
        failure_kind_shape().get("type"@) == Some(JsonView::Text("string"@)),
        failure_kind_shape().get("enum"@) == Some(text_list(failure_kinds())),
        JsonView::Object(output_shapes()).get("content"@) == Some(content_shape()),
        JsonView::Object(output_shapes()).get("stats"@) == Some(stats_shape()),
        JsonView::Object(output_shapes()).get("message"@) == Some(message_shape()),
        JsonView::Object(output_shapes()).get("failure_kind"@) == Some(failure_kind_shape()),
        output_shapes().len() == 4,
{
    reveal_strlit("type");
    reveal_strlit("items");
    reveal_strlit("description");
    reveal_strlit("maxItems");
    reveal_strlit("maxLength");
    reveal_strlit("enum");
    assert("type"@.len() == 4);
    assert("items"@.len() == 5);
    assert("description"@.len() == 11);
    assert("maxItems"@.len() == 8);
    assert("maxLength"@.len() == 9);
    assert("enum"@.len() == 4);
    assert("type"@[0] != "enum"@[0]);
    reveal_strlit("content");
    reveal_strlit("stats");
    reveal_strlit("message");
    reveal_strlit("failure_kind");
    assert("content"@.len() == 7);
    assert("stats"@.len() == 5);
    assert("message"@.len() == 7);
    assert("failure_kind"@.len() == 12);
    assert("content"@[0] != "message"@[0]);
    let content = content_shape()->Object_0;
    json::law_field_is_found(content, 0);
    json::law_field_is_found(content, 1);
    json::law_field_is_found(content, 3);
    json::law_field_is_found(content[1].1->Object_0, 0);
    let message = message_shape()->Object_0;
    json::law_field_is_found(message, 0);
    json::law_field_is_found(message, 2);
    let kind = failure_kind_shape()->Object_0;
    json::law_field_is_found(kind, 0);
    json::law_field_is_found(kind, 1);
    let shapes = output_shapes();
    json::law_field_is_found(shapes, 0);
    json::law_field_is_found(shapes, 1);
    json::law_field_is_found(shapes, 2);
    json::law_field_is_found(shapes, 3);
}

/// A list of texts holds them in their order.
pub proof fn law_text_list_keeps_its_order(texts: Seq<Seq<char>>, i: int)
    requires
        0 <= i < texts.len(),
    ensures
        text_list(texts) is Array,
        (text_list(texts)->Array_0).len() == texts.len(),
        (text_list(texts)->Array_0)[i] == JsonView::Text(texts[i]),
{
}

} // verus!
