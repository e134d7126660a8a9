//! What is kept of the result of a program: its numbers and how it failed.
use vstd::prelude::*;

use crate::code_mode;
use crate::code_mode::{CodeModeError, CodeModeExecution};
use crate::json;
use crate::json::JsonValue;
use crate::nested_host;

verus! {

/// A value that is kept of a result: under which name, and where it stands. Where
/// `inner` is given, it is a field of the field `outer`.
#[derive(Debug, Clone, Copy)]
pub struct ToolAuditResultField {
    pub name: &'static str,
    pub outer: &'static str,
    pub inner: Option<&'static str>,
}

impl ToolAuditResultField {
    /// A value that stands in the field `outer`, as the field of its own name.
    pub fn within(outer: &'static str, name: &'static str) -> (field: ToolAuditResultField)
        ensures
            field_view(field) == (name@, outer@, Some(name@)),
    {
        ToolAuditResultField { name, outer, inner: Some(name) }
    }

    /// A value that is the field of its own name.
    pub fn value(name: &'static str) -> (field: ToolAuditResultField)
        ensures
            field_view(field) == (name@, name@, None::<Seq<char>>),
    {
        ToolAuditResultField { name, outer: name, inner: None }
    }

    /// The value that is kept of a result, where the result has it.
    pub fn read<'a>(&self, output: &'a JsonValue) -> (value: Option<&'a JsonValue>)
        ensures
            json::json_ref(value) == kept(field_view(*self), output@),
    {
        match self.inner {
            Some(inner) => output.get_within(self.outer, inner),
            None => output.get(self.outer),
        }
    }
}

/// The name of a kept value, the field that it stands in, and the field there.
pub open spec fn field_view(field: ToolAuditResultField) -> (
    Seq<char>,
    Seq<char>,
    Option<Seq<char>>,
) {
    (
        field.name@,
        field.outer@,
        match field.inner {
            Some(inner) => Some(inner@),
            None => None,
        },
    )
}

/// The value that is kept of a result.
pub open spec fn kept(
    field: (Seq<char>, Seq<char>, Option<Seq<char>>),
    output: json::JsonView,
) -> Option<json::JsonView> {
    match field.2 {
        Some(inner) => output.get_within(field.1, inner),
        None => output.get(field.1),
    }
}

/// What is kept of the result of a program.
pub open spec fn audit_fields() -> Seq<(Seq<char>, Seq<char>, Option<Seq<char>>)> {
    seq![
        ("tool_calls"@, "stats"@, Some("tool_calls"@)),
        ("max_in_flight"@, "stats"@, Some("max_in_flight"@)),
        ("duration_ms"@, "stats"@, Some("duration_ms"@)),
        ("returned_bytes"@, "stats"@, Some("returned_bytes"@)),
        ("failure_kind"@, "failure_kind"@, None::<Seq<char>>),
    ]
}

/// What is kept of the result of a program, in its order.
pub fn code_mode_result_audit_fields() -> (fields: Vec<ToolAuditResultField>)
    ensures
        Seq::new(fields@.len(), |i: int| field_view(fields@[i])) == audit_fields(),
{
    let mut fields: Vec<ToolAuditResultField> = Vec::new();
    fields.push(ToolAuditResultField::within("stats", "tool_calls"));
    fields.push(ToolAuditResultField::within("stats", "max_in_flight"));
    fields.push(ToolAuditResultField::within("stats", "duration_ms"));
    fields.push(ToolAuditResultField::within("stats", "returned_bytes"));
    fields.push(ToolAuditResultField::value("failure_kind"));
    assert(Seq::new(fields@.len(), |i: int| field_view(fields@[i])) =~= audit_fields());
    fields
}

// ---- Laws ---------------------------------------------------------------------------------

/// What is kept of a result rests on its numbers and on how it failed, and on
/// nothing else that it holds.
pub proof fn law_only_numbers_and_the_failure_are_kept(
    i: int,
    first: json::JsonView,
    second: json::JsonView,
)
    requires
        0 <= i < audit_fields().len(),
        first.get("stats"@) == second.get("stats"@),
        first.get("failure_kind"@) == second.get("failure_kind"@),
    ensures
        kept(audit_fields()[i], first) == kept(audit_fields()[i], second),
{
}

/// Nothing of what a program said is kept: of two runs with the same numbers, the
/// same is kept.
pub proof fn law_emitted_text_is_not_kept(
    i: int,
    first: CodeModeExecution,
    second: CodeModeExecution,
)
    requires
        0 <= i < audit_fields().len(),
        first.stats == second.stats,
    ensures
        kept(audit_fields()[i], nested_host::execution_document(first)) == kept(
            audit_fields()[i],
            nested_host::execution_document(second),
        ),
{
    lemma_execution(first);
    lemma_execution(second);
    law_only_numbers_and_the_failure_are_kept(
        i,
        nested_host::execution_document(first),
        nested_host::execution_document(second),
    );
}

/// Nothing of the message of a failure is kept: of two failures of one kind with
/// the same numbers, the same is kept.
pub proof fn law_failure_message_is_not_kept(i: int, first: CodeModeError, second: CodeModeError)
    requires
        0 <= i < audit_fields().len(),
        first.kind == second.kind,
        first.stats == second.stats,
    ensures
        kept(audit_fields()[i], nested_host::failure_document(first)) == kept(
            audit_fields()[i],
            nested_host::failure_document(second),
        ),
{
    lemma_failure(first);
    lemma_failure(second);
    law_only_numbers_and_the_failure_are_kept(
        i,
        nested_host::failure_document(first),
        nested_host::failure_document(second),
    );
}

proof fn lemma_execution(execution: CodeModeExecution)
    ensures
        nested_host::execution_document(execution).get("stats"@) == Some(
            code_mode::stats_document(execution.stats),
        ),
        nested_host::execution_document(execution).get("failure_kind"@) is None,
{
    reveal_strlit("content");
    reveal_strlit("stats");
    reveal_strlit("failure_kind");
    assert("content"@.len() == 7 && "stats"@.len() == 5 && "failure_kind"@.len() == 12);
    reveal_with_fuel(json::lookup, 3);
}

proof fn lemma_failure(error: CodeModeError)
    ensures
        nested_host::failure_document(error).get("stats"@) == Some(
            code_mode::stats_document(error.stats),
        ),
        nested_host::failure_document(error).get("failure_kind"@) == Some(
            json::JsonView::Text(code_mode::kind_name(error.kind)),
        ),
{
    reveal_strlit("message");
    reveal_strlit("stats");
    reveal_strlit("failure_kind");
    assert("message"@.len() == 7 && "stats"@.len() == 5 && "failure_kind"@.len() == 12);
    reveal_with_fuel(json::lookup, 4);
}

/// What is kept of a result of a program: each figure of its run under its own name,
/// as it stands in the result, and the kind of its failure.
pub proof fn law_audit_keeps_each_figure_under_its_name(output: json::JsonView, i: int)
    requires
        0 <= i < audit_fields().len(),
    ensures
        audit_fields().len() == 5,
        audit_fields()[0].0 == "tool_calls"@ && audit_fields()[1].0 == "max_in_flight"@
            && audit_fields()[2].0 == "duration_ms"@ && audit_fields()[3].0 == "returned_bytes"@
            && audit_fields()[4].0 == "failure_kind"@,
        i < 4 ==> kept(audit_fields()[i], output) == (match output.get("stats"@) {
            Some(stats) => stats.get(audit_fields()[i].0),
            None => None,
        }),
        kept(audit_fields()[4], output) == output.get("failure_kind"@),
{
}

} // verus!
