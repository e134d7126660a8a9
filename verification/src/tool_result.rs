//! Results of tools.
use crate::json;
use crate::json::{add_field, render_json, text_value, JsonValue};
use crate::text;
use crate::text::byte_count;
use vstd::prelude::*;
use vstd::string::*;

verus! {

/// What a tool hands back.
#[derive(Debug)]
pub struct ToolResult {
    pub success: bool,
    pub output: JsonValue,
    pub error: Option<String>,
}

/// What a [`ToolResult`] stands for.
pub struct ToolResultView {
    pub success: bool,
    pub output: json::JsonView,
    pub error: Option<Seq<char>>,
}

impl View for ToolResult {
    type V = ToolResultView;

    open spec fn view(&self) -> ToolResultView {
        ToolResultView {
            success: self.success,
            output: self.output@,
            error: text::text_of(self.error),
        }
    }
}

/// A tool that succeeded.
pub open spec fn succeeded(output: json::JsonView) -> ToolResultView {
    ToolResultView { success: true, output, error: None }
}

/// A tool that failed, with a document that says more.
pub open spec fn failed(error: Seq<char>, output: json::JsonView) -> ToolResultView {
    ToolResultView { success: false, output, error: Some(error) }
}

impl ToolResult {
    /// A tool that succeeded.
    pub fn ok(output: JsonValue) -> (result: ToolResult)
        ensures
            result@ == succeeded(output@),
    {
        ToolResult { success: true, output, error: None }
    }

    /// A tool that failed, with a document that says more.
    pub fn err_with_output(error: &str, output: JsonValue) -> (result: ToolResult)
        ensures
            result@ == failed(error@, output@),
    {
        ToolResult { success: false, output, error: Some(error.to_owned()) }
    }
}

/// A result as a document: an error is a field of it only where there is one.
pub open spec fn result_document(result: ToolResultView) -> json::JsonView {
    let fields = seq![
        ("success"@, json::JsonView::Bool(result.success)),
        ("output"@, result.output),
    ];
    match result.error {
        Some(error) => json::JsonView::Object(
            fields.push(("error"@, json::JsonView::Text(error))),
        ),
        None => json::JsonView::Object(fields),
    }
}

impl ToolResult {
    /// How many bytes the compact JSON text of the result takes.
    pub fn serialized_json_len(&self) -> (bytes: usize)
        ensures
            bytes == text::byte_len(json::rendered_json(result_document(self@))),
    {
        let mut fields: Vec<(String, JsonValue)> = Vec::new();
        add_field(&mut fields, "success", JsonValue::Bool(self.success));
        add_field(&mut fields, "output", self.output.duplicate());
        if let Some(error) = &self.error {
            add_field(&mut fields, "error", text_value(error.as_str()));
        }
        proof {
            json::lemma_object_view(fields);
            assert(json::fields_view(fields@) =~= result_document(self@)->Object_0);
        }
        byte_count(render_json(&JsonValue::Object(fields)).as_str())
    }
}

/// A result as a document says whether it succeeded, what it holds, and what went
/// wrong where something did; where nothing went wrong there is no word of an error.
pub proof fn law_result_document_says_the_result(result: ToolResultView)
    ensures
        result_document(result) is Object,
        (result_document(result)->Object_0).len() == (if result.error is Some { 3int } else { 2int }),
        result_document(result).get("success"@) == Some(json::JsonView::Bool(result.success)),
        result_document(result).get("output"@) == Some(result.output),
        result_document(result).get("error"@) == (match result.error {
            Some(error) => Some(json::JsonView::Text(error)),
            None => None,
        }),
{
    reveal_strlit("success");
    reveal_strlit("output");
    reveal_strlit("error");
    assert("success"@.len() == 7);
    assert("output"@.len() == 6);
    assert("error"@.len() == 5);
    let fields = result_document(result)->Object_0;
    json::law_field_is_found(fields, 0);
    json::law_field_is_found(fields, 1);
    if result.error is Some {
        json::law_field_is_found(fields, 2);
    } else {
        json::law_absent_field_is_not_found(fields, "error"@);
    }
}

/// A tool that succeeded hands back its document and no error; one that failed
/// hands back its document and the error it was given.
pub proof fn law_success_and_failure_are_told_apart(output: json::JsonView, error: Seq<char>)
    ensures
        succeeded(output).success && succeeded(output).output == output && succeeded(output).error
            is None,
        !failed(error, output).success && failed(error, output).output == output && failed(
            error,
            output,
        ).error == Some(error),
{
}

} // verus!
