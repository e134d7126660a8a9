//! Results of Runner commands, and the structured failures of project commands.
use crate::json;
use crate::json::{add_field, optional_bool, optional_text, render_json, set_field, text_value, JsonValue};
use crate::text;
use vstd::prelude::*;

verus! {

/// What a Runner command hands back.
#[derive(Debug)]
pub struct CommandResult {
    pub exit_code: Option<i32>,
    pub stdout: Option<String>,
    pub stderr: Option<String>,
    pub duration_ms: Option<u64>,
    pub error: Option<String>,
}

/// What a [`CommandResult`] stands for.
pub struct CommandView {
    pub exit_code: Option<i32>,
    pub stdout: Option<Seq<char>>,
    pub stderr: Option<Seq<char>>,
    pub duration_ms: Option<u64>,
    pub error: Option<Seq<char>>,
}

impl View for CommandResult {
    type V = CommandView;

    open spec fn view(&self) -> CommandView {
        CommandView {
            exit_code: self.exit_code,
            stdout: text::text_of(self.stdout),
            stderr: text::text_of(self.stderr),
            duration_ms: self.duration_ms,
            error: text::text_of(self.error),
        }
    }
}

/// A result that carries a document and an exit code.
pub open spec fn document_result(
    exit_code: i32,
    document: json::JsonView,
    duration_ms: u64,
) -> CommandView {
    CommandView {
        exit_code: Some(exit_code),
        stdout: Some(json::rendered_json(document)),
        stderr: Some(Seq::empty()),
        duration_ms: Some(duration_ms),
        error: None,
    }
}

/// A result that carries an error message and nothing else.
pub open spec fn message_result(message: Seq<char>, duration_ms: u64) -> CommandView {
    CommandView {
        exit_code: None,
        stdout: None,
        stderr: None,
        duration_ms: Some(duration_ms),
        error: Some(message),
    }
}

/// A command that succeeded with a document.
pub fn ok_cmd(duration_ms: u64, document: &JsonValue) -> (result: CommandResult)
    ensures
        result@ == document_result(0, document@, duration_ms),
{
    CommandResult {
        exit_code: Some(0),
        stdout: Some(render_json(document)),
        stderr: Some(String::new()),
        duration_ms: Some(duration_ms),
        error: None,
    }
}

/// A command that failed with a message.
pub fn err_cmd(duration_ms: u64, message: &str) -> (result: CommandResult)
    ensures
        result@ == message_result(message@, duration_ms),
{
    CommandResult {
        exit_code: None,
        stdout: None,
        stderr: None,
        duration_ms: Some(duration_ms),
        error: Some(message.to_owned()),
    }
}

/// The document of a failure that has a code and nothing else.
pub open spec fn coded_failure(error_code: Seq<char>) -> json::JsonView {
    json::JsonView::Object(seq![("error_code"@, json::JsonView::Text(error_code))])
}

/// A project command that failed with a code.
pub fn project_error_cmd(duration_ms: u64, error_code: &str) -> (result: CommandResult)
    ensures
        result@ == document_result(1, coded_failure(error_code@), duration_ms),
{
    let mut fields: Vec<(String, JsonValue)> = Vec::new();
    add_field(&mut fields, "error_code", text_value(error_code));
    proof {
        json::lemma_object_view(fields);
        assert(json::fields_view(fields@) =~= seq![
            ("error_code"@, json::JsonView::Text(error_code@)),
        ]);
    }
    let document = JsonValue::Object(fields);
    failed_with(duration_ms, &document)
}

/// A project command that failed with a document.
fn failed_with(duration_ms: u64, document: &JsonValue) -> (result: CommandResult)
    ensures
        result@ == document_result(1, document@, duration_ms),
{
    CommandResult {
        exit_code: Some(1),
        stdout: Some(render_json(document)),
        stderr: Some(String::new()),
        duration_ms: Some(duration_ms),
        error: None,
    }
}

/// The fields of `base` after each of `more` has been given its value in turn.
pub open spec fn extended(
    base: Seq<(Seq<char>, json::JsonView)>,
    more: Seq<(Seq<char>, json::JsonView)>,
) -> Seq<(Seq<char>, json::JsonView)>
    decreases more.len(),
{
    if more.len() == 0 {
        base
    } else {
        json::with_field(extended(base, more.drop_last()), more.last().0, more.last().1)
    }
}

/// The fields that every structured failure has.
pub open spec fn failure_fields(error_kind: Seq<char>, state_changed: bool) -> Seq<
    (Seq<char>, json::JsonView),
> {
    seq![
        ("error_code"@, json::JsonView::Text(error_kind)),
        ("error_kind"@, json::JsonView::Text(error_kind)),
        ("failure_kind"@, json::JsonView::Text(error_kind)),
        ("state_changed"@, json::JsonView::Bool(state_changed)),
    ]
}

/// A project command that failed, with its kind under three names, whether it
/// changed anything, and further fields. A further field replaces one of the
/// same name.
pub fn structured_project_error_cmd(
    duration_ms: u64,
    error_kind: &str,
    state_changed: bool,
    fields: Vec<(String, JsonValue)>,
) -> (result: CommandResult)
    ensures
        result@ == document_result(
            1,
            json::JsonView::Object(
                extended(failure_fields(error_kind@, state_changed), json::fields_view(fields@)),
            ),
            duration_ms,
        ),
{
    let mut output: Vec<(String, JsonValue)> = Vec::new();
    add_field(&mut output, "error_code", text_value(error_kind));
    add_field(&mut output, "error_kind", text_value(error_kind));
    add_field(&mut output, "failure_kind", text_value(error_kind));
    add_field(&mut output, "state_changed", JsonValue::Bool(state_changed));
    let ghost base = failure_fields(error_kind@, state_changed);
    let ghost more = json::fields_view(fields@);
    assert(json::fields_view(output@) =~= base);
    assert(more.take(0) =~= Seq::<(Seq<char>, json::JsonView)>::empty());
    let mut i: usize = 0;
    while i < fields.len()
        invariant
            i <= fields@.len(),
            more == json::fields_view(fields@),
            json::fields_view(output@) == extended(base, more.take(i as int)),
        decreases fields@.len() - i,
    {
        let value = fields[i].1.duplicate();
        output = set_field(output, fields[i].0.as_str(), value);
        assert(more.take(i + 1).drop_last() =~= more.take(i as int));
        i = i + 1;
    }
    proof {
        assert(more.take(i as int) =~= more);
        json::lemma_object_view(output);
    }
    let document = JsonValue::Object(output);
    failed_with(duration_ms, &document)
}

/// The document of a failed managed-worktree command.
pub open spec fn worktree_failure(
    error_kind: Seq<char>,
    state_changed: bool,
    base_ref: Option<Seq<char>>,
    base_sha: Option<Seq<char>>,
    source_dirty: Option<bool>,
) -> json::JsonView {
    json::JsonView::Object(
        failure_fields(error_kind, state_changed) + seq![
            ("base_ref"@, json::text_or_null(base_ref)),
            ("base_sha"@, json::text_or_null(base_sha)),
            ("source_dirty"@, json::bool_or_null(source_dirty)),
        ],
    )
}

proof fn lemma_appended(
    base: Seq<(Seq<char>, json::JsonView)>,
    key: Seq<char>,
    value: json::JsonView,
)
    requires
        !json::has_key(base, key),
    ensures
        json::with_field(base, key, value) == base.push((key, value)),
    decreases base.len(),
{
    if base.len() > 0 {
        let rest = base.drop_first();
        assert(base[0].0 != key) by {
            if base[0].0 == key {
                assert(json::has_key(base, key));
            }
        }
        assert(!json::has_key(rest, key)) by {
            if json::has_key(rest, key) {
                let i = choose|i: int| 0 <= i < rest.len() && #[trigger] rest[i].0 == key;
                assert(base[i + 1].0 == key);
            }
        }
        lemma_appended(rest, key, value);
    }
    assert(json::with_field(base, key, value) =~= base.push((key, value)));
}

proof fn lemma_worktree_fields(
    error_kind: Seq<char>,
    state_changed: bool,
    more: Seq<(Seq<char>, json::JsonView)>,
)
    requires
        more.len() == 3,
        more[0].0 == "base_ref"@,
        more[1].0 == "base_sha"@,
        more[2].0 == "source_dirty"@,
    ensures
        extended(failure_fields(error_kind, state_changed), more) == failure_fields(
            error_kind,
            state_changed,
        ) + more,
{
    reveal_strlit("error_code");
    reveal_strlit("error_kind");
    reveal_strlit("failure_kind");
    reveal_strlit("state_changed");
    reveal_strlit("base_ref");
    reveal_strlit("base_sha");
    reveal_strlit("source_dirty");
    let base = failure_fields(error_kind, state_changed);
    assert("base_ref"@[0] == 'b' && "base_sha"@[0] == 'b' && "source_dirty"@[1] == 'o');
    assert("base_ref"@[5] == 'r' && "base_sha"@[5] == 's');
    assert("error_code"@[0] == 'e' && "error_kind"@[0] == 'e' && "failure_kind"@[0] == 'f'
        && "state_changed"@[1] == 't');
    let one = more.take(1);
    let two = more.take(2);
    assert(one.drop_last() =~= Seq::<(Seq<char>, json::JsonView)>::empty());
    assert(two.drop_last() =~= one);
    assert(more.drop_last() =~= two);
    lemma_appended(base, more[0].0, more[0].1);
    lemma_appended(base.push(more[0]), more[1].0, more[1].1);
    lemma_appended(base.push(more[0]).push(more[1]), more[2].0, more[2].1);
    reveal_with_fuel(extended, 4);
    assert(base + more =~= base.push(more[0]).push(more[1]).push(more[2]));
}

/// A managed-worktree command that failed.
pub fn managed_worktree_error(
    duration_ms: u64,
    error_kind: &str,
    state_changed: bool,
    base_ref: Option<&str>,
    base_sha: Option<&str>,
    source_dirty: Option<bool>,
) -> (result: CommandResult)
    ensures
        result@ == document_result(
            1,
            worktree_failure(
                error_kind@,
                state_changed,
                text::str_of(base_ref),
                text::str_of(base_sha),
                source_dirty,
            ),
            duration_ms,
        ),
{
    let mut fields: Vec<(String, JsonValue)> = Vec::new();
    add_field(&mut fields, "base_ref", optional_text(base_ref));
    add_field(&mut fields, "base_sha", optional_text(base_sha));
    add_field(&mut fields, "source_dirty", optional_bool(source_dirty));
    proof {
        let more = json::fields_view(fields@);
        lemma_worktree_fields(error_kind@, state_changed, more);
        assert(more =~= seq![
            ("base_ref"@, json::text_or_null(text::str_of(base_ref))),
            ("base_sha"@, json::text_or_null(text::str_of(base_sha))),
            ("source_dirty"@, json::bool_or_null(source_dirty)),
        ]);
    }
    structured_project_error_cmd(duration_ms, error_kind, state_changed, fields)
}

/// A command that answers with a document exits as it is told to, shows the
/// document and nothing beside it, and has no error; one that answers with a message
/// has no exit code and shows nothing but the message.
pub proof fn law_answers_are_documents_or_messages(
    exit_code: i32,
    document: json::JsonView,
    message: Seq<char>,
    duration_ms: u64,
)
    ensures
        document_result(exit_code, document, duration_ms).exit_code == Some(exit_code),
        document_result(exit_code, document, duration_ms).stdout == Some(
            json::rendered_json(document),
        ),
        document_result(exit_code, document, duration_ms).stderr == Some(Seq::<char>::empty()),
        document_result(exit_code, document, duration_ms).error is None,
        document_result(exit_code, document, duration_ms).duration_ms == Some(duration_ms),
        message_result(message, duration_ms).exit_code is None,
        message_result(message, duration_ms).stdout is None,
        message_result(message, duration_ms).stderr is None,
        message_result(message, duration_ms).error == Some(message),
        message_result(message, duration_ms).duration_ms == Some(duration_ms),
{
}

/// A failure of a project operation says its code and nothing else.
pub proof fn law_failure_names_its_code(error_code: Seq<char>)
    ensures
        coded_failure(error_code) is Object,
        (coded_failure(error_code)->Object_0).len() == 1,
        coded_failure(error_code).get("error_code"@) == Some(json::JsonView::Text(error_code)),
{
    reveal_strlit("error_code");
    assert("error_code"@.len() == 10);
    let fields = coded_failure(error_code)->Object_0;
    json::law_field_is_found(fields, 0);
}

/// A failure of a worktree says its kind under each of the names by which it is
/// looked for, whether anything has changed, and what is known of the base and of
/// the source.
pub proof fn law_worktree_failure_says_what_is_known(
    error_kind: Seq<char>,
    state_changed: bool,
    base_ref: Option<Seq<char>>,
    base_sha: Option<Seq<char>>,
    source_dirty: Option<bool>,
)
    ensures
        worktree_failure(error_kind, state_changed, base_ref, base_sha, source_dirty) is Object,
        (worktree_failure(error_kind, state_changed, base_ref, base_sha, source_dirty)->Object_0).len() == 7,
        worktree_failure(error_kind, state_changed, base_ref, base_sha, source_dirty).get("error_code"@) == Some(json::JsonView::Text(error_kind)),
        worktree_failure(error_kind, state_changed, base_ref, base_sha, source_dirty).get("error_kind"@) == Some(json::JsonView::Text(error_kind)),
        worktree_failure(error_kind, state_changed, base_ref, base_sha, source_dirty).get("failure_kind"@) == Some(json::JsonView::Text(error_kind)),
        worktree_failure(error_kind, state_changed, base_ref, base_sha, source_dirty).get("state_changed"@) == Some(json::JsonView::Bool(state_changed)),
        worktree_failure(error_kind, state_changed, base_ref, base_sha, source_dirty).get("base_ref"@) == Some(match base_ref {
            Some(held) => json::JsonView::Text(held),
            None => json::JsonView::Null,
        }),
        worktree_failure(error_kind, state_changed, base_ref, base_sha, source_dirty).get("base_sha"@) == Some(match base_sha {
            Some(held) => json::JsonView::Text(held),
            None => json::JsonView::Null,
        }),
        worktree_failure(error_kind, state_changed, base_ref, base_sha, source_dirty).get("source_dirty"@) == Some(match source_dirty {
            Some(held) => json::JsonView::Bool(held),
            None => json::JsonView::Null,
        }),
{
    reveal_strlit("error_code");
    reveal_strlit("error_kind");
    reveal_strlit("failure_kind");
    reveal_strlit("state_changed");
    reveal_strlit("base_ref");
    reveal_strlit("base_sha");
    reveal_strlit("source_dirty");
    assert("error_code"@.len() == 10);
    assert("error_kind"@.len() == 10);
    assert("failure_kind"@.len() == 12);
    assert("state_changed"@.len() == 13);
    assert("base_ref"@.len() == 8);
    assert("base_sha"@.len() == 8);
    assert("source_dirty"@.len() == 12);
    assert("error_code"@[6] != "error_kind"@[6]);
    assert("failure_kind"@[0] != "source_dirty"@[0]);
    assert("base_ref"@[5] != "base_sha"@[5]);
    let fields = worktree_failure(error_kind, state_changed, base_ref, base_sha, source_dirty)->Object_0;
    json::law_field_is_found(fields, 0);
    json::law_field_is_found(fields, 1);
    json::law_field_is_found(fields, 2);
    json::law_field_is_found(fields, 3);
    json::law_field_is_found(fields, 4);
    json::law_field_is_found(fields, 5);
    json::law_field_is_found(fields, 6);
}

/// What a failure is told with beyond its own fields is told as it was given, the
/// last where something was given twice; what was not given stays as it was.
pub proof fn law_more_fields_are_told_as_given(
    base: Seq<(Seq<char>, json::JsonView)>,
    more: Seq<(Seq<char>, json::JsonView)>,
    key: Seq<char>,
)
    ensures
        (forall|i: int| 0 <= i < more.len() ==> (#[trigger] more[i]).0 != key) ==> json::lookup(
            extended(base, more),
            key,
        ) == json::lookup(base, key),
        more.len() > 0 && more.last().0 == key ==> json::lookup(extended(base, more), key) == Some(
            more.last().1,
        ),
    decreases more.len(),
{
    if more.len() > 0 {
        law_more_fields_are_told_as_given(base, more.drop_last(), key);
        json::lemma_with_field_lookup(
            extended(base, more.drop_last()),
            more.last().0,
            more.last().1,
            key,
        );
        if forall|i: int| 0 <= i < more.len() ==> (#[trigger] more[i]).0 != key {
            assert(more[more.len() - 1].0 != key);
            assert forall|i: int| 0 <= i < more.drop_last().len() implies (
            #[trigger] more.drop_last()[i]).0 != key by {
                assert(more.drop_last()[i] == more[i]);
            }
        }
    }
}

} // verus!
