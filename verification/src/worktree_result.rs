//! The result that a finished preparation of a managed worktree hands back.
use crate::command;
use crate::command::{managed_worktree_error, ok_cmd, CommandResult};
use crate::json;
use crate::json::{add_field, optional_text, text_value, JsonValue};
use crate::managed_worktree;
use crate::managed_worktree::{Outcome, ReadyWorktree};
use crate::project_record;
use crate::project_record::{runtime_id, ProjectFacts};
use crate::text;
use crate::text::as_text;
use vstd::prelude::*;
use vstd::string::*;

verus! {

/// The outcome that is reported for a worktree that is ready.
pub open spec fn outcome_name(created: bool) -> Seq<char> {
    if created {
        "managed_worktree_created"@
    } else {
        "managed_worktree_recovered"@
    }
}

/// The document of a worktree that is ready.
pub open spec fn success_document(
    client_id: Seq<char>,
    ready: ReadyWorktree,
    facts: ProjectFacts,
) -> json::JsonView {
    json::JsonView::Object(
        seq![
            (
                "id"@,
                json::JsonView::Text(project_record::runtime_id_of(client_id, ready.project.id@)),
            ),
            ("agent_project_id"@, json::JsonView::Text(ready.project.id@)),
            ("client_id"@, json::JsonView::Text(client_id)),
            ("name"@, json::text_or_null(text::text_of(ready.project.name))),
            ("path"@, json::JsonView::Text(ready.worktree@)),
            ("kind"@, json::text_or_null(text::text_of(facts.wire_kind))),
            ("registration_source"@, json::JsonView::Text(facts.registration_source@)),
            ("description"@, json::text_or_null(text::text_of(ready.project.description))),
            ("allow_patch"@, json::JsonView::Bool(ready.project.allow_patch)),
            ("disabled"@, json::JsonView::Bool(ready.project.disabled)),
            ("revision"@, json::JsonView::Text(facts.revision@)),
            ("root_fingerprint"@, json::text_or_null(text::text_of(facts.root_fingerprint))),
            ("lineage"@, facts.lineage@),
            ("source"@, json::JsonView::Text("managed_worktree"@)),
            ("outcome"@, json::JsonView::Text(outcome_name(ready.created))),
            ("registered"@, json::JsonView::Bool(ready.registered)),
            ("created_config"@, json::JsonView::Bool(ready.registered)),
            ("changed"@, json::JsonView::Bool(ready.registered)),
            ("recovered"@, json::JsonView::Bool(!ready.created)),
            ("managed"@, json::JsonView::Bool(true)),
            ("base_ref"@, json::JsonView::Text(ready.base_ref@)),
            ("base_sha"@, json::JsonView::Text(ready.base_sha@)),
            ("source_dirty"@, json::JsonView::Bool(ready.source_dirty)),
        ],
    )
}

/// The result of a worktree that is ready. A change is reported exactly where
/// the record was written.
pub fn managed_worktree_success(
    duration_ms: u64,
    client_id: &str,
    ready: &ReadyWorktree,
    facts: &ProjectFacts,
) -> (result: CommandResult)
    ensures
        result@ == command::document_result(
            0,
            success_document(client_id@, *ready, *facts),
            duration_ms,
        ),
{
    let project = &ready.project;
    let runtime = runtime_id(client_id, project.id.as_str());
    let mut fields: Vec<(String, JsonValue)> = Vec::new();
    add_field(&mut fields, "id", text_value(runtime.as_str()));
    add_field(&mut fields, "agent_project_id", text_value(project.id.as_str()));
    add_field(&mut fields, "client_id", text_value(client_id));
    add_field(&mut fields, "name", optional_text(as_text(&project.name)));
    add_field(&mut fields, "path", text_value(ready.worktree.as_str()));
    add_field(&mut fields, "kind", optional_text(as_text(&facts.wire_kind)));
    add_field(
        &mut fields,
        "registration_source",
        text_value(facts.registration_source.as_str()),
    );
    add_field(&mut fields, "description", optional_text(as_text(&project.description)));
    add_field(&mut fields, "allow_patch", JsonValue::Bool(project.allow_patch));
    add_field(&mut fields, "disabled", JsonValue::Bool(project.disabled));
    add_field(&mut fields, "revision", text_value(facts.revision.as_str()));
    add_field(
        &mut fields,
        "root_fingerprint",
        optional_text(as_text(&facts.root_fingerprint)),
    );
    add_field(&mut fields, "lineage", facts.lineage.duplicate());
    add_field(&mut fields, "source", text_value("managed_worktree"));
    let outcome = if ready.created {
        "managed_worktree_created"
    } else {
        "managed_worktree_recovered"
    };
    add_field(&mut fields, "outcome", text_value(outcome));
    add_field(&mut fields, "registered", JsonValue::Bool(ready.registered));
    add_field(&mut fields, "created_config", JsonValue::Bool(ready.registered));
    add_field(&mut fields, "changed", JsonValue::Bool(ready.registered));
    add_field(&mut fields, "recovered", JsonValue::Bool(!ready.created));
    add_field(&mut fields, "managed", JsonValue::Bool(true));
    add_field(&mut fields, "base_ref", text_value(ready.base_ref.as_str()));
    add_field(&mut fields, "base_sha", text_value(ready.base_sha.as_str()));
    add_field(&mut fields, "source_dirty", JsonValue::Bool(ready.source_dirty));
    proof {
        json::lemma_object_view(fields);
        assert(json::fields_view(fields@) =~= success_document(
            client_id@,
            *ready,
            *facts,
        )->Object_0);
    }
    let document = JsonValue::Object(fields);
    ok_cmd(duration_ms, &document)
}

/// The result of a preparation that ended without a worktree.
pub open spec fn failure_result(
    outcome: managed_worktree::OutcomeView,
    duration_ms: u64,
) -> command::CommandView {
    match outcome {
        managed_worktree::OutcomeView::Failed {
            kind,
            state_changed,
            base_ref,
            base_sha,
            source_dirty,
        } => command::document_result(
            1,
            command::worktree_failure(kind, state_changed, base_ref, base_sha, source_dirty),
            duration_ms,
        ),
        _ => arbitrary(),
    }
}

/// The result of a finished preparation. The facts are those of the project
/// that is ready.
pub fn preparation_result(
    duration_ms: u64,
    client_id: &str,
    outcome: &Outcome,
    facts: &ProjectFacts,
) -> (result: CommandResult)
    ensures
        match *outcome {
            Outcome::Ready(ready) => result@ == command::document_result(
                0,
                success_document(client_id@, ready, *facts),
                duration_ms,
            ),
            Outcome::Failed { .. } => result@ == failure_result(outcome@, duration_ms),
        },
{
    match outcome {
        Outcome::Ready(ready) => managed_worktree_success(duration_ms, client_id, ready, facts),
        Outcome::Failed { kind, state_changed, base_ref, base_sha, source_dirty } => {
            managed_worktree_error(
                duration_ms,
                kind.as_str(),
                *state_changed,
                as_text(base_ref),
                as_text(base_sha),
                *source_dirty,
            )
        },
    }
}

/// A worktree that is ready is told as it is: by its own identifier and place, with
/// its own base, as created or recovered, and as changed exactly where it was
/// registered by this preparation.
pub proof fn law_ready_worktree_is_told_as_it_is(client_id: Seq<char>, ready: ReadyWorktree, facts: ProjectFacts)
    ensures
        success_document(client_id, ready, facts) is Object,
        (success_document(client_id, ready, facts)->Object_0).len() == 23,
        success_document(client_id, ready, facts).get("id"@) == Some(json::JsonView::Text(project_record::runtime_id_of(client_id, ready.project.id@))),
        success_document(client_id, ready, facts).get("agent_project_id"@) == Some(json::JsonView::Text(ready.project.id@)),
        success_document(client_id, ready, facts).get("client_id"@) == Some(json::JsonView::Text(client_id)),
        success_document(client_id, ready, facts).get("name"@) == Some(match ready.project.name {
            Some(held) => json::JsonView::Text(held@),
            None => json::JsonView::Null,
        }),
        success_document(client_id, ready, facts).get("path"@) == Some(json::JsonView::Text(ready.worktree@)),
        success_document(client_id, ready, facts).get("kind"@) == Some(match facts.wire_kind {
            Some(held) => json::JsonView::Text(held@),
            None => json::JsonView::Null,
        }),
        success_document(client_id, ready, facts).get("registration_source"@) == Some(json::JsonView::Text(facts.registration_source@)),
        success_document(client_id, ready, facts).get("description"@) == Some(match ready.project.description {
            Some(held) => json::JsonView::Text(held@),
            None => json::JsonView::Null,
        }),
        success_document(client_id, ready, facts).get("allow_patch"@) == Some(json::JsonView::Bool(ready.project.allow_patch)),
        success_document(client_id, ready, facts).get("disabled"@) == Some(json::JsonView::Bool(ready.project.disabled)),
        success_document(client_id, ready, facts).get("revision"@) == Some(json::JsonView::Text(facts.revision@)),
        success_document(client_id, ready, facts).get("root_fingerprint"@) == Some(match facts.root_fingerprint {
            Some(held) => json::JsonView::Text(held@),
            None => json::JsonView::Null,
        }),
        success_document(client_id, ready, facts).get("lineage"@) == Some(facts.lineage@),
        success_document(client_id, ready, facts).get("source"@) == Some(json::JsonView::Text("managed_worktree"@)),
        success_document(client_id, ready, facts).get("outcome"@) == Some(json::JsonView::Text(
            if ready.created {
                "managed_worktree_created"@
            } else {
                "managed_worktree_recovered"@
            },
        )),
        success_document(client_id, ready, facts).get("registered"@) == Some(json::JsonView::Bool(ready.registered)),
        success_document(client_id, ready, facts).get("created_config"@) == Some(json::JsonView::Bool(ready.registered)),
        success_document(client_id, ready, facts).get("changed"@) == Some(json::JsonView::Bool(ready.registered)),
        success_document(client_id, ready, facts).get("recovered"@) == Some(json::JsonView::Bool(!ready.created)),
        success_document(client_id, ready, facts).get("managed"@) == Some(json::JsonView::Bool(true)),
        success_document(client_id, ready, facts).get("base_ref"@) == Some(json::JsonView::Text(ready.base_ref@)),
        success_document(client_id, ready, facts).get("base_sha"@) == Some(json::JsonView::Text(ready.base_sha@)),
        success_document(client_id, ready, facts).get("source_dirty"@) == Some(json::JsonView::Bool(ready.source_dirty)),
{
    reveal_strlit("id");
    reveal_strlit("agent_project_id");
    reveal_strlit("client_id");
    reveal_strlit("name");
    reveal_strlit("path");
    reveal_strlit("kind");
    reveal_strlit("registration_source");
    reveal_strlit("description");
    reveal_strlit("allow_patch");
    reveal_strlit("disabled");
    reveal_strlit("revision");
    reveal_strlit("root_fingerprint");
    reveal_strlit("lineage");
    reveal_strlit("source");
    reveal_strlit("outcome");
    reveal_strlit("registered");
    reveal_strlit("created_config");
    reveal_strlit("changed");
    reveal_strlit("recovered");
    reveal_strlit("managed");
    reveal_strlit("base_ref");
    reveal_strlit("base_sha");
    reveal_strlit("source_dirty");
    assert("id"@.len() == 2);
    assert("agent_project_id"@.len() == 16);
    assert("client_id"@.len() == 9);
    assert("name"@.len() == 4);
    assert("path"@.len() == 4);
    assert("kind"@.len() == 4);
    assert("registration_source"@.len() == 19);
    assert("description"@.len() == 11);
    assert("allow_patch"@.len() == 11);
    assert("disabled"@.len() == 8);
    assert("revision"@.len() == 8);
    assert("root_fingerprint"@.len() == 16);
    assert("lineage"@.len() == 7);
    assert("source"@.len() == 6);
    assert("outcome"@.len() == 7);
    assert("registered"@.len() == 10);
    assert("created_config"@.len() == 14);
    assert("changed"@.len() == 7);
    assert("recovered"@.len() == 9);
    assert("managed"@.len() == 7);
    assert("base_ref"@.len() == 8);
    assert("base_sha"@.len() == 8);
    assert("source_dirty"@.len() == 12);
    assert("agent_project_id"@[0] != "root_fingerprint"@[0]);
    assert("client_id"@[0] != "recovered"@[0]);
    assert("name"@[0] != "path"@[0]);
    assert("name"@[0] != "kind"@[0]);
    assert("path"@[0] != "kind"@[0]);
    assert("description"@[0] != "allow_patch"@[0]);
    assert("disabled"@[0] != "revision"@[0]);
    assert("disabled"@[0] != "base_ref"@[0]);
    assert("disabled"@[0] != "base_sha"@[0]);
    assert("revision"@[0] != "base_ref"@[0]);
    assert("revision"@[0] != "base_sha"@[0]);
    assert("lineage"@[0] != "outcome"@[0]);
    assert("lineage"@[0] != "changed"@[0]);
    assert("lineage"@[0] != "managed"@[0]);
    assert("outcome"@[0] != "changed"@[0]);
    assert("outcome"@[0] != "managed"@[0]);
    assert("changed"@[0] != "managed"@[0]);
    assert("base_ref"@[5] != "base_sha"@[5]);
    let fields = success_document(client_id, ready, facts)->Object_0;
    json::law_field_is_found(fields, 0);
    json::law_field_is_found(fields, 1);
    json::law_field_is_found(fields, 2);
    json::law_field_is_found(fields, 3);
    json::law_field_is_found(fields, 4);
    json::law_field_is_found(fields, 5);
    json::law_field_is_found(fields, 6);
    json::law_field_is_found(fields, 7);
    json::law_field_is_found(fields, 8);
    json::law_field_is_found(fields, 9);
    json::law_field_is_found(fields, 10);
    json::law_field_is_found(fields, 11);
    json::law_field_is_found(fields, 12);
    json::law_field_is_found(fields, 13);
    json::law_field_is_found(fields, 14);
    json::law_field_is_found(fields, 15);
    json::law_field_is_found(fields, 16);
    json::law_field_is_found(fields, 17);
    json::law_field_is_found(fields, 18);
    json::law_field_is_found(fields, 19);
    json::law_field_is_found(fields, 20);
    json::law_field_is_found(fields, 21);
    json::law_field_is_found(fields, 22);
}

/// A preparation that failed is answered with exit code one and with what it knew.
pub proof fn law_failed_preparation_is_told(
    kind: Seq<char>,
    state_changed: bool,
    base_ref: Option<Seq<char>>,
    base_sha: Option<Seq<char>>,
    source_dirty: Option<bool>,
    duration_ms: u64,
)
    ensures
        ({
            let told = failure_result(
                managed_worktree::OutcomeView::Failed {
                    kind,
                    state_changed,
                    base_ref,
                    base_sha,
                    source_dirty,
                },
                duration_ms,
            );
            &&& told.exit_code == Some(1i32)
            &&& told.stdout == Some(
                json::rendered_json(
                    command::worktree_failure(kind, state_changed, base_ref, base_sha, source_dirty),
                ),
            )
            &&& told.error is None
            &&& told.duration_ms == Some(duration_ms)
        }),
{
}

} // verus!
