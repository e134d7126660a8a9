//! Enabling, disabling and unregistering a project: what is asked of the
//! registry and of the disk, and what each answer leads to. Unregistering only
//! removes the record; the project's directory is never touched.
use crate::command;
use crate::command::{
    err_cmd, ok_cmd, project_error_cmd, structured_project_error_cmd, CommandResult,
};
use crate::json;
use crate::json::{add_field, optional_text, parse_json, text_value, JsonValue};
use crate::project_record::{ProjectFacts, RunnerProjectFile};
use crate::text;
use crate::text::{as_text, has_prefix, has_suffix, same_text};
use vstd::prelude::*;
use vstd::string::*;

verus! {

/// What happens to a project's registration.
#[derive(Debug, Clone, Copy, PartialEq, Eq, Structural)]
pub enum LifecycleAction {
    Enable,
    Disable,
    Unregister,
}

/// The name of an action in requests and results.
pub open spec fn action_name(action: LifecycleAction) -> Seq<char> {
    match action {
        LifecycleAction::Enable => "enable"@,
        LifecycleAction::Disable => "disable"@,
        LifecycleAction::Unregister => "unregister"@,
    }
}

impl LifecycleAction {
    /// The name of the action in requests and results.
    pub fn as_str(self) -> (name: &'static str)
        ensures
            name@ == action_name(self),
    {
        match self {
            LifecycleAction::Enable => "enable",
            LifecycleAction::Disable => "disable",
            LifecycleAction::Unregister => "unregister",
        }
    }
}

/// Where the operation stands: which question is open.
#[derive(Debug, Clone, Copy, PartialEq, Eq, Structural)]
pub enum LifecycleStage {
    /// The path of the record, inside the registry.
    ConfigPath,
    /// Whether the record exists.
    Exists,
    /// Removes what an interrupted removal of the record left behind.
    CleanUp,
    /// The record, and what the catalog derives from it.
    Record,
    /// Removes the record.
    Remove,
    /// The canonical path of the project's directory.
    Directory,
    /// Whether a project root may be spelled like this on this platform.
    RootSpelling,
    /// Whether the policy lets a project live there.
    Policy,
    /// Replaces the record by the one of the state; what the catalog derives
    /// from it.
    Write,
}

/// How far a removal of a record went.
#[derive(Debug, Clone, Copy, PartialEq, Eq, Structural)]
pub enum ProjectUnregisterError {
    BeforeRename,
    AfterRename,
}

/// What the driver answers.
#[derive(Debug)]
pub enum LifecycleAnswer {
    /// Nothing where the path stands, else a message.
    ConfigPath(Option<String>),
    /// Whether what was asked holds, or was done.
    Holds(bool),
    /// The record with its facts, where it could be read.
    Record(Option<(RunnerProjectFile, ProjectFacts)>),
    /// How the removal went.
    Removed(Result<(), ProjectUnregisterError>),
    /// Nothing where the spelling is permitted, else the kind of the refusal.
    Refused(Option<String>),
    /// The facts of the record that was written, where it was.
    Written(Option<ProjectFacts>),
}

/// The state of an operation on a registration.
#[derive(Debug)]
pub struct LifecycleState {
    pub stage: LifecycleStage,
    pub action: LifecycleAction,
    pub id: String,
    pub expected_revision: String,
    /// The record: as it was read, and at the last stage as it is to be written.
    pub project: Option<RunnerProjectFile>,
}

/// What a [`LifecycleState`] stands for.
pub struct LifecycleView {
    pub stage: LifecycleStage,
    pub action: LifecycleAction,
    pub id: Seq<char>,
    pub expected_revision: Seq<char>,
    pub project: Option<RunnerProjectFile>,
}

impl View for LifecycleState {
    type V = LifecycleView;

    open spec fn view(&self) -> LifecycleView {
        LifecycleView {
            stage: self.stage,
            action: self.action,
            id: self.id@,
            expected_revision: self.expected_revision@,
            project: self.project,
        }
    }
}

/// Where a step leads.
#[derive(Debug)]
pub enum LifecycleStep {
    Ask(LifecycleState),
    Finish(CommandResult),
}

/// What a [`LifecycleStep`] stands for.
pub enum LifecycleStepView {
    Ask(LifecycleView),
    Finish(command::CommandView),
}

impl View for LifecycleStep {
    type V = LifecycleStepView;

    open spec fn view(&self) -> LifecycleStepView {
        match self {
            LifecycleStep::Ask(state) => LifecycleStepView::Ask(state@),
            LifecycleStep::Finish(result) => LifecycleStepView::Finish(result@),
        }
    }
}

/// Whether an answer is one to the open question.
pub open spec fn fits(stage: LifecycleStage, answer: LifecycleAnswer) -> bool {
    match stage {
        LifecycleStage::ConfigPath => answer is ConfigPath,
        LifecycleStage::Exists => answer is Holds,
        LifecycleStage::CleanUp => answer is Holds,
        LifecycleStage::Record => answer is Record,
        LifecycleStage::Remove => answer is Removed,
        LifecycleStage::Directory => answer is Holds,
        LifecycleStage::RootSpelling => answer is Refused,
        LifecycleStage::Policy => answer is Holds,
        LifecycleStage::Write => answer is Written,
    }
}

/// What a state knows at its stage: the record once it was read, and at the
/// last stage that it says what the action asks for.
pub open spec fn well_formed(state: LifecycleView) -> bool {
    &&& state.stage == LifecycleStage::CleanUp || state.stage == LifecycleStage::Remove
        ==> state.action == LifecycleAction::Unregister
    &&& (state.stage == LifecycleStage::Directory || state.stage == LifecycleStage::RootSpelling
        || state.stage == LifecycleStage::Policy) ==> state.action == LifecycleAction::Enable
        && state.project is Some
    &&& state.stage == LifecycleStage::Write ==> {
        &&& state.action != LifecycleAction::Unregister
        &&& state.project matches Some(project) && project.disabled == (state.action
            == LifecycleAction::Disable)
    }
}

/// The operation ends with a code.
pub open spec fn coded(error_code: Seq<char>, duration_ms: u64) -> LifecycleStepView {
    LifecycleStepView::Finish(
        command::document_result(1, command::coded_failure(error_code), duration_ms),
    )
}

/// The document of a registration that is gone.
pub open spec fn gone_document(
    id: Seq<char>,
    outcome: Seq<char>,
    changed: bool,
) -> json::JsonView {
    json::JsonView::Object(
        seq![
            ("operation"@, json::JsonView::Text("unregister"@)),
            ("agent_project_id"@, json::JsonView::Text(id)),
            ("outcome"@, json::JsonView::Text(outcome)),
            ("changed"@, json::JsonView::Bool(changed)),
            ("revision"@, json::JsonView::Null),
        ],
    )
}

/// The document of a registration that stands.
pub open spec fn standing_document(
    action: LifecycleAction,
    id: Seq<char>,
    outcome: Seq<char>,
    changed: bool,
    project: RunnerProjectFile,
    facts: ProjectFacts,
) -> json::JsonView {
    json::JsonView::Object(
        seq![
            ("operation"@, json::JsonView::Text(action_name(action))),
            ("agent_project_id"@, json::JsonView::Text(id)),
            ("outcome"@, json::JsonView::Text(outcome)),
            ("changed"@, json::JsonView::Bool(changed)),
            ("revision"@, json::JsonView::Text(facts.revision@)),
            ("disabled"@, json::JsonView::Bool(project.disabled)),
            ("path"@, json::JsonView::Text(project.path@)),
            ("name"@, json::text_or_null(text::text_of(project.name))),
            ("kind"@, json::text_or_null(text::text_of(project.kind))),
            ("registration_source"@, json::JsonView::Text(facts.registration_source@)),
            ("description"@, json::text_or_null(text::text_of(project.description))),
            ("allow_patch"@, json::JsonView::Bool(project.allow_patch)),
            ("root_fingerprint"@, json::text_or_null(text::text_of(facts.root_fingerprint))),
            ("lineage"@, facts.lineage@),
        ],
    )
}

/// The outcome of an action that found nothing to do.
pub open spec fn already(action: LifecycleAction) -> Seq<char> {
    match action {
        LifecycleAction::Enable => "already_enabled"@,
        LifecycleAction::Disable => "already_disabled"@,
        LifecycleAction::Unregister => "already_unregistered"@,
    }
}

/// The outcome of an action that was carried out.
pub open spec fn done(action: LifecycleAction) -> Seq<char> {
    match action {
        LifecycleAction::Enable => "enabled"@,
        LifecycleAction::Disable => "disabled"@,
        LifecycleAction::Unregister => "unregistered"@,
    }
}

/// The operation goes on with another question and nothing new.
pub open spec fn at(state: LifecycleView, stage: LifecycleStage) -> LifecycleStepView {
    LifecycleStepView::Ask(LifecycleView { stage, ..state })
}

/// The record with the mark that the action asks for, to be written.
pub open spec fn marked(state: LifecycleView, project: RunnerProjectFile) -> LifecycleStepView {
    LifecycleStepView::Ask(
        LifecycleView {
            stage: LifecycleStage::Write,
            project: Some(
                RunnerProjectFile {
                    disabled: state.action == LifecycleAction::Disable,
                    ..project
                },
            ),
            ..state
        },
    )
}

/// What follows once the record is known. An action that finds nothing to do
/// says so whatever revision was expected; any other needs the revision that was
/// expected.
pub open spec fn after_record(
    state: LifecycleView,
    project: RunnerProjectFile,
    facts: ProjectFacts,
    duration_ms: u64,
) -> LifecycleStepView {
    let wants_disabled = state.action == LifecycleAction::Disable;
    if state.action != LifecycleAction::Unregister && project.disabled == wants_disabled {
        LifecycleStepView::Finish(
            command::document_result(
                0,
                standing_document(
                    state.action,
                    state.id,
                    already(state.action),
                    false,
                    project,
                    facts,
                ),
                duration_ms,
            ),
        )
    } else if state.expected_revision != facts.revision@ {
        coded("revision_conflict"@, duration_ms)
    } else if state.action == LifecycleAction::Unregister {
        LifecycleStepView::Ask(
            LifecycleView { stage: LifecycleStage::Remove, project: Some(project), ..state },
        )
    } else if state.action == LifecycleAction::Enable {
        LifecycleStepView::Ask(
            LifecycleView { stage: LifecycleStage::Directory, project: Some(project), ..state },
        )
    } else {
        marked(state, project)
    }
}

/// Where an answer to the open question leads.
pub open spec fn next(state: LifecycleView, answer: LifecycleAnswer, duration_ms: u64) -> LifecycleStepView {
    match (state.stage, answer) {
        (LifecycleStage::ConfigPath, LifecycleAnswer::ConfigPath(Some(message))) => {
            LifecycleStepView::Finish(command::message_result(message@, duration_ms))
        },
        (LifecycleStage::ConfigPath, _) => at(state, LifecycleStage::Exists),
        (LifecycleStage::Exists, LifecycleAnswer::Holds(exists)) => {
            if exists {
                at(state, LifecycleStage::Record)
            } else if state.action == LifecycleAction::Unregister {
                at(state, LifecycleStage::CleanUp)
            } else {
                coded("project_not_found"@, duration_ms)
            }
        },
        (LifecycleStage::CleanUp, LifecycleAnswer::Holds(cleaned)) => {
            if cleaned {
                LifecycleStepView::Finish(
                    command::document_result(
                        0,
                        gone_document(state.id, "already_unregistered"@, false),
                        duration_ms,
                    ),
                )
            } else {
                coded("operation_failed"@, duration_ms)
            }
        },
        (LifecycleStage::Record, LifecycleAnswer::Record(Some(found))) => {
            after_record(state, found.0, found.1, duration_ms)
        },
        (LifecycleStage::Record, _) => coded("operation_failed"@, duration_ms),
        (LifecycleStage::Remove, LifecycleAnswer::Removed(Ok(_))) => {
            LifecycleStepView::Finish(
                command::document_result(
                    0,
                    gone_document(state.id, "unregistered"@, true),
                    duration_ms,
                ),
            )
        },
        (
            LifecycleStage::Remove,
            LifecycleAnswer::Removed(Err(ProjectUnregisterError::BeforeRename)),
        ) => coded("operation_failed"@, duration_ms),
        (LifecycleStage::Remove, _) => LifecycleStepView::Finish(
            command::document_result(
                1,
                json::JsonView::Object(
                    command::failure_fields("operation_indeterminate"@, true),
                ),
                duration_ms,
            ),
        ),
        (LifecycleStage::Directory, LifecycleAnswer::Holds(found)) => {
            if found {
                at(state, LifecycleStage::RootSpelling)
            } else {
                coded("project_not_found"@, duration_ms)
            }
        },
        (LifecycleStage::RootSpelling, LifecycleAnswer::Refused(Some(kind))) => {
            coded(kind@, duration_ms)
        },
        (LifecycleStage::RootSpelling, _) => at(state, LifecycleStage::Policy),
        (LifecycleStage::Policy, LifecycleAnswer::Holds(allowed)) => {
            if allowed {
                marked(state, state.project->Some_0)
            } else {
                coded("path_outside_allowed_roots"@, duration_ms)
            }
        },
        (LifecycleStage::Write, LifecycleAnswer::Written(Some(facts))) => {
            LifecycleStepView::Finish(
                command::document_result(
                    0,
                    standing_document(
                        state.action,
                        state.id,
                        done(state.action),
                        true,
                        state.project->Some_0,
                        facts,
                    ),
                    duration_ms,
                ),
            )
        },
        (LifecycleStage::Write, _) => coded("operation_failed"@, duration_ms),
        _ => arbitrary(),
    }
}

/// Where an operation begins.
pub open spec fn beginning(
    lock_acquired: bool,
    action: Option<LifecycleAction>,
    payload: Option<json::JsonView>,
    duration_ms: u64,
) -> LifecycleStepView {
    if !lock_acquired {
        coded("operation_failed"@, duration_ms)
    } else {
        match action {
            None => coded("unsupported_runner_version"@, duration_ms),
            Some(action) => match payload {
                Some(payload) => match (
                    payload.text_field("project_id"@),
                    payload.text_field("expected_revision"@),
                ) {
                    (Some(id), Some(expected_revision)) => LifecycleStepView::Ask(
                        LifecycleView {
                            stage: LifecycleStage::ConfigPath,
                            action,
                            id,
                            expected_revision,
                            project: None,
                        },
                    ),
                    _ => coded("invalid_request"@, duration_ms),
                },
                None => coded("invalid_request"@, duration_ms),
            },
        }
    }
}

// ---- The executable steps ----------------------------------------------------

fn finish_coded(duration_ms: u64, error_code: &str) -> (step: LifecycleStep)
    ensures
        step@ == coded(error_code@, duration_ms),
{
    LifecycleStep::Finish(project_error_cmd(duration_ms, error_code))
}

/// Begins an operation. There is no action where the request asks for something
/// else.
pub fn begin(
    lock_acquired: bool,
    action: Option<LifecycleAction>,
    payload: &str,
    duration_ms: u64,
) -> (step: LifecycleStep)
    ensures
        step@ == beginning(lock_acquired, action, json::parsed_json(payload@), duration_ms),
        step matches LifecycleStep::Ask(state) ==> well_formed(state@),
{
    if !lock_acquired {
        return finish_coded(duration_ms, "operation_failed");
    }
    let action = match action {
        Some(action) => action,
        None => {
            return finish_coded(duration_ms, "unsupported_runner_version");
        },
    };
    let document = match parse_json(payload) {
        Some(document) => document,
        None => {
            return finish_coded(duration_ms, "invalid_request");
        },
    };
    match (document.text_field("project_id"), document.text_field("expected_revision")) {
        (Some(id), Some(expected_revision)) => LifecycleStep::Ask(
            LifecycleState {
                stage: LifecycleStage::ConfigPath,
                action,
                id: id.to_owned(),
                expected_revision: expected_revision.to_owned(),
                project: None,
            },
        ),
        _ => finish_coded(duration_ms, "invalid_request"),
    }
}

fn gone_result(duration_ms: u64, id: &str, outcome: &str, changed: bool) -> (result: CommandResult)
    ensures
        result@ == command::document_result(
            0,
            gone_document(id@, outcome@, changed),
            duration_ms,
        ),
{
    let mut fields: Vec<(String, JsonValue)> = Vec::new();
    add_field(&mut fields, "operation", text_value("unregister"));
    add_field(&mut fields, "agent_project_id", text_value(id));
    add_field(&mut fields, "outcome", text_value(outcome));
    add_field(&mut fields, "changed", JsonValue::Bool(changed));
    add_field(&mut fields, "revision", JsonValue::Null);
    proof {
        json::lemma_object_view(fields);
        assert(json::fields_view(fields@) =~= gone_document(id@, outcome@, changed)->Object_0);
    }
    let document = JsonValue::Object(fields);
    ok_cmd(duration_ms, &document)
}

fn standing_result(
    duration_ms: u64,
    action: LifecycleAction,
    id: &str,
    outcome: &str,
    changed: bool,
    project: &RunnerProjectFile,
    facts: &ProjectFacts,
) -> (result: CommandResult)
    ensures
        result@ == command::document_result(
            0,
            standing_document(action, id@, outcome@, changed, *project, *facts),
            duration_ms,
        ),
{
    let mut fields: Vec<(String, JsonValue)> = Vec::new();
    add_field(&mut fields, "operation", text_value(action.as_str()));
    add_field(&mut fields, "agent_project_id", text_value(id));
    add_field(&mut fields, "outcome", text_value(outcome));
    add_field(&mut fields, "changed", JsonValue::Bool(changed));
    add_field(&mut fields, "revision", text_value(facts.revision.as_str()));
    add_field(&mut fields, "disabled", JsonValue::Bool(project.disabled));
    add_field(&mut fields, "path", text_value(project.path.as_str()));
    add_field(&mut fields, "name", optional_text(as_text(&project.name)));
    add_field(&mut fields, "kind", optional_text(as_text(&project.kind)));
    add_field(
        &mut fields,
        "registration_source",
        text_value(facts.registration_source.as_str()),
    );
    add_field(&mut fields, "description", optional_text(as_text(&project.description)));
    add_field(&mut fields, "allow_patch", JsonValue::Bool(project.allow_patch));
    add_field(
        &mut fields,
        "root_fingerprint",
        optional_text(as_text(&facts.root_fingerprint)),
    );
    add_field(&mut fields, "lineage", facts.lineage.duplicate());
    proof {
        json::lemma_object_view(fields);
        assert(json::fields_view(fields@) =~= standing_document(
            action,
            id@,
            outcome@,
            changed,
            *project,
            *facts,
        )->Object_0);
    }
    let document = JsonValue::Object(fields);
    ok_cmd(duration_ms, &document)
}

fn indeterminate_result(duration_ms: u64) -> (result: CommandResult)
    ensures
        result@ == command::document_result(
            1,
            json::JsonView::Object(command::failure_fields("operation_indeterminate"@, true)),
            duration_ms,
        ),
{
    let fields: Vec<(String, JsonValue)> = Vec::new();
    assert(json::fields_view(fields@) =~= Seq::<(Seq<char>, json::JsonView)>::empty());
    structured_project_error_cmd(duration_ms, "operation_indeterminate", true, fields)
}

impl LifecycleState {
    fn go(self, stage: LifecycleStage) -> (step: LifecycleStep)
        ensures
            step@ == at(self@, stage),
    {
        let mut state = self;
        state.stage = stage;
        LifecycleStep::Ask(state)
    }

    fn mark(self, project: RunnerProjectFile) -> (step: LifecycleStep)
        ensures
            step@ == marked(self@, project),
    {
        let mut state = self;
        let mut project = project;
        project.disabled = state.action == LifecycleAction::Disable;
        state.project = Some(project);
        state.stage = LifecycleStage::Write;
        LifecycleStep::Ask(state)
    }

    fn go_after_record(
        self,
        project: RunnerProjectFile,
        facts: ProjectFacts,
        duration_ms: u64,
    ) -> (step: LifecycleStep)
        ensures
            step@ == after_record(self@, project, facts, duration_ms),
    {
        let wants_disabled = self.action == LifecycleAction::Disable;
        if self.action != LifecycleAction::Unregister && project.disabled == wants_disabled {
            let outcome = if wants_disabled {
                "already_disabled"
            } else {
                "already_enabled"
            };
            return LifecycleStep::Finish(
                standing_result(
                    duration_ms,
                    self.action,
                    self.id.as_str(),
                    outcome,
                    false,
                    &project,
                    &facts,
                ),
            );
        }
        if !same_text(self.expected_revision.as_str(), facts.revision.as_str()) {
            return finish_coded(duration_ms, "revision_conflict");
        }
        let mut state = self;
        match state.action {
            LifecycleAction::Unregister => {
                state.project = Some(project);
                state.go(LifecycleStage::Remove)
            },
            LifecycleAction::Enable => {
                state.project = Some(project);
                state.go(LifecycleStage::Directory)
            },
            LifecycleAction::Disable => state.mark(project),
        }
    }

    /// Takes the answer to the open question. The question is the stage of the
    /// state; at [`LifecycleStage::Write`] the record to write is the state's.
    pub fn step(self, answer: LifecycleAnswer, duration_ms: u64) -> (step: LifecycleStep)
        requires
            well_formed(self@),
            fits(self.stage, answer),
        ensures
            step@ == next(self@, answer, duration_ms),
            step matches LifecycleStep::Ask(state) ==> well_formed(state@),
    {
        let state = self;
        match (state.stage, answer) {
            (LifecycleStage::ConfigPath, LifecycleAnswer::ConfigPath(Some(message))) => {
                LifecycleStep::Finish(err_cmd(duration_ms, message.as_str()))
            },
            (LifecycleStage::ConfigPath, _) => state.go(LifecycleStage::Exists),
            (LifecycleStage::Exists, LifecycleAnswer::Holds(exists)) => {
                if exists {
                    state.go(LifecycleStage::Record)
                } else if state.action == LifecycleAction::Unregister {
                    state.go(LifecycleStage::CleanUp)
                } else {
                    finish_coded(duration_ms, "project_not_found")
                }
            },
            (LifecycleStage::CleanUp, LifecycleAnswer::Holds(cleaned)) => {
                if cleaned {
                    LifecycleStep::Finish(
                        gone_result(duration_ms, state.id.as_str(), "already_unregistered", false),
                    )
                } else {
                    finish_coded(duration_ms, "operation_failed")
                }
            },
            (LifecycleStage::Record, LifecycleAnswer::Record(Some(found))) => {
                state.go_after_record(found.0, found.1, duration_ms)
            },
            (LifecycleStage::Record, _) => finish_coded(duration_ms, "operation_failed"),
            (LifecycleStage::Remove, LifecycleAnswer::Removed(Ok(_))) => {
                LifecycleStep::Finish(
                    gone_result(duration_ms, state.id.as_str(), "unregistered", true),
                )
            },
            (
                LifecycleStage::Remove,
                LifecycleAnswer::Removed(Err(ProjectUnregisterError::BeforeRename)),
            ) => finish_coded(duration_ms, "operation_failed"),
            (LifecycleStage::Remove, _) => {
                LifecycleStep::Finish(indeterminate_result(duration_ms))
            },
            (LifecycleStage::Directory, LifecycleAnswer::Holds(found)) => {
                if found {
                    state.go(LifecycleStage::RootSpelling)
                } else {
                    finish_coded(duration_ms, "project_not_found")
                }
            },
            (LifecycleStage::RootSpelling, LifecycleAnswer::Refused(Some(kind))) => {
                finish_coded(duration_ms, kind.as_str())
            },
            (LifecycleStage::RootSpelling, _) => state.go(LifecycleStage::Policy),
            (LifecycleStage::Policy, LifecycleAnswer::Holds(allowed)) => {
                if allowed {
                    let mut state = state;
                    match state.project.take() {
                        Some(project) => state.mark(project),
                        None => vstd::pervasive::unreached(),
                    }
                } else {
                    finish_coded(duration_ms, "path_outside_allowed_roots")
                }
            },
            (LifecycleStage::Write, LifecycleAnswer::Written(Some(facts))) => {
                let outcome = if state.action == LifecycleAction::Disable {
                    "disabled"
                } else {
                    "enabled"
                };
                match &state.project {
                    Some(project) => LifecycleStep::Finish(
                        standing_result(
                            duration_ms,
                            state.action,
                            state.id.as_str(),
                            outcome,
                            true,
                            project,
                            &facts,
                        ),
                    ),
                    None => vstd::pervasive::unreached(),
                }
            },
            (LifecycleStage::Write, _) => finish_coded(duration_ms, "operation_failed"),
            _ => vstd::pervasive::unreached(),
        }
    }
}

// ---- Files of the registry -----------------------------------------------------

/// Whether a file name is that of a record of `id` that an interrupted removal
/// left behind.
pub open spec fn tombstone_of(name: Seq<char>, id: Seq<char>) -> bool {
    text::begins_with(name, "."@ + id + "."@) && text::finishes_with(
        name,
        ".toml.unregistering"@,
    )
}

/// Whether a file name is that of a record of `id` that an interrupted removal
/// left behind.
pub fn is_unregister_tombstone(name: &str, id: &str) -> (found: bool)
    ensures
        found == tombstone_of(name@, id@),
{
    let mut prefix = ".".to_owned();
    prefix.append(id);
    prefix.append(".");
    has_prefix(name, prefix.as_str()) && has_suffix(name, ".toml.unregistering")
}

/// How the removal of a record went: `has_parent` says whether the record lies
/// in a directory; the record is set aside under another name, the directory
/// synchronised, the file removed and the directory synchronised again, and each
/// flag says whether that was done. Once the record was set aside, whatever
/// fails leaves it uncertain what a restart finds.
pub fn unregister_outcome(
    has_parent: bool,
    renamed: bool,
    synced: bool,
    removed: bool,
    synced_again: bool,
) -> (result: Result<(), ProjectUnregisterError>)
    ensures
        result is Ok == (has_parent && renamed && synced && removed && synced_again),
        result == Err::<(), ProjectUnregisterError>(ProjectUnregisterError::BeforeRename) <==> !(
        has_parent && renamed),
{
    if !has_parent || !renamed {
        Err(ProjectUnregisterError::BeforeRename)
    } else if synced && removed && synced_again {
        Ok(())
    } else {
        Err(ProjectUnregisterError::AfterRename)
    }
}

// ---- Laws ------------------------------------------------------------------------


/// A record is removed or replaced only where its revision is the one that the
/// request expected.
pub proof fn law_changes_need_the_expected_revision(
    state: LifecycleView,
    project: RunnerProjectFile,
    facts: ProjectFacts,
    duration_ms: u64,
)
    requires
        state.stage == LifecycleStage::Record,
    ensures
        next(state, LifecycleAnswer::Record(Some((project, facts))), duration_ms) is Ask
            ==> state.expected_revision == facts.revision@,
{
}

/// Enabling or disabling a project for the second time changes nothing and says
/// so, whatever revision was expected.
pub proof fn law_repeating_changes_nothing(
    state: LifecycleView,
    project: RunnerProjectFile,
    facts: ProjectFacts,
    duration_ms: u64,
)
    requires
        state.stage == LifecycleStage::Record,
        state.action != LifecycleAction::Unregister,
        project.disabled == (state.action == LifecycleAction::Disable),
    ensures
        next(state, LifecycleAnswer::Record(Some((project, facts))), duration_ms)
            == LifecycleStepView::Finish(
            command::document_result(
                0,
                standing_document(
                    state.action,
                    state.id,
                    already(state.action),
                    false,
                    project,
                    facts,
                ),
                duration_ms,
            ),
        ),
{
}

/// The record that is written differs from the one that was read in its mark
/// alone.
pub proof fn law_only_the_mark_changes(
    state: LifecycleView,
    answer: LifecycleAnswer,
    duration_ms: u64,
)
    requires
        well_formed(state),
        fits(state.stage, answer),
    ensures
        next(state, answer, duration_ms) matches LifecycleStepView::Ask(after) ==> after.stage
            == LifecycleStage::Write ==> {
            let before = if state.stage == LifecycleStage::Record {
                answer->Record_0->Some_0.0
            } else {
                state.project->Some_0
            };
            after.project == Some(
                RunnerProjectFile {
                    disabled: state.action == LifecycleAction::Disable,
                    ..before
                },
            )
        },
{
}

/// Steps keep what is known at their stage.
pub proof fn law_steps_keep_what_is_known(
    state: LifecycleView,
    answer: LifecycleAnswer,
    duration_ms: u64,
)
    requires
        well_formed(state),
        fits(state.stage, answer),
    ensures
        next(state, answer, duration_ms) matches LifecycleStepView::Ask(after) ==> well_formed(
            after,
        ) && after.action == state.action && after.id == state.id,
{
}

// ---- Whole operations ------------------------------------------------------------

/// A registry that answers and does what it is asked, and the disk around it. Only
/// the records can change.
pub struct Registry {
    pub records: Map<Seq<char>, (RunnerProjectFile, ProjectFacts)>,
    /// Whether the directory of a project is there.
    pub has_directory: spec_fn(Seq<char>) -> bool,
    /// Why a project root may not be spelled like this.
    pub spelling: spec_fn(Seq<char>) -> Option<String>,
    /// Whether the policy lets a project live there.
    pub allows: spec_fn(Seq<char>) -> bool,
    /// What the catalog derives from a record.
    pub facts: spec_fn(RunnerProjectFile) -> ProjectFacts,
}

/// What such a registry answers to the open question of a state.
pub open spec fn registry_answer(registry: Registry, state: LifecycleView) -> LifecycleAnswer {
    let path = state.project->Some_0.path@;
    match state.stage {
        LifecycleStage::ConfigPath => LifecycleAnswer::ConfigPath(None),
        LifecycleStage::Exists => LifecycleAnswer::Holds(
            registry.records.contains_key(state.id),
        ),
        LifecycleStage::CleanUp => LifecycleAnswer::Holds(true),
        LifecycleStage::Record => LifecycleAnswer::Record(Some(registry.records[state.id])),
        LifecycleStage::Remove => LifecycleAnswer::Removed(Ok(())),
        LifecycleStage::Directory => LifecycleAnswer::Holds((registry.has_directory)(path)),
        LifecycleStage::RootSpelling => LifecycleAnswer::Refused((registry.spelling)(path)),
        LifecycleStage::Policy => LifecycleAnswer::Holds((registry.allows)(path)),
        LifecycleStage::Write => LifecycleAnswer::Written(
            Some((registry.facts)(state.project->Some_0)),
        ),
    }
}

/// The registry once the open question of a state was carried out.
pub open spec fn registry_after(registry: Registry, state: LifecycleView) -> Registry {
    match state.stage {
        LifecycleStage::Remove => Registry {
            records: registry.records.remove(state.id),
            ..registry
        },
        LifecycleStage::Write => Registry {
            records: registry.records.insert(
                state.id,
                (state.project->Some_0, (registry.facts)(state.project->Some_0)),
            ),
            ..registry
        },
        _ => registry,
    }
}

/// An operation and its registry after so many steps, of which the last took
/// `duration_ms`.
pub open spec fn carried_out(
    registry: Registry,
    step: LifecycleStepView,
    duration_ms: u64,
    steps: nat,
) -> (Registry, LifecycleStepView)
    decreases steps,
{
    if steps == 0 {
        (registry, step)
    } else {
        match step {
            LifecycleStepView::Ask(state) => carried_out(
                registry_after(registry, state),
                next(state, registry_answer(registry, state), duration_ms),
                duration_ms,
                (steps - 1) as nat,
            ),
            LifecycleStepView::Finish(_) => (registry, step),
        }
    }
}

/// No operation takes more steps than there are stages.
pub open spec fn all_steps() -> nat {
    9
}

/// The end of an operation: its registry and where it led.
pub open spec fn operated(
    registry: Registry,
    action: LifecycleAction,
    payload: json::JsonView,
    duration_ms: u64,
) -> (Registry, LifecycleStepView) {
    carried_out(
        registry,
        beginning(true, Some(action), Some(payload), duration_ms),
        duration_ms,
        all_steps(),
    )
}

/// Every operation comes to its end.
pub proof fn law_operations_end(
    registry: Registry,
    action: LifecycleAction,
    payload: json::JsonView,
    duration_ms: u64,
)
    ensures
        operated(registry, action, payload, duration_ms).1 is Finish,
{
    reveal_with_fuel(carried_out, 10);
}

/// Unregistering a project whose revision is the expected one removes its record
/// and no other; unregistering it again changes nothing and says so.
pub proof fn law_unregistering_twice(
    registry: Registry,
    payload: json::JsonView,
    first_ms: u64,
    second_ms: u64,
)
    requires
        payload.text_field("project_id"@) matches Some(id) && registry.records.contains_key(id)
            && payload.text_field("expected_revision"@) == Some(registry.records[id].1.revision@),
    ensures
        ({
            let id = payload.text_field("project_id"@)->Some_0;
            let first = operated(registry, LifecycleAction::Unregister, payload, first_ms);
            let second = operated(first.0, LifecycleAction::Unregister, payload, second_ms);
            &&& first.1 == LifecycleStepView::Finish(
                command::document_result(0, gone_document(id, "unregistered"@, true), first_ms),
            )
            &&& first.0 == (Registry { records: registry.records.remove(id), ..registry })
            &&& second.1 == LifecycleStepView::Finish(
                command::document_result(
                    0,
                    gone_document(id, "already_unregistered"@, false),
                    second_ms,
                ),
            )
            &&& second.0 == first.0
        }),
{
    reveal_with_fuel(carried_out, 10);
}

/// Enabling or disabling a project that was not so leaves it so, with its record
/// changed in the mark alone and every other record as it was; doing it again
/// changes nothing and says so, whatever revision is expected then.
pub proof fn law_marking_twice(
    registry: Registry,
    action: LifecycleAction,
    payload: json::JsonView,
    again: json::JsonView,
    first_ms: u64,
    second_ms: u64,
)
    requires
        action != LifecycleAction::Unregister,
        payload.text_field("project_id"@) matches Some(id) && registry.records.contains_key(id)
            && payload.text_field("expected_revision"@) == Some(registry.records[id].1.revision@)
            && registry.records[id].0.disabled != (action == LifecycleAction::Disable) && (action
            == LifecycleAction::Enable ==> {
            let path = registry.records[id].0.path@;
            (registry.has_directory)(path) && (registry.spelling)(path) is None && (
            registry.allows)(path)
        }),
        again.text_field("project_id"@) == payload.text_field("project_id"@),
        again.text_field("expected_revision"@) is Some,
    ensures
        ({
            let id = payload.text_field("project_id"@)->Some_0;
            let written = RunnerProjectFile {
                disabled: action == LifecycleAction::Disable,
                ..registry.records[id].0
            };
            let facts = (registry.facts)(written);
            let first = operated(registry, action, payload, first_ms);
            let second = operated(first.0, action, again, second_ms);
            &&& first.1 == LifecycleStepView::Finish(
                command::document_result(
                    0,
                    standing_document(action, id, done(action), true, written, facts),
                    first_ms,
                ),
            )
            &&& first.0 == (Registry {
                records: registry.records.insert(id, (written, facts)),
                ..registry
            })
            &&& second.1 == LifecycleStepView::Finish(
                command::document_result(
                    0,
                    standing_document(action, id, already(action), false, written, facts),
                    second_ms,
                ),
            )
            &&& second.0 == first.0
        }),
{
    reveal_with_fuel(carried_out, 10);
}

// ---- What each answer leads to -------------------------------------------------------

/// A project that is gone is told by its identifier, with what became of it, whether
/// this changed anything, and without a revision.
pub proof fn law_gone_project_is_told(id: Seq<char>, outcome: Seq<char>, changed: bool)
    ensures
        gone_document(id, outcome, changed) is Object,
        (gone_document(id, outcome, changed)->Object_0).len() == 5,
        gone_document(id, outcome, changed).get("operation"@) == Some(json::JsonView::Text("unregister"@)),
        gone_document(id, outcome, changed).get("agent_project_id"@) == Some(json::JsonView::Text(id)),
        gone_document(id, outcome, changed).get("outcome"@) == Some(json::JsonView::Text(outcome)),
        gone_document(id, outcome, changed).get("changed"@) == Some(json::JsonView::Bool(changed)),
        gone_document(id, outcome, changed).get("revision"@) == Some(json::JsonView::Null),
{
    reveal_strlit("operation");
    reveal_strlit("agent_project_id");
    reveal_strlit("outcome");
    reveal_strlit("changed");
    reveal_strlit("revision");
    assert("operation"@.len() == 9);
    assert("agent_project_id"@.len() == 16);
    assert("outcome"@.len() == 7);
    assert("changed"@.len() == 7);
    assert("revision"@.len() == 8);
    assert("outcome"@[0] != "changed"@[0]);
    let fields = gone_document(id, outcome, changed)->Object_0;
    json::law_field_is_found(fields, 0);
    json::law_field_is_found(fields, 1);
    json::law_field_is_found(fields, 2);
    json::law_field_is_found(fields, 3);
    json::law_field_is_found(fields, 4);
}

/// A project that stands is told as it is recorded, with what was asked, what became
/// of it and whether this changed anything.
pub proof fn law_standing_project_is_told_as_recorded(
    action: LifecycleAction,
    id: Seq<char>,
    outcome: Seq<char>,
    changed: bool,
    project: RunnerProjectFile,
    facts: ProjectFacts,
)
    ensures
        standing_document(action, id, outcome, changed, project, facts) is Object,
        (standing_document(action, id, outcome, changed, project, facts)->Object_0).len() == 14,
        standing_document(action, id, outcome, changed, project, facts).get("operation"@) == Some(json::JsonView::Text(
            match action {
                LifecycleAction::Enable => "enable"@,
                LifecycleAction::Disable => "disable"@,
                LifecycleAction::Unregister => "unregister"@,
            },
        )),
        standing_document(action, id, outcome, changed, project, facts).get("agent_project_id"@) == Some(json::JsonView::Text(id)),
        standing_document(action, id, outcome, changed, project, facts).get("outcome"@) == Some(json::JsonView::Text(outcome)),
        standing_document(action, id, outcome, changed, project, facts).get("changed"@) == Some(json::JsonView::Bool(changed)),
        standing_document(action, id, outcome, changed, project, facts).get("revision"@) == Some(json::JsonView::Text(facts.revision@)),
        standing_document(action, id, outcome, changed, project, facts).get("disabled"@) == Some(json::JsonView::Bool(project.disabled)),
        standing_document(action, id, outcome, changed, project, facts).get("path"@) == Some(json::JsonView::Text(project.path@)),
        standing_document(action, id, outcome, changed, project, facts).get("name"@) == Some(match project.name {
            Some(held) => json::JsonView::Text(held@),
            None => json::JsonView::Null,
        }),
        standing_document(action, id, outcome, changed, project, facts).get("kind"@) == Some(match project.kind {
            Some(held) => json::JsonView::Text(held@),
            None => json::JsonView::Null,
        }),
        standing_document(action, id, outcome, changed, project, facts).get("registration_source"@) == Some(json::JsonView::Text(facts.registration_source@)),
        standing_document(action, id, outcome, changed, project, facts).get("description"@) == Some(match project.description {
            Some(held) => json::JsonView::Text(held@),
            None => json::JsonView::Null,
        }),
        standing_document(action, id, outcome, changed, project, facts).get("allow_patch"@) == Some(json::JsonView::Bool(project.allow_patch)),
        standing_document(action, id, outcome, changed, project, facts).get("root_fingerprint"@) == Some(match facts.root_fingerprint {
            Some(held) => json::JsonView::Text(held@),
            None => json::JsonView::Null,
        }),
        standing_document(action, id, outcome, changed, project, facts).get("lineage"@) == Some(facts.lineage@),
{
    reveal_strlit("operation");
    reveal_strlit("agent_project_id");
    reveal_strlit("outcome");
    reveal_strlit("changed");
    reveal_strlit("revision");
    reveal_strlit("disabled");
    reveal_strlit("path");
    reveal_strlit("name");
    reveal_strlit("kind");
    reveal_strlit("registration_source");
    reveal_strlit("description");
    reveal_strlit("allow_patch");
    reveal_strlit("root_fingerprint");
    reveal_strlit("lineage");
    assert("operation"@.len() == 9);
    assert("agent_project_id"@.len() == 16);
    assert("outcome"@.len() == 7);
    assert("changed"@.len() == 7);
    assert("revision"@.len() == 8);
    assert("disabled"@.len() == 8);
    assert("path"@.len() == 4);
    assert("name"@.len() == 4);
    assert("kind"@.len() == 4);
    assert("registration_source"@.len() == 19);
    assert("description"@.len() == 11);
    assert("allow_patch"@.len() == 11);
    assert("root_fingerprint"@.len() == 16);
    assert("lineage"@.len() == 7);
    assert("agent_project_id"@[0] != "root_fingerprint"@[0]);
    assert("outcome"@[0] != "changed"@[0]);
    assert("outcome"@[0] != "lineage"@[0]);
    assert("changed"@[0] != "lineage"@[0]);
    assert("revision"@[0] != "disabled"@[0]);
    assert("path"@[0] != "name"@[0]);
    assert("path"@[0] != "kind"@[0]);
    assert("name"@[0] != "kind"@[0]);
    assert("description"@[0] != "allow_patch"@[0]);
    let fields = standing_document(action, id, outcome, changed, project, facts)->Object_0;
    json::law_field_is_found(fields, 0);
    json::law_field_is_found(fields, 1);
    json::law_field_is_found(fields, 2);
    json::law_field_is_found(fields, 3);
    json::law_field_is_found(fields, 4);
    json::law_field_is_found(fields, 5);
    json::law_field_is_found(fields, 6);
    json::law_field_is_found(fields, 7);
    json::law_field_is_found(fields, 8);
    json::law_field_is_found(fields, 9);
    json::law_field_is_found(fields, 10);
    json::law_field_is_found(fields, 11);
    json::law_field_is_found(fields, 12);
    json::law_field_is_found(fields, 13);
}

/// Whether a step is the end of the operation with a failure of a code.
pub open spec fn fails(step: LifecycleStepView, error_code: Seq<char>, duration_ms: u64) -> bool {
    step matches LifecycleStepView::Finish(told) && told.exit_code == Some(1i32) && told.stdout
        == Some(json::rendered_json(command::coded_failure(error_code))) && told.error is None
        && told.duration_ms == Some(duration_ms)
}

/// Whether a step is the end of the operation with a document.
pub open spec fn tells(step: LifecycleStepView, document: json::JsonView, duration_ms: u64) -> bool {
    step matches LifecycleStepView::Finish(told) && told.exit_code == Some(0i32) && told.stdout
        == Some(json::rendered_json(document)) && told.error is None && told.duration_ms == Some(
        duration_ms,
    )
}

/// Whether a step goes on at a stage, with the same operation on the same project.
pub open spec fn goes_on(
    step: LifecycleStepView,
    state: LifecycleView,
    stage: LifecycleStage,
) -> bool {
    step matches LifecycleStepView::Ask(on) && on.stage == stage && on.action == state.action
        && on.id == state.id && on.expected_revision == state.expected_revision
}

/// An operation begins with the project and the revision that its payload names;
/// without the lock, a known operation or both of these it ends there.
pub proof fn law_operation_begins_with_its_payload(
    lock_acquired: bool,
    action: Option<LifecycleAction>,
    payload: Option<json::JsonView>,
    duration_ms: u64,
)
    ensures
        ({
            let begun = beginning(lock_acquired, action, payload, duration_ms);
            &&& !lock_acquired ==> fails(begun, "operation_failed"@, duration_ms)
            &&& lock_acquired && action is None ==> fails(
                begun,
                "unsupported_runner_version"@,
                duration_ms,
            )
            &&& lock_acquired && action is Some && payload is None ==> fails(
                begun,
                "invalid_request"@,
                duration_ms,
            )
            &&& lock_acquired && action is Some ==> (payload matches Some(document) ==> {
                let id = document.get("project_id"@);
                let revision = document.get("expected_revision"@);
                &&& id matches Some(json::JsonView::Text(named)) ==> (revision matches Some(
                    json::JsonView::Text(expected),
                ) ==> (begun matches LifecycleStepView::Ask(state) && state.stage
                    == LifecycleStage::ConfigPath && state.action == action->Some_0 && state.id
                    == named && state.expected_revision == expected && state.project is None))
                &&& !(id matches Some(held) && held is Text) || !(revision matches Some(held)
                    && held is Text) ==> fails(begun, "invalid_request"@, duration_ms)
            })
        }),
{
}

/// A project that is looked for: a place that cannot be named is told as it was
/// said; a record that is there is read; one that is not is, for an unregistration,
/// cleaned up behind and told as gone already, and otherwise not found.
pub proof fn law_project_is_looked_for_first(
    state: LifecycleView,
    answer: LifecycleAnswer,
    duration_ms: u64,
)
    requires
        fits(state.stage, answer),
    ensures
        ({
            let step = next(state, answer, duration_ms);
            match state.stage {
                LifecycleStage::ConfigPath => match answer {
                    LifecycleAnswer::ConfigPath(Some(message)) => step matches
                        LifecycleStepView::Finish(told) && told.error == Some(message@)
                        && told.exit_code is None && told.duration_ms == Some(duration_ms),
                    _ => goes_on(step, state, LifecycleStage::Exists),
                },
                LifecycleStage::Exists => if answer == LifecycleAnswer::Holds(true) {
                    goes_on(step, state, LifecycleStage::Record)
                } else {
                    match state.action {
                        LifecycleAction::Unregister => goes_on(
                            step,
                            state,
                            LifecycleStage::CleanUp,
                        ),
                        _ => fails(step, "project_not_found"@, duration_ms),
                    }
                },
                LifecycleStage::CleanUp => if answer == LifecycleAnswer::Holds(true) {
                    tells(
                        step,
                        gone_document(state.id, "already_unregistered"@, false),
                        duration_ms,
                    )
                } else {
                    fails(step, "operation_failed"@, duration_ms)
                },
                _ => true,
            }
        }),
{
}

/// A record that was read: one that cannot be read is a failure; one that is as it
/// is to be is told so, with nothing changed; one of another revision than the
/// expected one is a conflict; and otherwise an unregistration removes it, an
/// enabling looks at its directory first, and a disabling marks it.
pub proof fn law_record_decides_what_is_done(
    state: LifecycleView,
    found: Option<(RunnerProjectFile, ProjectFacts)>,
    duration_ms: u64,
)
    requires
        state.stage == LifecycleStage::Record,
    ensures
        ({
            let step = next(state, LifecycleAnswer::Record(found), duration_ms);
            match found {
                None => fails(step, "operation_failed"@, duration_ms),
                Some((project, facts)) => match state.action {
                    LifecycleAction::Enable => {
                        &&& !project.disabled ==> tells(
                            step,
                            standing_document(
                                LifecycleAction::Enable,
                                state.id,
                                "already_enabled"@,
                                false,
                                project,
                                facts,
                            ),
                            duration_ms,
                        )
                        &&& project.disabled && state.expected_revision != facts.revision@
                            ==> fails(step, "revision_conflict"@, duration_ms)
                        &&& project.disabled && state.expected_revision == facts.revision@
                            ==> goes_on(step, state, LifecycleStage::Directory) && (
                        step->Ask_0).project == Some(project)
                    },
                    LifecycleAction::Disable => {
                        &&& project.disabled ==> tells(
                            step,
                            standing_document(
                                LifecycleAction::Disable,
                                state.id,
                                "already_disabled"@,
                                false,
                                project,
                                facts,
                            ),
                            duration_ms,
                        )
                        &&& !project.disabled && state.expected_revision != facts.revision@
                            ==> fails(step, "revision_conflict"@, duration_ms)
                        &&& !project.disabled && state.expected_revision == facts.revision@
                            ==> goes_on(step, state, LifecycleStage::Write) && (
                        step->Ask_0).project == Some(
                            RunnerProjectFile { disabled: true, ..project },
                        )
                    },
                    LifecycleAction::Unregister => {
                        &&& state.expected_revision != facts.revision@ ==> fails(
                            step,
                            "revision_conflict"@,
                            duration_ms,
                        )
                        &&& state.expected_revision == facts.revision@ ==> goes_on(
                            step,
                            state,
                            LifecycleStage::Remove,
                        )
                    },
                },
            }
        }),
{
}

/// A record is removed or written, and what came of it is told: removed as
/// unregistered, written as enabled or disabled, each with a change; a failure
/// before anything was done as a failure, and one behind that as not known.
pub proof fn law_change_is_told_as_it_went(
    state: LifecycleView,
    answer: LifecycleAnswer,
    duration_ms: u64,
)
    requires
        well_formed(state),
        fits(state.stage, answer),
    ensures
        ({
            let step = next(state, answer, duration_ms);
            match state.stage {
                LifecycleStage::Remove => match answer {
                    LifecycleAnswer::Removed(Ok(_)) => tells(
                        step,
                        gone_document(state.id, "unregistered"@, true),
                        duration_ms,
                    ),
                    LifecycleAnswer::Removed(Err(ProjectUnregisterError::BeforeRename)) => fails(
                        step,
                        "operation_failed"@,
                        duration_ms,
                    ),
                    _ => step matches LifecycleStepView::Finish(told) && told.exit_code == Some(
                        1i32,
                    ) && told.stdout == Some(
                        json::rendered_json(
                            json::JsonView::Object(
                                seq![
                                    (
                                        "error_code"@,
                                        json::JsonView::Text("operation_indeterminate"@),
                                    ),
                                    (
                                        "error_kind"@,
                                        json::JsonView::Text("operation_indeterminate"@),
                                    ),
                                    (
                                        "failure_kind"@,
                                        json::JsonView::Text("operation_indeterminate"@),
                                    ),
                                    ("state_changed"@, json::JsonView::Bool(true)),
                                ],
                            ),
                        ),
                    ),
                },
                LifecycleStage::Directory => if answer == LifecycleAnswer::Holds(true) {
                    goes_on(step, state, LifecycleStage::RootSpelling) && (step->Ask_0).project
                        == state.project
                } else {
                    fails(step, "project_not_found"@, duration_ms)
                },
                LifecycleStage::RootSpelling => match answer {
                    LifecycleAnswer::Refused(Some(kind)) => fails(step, kind@, duration_ms),
                    _ => goes_on(step, state, LifecycleStage::Policy) && (step->Ask_0).project
                        == state.project,
                },
                LifecycleStage::Policy => if answer == LifecycleAnswer::Holds(true) {
                    goes_on(step, state, LifecycleStage::Write) && (step->Ask_0).project == Some(
                        RunnerProjectFile { disabled: false, ..state.project->Some_0 },
                    )
                } else {
                    fails(step, "path_outside_allowed_roots"@, duration_ms)
                },
                LifecycleStage::Write => match answer {
                    LifecycleAnswer::Written(Some(facts)) => tells(
                        step,
                        standing_document(
                            state.action,
                            state.id,
                            if state.action == LifecycleAction::Enable {
                                "enabled"@
                            } else {
                                "disabled"@
                            },
                            true,
                            state.project->Some_0,
                            facts,
                        ),
                        duration_ms,
                    ),
                    _ => fails(step, "operation_failed"@, duration_ms),
                },
                _ => true,
            }
        }),
{
}

/// What is left of an unregistration bears the identifier of its project and the
/// ending of such files: what is between does not matter, and a file of another
/// ending is left alone.
pub proof fn law_remains_bear_the_identifier(id: Seq<char>, between: Seq<char>, name: Seq<char>)
    ensures
        tombstone_of("."@ + id + "."@ + between + ".toml.unregistering"@, id),
        tombstone_of(name, id) ==> text::begins_with(name, "."@ + id + "."@)
            && text::finishes_with(name, ".toml.unregistering"@),
{
    let front = "."@ + id + "."@;
    let back = ".toml.unregistering"@;
    text::law_prefix_and_suffix(front, front, between + back);
    text::law_prefix_and_suffix(back, back, front + between);
    assert(front + between + back =~= front + (between + back));
}

} // verus!
