//! Registering an existing directory as a project, and creating a new one: what
//! is asked of the registry, of Git and of the disk, in which order, and what
//! each answer leads to.
use crate::command;
use crate::command::{err_cmd, ok_cmd, project_error_cmd, CommandResult};
use crate::json;
use crate::json::{
    add_field, optional_text, parse_json_or_message, text_value, JsonValue,
};
use crate::managed_worktree::WriteOutcome;
use crate::project_record;
use crate::project_record::{
    matching_existing_project, recovered_project_result, runtime_id,
    validate_recovered_create_side_effects, CreatedProject, ProjectFacts, ProjectRequest,
    RunnerProjectFile,
};
use crate::text;
use crate::text::{as_text, decode_lossy, has_char, same_text, trim};
use vstd::prelude::*;
use vstd::string::*;

verus! {

/// A request to register or to create a project.
#[derive(Debug)]
pub struct OperationRequest {
    pub id: String,
    pub name: String,
    pub path: String,
    pub description: Option<String>,
    pub allow_patch: bool,
    pub overwrite: bool,
    pub template: String,
    pub git_init: bool,
    pub adopt_existing_empty: bool,
}

/// What an [`OperationRequest`] stands for.
pub struct OperationRequestView {
    pub id: Seq<char>,
    pub name: Seq<char>,
    pub path: Seq<char>,
    pub description: Option<Seq<char>>,
    pub allow_patch: bool,
    pub overwrite: bool,
    pub template: Seq<char>,
    pub git_init: bool,
    pub adopt_existing_empty: bool,
}

impl View for OperationRequest {
    type V = OperationRequestView;

    open spec fn view(&self) -> OperationRequestView {
        OperationRequestView {
            id: self.id@,
            name: self.name@,
            path: self.path@,
            description: text::text_of(self.description),
            allow_patch: self.allow_patch,
            overwrite: self.overwrite,
            template: self.template@,
            git_init: self.git_init,
            adopt_existing_empty: self.adopt_existing_empty,
        }
    }
}

/// A boolean field, with what it means where it is missing.
pub open spec fn flag(payload: json::JsonView, key: Seq<char>, default: bool) -> bool {
    match payload.bool_field(key) {
        Some(held) => held,
        None => default,
    }
}

/// The description of a request: trimmed, and nothing where that leaves nothing.
pub open spec fn description_of(payload: json::JsonView) -> Option<Seq<char>> {
    match payload.text_field("description"@) {
        Some(held) => if text::trimmed(held).len() > 0 {
            Some(text::trimmed(held))
        } else {
            None
        },
        None => None,
    }
}

/// The first required field that is missing.
pub open spec fn missing_field(payload: json::JsonView) -> Option<Seq<char>> {
    if payload.text_field("id"@) is None {
        Some("id"@)
    } else if payload.text_field("name"@) is None {
        Some("name"@)
    } else if payload.text_field("path"@) is None {
        Some("path"@)
    } else {
        None
    }
}

/// The request that a payload with all required fields makes.
pub open spec fn request_of(payload: json::JsonView) -> OperationRequestView {
    OperationRequestView {
        id: payload.text_field("id"@)->Some_0,
        name: payload.text_field("name"@)->Some_0,
        path: payload.text_field("path"@)->Some_0,
        description: description_of(payload),
        allow_patch: flag(payload, "allow_patch"@, true),
        overwrite: flag(payload, "overwrite"@, false),
        template: match payload.text_field("template"@) {
            Some(held) => held,
            None => "empty"@,
        },
        git_init: flag(payload, "git_init"@, false),
        adopt_existing_empty: flag(payload, "adopt_existing_empty"@, false),
    }
}

fn flag_field(payload: &JsonValue, key: &str, default: bool) -> (held: bool)
    ensures
        held == flag(payload@, key@, default),
{
    match payload.bool_field(key) {
        Some(held) => held,
        None => default,
    }
}

/// Reads a request out of its payload; else the required field that is missing.
pub fn parse_operation_request(payload: &JsonValue) -> (result: Result<
    OperationRequest,
    &'static str,
>)
    ensures
        match result {
            Ok(request) => missing_field(payload@) is None && request@ == request_of(payload@),
            Err(key) => missing_field(payload@) == Some(key@),
        },
{
    let id = match payload.text_field("id") {
        Some(held) => held,
        None => {
            return Err("id");
        },
    };
    let name = match payload.text_field("name") {
        Some(held) => held,
        None => {
            return Err("name");
        },
    };
    let path = match payload.text_field("path") {
        Some(held) => held,
        None => {
            return Err("path");
        },
    };
    let description = match payload.text_field("description") {
        Some(held) => {
            let kept = trim(held);
            if kept.is_empty() {
                None
            } else {
                Some(kept.to_owned())
            }
        },
        None => None,
    };
    let template = match payload.text_field("template") {
        Some(held) => held,
        None => "empty",
    };
    Ok(
        OperationRequest {
            id: id.to_owned(),
            name: name.to_owned(),
            path: path.to_owned(),
            description,
            allow_patch: flag_field(payload, "allow_patch", true),
            overwrite: flag_field(payload, "overwrite", false),
            template: template.to_owned(),
            git_init: flag_field(payload, "git_init", false),
            adopt_existing_empty: flag_field(payload, "adopt_existing_empty", false),
        },
    )
}

/// Where the operation stands: which question is open. The questions speak of
/// the request of the state.
#[derive(Debug, Clone, Copy, PartialEq, Eq, Structural)]
pub enum OperationStage {
    /// What is wrong with the identifier.
    IdRule,
    /// What is wrong with the name.
    NameRule,
    /// What is wrong with the description.
    DescriptionRule,
    /// Whether the path is absolute on this platform.
    Absolute,
    /// The kind of the refusal of the path's spelling.
    RawRoot,
    /// The kind of the refusal of the path by the policy for requests.
    Ingress,
    /// Whether the path is spelled as one of a network share.
    RawShare,
    /// What is wrong with making the path canonical.
    RegisterPath,
    /// Whether the canonical path is a directory.
    RegisterDirectory,
    /// The kind of the refusal of the canonical path's spelling.
    RegisterRoot,
    /// Whether the policy lets a project live there.
    RegisterPolicy,
    /// The record that stands under the identifier.
    RegisterExisting,
    /// Writes the record.
    RegisterWrite,
    /// Whether something exists at the path.
    CreateExists,
    /// What is wrong with making the path canonical.
    CreatePath,
    /// The path and its parents, and which of them exist.
    CreateAncestors,
    /// What is wrong with making the chosen ancestor canonical.
    CreateAncestor,
    /// The kind of the refusal of the canonical path's spelling.
    CreateRoot,
    /// Whether the canonical path is one of a network share.
    CreateShare,
    /// Whether the policy lets a project live there.
    CreatePolicy,
    /// The record that stands under the identifier.
    CreateExisting,
    /// What an earlier creation left on the disk.
    CreateEffects,
    /// Whether something exists at the path now.
    CreateOccupied,
    /// Whether the path is a directory.
    CreateStat,
    /// Whether the directory is empty.
    CreateEmpty,
    /// Makes the directory with its parents.
    CreateDirectory,
    /// Writes `README.md`.
    CreateReadme,
    /// Writes `.gitignore`.
    CreateIgnore,
    /// Runs `git init` in the directory.
    CreateGit,
    /// Writes the record.
    CreateWrite,
}

/// How `git init` went.
#[derive(Debug)]
pub enum GitInit {
    Succeeded,
    Failed { stderr: Vec<u8>, stderr_capped: bool },
    NotRun(String),
}

/// A record that was written.
#[derive(Debug)]
pub struct RecordWrite {
    pub config_path: String,
    pub created_config: bool,
    pub overwritten: bool,
    pub registration_source: String,
    pub revision: String,
}

/// What the driver answers.
#[derive(Debug)]
pub enum OperationAnswer {
    /// Nothing where all is well, else a message or a kind.
    Problem(Option<String>),
    /// Whether what was asked holds.
    Holds(bool),
    /// Whether what was asked holds, or why that is not known.
    Measured(Result<bool, String>),
    /// A path and its parents, nearest first, and whether each exists.
    Ancestors(Vec<(String, bool)>),
    /// The record under the identifier: whether there is one, the record with
    /// its facts where it could be read, and whether its path is the request's.
    Existing { exists: bool, record: Option<(RunnerProjectFile, ProjectFacts)>, same_path: bool },
    /// What an earlier creation left on the disk.
    Effects(CreatedProject),
    /// How `git init` went.
    Git(GitInit),
    /// The record that was written, or how far that went.
    Written(Result<RecordWrite, WriteOutcome>),
}

/// The state of an operation.
#[derive(Debug)]
pub struct OperationState {
    pub stage: OperationStage,
    pub windows: bool,
    pub create: bool,
    pub client_id: String,
    pub request: OperationRequest,
    pub ancestor: String,
    pub found: Option<(RunnerProjectFile, ProjectFacts)>,
    pub created_directory: bool,
}

/// What an [`OperationState`] stands for.
pub struct OperationView {
    pub stage: OperationStage,
    pub windows: bool,
    pub create: bool,
    pub client_id: Seq<char>,
    pub request: OperationRequestView,
    pub ancestor: Seq<char>,
    pub found: Option<(RunnerProjectFile, ProjectFacts)>,
    pub created_directory: bool,
}

impl View for OperationState {
    type V = OperationView;

    open spec fn view(&self) -> OperationView {
        OperationView {
            stage: self.stage,
            windows: self.windows,
            create: self.create,
            client_id: self.client_id@,
            request: self.request@,
            ancestor: self.ancestor@,
            found: self.found,
            created_directory: self.created_directory,
        }
    }
}

/// Where a step leads. `clean_up` asks the driver to remove what it created
/// for this operation.
#[derive(Debug)]
pub enum OperationStep {
    Ask(OperationState),
    Finish { result: CommandResult, clean_up: bool },
}

/// What an [`OperationStep`] stands for.
pub enum OperationStepView {
    Ask(OperationView),
    Finish { result: command::CommandView, clean_up: bool },
}

impl View for OperationStep {
    type V = OperationStepView;

    open spec fn view(&self) -> OperationStepView {
        match self {
            OperationStep::Ask(state) => OperationStepView::Ask(state@),
            OperationStep::Finish { result, clean_up } => OperationStepView::Finish {
                result: result@,
                clean_up: *clean_up,
            },
        }
    }
}

// ---- What each answer leads to ---------------------------------------------------

/// Whether an answer is one to the open question.
pub open spec fn fits(stage: OperationStage, answer: OperationAnswer) -> bool {
    match stage {
        OperationStage::IdRule => answer is Problem,
        OperationStage::NameRule => answer is Problem,
        OperationStage::DescriptionRule => answer is Problem,
        OperationStage::Absolute => answer is Holds,
        OperationStage::RawRoot => answer is Problem,
        OperationStage::Ingress => answer is Problem,
        OperationStage::RawShare => answer is Holds,
        OperationStage::RegisterPath => answer is Problem,
        OperationStage::RegisterDirectory => answer is Holds,
        OperationStage::RegisterRoot => answer is Problem,
        OperationStage::RegisterPolicy => answer is Holds,
        OperationStage::RegisterExisting => answer is Existing,
        OperationStage::RegisterWrite => answer is Written,
        OperationStage::CreateExists => answer is Holds,
        OperationStage::CreatePath => answer is Problem,
        OperationStage::CreateAncestors => answer matches OperationAnswer::Ancestors(chain)
            && chain@.len() > 0,
        OperationStage::CreateAncestor => answer is Problem,
        OperationStage::CreateRoot => answer is Problem,
        OperationStage::CreateShare => answer is Holds,
        OperationStage::CreatePolicy => answer is Holds,
        OperationStage::CreateExisting => answer is Existing,
        OperationStage::CreateEffects => answer is Effects,
        OperationStage::CreateOccupied => answer is Holds,
        OperationStage::CreateStat => answer is Measured,
        OperationStage::CreateEmpty => answer is Measured,
        OperationStage::CreateDirectory => answer is Problem,
        OperationStage::CreateReadme => answer is Problem,
        OperationStage::CreateIgnore => answer is Problem,
        OperationStage::CreateGit => answer is Git,
        OperationStage::CreateWrite => answer is Written,
    }
}

/// Whether a stage belongs to the creation of a project.
pub open spec fn is_creation(stage: OperationStage) -> bool {
    place(stage) >= place(OperationStage::CreateExists)
}

/// Place of a stage in the order of the operation.
pub open spec fn place(stage: OperationStage) -> int {
    match stage {
        OperationStage::IdRule => 0,
        OperationStage::NameRule => 1,
        OperationStage::DescriptionRule => 2,
        OperationStage::Absolute => 3,
        OperationStage::RawRoot => 4,
        OperationStage::Ingress => 5,
        OperationStage::RawShare => 6,
        OperationStage::RegisterPath => 7,
        OperationStage::RegisterDirectory => 8,
        OperationStage::RegisterRoot => 9,
        OperationStage::RegisterPolicy => 10,
        OperationStage::RegisterExisting => 11,
        OperationStage::RegisterWrite => 12,
        OperationStage::CreateExists => 13,
        OperationStage::CreatePath => 14,
        OperationStage::CreateAncestors => 15,
        OperationStage::CreateAncestor => 16,
        OperationStage::CreateRoot => 17,
        OperationStage::CreateShare => 18,
        OperationStage::CreatePolicy => 19,
        OperationStage::CreateExisting => 20,
        OperationStage::CreateEffects => 21,
        OperationStage::CreateOccupied => 22,
        OperationStage::CreateStat => 23,
        OperationStage::CreateEmpty => 24,
        OperationStage::CreateDirectory => 25,
        OperationStage::CreateReadme => 26,
        OperationStage::CreateIgnore => 27,
        OperationStage::CreateGit => 28,
        OperationStage::CreateWrite => 29,
    }
}

/// Whether the template of a request is one that there is.
pub open spec fn known_template(template: Seq<char>) -> bool {
    template == "empty"@ || template == "basic"@
}

/// What a state knows at its stage.
pub open spec fn well_formed(state: OperationView) -> bool {
    &&& is_creation(state.stage) ==> state.create && known_template(state.request.template)
    &&& (place(OperationStage::RegisterPath) <= place(state.stage) <= place(
        OperationStage::RegisterWrite,
    ) || state.stage == OperationStage::Ingress) ==> !state.create
    &&& state.stage == OperationStage::DescriptionRule ==> state.request.description is Some
    &&& state.stage == OperationStage::CreateEffects ==> state.found is Some
    &&& state.stage == OperationStage::CreateReadme || state.stage == OperationStage::CreateIgnore
        ==> state.request.template == "basic"@
    &&& state.stage == OperationStage::CreateGit ==> state.request.git_init
}

/// The operation ends with a code.
pub open spec fn coded(error_code: Seq<char>, clean_up: bool, duration_ms: u64) -> OperationStepView {
    OperationStepView::Finish {
        result: command::document_result(1, command::coded_failure(error_code), duration_ms),
        clean_up,
    }
}

/// The operation ends with a message.
pub open spec fn said(message: Seq<char>, clean_up: bool, duration_ms: u64) -> OperationStepView {
    OperationStepView::Finish { result: command::message_result(message, duration_ms), clean_up }
}

/// The operation ends with a document.
pub open spec fn answered(document: json::JsonView, duration_ms: u64) -> OperationStepView {
    OperationStepView::Finish {
        result: command::document_result(0, document, duration_ms),
        clean_up: false,
    }
}

/// The operation goes on with another question and nothing new.
pub open spec fn at(state: OperationView, stage: OperationStage) -> OperationStepView {
    OperationStepView::Ask(OperationView { stage, ..state })
}

/// The message for a path that a request may not name.
pub open spec fn unusable_path() -> Seq<char> {
    "path must be a non-empty absolute path"@
}

/// What follows once the texts of the request are accepted.
pub open spec fn after_texts(state: OperationView, duration_ms: u64) -> OperationStepView {
    if state.request.path.len() == 0 || state.request.path.contains('\0') {
        said(unusable_path(), false, duration_ms)
    } else {
        at(state, OperationStage::Absolute)
    }
}

/// What follows once the spelling of the path is accepted.
pub open spec fn after_spelling(state: OperationView, duration_ms: u64) -> OperationStepView {
    if !state.create {
        at(state, OperationStage::RegisterPath)
    } else if known_template(state.request.template) {
        at(state, OperationStage::CreateExists)
    } else {
        coded("invalid_request"@, false, duration_ms)
    }
}

/// The stages that look at the request alone.
pub open spec fn next_request(
    state: OperationView,
    answer: OperationAnswer,
    duration_ms: u64,
) -> OperationStepView {
    match (state.stage, answer) {
        (OperationStage::IdRule, OperationAnswer::Problem(Some(message))) => {
            said(message@, false, duration_ms)
        },
        (OperationStage::IdRule, _) => at(state, OperationStage::NameRule),
        (OperationStage::NameRule, OperationAnswer::Problem(Some(message))) => {
            said(message@, false, duration_ms)
        },
        (OperationStage::NameRule, _) => if state.request.description is Some {
            at(state, OperationStage::DescriptionRule)
        } else {
            after_texts(state, duration_ms)
        },
        (OperationStage::DescriptionRule, OperationAnswer::Problem(Some(message))) => {
            said(message@, false, duration_ms)
        },
        (OperationStage::DescriptionRule, _) => after_texts(state, duration_ms),
        (OperationStage::Absolute, OperationAnswer::Holds(yes)) => if yes {
            at(state, OperationStage::RawRoot)
        } else {
            said(unusable_path(), false, duration_ms)
        },
        (OperationStage::RawRoot, OperationAnswer::Problem(Some(kind))) => {
            coded(kind@, false, duration_ms)
        },
        (OperationStage::RawRoot, _) => if !state.create {
            at(state, OperationStage::Ingress)
        } else if state.windows {
            at(state, OperationStage::RawShare)
        } else {
            after_spelling(state, duration_ms)
        },
        (OperationStage::Ingress, OperationAnswer::Problem(Some(kind))) => {
            coded(kind@, false, duration_ms)
        },
        (OperationStage::Ingress, _) => after_spelling(state, duration_ms),
        (OperationStage::RawShare, OperationAnswer::Holds(shared)) => if shared {
            coded("windows_project_path_unsupported"@, false, duration_ms)
        } else {
            after_spelling(state, duration_ms)
        },
        _ => arbitrary(),
    }
}

/// The answer of a search for the record under the identifier.
pub open spec fn existing_record(
    state: OperationView,
    exists: bool,
    record: Option<(RunnerProjectFile, ProjectFacts)>,
    same_path: bool,
) -> Result<Option<(RunnerProjectFile, ProjectFacts)>, Seq<char>> {
    if !exists {
        Ok(None)
    } else {
        match record {
            None => Err("operation_failed"@),
            Some(found) => if project_record::holds_request(
                found.0,
                state.request.id,
                state.request.name,
                state.request.description,
                state.request.allow_patch,
                same_path,
            ) {
                Ok(Some(found))
            } else {
                Err("project_already_exists"@)
            },
        }
    }
}

/// The fields that the results of a registration and a creation share.
pub open spec fn common_fields(state: OperationView) -> Seq<(Seq<char>, json::JsonView)> {
    seq![
        (
            "id"@,
            json::JsonView::Text(
                project_record::runtime_id_of(state.client_id, state.request.id),
            ),
        ),
        ("agent_project_id"@, json::JsonView::Text(state.request.id)),
        ("client_id"@, json::JsonView::Text(state.client_id)),
        ("name"@, json::JsonView::Text(state.request.name)),
        ("path"@, json::JsonView::Text(state.request.path)),
        ("description"@, json::text_or_null(state.request.description)),
        ("allow_patch"@, json::JsonView::Bool(state.request.allow_patch)),
    ]
}

/// The fields that tell of the record that was written.
pub open spec fn record_fields(written: RecordWrite) -> Seq<(Seq<char>, json::JsonView)> {
    seq![
        ("project_record_path"@, json::JsonView::Text(written.config_path@)),
        ("projects_config_path"@, json::JsonView::Text(written.config_path@)),
        ("created_config"@, json::JsonView::Bool(written.created_config)),
        ("overwritten"@, json::JsonView::Bool(written.overwritten)),
        ("registration_source"@, json::JsonView::Text(written.registration_source@)),
        ("revision"@, json::JsonView::Text(written.revision@)),
        ("changed"@, json::JsonView::Bool(true)),
        ("recovered"@, json::JsonView::Bool(false)),
    ]
}

/// The document of a registration.
pub open spec fn registered_document(state: OperationView, written: RecordWrite) -> json::JsonView {
    json::JsonView::Object(
        common_fields(state) + record_fields(written) + seq![
            ("operation"@, json::JsonView::Text("register"@)),
            ("outcome"@, json::JsonView::Text("registered"@)),
        ],
    )
}

/// The document of a creation.
pub open spec fn created_document(state: OperationView, written: RecordWrite) -> json::JsonView {
    json::JsonView::Object(
        common_fields(state) + record_fields(written) + seq![
            ("created_directory"@, json::JsonView::Bool(state.created_directory)),
            ("template"@, json::JsonView::Text(state.request.template)),
            ("git_initialized"@, json::JsonView::Bool(state.request.git_init)),
            ("operation"@, json::JsonView::Text("create"@)),
            ("outcome"@, json::JsonView::Text("created"@)),
        ],
    )
}

/// The stages of a registration.
pub open spec fn next_register(
    state: OperationView,
    answer: OperationAnswer,
    duration_ms: u64,
) -> OperationStepView {
    match (state.stage, answer) {
        (OperationStage::RegisterPath, OperationAnswer::Problem(Some(error))) => said(
            "path does not exist or cannot be canonicalized: "@ + state.request.path + ": "@
                + error@,
            false,
            duration_ms,
        ),
        (OperationStage::RegisterPath, _) => at(state, OperationStage::RegisterDirectory),
        (OperationStage::RegisterDirectory, OperationAnswer::Holds(yes)) => if yes {
            at(state, OperationStage::RegisterRoot)
        } else {
            said("path "@ + state.request.path + " is not a directory"@, false, duration_ms)
        },
        (OperationStage::RegisterRoot, OperationAnswer::Problem(Some(kind))) => {
            coded(kind@, false, duration_ms)
        },
        (OperationStage::RegisterRoot, _) => at(state, OperationStage::RegisterPolicy),
        (OperationStage::RegisterPolicy, OperationAnswer::Holds(yes)) => if !yes {
            coded("path_outside_allowed_roots"@, false, duration_ms)
        } else if state.request.overwrite {
            at(state, OperationStage::RegisterWrite)
        } else {
            at(state, OperationStage::RegisterExisting)
        },
        (
            OperationStage::RegisterExisting,
            OperationAnswer::Existing { exists, record, same_path },
        ) => match existing_record(state, exists, record, same_path) {
            Ok(Some(found)) => answered(
                project_record::recovered_document(
                    false,
                    project_record::runtime_id_of(state.client_id, state.request.id),
                    state.client_id,
                    found.0,
                    found.1,
                    None,
                    false,
                ),
                duration_ms,
            ),
            Ok(None) => at(state, OperationStage::RegisterWrite),
            Err(code) => coded(code, false, duration_ms),
        },
        (OperationStage::RegisterWrite, OperationAnswer::Written(Ok(written))) => {
            answered(registered_document(state, written), duration_ms)
        },
        (OperationStage::RegisterWrite, OperationAnswer::Written(Err(WriteOutcome::AfterRename)))
            => coded("operation_indeterminate"@, false, duration_ms),
        (OperationStage::RegisterWrite, _) => coded("operation_failed"@, false, duration_ms),
        _ => arbitrary(),
    }
}

/// The nearest path of a chain that exists, else the farthest.
pub open spec fn nearest_existing(chain: Seq<(String, bool)>) -> Seq<char>
    decreases chain.len(),
{
    if chain.len() == 0 {
        Seq::empty()
    } else if chain[0].1 || chain.len() == 1 {
        chain[0].0@
    } else {
        nearest_existing(chain.drop_first())
    }
}

/// The stages of a creation that change nothing.
pub open spec fn next_check(
    state: OperationView,
    answer: OperationAnswer,
    duration_ms: u64,
) -> OperationStepView {
    match (state.stage, answer) {
        (OperationStage::CreateExists, OperationAnswer::Holds(yes)) => {
            at(state, if yes {
                OperationStage::CreatePath
            } else {
                OperationStage::CreateAncestors
            })
        },
        (OperationStage::CreatePath, OperationAnswer::Problem(Some(error))) => said(
            "path cannot be canonicalized: "@ + state.request.path + ": "@ + error@,
            false,
            duration_ms,
        ),
        (OperationStage::CreatePath, _) => at(state, OperationStage::CreateRoot),
        (OperationStage::CreateAncestors, OperationAnswer::Ancestors(chain)) => {
            OperationStepView::Ask(
                OperationView {
                    stage: OperationStage::CreateAncestor,
                    ancestor: nearest_existing(chain@),
                    ..state
                },
            )
        },
        (OperationStage::CreateAncestor, OperationAnswer::Problem(Some(error))) => said(
            "parent path cannot be canonicalized: "@ + state.ancestor + ": "@ + error@,
            false,
            duration_ms,
        ),
        (OperationStage::CreateAncestor, _) => at(state, OperationStage::CreateRoot),
        (OperationStage::CreateRoot, OperationAnswer::Problem(Some(kind))) => {
            coded(kind@, false, duration_ms)
        },
        (OperationStage::CreateRoot, _) => {
            at(state, if state.windows {
                OperationStage::CreateShare
            } else {
                OperationStage::CreatePolicy
            })
        },
        (OperationStage::CreateShare, OperationAnswer::Holds(shared)) => if shared {
            coded("windows_project_path_unsupported"@, false, duration_ms)
        } else {
            at(state, OperationStage::CreatePolicy)
        },
        (OperationStage::CreatePolicy, OperationAnswer::Holds(yes)) => if !yes {
            coded("path_outside_allowed_roots"@, false, duration_ms)
        } else if state.request.overwrite {
            at(state, OperationStage::CreateOccupied)
        } else {
            at(state, OperationStage::CreateExisting)
        },
        (
            OperationStage::CreateExisting,
            OperationAnswer::Existing { exists, record, same_path },
        ) => match existing_record(state, exists, record, same_path) {
            Ok(Some(found)) => OperationStepView::Ask(
                OperationView {
                    stage: OperationStage::CreateEffects,
                    found: Some(found),
                    ..state
                },
            ),
            Ok(None) => at(state, OperationStage::CreateOccupied),
            Err(code) => coded(code, false, duration_ms),
        },
        (OperationStage::CreateEffects, OperationAnswer::Effects(seen)) => {
            if project_record::creation_is_complete(
                seen,
                state.request.template,
                state.request.git_init,
            ) {
                answered(
                    project_record::recovered_document(
                        true,
                        project_record::runtime_id_of(state.client_id, state.request.id),
                        state.client_id,
                        state.found->Some_0.0,
                        state.found->Some_0.1,
                        Some(state.request.template),
                        state.request.git_init,
                    ),
                    duration_ms,
                )
            } else {
                coded("project_already_exists"@, false, duration_ms)
            }
        },
        (OperationStage::CreateOccupied, OperationAnswer::Holds(yes)) => {
            at(state, if yes {
                OperationStage::CreateStat
            } else {
                OperationStage::CreateDirectory
            })
        },
        (OperationStage::CreateStat, OperationAnswer::Measured(Err(error))) => said(
            "failed to stat path "@ + state.request.path + ": "@ + error@,
            false,
            duration_ms,
        ),
        (OperationStage::CreateStat, OperationAnswer::Measured(Ok(directory))) => if directory {
            at(state, OperationStage::CreateEmpty)
        } else {
            said(
                "path "@ + state.request.path + " exists but is not a directory"@,
                false,
                duration_ms,
            )
        },
        (OperationStage::CreateEmpty, OperationAnswer::Measured(Err(error))) => said(
            "failed to read directory "@ + state.request.path + ": "@ + error@,
            false,
            duration_ms,
        ),
        (OperationStage::CreateEmpty, OperationAnswer::Measured(Ok(empty))) => if !empty {
            coded("path_not_empty"@, false, duration_ms)
        } else if !state.request.adopt_existing_empty {
            coded("path_exists"@, false, duration_ms)
        } else {
            after_directory(state)
        },
        _ => arbitrary(),
    }
}

/// What follows once the directory stands: the files of the template.
pub open spec fn after_directory(state: OperationView) -> OperationStepView {
    if state.request.template == "basic"@ {
        at(state, OperationStage::CreateReadme)
    } else {
        after_template(state)
    }
}

/// What follows once the files of the template stand.
pub open spec fn after_template(state: OperationView) -> OperationStepView {
    at(state, if state.request.git_init {
        OperationStage::CreateGit
    } else {
        OperationStage::CreateWrite
    })
}

/// The message of a `git init` that failed.
pub open spec fn git_failure(stderr: Seq<u8>, stderr_capped: bool) -> Seq<char> {
    "git init failed: "@ + text::trimmed(text::lossy_text(stderr)) + (if stderr_capped {
        " [stderr truncated]"@
    } else {
        Seq::empty()
    })
}

/// The stages of a creation that change the disk or the registry. Until the
/// record may have been written, a failure asks for what was created to be
/// removed.
pub open spec fn next_make(
    state: OperationView,
    answer: OperationAnswer,
    duration_ms: u64,
) -> OperationStepView {
    match (state.stage, answer) {
        (OperationStage::CreateDirectory, OperationAnswer::Problem(Some(error))) => said(
            "failed to create directory "@ + state.request.path + ": "@ + error@,
            false,
            duration_ms,
        ),
        (OperationStage::CreateDirectory, _) => {
            after_directory(OperationView { created_directory: true, ..state })
        },
        (OperationStage::CreateReadme, OperationAnswer::Problem(Some(error))) => {
            said("failed to write README.md: "@ + error@, true, duration_ms)
        },
        (OperationStage::CreateReadme, _) => at(state, OperationStage::CreateIgnore),
        (OperationStage::CreateIgnore, OperationAnswer::Problem(Some(error))) => {
            said("failed to write .gitignore: "@ + error@, true, duration_ms)
        },
        (OperationStage::CreateIgnore, _) => after_template(state),
        (OperationStage::CreateGit, OperationAnswer::Git(GitInit::Succeeded)) => {
            at(state, OperationStage::CreateWrite)
        },
        (
            OperationStage::CreateGit,
            OperationAnswer::Git(GitInit::Failed { stderr, stderr_capped }),
        ) => said(git_failure(stderr@, stderr_capped), true, duration_ms),
        (OperationStage::CreateGit, OperationAnswer::Git(GitInit::NotRun(error))) => {
            said("git init failed (is git installed?): "@ + error@, true, duration_ms)
        },
        (OperationStage::CreateWrite, OperationAnswer::Written(Ok(written))) => {
            answered(created_document(state, written), duration_ms)
        },
        (OperationStage::CreateWrite, OperationAnswer::Written(Err(WriteOutcome::AfterRename)))
            => coded("operation_indeterminate"@, false, duration_ms),
        (OperationStage::CreateWrite, _) => coded("operation_failed"@, true, duration_ms),
        _ => arbitrary(),
    }
}

/// Where an answer to the open question leads.
pub open spec fn next(
    state: OperationView,
    answer: OperationAnswer,
    duration_ms: u64,
) -> OperationStepView {
    if place(state.stage) <= place(OperationStage::RawShare) {
        next_request(state, answer, duration_ms)
    } else if place(state.stage) <= place(OperationStage::RegisterWrite) {
        next_register(state, answer, duration_ms)
    } else if place(state.stage) <= place(OperationStage::CreateEmpty) {
        next_check(state, answer, duration_ms)
    } else {
        next_make(state, answer, duration_ms)
    }
}

/// Where an operation begins. `kind` is the name of the request, `create` says
/// whether a project is to be created.
pub open spec fn beginning(
    lock_acquired: bool,
    kind: Seq<char>,
    create: bool,
    client_id: Seq<char>,
    payload: Seq<char>,
    windows: bool,
    duration_ms: u64,
) -> OperationStepView {
    if !lock_acquired {
        coded("operation_failed"@, false, duration_ms)
    } else if payload.len() == 0 {
        said(kind + " request missing stdin payload"@, false, duration_ms)
    } else {
        match json::parsed_json(payload) {
            None => said(
                "failed to parse "@ + kind + " payload: "@ + json::parse_failure(payload),
                false,
                duration_ms,
            ),
            Some(document) => if document.get("managed_temporary_project"@) is Some {
                coded("managed_temporary_projects_retired"@, false, duration_ms)
            } else {
                match missing_field(document) {
                    Some(key) => said(
                        kind + " missing required field '"@ + key + "'"@,
                        false,
                        duration_ms,
                    ),
                    None => OperationStepView::Ask(
                        OperationView {
                            stage: OperationStage::IdRule,
                            windows,
                            create,
                            client_id,
                            request: request_of(document),
                            ancestor: Seq::empty(),
                            found: None,
                            created_directory: false,
                        },
                    ),
                }
            },
        }
    }
}

// ---- The files of a template ---------------------------------------------------

/// The text of `README.md` in a project that is created.
pub open spec fn readme_of(name: Seq<char>, description: Option<Seq<char>>) -> Seq<char> {
    match description {
        Some(held) => "# "@ + name + "\n\n"@ + held + "\n"@,
        None => "# "@ + name + "\n"@,
    }
}

/// The text of `README.md` in a project that is created.
pub fn readme_text(name: &str, description: Option<&str>) -> (content: String)
    ensures
        content@ == readme_of(name@, text::str_of(description)),
{
    let mut content = "# ".to_owned();
    content.append(name);
    match description {
        Some(held) => {
            content.append("\n\n");
            content.append(held);
            content.append("\n");
        },
        None => {
            content.append("\n");
        },
    }
    content
}

/// The text of `.gitignore` in a project that is created.
pub const GITIGNORE_TEXT: &'static str = "target/\nnode_modules/\n.env\n*.log\n";

// ---- The executable steps --------------------------------------------------------

fn finish_coded(duration_ms: u64, error_code: &str, clean_up: bool) -> (step: OperationStep)
    ensures
        step@ == coded(error_code@, clean_up, duration_ms),
{
    OperationStep::Finish { result: project_error_cmd(duration_ms, error_code), clean_up }
}

fn finish_said(duration_ms: u64, message: &str, clean_up: bool) -> (step: OperationStep)
    ensures
        step@ == said(message@, clean_up, duration_ms),
{
    OperationStep::Finish { result: err_cmd(duration_ms, message), clean_up }
}

fn finish_answered(duration_ms: u64, document: &JsonValue) -> (step: OperationStep)
    ensures
        step@ == answered(document@, duration_ms),
{
    OperationStep::Finish { result: ok_cmd(duration_ms, document), clean_up: false }
}

/// `before`, `subject`, `between` and `after`, one behind the other.
fn sentence(before: &str, subject: &str, between: &str, after: &str) -> (message: String)
    ensures
        message@ == before@ + subject@ + between@ + after@,
{
    let mut message = before.to_owned();
    message.append(subject);
    message.append(between);
    message.append(after);
    message
}

/// Begins an operation.
pub fn begin(
    lock_acquired: bool,
    kind: &str,
    create: bool,
    client_id: &str,
    payload: &str,
    windows: bool,
    duration_ms: u64,
) -> (step: OperationStep)
    ensures
        step@ == beginning(
            lock_acquired,
            kind@,
            create,
            client_id@,
            payload@,
            windows,
            duration_ms,
        ),
        step matches OperationStep::Ask(state) ==> well_formed(state@),
{
    if !lock_acquired {
        return finish_coded(duration_ms, "operation_failed", false);
    }
    if payload.is_empty() {
        let mut message = kind.to_owned();
        message.append(" request missing stdin payload");
        return finish_said(duration_ms, message.as_str(), false);
    }
    let document = match parse_json_or_message(payload) {
        Ok(document) => document,
        Err(error) => {
            let message = sentence("failed to parse ", kind, " payload: ", error.as_str());
            return finish_said(duration_ms, message.as_str(), false);
        },
    };
    if document.get("managed_temporary_project").is_some() {
        return finish_coded(duration_ms, "managed_temporary_projects_retired", false);
    }
    match parse_operation_request(&document) {
        Ok(request) => OperationStep::Ask(
            OperationState {
                stage: OperationStage::IdRule,
                windows,
                create,
                client_id: client_id.to_owned(),
                request,
                ancestor: String::new(),
                found: None,
                created_directory: false,
            },
        ),
        Err(key) => {
            let message = sentence(kind, " missing required field '", key, "'");
            finish_said(duration_ms, message.as_str(), false)
        },
    }
}

fn push_common(fields: &mut Vec<(String, JsonValue)>, state: &OperationState)
    requires
        old(fields)@.len() == 0,
    ensures
        json::fields_view(final(fields)@) == common_fields(state@),
{
    let request = &state.request;
    let runtime = runtime_id(state.client_id.as_str(), request.id.as_str());
    add_field(fields, "id", text_value(runtime.as_str()));
    add_field(fields, "agent_project_id", text_value(request.id.as_str()));
    add_field(fields, "client_id", text_value(state.client_id.as_str()));
    add_field(fields, "name", text_value(request.name.as_str()));
    add_field(fields, "path", text_value(request.path.as_str()));
    add_field(fields, "description", optional_text(as_text(&request.description)));
    add_field(fields, "allow_patch", JsonValue::Bool(request.allow_patch));
    assert(json::fields_view(fields@) =~= common_fields(state@));
}

fn push_record(fields: &mut Vec<(String, JsonValue)>, written: &RecordWrite)
    ensures
        json::fields_view(final(fields)@) == json::fields_view(old(fields)@) + record_fields(
            *written,
        ),
{
    let ghost before = json::fields_view(fields@);
    add_field(fields, "project_record_path", text_value(written.config_path.as_str()));
    add_field(fields, "projects_config_path", text_value(written.config_path.as_str()));
    add_field(fields, "created_config", JsonValue::Bool(written.created_config));
    add_field(fields, "overwritten", JsonValue::Bool(written.overwritten));
    add_field(fields, "registration_source", text_value(written.registration_source.as_str()));
    add_field(fields, "revision", text_value(written.revision.as_str()));
    add_field(fields, "changed", JsonValue::Bool(true));
    add_field(fields, "recovered", JsonValue::Bool(false));
    assert(json::fields_view(fields@) =~= before + record_fields(*written));
}

/// The place of the nearest path of a chain that exists, else of the farthest.
fn find_existing(chain: &Vec<(String, bool)>) -> (found: usize)
    requires
        chain@.len() > 0,
    ensures
        found < chain@.len(),
        chain@[found as int].0@ == nearest_existing(chain@),
{
    let mut i: usize = 0;
    assert(chain@.skip(0) =~= chain@);
    while i < chain.len() - 1 && !chain[i].1
        invariant
            chain@.len() > 0,
            i < chain@.len(),
            nearest_existing(chain@) == nearest_existing(chain@.skip(i as int)),
        decreases chain@.len() - i,
    {
        assert(chain@.skip(i as int).drop_first() =~= chain@.skip(i + 1));
        i = i + 1;
    }
    assert(chain@.skip(i as int)[0] == chain@[i as int]);
    i
}

impl OperationState {
    fn go(self, stage: OperationStage) -> (step: OperationStep)
        ensures
            step@ == at(self@, stage),
    {
        let mut state = self;
        state.stage = stage;
        OperationStep::Ask(state)
    }

    fn go_after_texts(self, duration_ms: u64) -> (step: OperationStep)
        ensures
            step@ == after_texts(self@, duration_ms),
    {
        if self.request.path.as_str().is_empty() || has_char(self.request.path.as_str(), '\0') {
            finish_said(duration_ms, "path must be a non-empty absolute path", false)
        } else {
            self.go(OperationStage::Absolute)
        }
    }

    fn go_after_spelling(self, duration_ms: u64) -> (step: OperationStep)
        ensures
            step@ == after_spelling(self@, duration_ms),
    {
        if !self.create {
            self.go(OperationStage::RegisterPath)
        } else if same_text(self.request.template.as_str(), "empty") || same_text(
            self.request.template.as_str(),
            "basic",
        ) {
            self.go(OperationStage::CreateExists)
        } else {
            finish_coded(duration_ms, "invalid_request", false)
        }
    }

    fn step_request(self, answer: OperationAnswer, duration_ms: u64) -> (step: OperationStep)
        requires
            fits(self.stage, answer),
            place(self.stage) <= place(OperationStage::RawShare),
        ensures
            step@ == next_request(self@, answer, duration_ms),
    {
        let state = self;
        match (state.stage, answer) {
            (OperationStage::IdRule, OperationAnswer::Problem(Some(message))) => {
                finish_said(duration_ms, message.as_str(), false)
            },
            (OperationStage::IdRule, _) => state.go(OperationStage::NameRule),
            (OperationStage::NameRule, OperationAnswer::Problem(Some(message))) => {
                finish_said(duration_ms, message.as_str(), false)
            },
            (OperationStage::NameRule, _) => if state.request.description.is_some() {
                state.go(OperationStage::DescriptionRule)
            } else {
                state.go_after_texts(duration_ms)
            },
            (OperationStage::DescriptionRule, OperationAnswer::Problem(Some(message))) => {
                finish_said(duration_ms, message.as_str(), false)
            },
            (OperationStage::DescriptionRule, _) => state.go_after_texts(duration_ms),
            (OperationStage::Absolute, OperationAnswer::Holds(yes)) => if yes {
                state.go(OperationStage::RawRoot)
            } else {
                finish_said(duration_ms, "path must be a non-empty absolute path", false)
            },
            (OperationStage::RawRoot, OperationAnswer::Problem(Some(kind))) => {
                finish_coded(duration_ms, kind.as_str(), false)
            },
            (OperationStage::RawRoot, _) => if !state.create {
                state.go(OperationStage::Ingress)
            } else if state.windows {
                state.go(OperationStage::RawShare)
            } else {
                state.go_after_spelling(duration_ms)
            },
            (OperationStage::Ingress, OperationAnswer::Problem(Some(kind))) => {
                finish_coded(duration_ms, kind.as_str(), false)
            },
            (OperationStage::Ingress, _) => state.go_after_spelling(duration_ms),
            (OperationStage::RawShare, OperationAnswer::Holds(shared)) => if shared {
                finish_coded(duration_ms, "windows_project_path_unsupported", false)
            } else {
                state.go_after_spelling(duration_ms)
            },
            _ => vstd::pervasive::unreached(),
        }
    }

    fn existing(
        &self,
        exists: bool,
        record: Option<(RunnerProjectFile, ProjectFacts)>,
        same_path: bool,
    ) -> (result: Result<Option<(RunnerProjectFile, ProjectFacts)>, &'static str>)
        ensures
            match result {
                Ok(found) => existing_record(self@, exists, record, same_path) == Ok::<
                    Option<(RunnerProjectFile, ProjectFacts)>,
                    Seq<char>,
                >(found),
                Err(code) => existing_record(self@, exists, record, same_path) == Err::<
                    Option<(RunnerProjectFile, ProjectFacts)>,
                    Seq<char>,
                >(code@),
            },
    {
        let request = ProjectRequest {
            id: self.request.id.as_str(),
            name: self.request.name.as_str(),
            description: as_text(&self.request.description),
            allow_patch: self.request.allow_patch,
        };
        match record {
            Some(found) => {
                let (project, facts) = found;
                match matching_existing_project(exists, Some(project), &request, same_path) {
                    Ok(Some(project)) => Ok(Some((project, facts))),
                    Ok(None) => Ok(None),
                    Err(code) => Err(code),
                }
            },
            None => match matching_existing_project(exists, None, &request, same_path) {
                Ok(_) => Ok(None),
                Err(code) => Err(code),
            },
        }
    }

    fn registered(&self, written: &RecordWrite) -> (document: JsonValue)
        ensures
            document@ == registered_document(self@, *written),
    {
        let mut fields: Vec<(String, JsonValue)> = Vec::new();
        push_common(&mut fields, self);
        push_record(&mut fields, written);
        add_field(&mut fields, "operation", text_value("register"));
        add_field(&mut fields, "outcome", text_value("registered"));
        proof {
            json::lemma_object_view(fields);
            assert(json::fields_view(fields@) =~= registered_document(
                self@,
                *written,
            )->Object_0);
        }
        JsonValue::Object(fields)
    }

    fn created(&self, written: &RecordWrite) -> (document: JsonValue)
        ensures
            document@ == created_document(self@, *written),
    {
        let mut fields: Vec<(String, JsonValue)> = Vec::new();
        push_common(&mut fields, self);
        push_record(&mut fields, written);
        add_field(&mut fields, "created_directory", JsonValue::Bool(self.created_directory));
        add_field(&mut fields, "template", text_value(self.request.template.as_str()));
        add_field(&mut fields, "git_initialized", JsonValue::Bool(self.request.git_init));
        add_field(&mut fields, "operation", text_value("create"));
        add_field(&mut fields, "outcome", text_value("created"));
        proof {
            json::lemma_object_view(fields);
            assert(json::fields_view(fields@) =~= created_document(self@, *written)->Object_0);
        }
        JsonValue::Object(fields)
    }

    fn step_register(self, answer: OperationAnswer, duration_ms: u64) -> (step: OperationStep)
        requires
            fits(self.stage, answer),
            place(OperationStage::RegisterPath) <= place(self.stage) <= place(
                OperationStage::RegisterWrite,
            ),
        ensures
            step@ == next_register(self@, answer, duration_ms),
    {
        let state = self;
        match (state.stage, answer) {
            (OperationStage::RegisterPath, OperationAnswer::Problem(Some(error))) => {
                let message = sentence(
                    "path does not exist or cannot be canonicalized: ",
                    state.request.path.as_str(),
                    ": ",
                    error.as_str(),
                );
                finish_said(duration_ms, message.as_str(), false)
            },
            (OperationStage::RegisterPath, _) => state.go(OperationStage::RegisterDirectory),
            (OperationStage::RegisterDirectory, OperationAnswer::Holds(yes)) => if yes {
                state.go(OperationStage::RegisterRoot)
            } else {
                let mut message = "path ".to_owned();
                message.append(state.request.path.as_str());
                message.append(" is not a directory");
                finish_said(duration_ms, message.as_str(), false)
            },
            (OperationStage::RegisterRoot, OperationAnswer::Problem(Some(kind))) => {
                finish_coded(duration_ms, kind.as_str(), false)
            },
            (OperationStage::RegisterRoot, _) => state.go(OperationStage::RegisterPolicy),
            (OperationStage::RegisterPolicy, OperationAnswer::Holds(yes)) => if !yes {
                finish_coded(duration_ms, "path_outside_allowed_roots", false)
            } else if state.request.overwrite {
                state.go(OperationStage::RegisterWrite)
            } else {
                state.go(OperationStage::RegisterExisting)
            },
            (
                OperationStage::RegisterExisting,
                OperationAnswer::Existing { exists, record, same_path },
            ) => match state.existing(exists, record, same_path) {
                Ok(Some(found)) => {
                    let runtime = runtime_id(state.client_id.as_str(), state.request.id.as_str());
                    let document = recovered_project_result(
                        false,
                        runtime.as_str(),
                        state.client_id.as_str(),
                        &found.0,
                        &found.1,
                        None,
                        false,
                    );
                    finish_answered(duration_ms, &document)
                },
                Ok(None) => state.go(OperationStage::RegisterWrite),
                Err(code) => finish_coded(duration_ms, code, false),
            },
            (OperationStage::RegisterWrite, OperationAnswer::Written(Ok(written))) => {
                let document = state.registered(&written);
                finish_answered(duration_ms, &document)
            },
            (
                OperationStage::RegisterWrite,
                OperationAnswer::Written(Err(WriteOutcome::AfterRename)),
            ) => finish_coded(duration_ms, "operation_indeterminate", false),
            (OperationStage::RegisterWrite, _) => {
                finish_coded(duration_ms, "operation_failed", false)
            },
            _ => vstd::pervasive::unreached(),
        }
    }

    fn go_after_template(self) -> (step: OperationStep)
        ensures
            step@ == after_template(self@),
    {
        if self.request.git_init {
            self.go(OperationStage::CreateGit)
        } else {
            self.go(OperationStage::CreateWrite)
        }
    }

    fn go_after_directory(self) -> (step: OperationStep)
        ensures
            step@ == after_directory(self@),
    {
        if same_text(self.request.template.as_str(), "basic") {
            self.go(OperationStage::CreateReadme)
        } else {
            self.go_after_template()
        }
    }

    fn recover(&self, seen: &CreatedProject, duration_ms: u64) -> (step: OperationStep)
        requires
            self.found is Some,
            self.stage == OperationStage::CreateEffects,
        ensures
            step@ == next_check(self@, OperationAnswer::Effects(*seen), duration_ms),
    {
        let found = match &self.found {
            Some(found) => found,
            None => vstd::pervasive::unreached(),
        };
        let template = self.request.template.as_str();
        match validate_recovered_create_side_effects(seen, template, self.request.git_init) {
            Ok(_) => {
                let runtime = runtime_id(self.client_id.as_str(), self.request.id.as_str());
                let document = recovered_project_result(
                    true,
                    runtime.as_str(),
                    self.client_id.as_str(),
                    &found.0,
                    &found.1,
                    Some(template),
                    self.request.git_init,
                );
                finish_answered(duration_ms, &document)
            },
            Err(code) => finish_coded(duration_ms, code, false),
        }
    }

    fn step_check(self, answer: OperationAnswer, duration_ms: u64) -> (step: OperationStep)
        requires
            fits(self.stage, answer),
            well_formed(self@),
            place(OperationStage::CreateExists) <= place(self.stage) <= place(
                OperationStage::CreateEmpty,
            ),
        ensures
            step@ == next_check(self@, answer, duration_ms),
    {
        let mut state = self;
        match (state.stage, answer) {
            (OperationStage::CreateExists, OperationAnswer::Holds(yes)) => {
                state.go(
                    if yes {
                        OperationStage::CreatePath
                    } else {
                        OperationStage::CreateAncestors
                    },
                )
            },
            (OperationStage::CreatePath, OperationAnswer::Problem(Some(error))) => {
                let message = sentence(
                    "path cannot be canonicalized: ",
                    state.request.path.as_str(),
                    ": ",
                    error.as_str(),
                );
                finish_said(duration_ms, message.as_str(), false)
            },
            (OperationStage::CreatePath, _) => state.go(OperationStage::CreateRoot),
            (OperationStage::CreateAncestors, OperationAnswer::Ancestors(chain)) => {
                let found = find_existing(&chain);
                state.ancestor = chain[found].0.clone();
                state.go(OperationStage::CreateAncestor)
            },
            (OperationStage::CreateAncestor, OperationAnswer::Problem(Some(error))) => {
                let message = sentence(
                    "parent path cannot be canonicalized: ",
                    state.ancestor.as_str(),
                    ": ",
                    error.as_str(),
                );
                finish_said(duration_ms, message.as_str(), false)
            },
            (OperationStage::CreateAncestor, _) => state.go(OperationStage::CreateRoot),
            (OperationStage::CreateRoot, OperationAnswer::Problem(Some(kind))) => {
                finish_coded(duration_ms, kind.as_str(), false)
            },
            (OperationStage::CreateRoot, _) => if state.windows {
                state.go(OperationStage::CreateShare)
            } else {
                state.go(OperationStage::CreatePolicy)
            },
            (OperationStage::CreateShare, OperationAnswer::Holds(shared)) => if shared {
                finish_coded(duration_ms, "windows_project_path_unsupported", false)
            } else {
                state.go(OperationStage::CreatePolicy)
            },
            (OperationStage::CreatePolicy, OperationAnswer::Holds(yes)) => if !yes {
                finish_coded(duration_ms, "path_outside_allowed_roots", false)
            } else if state.request.overwrite {
                state.go(OperationStage::CreateOccupied)
            } else {
                state.go(OperationStage::CreateExisting)
            },
            (
                OperationStage::CreateExisting,
                OperationAnswer::Existing { exists, record, same_path },
            ) => match state.existing(exists, record, same_path) {
                Ok(Some(found)) => {
                    state.found = Some(found);
                    state.go(OperationStage::CreateEffects)
                },
                Ok(None) => state.go(OperationStage::CreateOccupied),
                Err(code) => finish_coded(duration_ms, code, false),
            },
            (OperationStage::CreateEffects, OperationAnswer::Effects(seen)) => {
                state.recover(&seen, duration_ms)
            },
            (OperationStage::CreateOccupied, OperationAnswer::Holds(yes)) => if yes {
                state.go(OperationStage::CreateStat)
            } else {
                state.go(OperationStage::CreateDirectory)
            },
            (OperationStage::CreateStat, OperationAnswer::Measured(Err(error))) => {
                let message = sentence(
                    "failed to stat path ",
                    state.request.path.as_str(),
                    ": ",
                    error.as_str(),
                );
                finish_said(duration_ms, message.as_str(), false)
            },
            (OperationStage::CreateStat, OperationAnswer::Measured(Ok(directory))) => if directory {
                state.go(OperationStage::CreateEmpty)
            } else {
                let mut message = "path ".to_owned();
                message.append(state.request.path.as_str());
                message.append(" exists but is not a directory");
                finish_said(duration_ms, message.as_str(), false)
            },
            (OperationStage::CreateEmpty, OperationAnswer::Measured(Err(error))) => {
                let message = sentence(
                    "failed to read directory ",
                    state.request.path.as_str(),
                    ": ",
                    error.as_str(),
                );
                finish_said(duration_ms, message.as_str(), false)
            },
            (OperationStage::CreateEmpty, OperationAnswer::Measured(Ok(empty))) => if !empty {
                finish_coded(duration_ms, "path_not_empty", false)
            } else if !state.request.adopt_existing_empty {
                finish_coded(duration_ms, "path_exists", false)
            } else {
                state.go_after_directory()
            },
            _ => vstd::pervasive::unreached(),
        }
    }

    fn step_make(self, answer: OperationAnswer, duration_ms: u64) -> (step: OperationStep)
        requires
            fits(self.stage, answer),
            place(OperationStage::CreateDirectory) <= place(self.stage),
        ensures
            step@ == next_make(self@, answer, duration_ms),
    {
        let mut state = self;
        match (state.stage, answer) {
            (OperationStage::CreateDirectory, OperationAnswer::Problem(Some(error))) => {
                let message = sentence(
                    "failed to create directory ",
                    state.request.path.as_str(),
                    ": ",
                    error.as_str(),
                );
                finish_said(duration_ms, message.as_str(), false)
            },
            (OperationStage::CreateDirectory, _) => {
                state.created_directory = true;
                state.go_after_directory()
            },
            (OperationStage::CreateReadme, OperationAnswer::Problem(Some(error))) => {
                let mut message = "failed to write README.md: ".to_owned();
                message.append(error.as_str());
                finish_said(duration_ms, message.as_str(), true)
            },
            (OperationStage::CreateReadme, _) => state.go(OperationStage::CreateIgnore),
            (OperationStage::CreateIgnore, OperationAnswer::Problem(Some(error))) => {
                let mut message = "failed to write .gitignore: ".to_owned();
                message.append(error.as_str());
                finish_said(duration_ms, message.as_str(), true)
            },
            (OperationStage::CreateIgnore, _) => state.go_after_template(),
            (OperationStage::CreateGit, OperationAnswer::Git(GitInit::Succeeded)) => {
                state.go(OperationStage::CreateWrite)
            },
            (
                OperationStage::CreateGit,
                OperationAnswer::Git(GitInit::Failed { stderr, stderr_capped }),
            ) => {
                let shown = decode_lossy(stderr.as_slice());
                let mut message = "git init failed: ".to_owned();
                message.append(trim(shown.as_str()));
                if stderr_capped {
                    message.append(" [stderr truncated]");
                }
                assert(message@ =~= git_failure(stderr@, stderr_capped));
                finish_said(duration_ms, message.as_str(), true)
            },
            (OperationStage::CreateGit, OperationAnswer::Git(GitInit::NotRun(error))) => {
                let mut message = "git init failed (is git installed?): ".to_owned();
                message.append(error.as_str());
                finish_said(duration_ms, message.as_str(), true)
            },
            (OperationStage::CreateWrite, OperationAnswer::Written(Ok(written))) => {
                let document = state.created(&written);
                finish_answered(duration_ms, &document)
            },
            (
                OperationStage::CreateWrite,
                OperationAnswer::Written(Err(WriteOutcome::AfterRename)),
            ) => finish_coded(duration_ms, "operation_indeterminate", false),
            (OperationStage::CreateWrite, _) => {
                finish_coded(duration_ms, "operation_failed", true)
            },
            _ => vstd::pervasive::unreached(),
        }
    }

    /// Takes the answer to the open question.
    pub fn step(self, answer: OperationAnswer, duration_ms: u64) -> (step: OperationStep)
        requires
            well_formed(self@),
            fits(self.stage, answer),
        ensures
            step@ == next(self@, answer, duration_ms),
            step matches OperationStep::Ask(state) ==> well_formed(state@) && place(state.stage)
                > place(self.stage),
    {
        proof {
            law_steps_keep_what_is_known(self@, answer, duration_ms);
        }
        match self.stage {
            OperationStage::IdRule
            | OperationStage::NameRule
            | OperationStage::DescriptionRule
            | OperationStage::Absolute
            | OperationStage::RawRoot
            | OperationStage::Ingress
            | OperationStage::RawShare => self.step_request(answer, duration_ms),
            OperationStage::RegisterPath
            | OperationStage::RegisterDirectory
            | OperationStage::RegisterRoot
            | OperationStage::RegisterPolicy
            | OperationStage::RegisterExisting
            | OperationStage::RegisterWrite => self.step_register(answer, duration_ms),
            OperationStage::CreateExists
            | OperationStage::CreatePath
            | OperationStage::CreateAncestors
            | OperationStage::CreateAncestor
            | OperationStage::CreateRoot
            | OperationStage::CreateShare
            | OperationStage::CreatePolicy
            | OperationStage::CreateExisting
            | OperationStage::CreateEffects
            | OperationStage::CreateOccupied
            | OperationStage::CreateStat
            | OperationStage::CreateEmpty => self.step_check(answer, duration_ms),
            OperationStage::CreateDirectory
            | OperationStage::CreateReadme
            | OperationStage::CreateIgnore
            | OperationStage::CreateGit
            | OperationStage::CreateWrite => self.step_make(answer, duration_ms),
        }
    }
}

// ---- Laws --------------------------------------------------------------------------

/// Every step keeps what is known at its stage, and leads to a later stage or to
/// the end.
pub proof fn law_steps_keep_what_is_known(
    state: OperationView,
    answer: OperationAnswer,
    duration_ms: u64,
)
    requires
        well_formed(state),
        fits(state.stage, answer),
    ensures
        next(state, answer, duration_ms) matches OperationStepView::Ask(after) ==> well_formed(
            after,
        ) && place(after.stage) > place(state.stage) && after.request == state.request,
{
    reveal_strlit("empty");
    reveal_strlit("basic");
}

/// Whether carrying out the question of a stage changes the disk.
pub open spec fn changes_disk(stage: OperationStage) -> bool {
    place(stage) >= place(OperationStage::CreateDirectory) || stage
        == OperationStage::RegisterWrite
}

/// What was created is removed again exactly where a stage behind the making of
/// the directory fails and the record cannot have been written.
pub proof fn law_clean_up_before_the_record_is_written(
    state: OperationView,
    answer: OperationAnswer,
    duration_ms: u64,
)
    requires
        well_formed(state),
        fits(state.stage, answer),
    ensures
        next(state, answer, duration_ms) matches OperationStepView::Finish {
            result,
            clean_up,
        } ==> clean_up == (place(state.stage) > place(OperationStage::CreateDirectory)
            && result.exit_code != Some(0i32) && !(answer matches OperationAnswer::Written(
            Err(outcome),
        ) && outcome == WriteOutcome::AfterRename)),
{
}

/// A registration creates nothing on the disk but the record.
pub proof fn law_registration_only_writes_the_record(
    state: OperationView,
    answer: OperationAnswer,
    duration_ms: u64,
)
    requires
        well_formed(state),
        fits(state.stage, answer),
        !state.create,
    ensures
        changes_disk(state.stage) ==> state.stage == OperationStage::RegisterWrite,
        next(state, answer, duration_ms) matches OperationStepView::Ask(after) ==> !is_creation(
            after.stage,
        ),
{
}

/// Without `overwrite`, a record that stands under the identifier is never
/// written over: the operation ends before that.
pub proof fn law_standing_record_is_kept(
    state: OperationView,
    record: Option<(RunnerProjectFile, ProjectFacts)>,
    same_path: bool,
    duration_ms: u64,
)
    requires
        well_formed(state),
        state.stage == OperationStage::RegisterExisting || state.stage
            == OperationStage::CreateExisting,
    ensures
        next(
            state,
            OperationAnswer::Existing { exists: true, record, same_path },
            duration_ms,
        ) matches OperationStepView::Ask(after) ==> after.stage == OperationStage::CreateEffects,
{
}

// ---- What each answer leads to -------------------------------------------------------

/// A project that was registered is told as it was requested, with what was written
/// of it, as a change.
pub proof fn law_registered_project_is_told_as_requested(state: OperationView, written: RecordWrite)
    ensures
        registered_document(state, written) is Object,
        (registered_document(state, written)->Object_0).len() == 17,
        registered_document(state, written).get("id"@) == Some(json::JsonView::Text("agent:"@ + state.client_id + ":"@ + state.request.id)),
        registered_document(state, written).get("agent_project_id"@) == Some(json::JsonView::Text(state.request.id)),
        registered_document(state, written).get("client_id"@) == Some(json::JsonView::Text(state.client_id)),
        registered_document(state, written).get("name"@) == Some(json::JsonView::Text(state.request.name)),
        registered_document(state, written).get("path"@) == Some(json::JsonView::Text(state.request.path)),
        registered_document(state, written).get("description"@) == Some(match state.request.description {
            Some(held) => json::JsonView::Text(held),
            None => json::JsonView::Null,
        }),
        registered_document(state, written).get("allow_patch"@) == Some(json::JsonView::Bool(state.request.allow_patch)),
        registered_document(state, written).get("project_record_path"@) == Some(json::JsonView::Text(written.config_path@)),
        registered_document(state, written).get("projects_config_path"@) == Some(json::JsonView::Text(written.config_path@)),
        registered_document(state, written).get("created_config"@) == Some(json::JsonView::Bool(written.created_config)),
        registered_document(state, written).get("overwritten"@) == Some(json::JsonView::Bool(written.overwritten)),
        registered_document(state, written).get("registration_source"@) == Some(json::JsonView::Text(written.registration_source@)),
        registered_document(state, written).get("revision"@) == Some(json::JsonView::Text(written.revision@)),
        registered_document(state, written).get("changed"@) == Some(json::JsonView::Bool(true)),
        registered_document(state, written).get("recovered"@) == Some(json::JsonView::Bool(false)),
        registered_document(state, written).get("operation"@) == Some(json::JsonView::Text("register"@)),
        registered_document(state, written).get("outcome"@) == Some(json::JsonView::Text("registered"@)),
{
    reveal_strlit("id");
    reveal_strlit("agent_project_id");
    reveal_strlit("client_id");
    reveal_strlit("name");
    reveal_strlit("path");
    reveal_strlit("description");
    reveal_strlit("allow_patch");
    reveal_strlit("project_record_path");
    reveal_strlit("projects_config_path");
    reveal_strlit("created_config");
    reveal_strlit("overwritten");
    reveal_strlit("registration_source");
    reveal_strlit("revision");
    reveal_strlit("changed");
    reveal_strlit("recovered");
    reveal_strlit("operation");
    reveal_strlit("outcome");
    assert("id"@.len() == 2);
    assert("agent_project_id"@.len() == 16);
    assert("client_id"@.len() == 9);
    assert("name"@.len() == 4);
    assert("path"@.len() == 4);
    assert("description"@.len() == 11);
    assert("allow_patch"@.len() == 11);
    assert("project_record_path"@.len() == 19);
    assert("projects_config_path"@.len() == 20);
    assert("created_config"@.len() == 14);
    assert("overwritten"@.len() == 11);
    assert("registration_source"@.len() == 19);
    assert("revision"@.len() == 8);
    assert("changed"@.len() == 7);
    assert("recovered"@.len() == 9);
    assert("operation"@.len() == 9);
    assert("outcome"@.len() == 7);
    assert("client_id"@[0] != "recovered"@[0]);
    assert("client_id"@[0] != "operation"@[0]);
    assert("name"@[0] != "path"@[0]);
    assert("description"@[0] != "allow_patch"@[0]);
    assert("description"@[0] != "overwritten"@[0]);
    assert("allow_patch"@[0] != "overwritten"@[0]);
    assert("project_record_path"@[0] != "registration_source"@[0]);
    assert("changed"@[0] != "outcome"@[0]);
    assert("recovered"@[0] != "operation"@[0]);
    let fields = registered_document(state, written)->Object_0;
    json::law_field_is_found(fields, 0);
    json::law_field_is_found(fields, 1);
    json::law_field_is_found(fields, 2);
    json::law_field_is_found(fields, 3);
    json::law_field_is_found(fields, 4);
    json::law_field_is_found(fields, 5);
    json::law_field_is_found(fields, 6);
    json::law_field_is_found(fields, 7);
    json::law_field_is_found(fields, 8);
    json::law_field_is_found(fields, 9);
    json::law_field_is_found(fields, 10);
    json::law_field_is_found(fields, 11);
    json::law_field_is_found(fields, 12);
    json::law_field_is_found(fields, 13);
    json::law_field_is_found(fields, 14);
    json::law_field_is_found(fields, 15);
    json::law_field_is_found(fields, 16);
}

/// A project that was created is told as it was requested, with what was made and
/// written of it, as a change.
pub proof fn law_created_project_is_told_as_requested(state: OperationView, written: RecordWrite)
    ensures
        created_document(state, written) is Object,
        (created_document(state, written)->Object_0).len() == 20,
        created_document(state, written).get("id"@) == Some(json::JsonView::Text("agent:"@ + state.client_id + ":"@ + state.request.id)),
        created_document(state, written).get("agent_project_id"@) == Some(json::JsonView::Text(state.request.id)),
        created_document(state, written).get("client_id"@) == Some(json::JsonView::Text(state.client_id)),
        created_document(state, written).get("name"@) == Some(json::JsonView::Text(state.request.name)),
        created_document(state, written).get("path"@) == Some(json::JsonView::Text(state.request.path)),
        created_document(state, written).get("description"@) == Some(match state.request.description {
            Some(held) => json::JsonView::Text(held),
            None => json::JsonView::Null,
        }),
        created_document(state, written).get("allow_patch"@) == Some(json::JsonView::Bool(state.request.allow_patch)),
        created_document(state, written).get("project_record_path"@) == Some(json::JsonView::Text(written.config_path@)),
        created_document(state, written).get("projects_config_path"@) == Some(json::JsonView::Text(written.config_path@)),
        created_document(state, written).get("created_config"@) == Some(json::JsonView::Bool(written.created_config)),
        created_document(state, written).get("overwritten"@) == Some(json::JsonView::Bool(written.overwritten)),
        created_document(state, written).get("registration_source"@) == Some(json::JsonView::Text(written.registration_source@)),
        created_document(state, written).get("revision"@) == Some(json::JsonView::Text(written.revision@)),
        created_document(state, written).get("changed"@) == Some(json::JsonView::Bool(true)),
        created_document(state, written).get("recovered"@) == Some(json::JsonView::Bool(false)),
        created_document(state, written).get("created_directory"@) == Some(json::JsonView::Bool(state.created_directory)),
        created_document(state, written).get("template"@) == Some(json::JsonView::Text(state.request.template)),
        created_document(state, written).get("git_initialized"@) == Some(json::JsonView::Bool(state.request.git_init)),
        created_document(state, written).get("operation"@) == Some(json::JsonView::Text("create"@)),
        created_document(state, written).get("outcome"@) == Some(json::JsonView::Text("created"@)),
{
    reveal_strlit("id");
    reveal_strlit("agent_project_id");
    reveal_strlit("client_id");
    reveal_strlit("name");
    reveal_strlit("path");
    reveal_strlit("description");
    reveal_strlit("allow_patch");
    reveal_strlit("project_record_path");
    reveal_strlit("projects_config_path");
    reveal_strlit("created_config");
    reveal_strlit("overwritten");
    reveal_strlit("registration_source");
    reveal_strlit("revision");
    reveal_strlit("changed");
    reveal_strlit("recovered");
    reveal_strlit("created_directory");
    reveal_strlit("template");
    reveal_strlit("git_initialized");
    reveal_strlit("operation");
    reveal_strlit("outcome");
    assert("id"@.len() == 2);
    assert("agent_project_id"@.len() == 16);
    assert("client_id"@.len() == 9);
    assert("name"@.len() == 4);
    assert("path"@.len() == 4);
    assert("description"@.len() == 11);
    assert("allow_patch"@.len() == 11);
    assert("project_record_path"@.len() == 19);
    assert("projects_config_path"@.len() == 20);
    assert("created_config"@.len() == 14);
    assert("overwritten"@.len() == 11);
    assert("registration_source"@.len() == 19);
    assert("revision"@.len() == 8);
    assert("changed"@.len() == 7);
    assert("recovered"@.len() == 9);
    assert("created_directory"@.len() == 17);
    assert("template"@.len() == 8);
    assert("git_initialized"@.len() == 15);
    assert("operation"@.len() == 9);
    assert("outcome"@.len() == 7);
    assert("client_id"@[0] != "recovered"@[0]);
    assert("client_id"@[0] != "operation"@[0]);
    assert("name"@[0] != "path"@[0]);
    assert("description"@[0] != "allow_patch"@[0]);
    assert("description"@[0] != "overwritten"@[0]);
    assert("allow_patch"@[0] != "overwritten"@[0]);
    assert("project_record_path"@[0] != "registration_source"@[0]);
    assert("revision"@[0] != "template"@[0]);
    assert("changed"@[0] != "outcome"@[0]);
    assert("recovered"@[0] != "operation"@[0]);
    let fields = created_document(state, written)->Object_0;
    json::law_field_is_found(fields, 0);
    json::law_field_is_found(fields, 1);
    json::law_field_is_found(fields, 2);
    json::law_field_is_found(fields, 3);
    json::law_field_is_found(fields, 4);
    json::law_field_is_found(fields, 5);
    json::law_field_is_found(fields, 6);
    json::law_field_is_found(fields, 7);
    json::law_field_is_found(fields, 8);
    json::law_field_is_found(fields, 9);
    json::law_field_is_found(fields, 10);
    json::law_field_is_found(fields, 11);
    json::law_field_is_found(fields, 12);
    json::law_field_is_found(fields, 13);
    json::law_field_is_found(fields, 14);
    json::law_field_is_found(fields, 15);
    json::law_field_is_found(fields, 16);
    json::law_field_is_found(fields, 17);
    json::law_field_is_found(fields, 18);
    json::law_field_is_found(fields, 19);
}

/// Whether a step is the end of the operation with a failure of a code.
pub open spec fn fails(
    step: OperationStepView,
    error_code: Seq<char>,
    clean_up: bool,
    duration_ms: u64,
) -> bool {
    step matches OperationStepView::Finish { result, clean_up: cleans } && cleans == clean_up
        && result.exit_code == Some(1i32) && result.stdout == Some(
        json::rendered_json(command::coded_failure(error_code)),
    ) && result.error is None && result.duration_ms == Some(duration_ms)
}

/// Whether a step is the end of the operation with a message.
pub open spec fn complains(
    step: OperationStepView,
    message: Seq<char>,
    clean_up: bool,
    duration_ms: u64,
) -> bool {
    step matches OperationStepView::Finish { result, clean_up: cleans } && cleans == clean_up
        && result.error == Some(message) && result.exit_code is None && result.stdout is None
        && result.duration_ms == Some(duration_ms)
}

/// Whether a step is the end of the operation with a document.
pub open spec fn tells(step: OperationStepView, document: json::JsonView, duration_ms: u64) -> bool {
    step matches OperationStepView::Finish { result, clean_up } && !clean_up && result.exit_code
        == Some(0i32) && result.stdout == Some(json::rendered_json(document)) && result.error is None
        && result.duration_ms == Some(duration_ms)
}

/// Whether a step goes on at a stage, with the same request.
pub open spec fn goes_on(
    step: OperationStepView,
    state: OperationView,
    stage: OperationStage,
) -> bool {
    step matches OperationStepView::Ask(on) && on.stage == stage && on.request == state.request
        && on.create == state.create && on.client_id == state.client_id && on.windows
        == state.windows
}

/// A request holds what its payload says, each part from the field of its name: a
/// description without the white space around it, and none where it is blank;
/// patches allowed where nothing else is said, everything else off where nothing is
/// said, and the empty template where none is named.
pub proof fn law_request_is_what_the_payload_says(payload: json::JsonView)
    requires
        missing_field(payload) is None,
    ensures
        payload.get("id"@) == Some(json::JsonView::Text(request_of(payload).id)),
        payload.get("name"@) == Some(json::JsonView::Text(request_of(payload).name)),
        payload.get("path"@) == Some(json::JsonView::Text(request_of(payload).path)),
        payload.get("description"@) matches Some(json::JsonView::Text(said)) ==> (if text::trimmed(
            said,
        ).len() > 0 {
            request_of(payload).description == Some(text::trimmed(said))
        } else {
            request_of(payload).description is None
        }),
        payload.get("description"@) is None ==> request_of(payload).description is None,
        payload.get("allow_patch"@) matches Some(json::JsonView::Bool(said)) ==> request_of(
            payload,
        ).allow_patch == said,
        payload.get("allow_patch"@) is None ==> request_of(payload).allow_patch,
        payload.get("overwrite"@) matches Some(json::JsonView::Bool(said)) ==> request_of(
            payload,
        ).overwrite == said,
        payload.get("overwrite"@) is None ==> !request_of(payload).overwrite,
        payload.get("git_init"@) matches Some(json::JsonView::Bool(said)) ==> request_of(
            payload,
        ).git_init == said,
        payload.get("git_init"@) is None ==> !request_of(payload).git_init,
        payload.get("adopt_existing_empty"@) matches Some(json::JsonView::Bool(said))
            ==> request_of(payload).adopt_existing_empty == said,
        payload.get("adopt_existing_empty"@) is None ==> !request_of(payload).adopt_existing_empty,
        payload.get("template"@) matches Some(json::JsonView::Text(said)) ==> request_of(
            payload,
        ).template == said,
        payload.get("template"@) is None ==> request_of(payload).template == "empty"@,
{
}

/// A payload without an identifier, a name or a path lacks the first of them; one
/// with all three lacks nothing.
pub proof fn law_missing_field_is_the_first(payload: json::JsonView)
    ensures
        payload.text_field("id"@) is None ==> missing_field(payload) == Some("id"@),
        payload.text_field("id"@) is Some && payload.text_field("name"@) is None
            ==> missing_field(payload) == Some("name"@),
        payload.text_field("id"@) is Some && payload.text_field("name"@) is Some
            && payload.text_field("path"@) is None ==> missing_field(payload) == Some("path"@),
        payload.text_field("id"@) is Some && payload.text_field("name"@) is Some
            && payload.text_field("path"@) is Some ==> missing_field(payload) is None,
{
}

/// An operation begins with the request that its payload holds, and with nothing
/// found or made yet. Without the lock, a payload, one that can be read, or all that
/// it needs it ends there, and the temporary projects of old are refused.
pub proof fn law_operation_begins_with_its_request(
    lock_acquired: bool,
    kind: Seq<char>,
    create: bool,
    client_id: Seq<char>,
    payload: Seq<char>,
    windows: bool,
    duration_ms: u64,
)
    ensures
        ({
            let begun = beginning(
                lock_acquired,
                kind,
                create,
                client_id,
                payload,
                windows,
                duration_ms,
            );
            &&& !lock_acquired ==> fails(begun, "operation_failed"@, false, duration_ms)
            &&& lock_acquired && payload.len() == 0 ==> complains(
                begun,
                kind + " request missing stdin payload"@,
                false,
                duration_ms,
            )
            &&& lock_acquired && payload.len() > 0 && json::parsed_json(payload) is None
                ==> complains(
                begun,
                "failed to parse "@ + kind + " payload: "@ + json::parse_failure(payload),
                false,
                duration_ms,
            )
            &&& lock_acquired && payload.len() > 0 ==> (json::parsed_json(payload) matches Some(
                document,
            ) ==> {
                &&& document.get("managed_temporary_project"@) is Some ==> fails(
                    begun,
                    "managed_temporary_projects_retired"@,
                    false,
                    duration_ms,
                )
                &&& document.get("managed_temporary_project"@) is None ==> (match missing_field(
                    document,
                ) {
                    Some(key) => complains(
                        begun,
                        kind + " missing required field '"@ + key + "'"@,
                        false,
                        duration_ms,
                    ),
                    None => begun matches OperationStepView::Ask(state) && state.stage
                        == OperationStage::IdRule && state.create == create && state.client_id
                        == client_id && state.windows == windows && state.request == request_of(
                        document,
                    ) && state.found is None && !state.created_directory,
                })
            })
        }),
{
}

/// The request is checked in turn: its identifier, its name, its description where
/// there is one, its path. What is wrong is told as it was said. Then a registration
/// looks at who may use the path, and a creation, on Windows, whether it is shared.
pub proof fn law_request_is_checked_step_by_step(
    state: OperationView,
    answer: OperationAnswer,
    duration_ms: u64,
)
    requires
        fits(state.stage, answer),
        place(state.stage) <= place(OperationStage::RawShare),
    ensures
        ({
            let step = next(state, answer, duration_ms);
            let usable = state.request.path.len() > 0 && !state.request.path.contains('\0');
            let known = state.request.template == "empty"@ || state.request.template == "basic"@;
            match state.stage {
                OperationStage::IdRule => match answer {
                    OperationAnswer::Problem(Some(message)) => complains(
                        step,
                        message@,
                        false,
                        duration_ms,
                    ),
                    _ => goes_on(step, state, OperationStage::NameRule),
                },
                OperationStage::NameRule => match answer {
                    OperationAnswer::Problem(Some(message)) => complains(
                        step,
                        message@,
                        false,
                        duration_ms,
                    ),
                    _ => if state.request.description is Some {
                        goes_on(step, state, OperationStage::DescriptionRule)
                    } else if usable {
                        goes_on(step, state, OperationStage::Absolute)
                    } else {
                        complains(
                            step,
                            "path must be a non-empty absolute path"@,
                            false,
                            duration_ms,
                        )
                    },
                },
                OperationStage::DescriptionRule => match answer {
                    OperationAnswer::Problem(Some(message)) => complains(
                        step,
                        message@,
                        false,
                        duration_ms,
                    ),
                    _ => if usable {
                        goes_on(step, state, OperationStage::Absolute)
                    } else {
                        complains(
                            step,
                            "path must be a non-empty absolute path"@,
                            false,
                            duration_ms,
                        )
                    },
                },
                OperationStage::Absolute => if answer == OperationAnswer::Holds(true) {
                    goes_on(step, state, OperationStage::RawRoot)
                } else {
                    complains(step, "path must be a non-empty absolute path"@, false, duration_ms)
                },
                OperationStage::RawRoot => match answer {
                    OperationAnswer::Problem(Some(kind)) => fails(step, kind@, false, duration_ms),
                    _ => if !state.create {
                        goes_on(step, state, OperationStage::Ingress)
                    } else if state.windows {
                        goes_on(step, state, OperationStage::RawShare)
                    } else if known {
                        goes_on(step, state, OperationStage::CreateExists)
                    } else {
                        fails(step, "invalid_request"@, false, duration_ms)
                    },
                },
                OperationStage::Ingress => match answer {
                    OperationAnswer::Problem(Some(kind)) => fails(step, kind@, false, duration_ms),
                    _ => if !state.create {
                        goes_on(step, state, OperationStage::RegisterPath)
                    } else if known {
                        goes_on(step, state, OperationStage::CreateExists)
                    } else {
                        fails(step, "invalid_request"@, false, duration_ms)
                    },
                },
                OperationStage::RawShare => if answer == OperationAnswer::Holds(true) {
                    fails(step, "windows_project_path_unsupported"@, false, duration_ms)
                } else if !state.create {
                    goes_on(step, state, OperationStage::RegisterPath)
                } else if known {
                    goes_on(step, state, OperationStage::CreateExists)
                } else {
                    fails(step, "invalid_request"@, false, duration_ms)
                },
                _ => true,
            }
        }),
{
}

/// A registration takes a directory that is there and allowed. Unless it is to be
/// written over, a record that stands is told where it is the one that was
/// requested, and is in the way where it is not; and what was written is told.
pub proof fn law_registration_goes_step_by_step(
    state: OperationView,
    answer: OperationAnswer,
    duration_ms: u64,
)
    requires
        fits(state.stage, answer),
        place(OperationStage::RegisterPath) <= place(state.stage) <= place(
            OperationStage::RegisterWrite,
        ),
    ensures
        ({
            let step = next(state, answer, duration_ms);
            match state.stage {
                OperationStage::RegisterPath => match answer {
                    OperationAnswer::Problem(Some(error)) => complains(
                        step,
                        "path does not exist or cannot be canonicalized: "@ + state.request.path
                            + ": "@ + error@,
                        false,
                        duration_ms,
                    ),
                    _ => goes_on(step, state, OperationStage::RegisterDirectory),
                },
                OperationStage::RegisterDirectory => if answer == OperationAnswer::Holds(true) {
                    goes_on(step, state, OperationStage::RegisterRoot)
                } else {
                    complains(
                        step,
                        "path "@ + state.request.path + " is not a directory"@,
                        false,
                        duration_ms,
                    )
                },
                OperationStage::RegisterRoot => match answer {
                    OperationAnswer::Problem(Some(kind)) => fails(step, kind@, false, duration_ms),
                    _ => goes_on(step, state, OperationStage::RegisterPolicy),
                },
                OperationStage::RegisterPolicy => if answer == OperationAnswer::Holds(false) {
                    fails(step, "path_outside_allowed_roots"@, false, duration_ms)
                } else if state.request.overwrite {
                    goes_on(step, state, OperationStage::RegisterWrite)
                } else {
                    goes_on(step, state, OperationStage::RegisterExisting)
                },
                OperationStage::RegisterExisting => match answer {
                    OperationAnswer::Existing { exists, record, same_path } => {
                        &&& !exists ==> goes_on(step, state, OperationStage::RegisterWrite)
                        &&& exists && record is None ==> fails(
                            step,
                            "operation_failed"@,
                            false,
                            duration_ms,
                        )
                        &&& exists ==> (record matches Some(found)
                            ==> if project_record::holds_request(
                            found.0,
                            state.request.id,
                            state.request.name,
                            state.request.description,
                            state.request.allow_patch,
                            same_path,
                        ) {
                            tells(
                                step,
                                project_record::recovered_document(
                                    false,
                                    "agent:"@ + state.client_id + ":"@ + state.request.id,
                                    state.client_id,
                                    found.0,
                                    found.1,
                                    None,
                                    false,
                                ),
                                duration_ms,
                            )
                        } else {
                            fails(step, "project_already_exists"@, false, duration_ms)
                        })
                    },
                    _ => true,
                },
                OperationStage::RegisterWrite => match answer {
                    OperationAnswer::Written(Ok(written)) => tells(
                        step,
                        registered_document(state, written),
                        duration_ms,
                    ),
                    OperationAnswer::Written(Err(WriteOutcome::AfterRename)) => fails(
                        step,
                        "operation_indeterminate"@,
                        false,
                        duration_ms,
                    ),
                    _ => fails(step, "operation_failed"@, false, duration_ms),
                },
                _ => true,
            }
        }),
{
}

/// A creation looks at its place first: at the path where it is there, and at the
/// nearest of its parents that is where it is not; then at the spelling of the root,
/// on Windows at shares, and at the policy. Unless it is to be written over, a
/// record that stands is one that was made before, or in the way.
pub proof fn law_creation_checks_its_place(
    state: OperationView,
    answer: OperationAnswer,
    duration_ms: u64,
)
    requires
        fits(state.stage, answer),
        place(OperationStage::CreateExists) <= place(state.stage) <= place(
            OperationStage::CreateExisting,
        ),
    ensures
        ({
            let step = next(state, answer, duration_ms);
            match state.stage {
                OperationStage::CreateExists => if answer == OperationAnswer::Holds(true) {
                    goes_on(step, state, OperationStage::CreatePath)
                } else {
                    goes_on(step, state, OperationStage::CreateAncestors)
                },
                OperationStage::CreatePath => match answer {
                    OperationAnswer::Problem(Some(error)) => complains(
                        step,
                        "path cannot be canonicalized: "@ + state.request.path + ": "@ + error@,
                        false,
                        duration_ms,
                    ),
                    _ => goes_on(step, state, OperationStage::CreateRoot),
                },
                OperationStage::CreateAncestors => match answer {
                    OperationAnswer::Ancestors(chain) => goes_on(
                        step,
                        state,
                        OperationStage::CreateAncestor,
                    ) && (step->Ask_0).ancestor == nearest_existing(chain@),
                    _ => true,
                },
                OperationStage::CreateAncestor => match answer {
                    OperationAnswer::Problem(Some(error)) => complains(
                        step,
                        "parent path cannot be canonicalized: "@ + state.ancestor + ": "@ + error@,
                        false,
                        duration_ms,
                    ),
                    _ => goes_on(step, state, OperationStage::CreateRoot),
                },
                OperationStage::CreateRoot => match answer {
                    OperationAnswer::Problem(Some(kind)) => fails(step, kind@, false, duration_ms),
                    _ => if state.windows {
                        goes_on(step, state, OperationStage::CreateShare)
                    } else {
                        goes_on(step, state, OperationStage::CreatePolicy)
                    },
                },
                OperationStage::CreateShare => if answer == OperationAnswer::Holds(true) {
                    fails(step, "windows_project_path_unsupported"@, false, duration_ms)
                } else {
                    goes_on(step, state, OperationStage::CreatePolicy)
                },
                OperationStage::CreatePolicy => if answer == OperationAnswer::Holds(false) {
                    fails(step, "path_outside_allowed_roots"@, false, duration_ms)
                } else if state.request.overwrite {
                    goes_on(step, state, OperationStage::CreateOccupied)
                } else {
                    goes_on(step, state, OperationStage::CreateExisting)
                },
                OperationStage::CreateExisting => match answer {
                    OperationAnswer::Existing { exists, record, same_path } => {
                        &&& !exists ==> goes_on(step, state, OperationStage::CreateOccupied)
                        &&& exists && record is None ==> fails(
                            step,
                            "operation_failed"@,
                            false,
                            duration_ms,
                        )
                        &&& exists ==> (record matches Some(found)
                            ==> if project_record::holds_request(
                            found.0,
                            state.request.id,
                            state.request.name,
                            state.request.description,
                            state.request.allow_patch,
                            same_path,
                        ) {
                            goes_on(step, state, OperationStage::CreateEffects) && (
                            step->Ask_0).found == Some(found)
                        } else {
                            fails(step, "project_already_exists"@, false, duration_ms)
                        })
                    },
                    _ => true,
                },
                _ => true,
            }
        }),
{
}

/// A creation whose record stands is told as recovered where all that it was to
/// make is there, and is in the way where it is not. Of a place that is taken only
/// an empty directory can be adopted, and only where that was asked for.
pub proof fn law_creation_takes_only_what_it_may(
    state: OperationView,
    answer: OperationAnswer,
    duration_ms: u64,
)
    requires
        well_formed(state),
        fits(state.stage, answer),
        place(OperationStage::CreateEffects) <= place(state.stage) <= place(
            OperationStage::CreateEmpty,
        ),
    ensures
        ({
            let step = next(state, answer, duration_ms);
            match state.stage {
                OperationStage::CreateEffects => match answer {
                    OperationAnswer::Effects(seen) => if project_record::creation_is_complete(
                        seen,
                        state.request.template,
                        state.request.git_init,
                    ) {
                        tells(
                            step,
                            project_record::recovered_document(
                                true,
                                "agent:"@ + state.client_id + ":"@ + state.request.id,
                                state.client_id,
                                state.found->Some_0.0,
                                state.found->Some_0.1,
                                Some(state.request.template),
                                state.request.git_init,
                            ),
                            duration_ms,
                        )
                    } else {
                        fails(step, "project_already_exists"@, false, duration_ms)
                    },
                    _ => true,
                },
                OperationStage::CreateOccupied => if answer == OperationAnswer::Holds(true) {
                    goes_on(step, state, OperationStage::CreateStat)
                } else {
                    goes_on(step, state, OperationStage::CreateDirectory)
                },
                OperationStage::CreateStat => match answer {
                    OperationAnswer::Measured(Err(error)) => complains(
                        step,
                        "failed to stat path "@ + state.request.path + ": "@ + error@,
                        false,
                        duration_ms,
                    ),
                    OperationAnswer::Measured(Ok(true)) => goes_on(
                        step,
                        state,
                        OperationStage::CreateEmpty,
                    ),
                    _ => complains(
                        step,
                        "path "@ + state.request.path + " exists but is not a directory"@,
                        false,
                        duration_ms,
                    ),
                },
                OperationStage::CreateEmpty => match answer {
                    OperationAnswer::Measured(Err(error)) => complains(
                        step,
                        "failed to read directory "@ + state.request.path + ": "@ + error@,
                        false,
                        duration_ms,
                    ),
                    OperationAnswer::Measured(Ok(false)) => fails(
                        step,
                        "path_not_empty"@,
                        false,
                        duration_ms,
                    ),
                    _ => if !state.request.adopt_existing_empty {
                        fails(step, "path_exists"@, false, duration_ms)
                    } else if state.request.template == "basic"@ {
                        goes_on(step, state, OperationStage::CreateReadme)
                    } else if state.request.git_init {
                        goes_on(step, state, OperationStage::CreateGit)
                    } else {
                        goes_on(step, state, OperationStage::CreateWrite)
                    },
                },
                _ => true,
            }
        }),
{
}

/// A creation makes its directory, the files of the basic template and the
/// repository where they were asked for, and then its record, and tells that; what
/// fails behind the directory is cleaned up, unless the record may be there.
pub proof fn law_creation_makes_what_was_asked_for(
    state: OperationView,
    answer: OperationAnswer,
    duration_ms: u64,
)
    requires
        well_formed(state),
        fits(state.stage, answer),
        place(OperationStage::CreateDirectory) <= place(state.stage),
    ensures
        ({
            let step = next(state, answer, duration_ms);
            match state.stage {
                OperationStage::CreateDirectory => match answer {
                    OperationAnswer::Problem(Some(error)) => complains(
                        step,
                        "failed to create directory "@ + state.request.path + ": "@ + error@,
                        false,
                        duration_ms,
                    ),
                    _ => (step matches OperationStepView::Ask(on) && on.created_directory) && (
                    if state.request.template == "basic"@ {
                        goes_on(step, state, OperationStage::CreateReadme)
                    } else if state.request.git_init {
                        goes_on(step, state, OperationStage::CreateGit)
                    } else {
                        goes_on(step, state, OperationStage::CreateWrite)
                    }),
                },
                OperationStage::CreateReadme => match answer {
                    OperationAnswer::Problem(Some(error)) => complains(
                        step,
                        "failed to write README.md: "@ + error@,
                        true,
                        duration_ms,
                    ),
                    _ => goes_on(step, state, OperationStage::CreateIgnore),
                },
                OperationStage::CreateIgnore => match answer {
                    OperationAnswer::Problem(Some(error)) => complains(
                        step,
                        "failed to write .gitignore: "@ + error@,
                        true,
                        duration_ms,
                    ),
                    _ => if state.request.git_init {
                        goes_on(step, state, OperationStage::CreateGit)
                    } else {
                        goes_on(step, state, OperationStage::CreateWrite)
                    },
                },
                OperationStage::CreateGit => match answer {
                    OperationAnswer::Git(GitInit::Succeeded) => goes_on(
                        step,
                        state,
                        OperationStage::CreateWrite,
                    ),
                    OperationAnswer::Git(GitInit::Failed { stderr, stderr_capped: false }) => {
                        complains(
                            step,
                            "git init failed: "@ + text::trimmed(text::lossy_text(stderr@)),
                            true,
                            duration_ms,
                        )
                    },
                    OperationAnswer::Git(GitInit::Failed { stderr, stderr_capped: true }) => {
                        complains(
                            step,
                            "git init failed: "@ + text::trimmed(text::lossy_text(stderr@))
                                + " [stderr truncated]"@,
                            true,
                            duration_ms,
                        )
                    },
                    OperationAnswer::Git(GitInit::NotRun(error)) => complains(
                        step,
                        "git init failed (is git installed?): "@ + error@,
                        true,
                        duration_ms,
                    ),
                    _ => true,
                },
                OperationStage::CreateWrite => match answer {
                    OperationAnswer::Written(Ok(written)) => tells(
                        step,
                        created_document(state, written),
                        duration_ms,
                    ),
                    OperationAnswer::Written(Err(WriteOutcome::AfterRename)) => fails(
                        step,
                        "operation_indeterminate"@,
                        false,
                        duration_ms,
                    ),
                    _ => fails(step, "operation_failed"@, true, duration_ms),
                },
                _ => true,
            }
        }),
{
    if let OperationAnswer::Git(GitInit::Failed { stderr, stderr_capped: false }) = answer {
        let said = "git init failed: "@ + text::trimmed(text::lossy_text(stderr@));
        assert(said + Seq::<char>::empty() =~= said);
    }
}

/// What is made in a creation is kept in mind until it is told: a directory is told
/// as created exactly where this operation made it.
pub proof fn law_made_directory_is_remembered(
    state: OperationView,
    answer: OperationAnswer,
    duration_ms: u64,
)
    requires
        well_formed(state),
        fits(state.stage, answer),
    ensures
        next(state, answer, duration_ms) matches OperationStepView::Ask(on) ==> (
        on.created_directory <==> state.created_directory || state.stage
            == OperationStage::CreateDirectory),
        next(state, answer, duration_ms) matches OperationStepView::Ask(on) ==> state.stage
            != OperationStage::CreateExisting ==> on.found == state.found,
{
}

/// The nearest parent that is there is the first of the chain that is; the last of
/// the chain where none is.
pub proof fn law_nearest_parent_is_the_first_that_is_there(chain: Seq<(String, bool)>, i: int)
    requires
        0 <= i < chain.len(),
        chain[i].1 || i == chain.len() - 1,
        forall|j: int| 0 <= j < i ==> !(#[trigger] chain[j]).1,
    ensures
        nearest_existing(chain) == chain[i].0@,
    decreases chain.len(),
{
    if i > 0 {
        assert(!chain[0].1);
        let rest = chain.drop_first();
        assert forall|j: int| 0 <= j < i - 1 implies !(#[trigger] rest[j]).1 by {
            assert(rest[j] == chain[j + 1]);
        }
        law_nearest_parent_is_the_first_that_is_there(rest, i - 1);
    }
}

/// The file that introduces a project bears its name as the heading, and below it
/// the description where there is one.
pub proof fn law_readme_bears_the_name(name: Seq<char>, description: Seq<char>)
    ensures
        readme_of(name, None) == "# "@ + name + "\n"@,
        readme_of(name, Some(description)) == "# "@ + name + "\n\n"@ + description + "\n"@,
{
}

} // verus!
