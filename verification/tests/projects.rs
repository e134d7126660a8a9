use webcodex::git::GitOutput;
use webcodex::json::{parse_json, JsonValue};
use webcodex::managed_worktree::{begin, Answer, Outcome, Question, Stage, Step, WriteOutcome};
use webcodex::project_lifecycle::{
    begin as begin_lifecycle, is_unregister_tombstone, unregister_outcome, LifecycleAction,
    LifecycleAnswer, LifecycleStage, LifecycleState, LifecycleStep, ProjectUnregisterError,
};
use webcodex::project_operation::{
    begin as begin_operation, parse_operation_request, readme_text, GitInit, OperationAnswer,
    OperationStage, OperationStep, RecordWrite,
};
use webcodex::project_record::{
    managed_worktree_project_toml, matching_existing_project, recovered_project_result, runtime_id,
    toml_basic_string, validate_recovered_create_side_effects, CreatedProject, ManagedOrigin,
    ProjectFacts, ProjectRequest, RunnerProjectFile,
};
use webcodex::worktree_request::{
    choose_managed_worktree_root, parse_request, read_payload, requested_path, AllowedRoot,
    RootChoice, SiblingRoot,
};
use webcodex::worktree_result::{managed_worktree_success, preparation_result};

const SHA: &str = "0123456789abcdef0123456789abcdef01234567";
const OPERATION: &str = "7c9e6679-7425-40de-944b-e07fc1f90ae7";

fn record(id: &str, path: &str) -> RunnerProjectFile {
    RunnerProjectFile {
        id: id.to_string(),
        path: path.to_string(),
        shell_profile: None,
        allow_patch: true,
        name: Some("Demo".to_string()),
        kind: None,
        registration_source: None,
        description: None,
        disabled: false,
        hooks: Vec::new(),
        managed_worktree: false,
        managed_source: None,
        managed_source_project_id: None,
        managed_source_root_fingerprint: None,
        managed_base_ref: None,
        managed_base_sha: None,
        managed_operation_id: None,
    }
}

fn managed(id: &str, path: &str) -> RunnerProjectFile {
    let mut project = record(id, path);
    project.managed_worktree = true;
    project.managed_source = Some("/src/demo".to_string());
    project.managed_source_project_id = Some("demo".to_string());
    project.managed_source_root_fingerprint = Some("fp".to_string());
    project.managed_base_ref = Some("HEAD".to_string());
    project.managed_base_sha = Some(SHA.to_string());
    project.managed_operation_id = Some(OPERATION.to_string());
    project
}

fn facts(revision: &str) -> ProjectFacts {
    ProjectFacts {
        wire_kind: None,
        registration_source: "explicit".to_string(),
        revision: revision.to_string(),
        root_fingerprint: Some("fp".to_string()),
        lineage: JsonValue::Null,
    }
}

fn git(stdout: &str) -> Answer {
    Answer::Git(Some(GitOutput {
        success: true,
        stdout: stdout.as_bytes().to_vec(),
        stdout_capped: false,
        stderr_capped: false,
    }))
}

fn payload(resume: &str) -> String {
    format!(
        "{{\"path\": \"/src/demo\", \"base_ref\": null, \"resume_project_id\": {resume}, \"operation_id\": \"{OPERATION}\"}}"
    )
}

/// A machine with one clean repository, on which a worktree may be made.
struct Machine {
    worktree_stands: bool,
    records: Vec<RunnerProjectFile>,
    write: WriteOutcome,
    add: Option<bool>,
    changes: Vec<String>,
}

impl Machine {
    fn new() -> Machine {
        Machine {
            worktree_stands: false,
            records: Vec::new(),
            write: WriteOutcome::Written,
            add: Some(true),
            changes: Vec::new(),
        }
    }

    fn copies(&self) -> Vec<RunnerProjectFile> {
        self.records
            .iter()
            .map(|project| {
                if project.managed_worktree {
                    managed(&project.id, &project.path)
                } else {
                    record(&project.id, &project.path)
                }
            })
            .collect()
    }

    fn answer(&mut self, question: Question) -> Answer {
        match question {
            Question::RootSpelling(_)
            | Question::ProjectPolicy(_)
            | Question::ProjectIdentifier(_)
            | Question::PathPolicy(_)
            | Question::IsUnicode(_) => Answer::Holds(true),
            Question::IngressAuthority(_) => Answer::Refused(None),
            Question::CanonicalDirectory(path) => Answer::Path(Some(path)),
            Question::SamePath { path, other } => {
                Answer::Path(if path == other { Some(path) } else { None })
            }
            Question::Git { directory, args } => match args[0].as_str() {
                "rev-parse" if args[1] == "--show-toplevel" => git("/src/demo\n"),
                "rev-parse" => git(&format!("{SHA}\n")),
                "status" => git(""),
                "worktree" if self.worktree_stands => {
                    git("worktree /src/demo\n\nworktree /managed/demo-w\n")
                }
                "worktree" => git("worktree /src/demo\n"),
                other => panic!("{other} in {directory}"),
            },
            Question::AllRecords => Answer::Records(Ok(self.copies())),
            Question::SourceProject(_) => {
                Answer::Lineage(Ok(("demo".to_string(), "fp".to_string())))
            }
            Question::CanonicalPath(path) => Answer::Path(Some(path)),
            Question::AnySamePath { paths, target } => Answer::Holds(paths.contains(&target)),
            Question::ManagedRoots(_) => Answer::Roots(RootChoice {
                roots: vec![AllowedRoot {
                    components: 2,
                    holds_source: true,
                    candidate: "/managed".to_string(),
                    candidate_in_source: false,
                }],
                allow_cwd_anywhere: false,
                sibling: None,
            }),
            Question::CreateDirectory(path) => {
                self.changes.push(format!("directory {path}"));
                Answer::Path(Some(path))
            }
            Question::Basename(_) => Answer::Text("demo".to_string()),
            Question::Join { root, leaf } => {
                assert_eq!(leaf, format!("demo-{OPERATION}"));
                Answer::Text(format!("{root}/demo-w"))
            }
            Question::PathExists(_) => Answer::Holds(self.worktree_stands),
            Question::AddWorktree { args, .. } => {
                assert_eq!(
                    args,
                    ["worktree", "add", "--detach", "/managed/demo-w", SHA]
                );
                self.changes.push("worktree".to_string());
                match self.add {
                    Some(success) => {
                        self.worktree_stands = success;
                        Answer::Git(Some(GitOutput {
                            success,
                            stdout: Vec::new(),
                            stdout_capped: false,
                            stderr_capped: false,
                        }))
                    }
                    None => Answer::Git(None),
                }
            }
            Question::RecordsAt(path) => Answer::Records(Ok(self
                .copies()
                .into_iter()
                .filter(|project| project.path == path)
                .collect())),
            Question::FreshIdentifier(_) => Answer::Named(Ok("demo-w".to_string())),
            Question::AutomaticRecord { id, path } => {
                Answer::Text(format!("id = \"{id}\"\npath = \"{path}\"\n"))
            }
            Question::WriteRecord { id, content } => {
                assert!(content.contains("managed_worktree = true\n"));
                assert!(content.contains(&format!("managed_base_sha = \"{SHA}\"\n")));
                self.changes.push(format!("record {id}"));
                self.records.push(managed(&id, "/managed/demo-w"));
                Answer::Written(self.write)
            }
            Question::ParseRecord(_) => {
                Answer::Parsed(Some(managed("demo-w", "/managed/demo-w")))
            }
        }
    }

    fn prepare(&mut self, payload: &str) -> Outcome {
        let mut step = begin(true, payload, true, false);
        loop {
            match step {
                Step::Ask(state) => {
                    let answer = self.answer(state.question());
                    step = state.step(answer);
                }
                Step::Finish(outcome) => return outcome,
            }
        }
    }
}

fn failure(outcome: &Outcome) -> (&str, bool) {
    match outcome {
        Outcome::Failed { kind, state_changed, .. } => (kind.as_str(), *state_changed),
        other => panic!("{other:?}"),
    }
}

#[test]
fn a_worktree_is_made_and_registered() {
    let mut machine = Machine::new();
    let outcome = machine.prepare(&payload("null"));
    match &outcome {
        Outcome::Ready(ready) => {
            assert_eq!(ready.worktree, "/managed/demo-w");
            assert_eq!(ready.base_ref, "HEAD");
            assert_eq!(ready.base_sha, SHA);
            assert!(ready.created);
            assert!(ready.registered);
            assert!(!ready.source_dirty);
            let result = managed_worktree_success(9, "client", ready, &facts("r1"));
            assert_eq!(result.exit_code, Some(0));
            let document = parse_json(result.stdout.as_deref().unwrap()).unwrap();
            assert_eq!(document.text_field("base_sha"), Some(SHA));
        }
        other => panic!("{other:?}"),
    }
    assert_eq!(
        machine.changes,
        ["directory /managed", "worktree", "record demo-w"]
    );
    let shown = preparation_result(9, "client", &outcome, &facts("r1"));
    assert_eq!(shown.exit_code, Some(0));
}

#[test]
fn the_same_operation_finds_its_worktree_again() {
    let mut machine = Machine::new();
    machine.prepare(&payload("null"));
    machine.changes.clear();
    match machine.prepare(&payload("null")) {
        Outcome::Ready(ready) => {
            assert!(!ready.created);
            assert!(!ready.registered);
            assert_eq!(ready.project.id, "demo-w");
        }
        other => panic!("{other:?}"),
    }
    assert_eq!(machine.changes, ["directory /managed"]);
}

#[test]
fn a_resume_changes_nothing() {
    let mut machine = Machine::new();
    machine.prepare(&payload("null"));
    machine.changes.clear();
    match machine.prepare(&payload("\"demo-w\"")) {
        Outcome::Ready(ready) => {
            assert_eq!(ready.worktree, "/managed/demo-w");
            assert!(!ready.created);
        }
        other => panic!("{other:?}"),
    }
    assert!(machine.changes.is_empty());
    let missing = machine.prepare(&payload("\"other\""));
    let (_, changed) = failure(&missing);
    assert!(!changed);
}

#[test]
fn failures_tell_whether_something_changed() {
    let mut machine = Machine::new();
    machine.add = Some(false);
    let outcome = machine.prepare(&payload("null"));
    assert_eq!(failure(&outcome), ("worktree_creation_failed", false));
    let shown = preparation_result(9, "client", &outcome, &facts("r1"));
    assert_eq!(shown.exit_code, Some(1));
    let document = parse_json(shown.stdout.as_deref().unwrap()).unwrap();
    assert_eq!(document.text_field("error_kind"), Some("worktree_creation_failed"));
    assert_eq!(document.text_field("base_sha"), Some(SHA));

    let mut machine = Machine::new();
    machine.add = None;
    assert_eq!(
        failure(&machine.prepare(&payload("null"))),
        ("operation_indeterminate", false)
    );

    let mut machine = Machine::new();
    machine.write = WriteOutcome::BeforeRename;
    assert_eq!(
        failure(&machine.prepare(&payload("null"))),
        ("worktree_registration_failed", true)
    );

    let mut machine = Machine::new();
    machine.write = WriteOutcome::AfterRename;
    assert_eq!(
        failure(&machine.prepare(&payload("null"))),
        ("operation_indeterminate", true)
    );
}

#[test]
fn a_preparation_begins_with_its_request() {
    match begin(true, &payload("null"), true, false) {
        Step::Ask(state) => assert_eq!(state.stage, Stage::RawRoot),
        other => panic!("{other:?}"),
    }
    let refused = |payload: &str, absolute: bool| match begin(true, payload, absolute, false) {
        Step::Finish(outcome) => failure(&outcome).0.to_string(),
        other => panic!("{other:?}"),
    };
    assert_eq!(refused("{", true), "invalid_request");
    assert_eq!(refused("{}", true), "invalid_request");
    assert_eq!(refused(&payload("null"), false), "invalid_project_path");
    assert_eq!(
        refused(&payload("null").replace("null, \"resume", "7, \"resume"), true),
        "invalid_base_ref"
    );
    let locked = begin(false, &payload("null"), true, false);
    assert!(matches!(locked, Step::Finish(_)));
}

#[test]
fn requests_name_their_operation() {
    let document = read_payload(&payload("null")).unwrap();
    assert_eq!(requested_path(&document), Some("/src/demo"));
    let request = parse_request(&document, true).unwrap();
    assert_eq!(request.operation_id, OPERATION);
    assert_eq!(request.base_ref, "HEAD");
    assert_eq!(request.requested_base_ref, None);
    let unnamed = parse_json(&payload("null").replace(OPERATION, "not-a-uuid")).unwrap();
    assert!(parse_request(&unnamed, true).is_err());
    assert!(read_payload("[").is_none());
}

#[test]
fn operations_are_named_by_any_spelling_of_a_uuid() {
    let named = |operation: &str| {
        let document = parse_json(&payload("null").replace(OPERATION, operation)).unwrap();
        parse_request(&document, true).is_ok()
    };
    let hyphenated = "7c9e6679-7425-40de-944b-e07fc1f90ae7";
    let simple = hyphenated.replace('-', "");
    assert!(named(hyphenated));
    assert!(named(&hyphenated.to_uppercase()));
    assert!(named(&simple));
    assert!(named(&format!("{{{hyphenated}}}")));
    assert!(named(&format!("urn:uuid:{hyphenated}")));
    assert!(named(&format!("URN:uuid:{hyphenated}")));
    assert!(!named(&format!("{{{simple}}}")));
    assert!(!named(&format!("urn:uuid:{simple}")));
    assert!(!named(&format!("uuid:urn:{hyphenated}")));
    assert!(!named(&hyphenated.replace('7', "g")));
    assert!(!named(&hyphenated.replace('-', "_")));
    assert!(!named(&simple[1..]));
    assert!(!named(&format!("{}é", &simple[2..])));
    assert!(!named(""));
}

#[test]
fn the_root_is_the_deepest_that_holds_the_source() {
    let root = |components: usize, candidate: &str, within: bool| AllowedRoot {
        components,
        holds_source: true,
        candidate: candidate.to_string(),
        candidate_in_source: within,
    };
    let mut choice = RootChoice {
        roots: vec![root(1, "/a", false), root(3, "/a/b/c", false), root(4, "/a/b/c/d", true)],
        allow_cwd_anywhere: false,
        sibling: Some(SiblingRoot { candidate: "/s".to_string(), candidate_in_source: false }),
    };
    assert_eq!(choose_managed_worktree_root(&choice).as_deref(), Some("/a/b/c"));
    choice.roots.clear();
    assert_eq!(choose_managed_worktree_root(&choice), None);
    choice.allow_cwd_anywhere = true;
    assert_eq!(choose_managed_worktree_root(&choice).as_deref(), Some("/s"));
}

#[test]
fn quoted_values_are_read_back() {
    for value in ["plain", "a\"b\\c", "line\nbreak\ttab", "\u{1}\u{7f}\u{1f}", "ä…"] {
        let quoted = toml_basic_string(value);
        let line = format!("key = {quoted}");
        let table: toml::Table = line.parse().unwrap();
        assert_eq!(table["key"].as_str(), Some(value));
        assert!(!quoted.contains('\n'));
    }
}

#[test]
fn records_of_worktrees_are_records() {
    let origin = ManagedOrigin {
        source: "/src/de\"mo",
        source_project_id: "demo",
        source_root_fingerprint: "fp",
        base_ref: "feature/x",
        base_sha: SHA,
        operation_id: OPERATION,
    };
    let content = managed_worktree_project_toml("id = \"demo-w\"\n", &origin);
    let table: toml::Table = content.parse().unwrap();
    assert_eq!(table["id"].as_str(), Some("demo-w"));
    assert_eq!(table["managed_worktree"].as_bool(), Some(true));
    assert_eq!(table["managed_source"].as_str(), Some("/src/de\"mo"));
    assert_eq!(table["managed_source_project_id"].as_str(), Some("demo"));
    assert_eq!(table["managed_source_root_fingerprint"].as_str(), Some("fp"));
    assert_eq!(table["managed_base_ref"].as_str(), Some("feature/x"));
    assert_eq!(table["managed_base_sha"].as_str(), Some(SHA));
    assert_eq!(table["managed_operation_id"].as_str(), Some(OPERATION));
}

#[test]
fn a_standing_record_holds_the_request_or_is_in_the_way() {
    let request = ProjectRequest { id: "demo", name: "Demo", description: None, allow_patch: true };
    assert!(matches!(
        matching_existing_project(false, None, &request, false),
        Ok(None)
    ));
    assert!(matches!(
        matching_existing_project(true, Some(record("demo", "/p")), &request, true),
        Ok(Some(_))
    ));
    assert_eq!(
        matching_existing_project(true, None, &request, true).unwrap_err(),
        "operation_failed"
    );
    assert_eq!(
        matching_existing_project(true, Some(record("demo", "/p")), &request, false).unwrap_err(),
        "project_already_exists"
    );
    let mut other = record("demo", "/p");
    other.description = Some("x".to_string());
    assert_eq!(
        matching_existing_project(true, Some(other), &request, true).unwrap_err(),
        "project_already_exists"
    );
    assert_eq!(runtime_id("c", "demo"), "agent:c:demo");
}

#[test]
fn recovered_creations_are_complete() {
    let seen = |git: bool, files: bool| CreatedProject {
        is_dir: true,
        has_git_dir: git,
        has_readme: files,
        has_gitignore: files,
    };
    assert!(validate_recovered_create_side_effects(&seen(false, false), "empty", false).is_ok());
    assert!(validate_recovered_create_side_effects(&seen(false, false), "empty", true).is_err());
    assert!(validate_recovered_create_side_effects(&seen(true, true), "basic", true).is_ok());
    assert!(validate_recovered_create_side_effects(&seen(true, false), "basic", true).is_err());
    let document = recovered_project_result(
        true,
        "agent:c:demo",
        "c",
        &record("demo", "/p"),
        &facts("r1"),
        Some("basic"),
        true,
    );
    assert_eq!(document.bool_field("recovered"), Some(true));
    assert_eq!(document.text_field("revision"), Some("r1"));
}

// ---- Lifecycle ---------------------------------------------------------

fn asked(step: LifecycleStep) -> LifecycleState {
    match step {
        LifecycleStep::Ask(state) => state,
        other => panic!("{other:?}"),
    }
}

fn told(step: LifecycleStep) -> JsonValue {
    match step {
        LifecycleStep::Finish(result) => {
            parse_json(result.stdout.as_deref().unwrap()).unwrap()
        }
        other => panic!("{other:?}"),
    }
}

fn at_record(action: LifecycleAction, revision: &str) -> LifecycleState {
    let payload = format!("{{\"project_id\": \"demo\", \"expected_revision\": \"{revision}\"}}");
    let state = asked(begin_lifecycle(true, Some(action), &payload, 1));
    let state = asked(state.step(LifecycleAnswer::ConfigPath(None), 1));
    asked(state.step(LifecycleAnswer::Holds(true), 1))
}

fn found(disabled: bool) -> LifecycleAnswer {
    let mut project = record("demo", "/p");
    project.disabled = disabled;
    LifecycleAnswer::Record(Some((project, facts("r1"))))
}

#[test]
fn a_project_is_disabled_and_enabled() {
    let state = asked(at_record(LifecycleAction::Disable, "r1").step(found(false), 1));
    assert_eq!(state.stage, LifecycleStage::Write);
    assert!(state.project.as_ref().unwrap().disabled);
    let document = told(state.step(LifecycleAnswer::Written(Some(facts("r2"))), 1));
    assert_eq!(document.text_field("outcome"), Some("disabled"));
    assert_eq!(document.text_field("revision"), Some("r2"));
    assert_eq!(document.bool_field("changed"), Some(true));

    let state = asked(at_record(LifecycleAction::Enable, "r1").step(found(true), 1));
    assert_eq!(state.stage, LifecycleStage::Directory);
    let state = asked(state.step(LifecycleAnswer::Holds(true), 1));
    let state = asked(state.step(LifecycleAnswer::Refused(None), 1));
    let state = asked(state.step(LifecycleAnswer::Holds(true), 1));
    assert!(!state.project.as_ref().unwrap().disabled);
    let document = told(state.step(LifecycleAnswer::Written(Some(facts("r3"))), 1));
    assert_eq!(document.text_field("outcome"), Some("enabled"));
}

#[test]
fn repeating_changes_nothing() {
    let document = told(at_record(LifecycleAction::Disable, "other").step(found(true), 1));
    assert_eq!(document.text_field("outcome"), Some("already_disabled"));
    assert_eq!(document.bool_field("changed"), Some(false));
}

#[test]
fn a_change_needs_the_expected_revision() {
    let document = told(at_record(LifecycleAction::Disable, "r0").step(found(false), 1));
    assert_eq!(document.text_field("error_code"), Some("revision_conflict"));
    let document = told(at_record(LifecycleAction::Unregister, "r0").step(found(false), 1));
    assert_eq!(document.text_field("error_code"), Some("revision_conflict"));
}

#[test]
fn unregistering_twice_changes_once() {
    let mut records = vec!["demo".to_string(), "other".to_string()];
    let mut unregister = || {
        let payload = "{\"project_id\": \"demo\", \"expected_revision\": \"r1\"}";
        let mut step = begin_lifecycle(true, Some(LifecycleAction::Unregister), payload, 1);
        loop {
            let state = match step {
                LifecycleStep::Ask(state) => state,
                LifecycleStep::Finish(_) => return told(step),
            };
            let answer = match state.stage {
                LifecycleStage::ConfigPath => LifecycleAnswer::ConfigPath(None),
                LifecycleStage::Exists => LifecycleAnswer::Holds(records.contains(&state.id)),
                LifecycleStage::CleanUp => LifecycleAnswer::Holds(true),
                LifecycleStage::Record => found(false),
                LifecycleStage::Remove => {
                    records.retain(|id| *id != state.id);
                    LifecycleAnswer::Removed(Ok(()))
                }
                other => panic!("{other:?}"),
            };
            step = state.step(answer, 1);
        }
    };
    let first = unregister();
    assert_eq!(first.text_field("outcome"), Some("unregistered"));
    assert_eq!(first.bool_field("changed"), Some(true));
    assert!(matches!(first.get("revision"), Some(JsonValue::Null)));
    let second = unregister();
    assert_eq!(second.text_field("outcome"), Some("already_unregistered"));
    assert_eq!(second.bool_field("changed"), Some(false));
    assert_eq!(records, ["other"]);
}

#[test]
fn unregistering_tells_how_far_it_came() {
    let state = asked(at_record(LifecycleAction::Unregister, "r1").step(found(false), 1));
    assert_eq!(state.stage, LifecycleStage::Remove);
    let document = told(state.step(LifecycleAnswer::Removed(Ok(())), 1));
    assert_eq!(document.text_field("outcome"), Some("unregistered"));
    let state = asked(at_record(LifecycleAction::Unregister, "r1").step(found(false), 1));
    let document =
        told(state.step(LifecycleAnswer::Removed(Err(ProjectUnregisterError::AfterRename)), 1));
    assert_eq!(document.text_field("error_kind"), Some("operation_indeterminate"));
    assert_eq!(document.bool_field("state_changed"), Some(true));
    assert!(unregister_outcome(true, true, true, true, true).is_ok());
    assert!(matches!(
        unregister_outcome(false, true, true, true, true),
        Err(ProjectUnregisterError::BeforeRename)
    ));
    assert!(matches!(
        unregister_outcome(true, false, true, true, true),
        Err(ProjectUnregisterError::BeforeRename)
    ));
    assert!(matches!(
        unregister_outcome(true, true, false, true, true),
        Err(ProjectUnregisterError::AfterRename)
    ));
    assert!(matches!(
        unregister_outcome(true, true, true, true, false),
        Err(ProjectUnregisterError::AfterRename)
    ));
    assert!(is_unregister_tombstone(".demo.random.toml.unregistering", "demo"));
    assert!(!is_unregister_tombstone(".demo.random.toml.tmp", "demo"));
    assert!(!is_unregister_tombstone("demo.toml", "demo"));
    assert_eq!(LifecycleAction::Unregister.as_str(), "unregister");
}

// ---- Registering and creating ------------------------------------------

/// Answers that let every step succeed.
fn willing(stage: OperationStage) -> OperationAnswer {
    match stage {
        OperationStage::Absolute
        | OperationStage::RegisterDirectory
        | OperationStage::RegisterPolicy
        | OperationStage::CreatePolicy => OperationAnswer::Holds(true),
        OperationStage::RawShare
        | OperationStage::CreateShare
        | OperationStage::CreateExists
        | OperationStage::CreateOccupied => OperationAnswer::Holds(false),
        OperationStage::CreateAncestors => OperationAnswer::Ancestors(vec![
            ("/p/new".to_string(), false),
            ("/p".to_string(), true),
        ]),
        OperationStage::RegisterExisting | OperationStage::CreateExisting => {
            OperationAnswer::Existing { exists: false, record: None, same_path: false }
        }
        OperationStage::RegisterWrite | OperationStage::CreateWrite => {
            OperationAnswer::Written(Ok(RecordWrite {
                config_path: "/registry/demo.toml".to_string(),
                created_config: true,
                overwritten: false,
                registration_source: "explicit".to_string(),
                revision: "r1".to_string(),
            }))
        }
        OperationStage::CreateStat | OperationStage::CreateEmpty => {
            OperationAnswer::Measured(Ok(true))
        }
        OperationStage::CreateEffects => OperationAnswer::Effects(CreatedProject {
            is_dir: true,
            has_git_dir: true,
            has_readme: true,
            has_gitignore: true,
        }),
        OperationStage::CreateGit => OperationAnswer::Git(GitInit::Succeeded),
        _ => OperationAnswer::Problem(None),
    }
}

fn drive(
    step: OperationStep,
    special: fn(OperationStage) -> Option<OperationAnswer>,
) -> (JsonValue, Option<String>, bool, Vec<OperationStage>) {
    let mut step = step;
    let mut stages = Vec::new();
    loop {
        match step {
            OperationStep::Ask(state) => {
                let stage = state.stage;
                stages.push(stage);
                let answer = special(stage).unwrap_or_else(|| willing(stage));
                step = state.step(answer, 1);
            }
            OperationStep::Finish { result, clean_up } => {
                let document = match result.stdout.as_deref() {
                    Some(stdout) => parse_json(stdout).unwrap_or(JsonValue::Null),
                    None => JsonValue::Null,
                };
                return (document, result.error, clean_up, stages);
            }
        }
    }
}

fn operation(create: bool, extra: &str) -> OperationStep {
    let kind = if create { "create_project" } else { "register_project" };
    let payload =
        format!("{{\"id\": \"demo\", \"name\": \"Demo\", \"path\": \"/p/new\"{extra}}}");
    begin_operation(true, kind, create, "c", &payload, false, 1)
}

fn nothing(_: OperationStage) -> Option<OperationAnswer> {
    None
}

#[test]
fn a_project_is_registered() {
    let (document, error, clean_up, stages) = drive(operation(false, ""), nothing);
    assert_eq!(error, None);
    assert!(!clean_up);
    assert_eq!(document.text_field("outcome"), Some("registered"));
    assert_eq!(document.text_field("id"), Some("agent:c:demo"));
    assert!(!stages.contains(&OperationStage::CreateDirectory));
    assert_eq!(stages.last(), Some(&OperationStage::RegisterWrite));
}

#[test]
fn a_project_is_created_with_its_files() {
    let extra = ", \"template\": \"basic\", \"git_init\": true, \"description\": \"d\"";
    let (document, error, clean_up, stages) = drive(operation(true, extra), nothing);
    assert_eq!(error, None);
    assert!(!clean_up);
    assert_eq!(document.text_field("outcome"), Some("created"));
    assert_eq!(document.bool_field("created_directory"), Some(true));
    assert_eq!(document.bool_field("git_initialized"), Some(true));
    for stage in [
        OperationStage::DescriptionRule,
        OperationStage::CreateDirectory,
        OperationStage::CreateReadme,
        OperationStage::CreateIgnore,
        OperationStage::CreateGit,
        OperationStage::CreateWrite,
    ] {
        assert!(stages.contains(&stage), "{stage:?}");
    }
    assert!(readme_text("Demo", Some("d")).contains("Demo"));
}

#[test]
fn a_failed_creation_is_cleaned_up_until_the_record_may_stand() {
    let extra = ", \"template\": \"basic\", \"git_init\": true";
    let (_, error, clean_up, _) = drive(operation(true, extra), |stage| {
        if stage == OperationStage::CreateGit {
            Some(OperationAnswer::Git(GitInit::Failed {
                stderr: b" fatal: \xff \n".to_vec(),
                stderr_capped: true,
            }))
        } else {
            None
        }
    });
    assert_eq!(
        error.as_deref(),
        Some("git init failed: fatal: \u{fffd} [stderr truncated]")
    );
    assert!(clean_up);
    let (_, error, clean_up, _) = drive(operation(true, extra), |stage| {
        if stage == OperationStage::CreateReadme {
            Some(OperationAnswer::Problem(Some("full".to_string())))
        } else {
            None
        }
    });
    assert_eq!(error.as_deref(), Some("failed to write README.md: full"));
    assert!(clean_up);
    let (document, _, clean_up, _) = drive(operation(true, ""), |stage| {
        if stage == OperationStage::CreateWrite {
            Some(OperationAnswer::Written(Err(WriteOutcome::AfterRename)))
        } else {
            None
        }
    });
    assert_eq!(document.text_field("error_code"), Some("operation_indeterminate"));
    assert!(!clean_up);
    let (document, _, clean_up, _) = drive(operation(true, ""), |stage| {
        if stage == OperationStage::CreateWrite {
            Some(OperationAnswer::Written(Err(WriteOutcome::BeforeRename)))
        } else {
            None
        }
    });
    assert_eq!(document.text_field("error_code"), Some("operation_failed"));
    assert!(clean_up);
}

#[test]
fn a_standing_record_is_answered_with() {
    let (document, _, _, stages) = drive(operation(false, ""), |stage| {
        if stage == OperationStage::RegisterExisting {
            Some(OperationAnswer::Existing {
                exists: true,
                record: Some((record("demo", "/p/new"), facts("r7"))),
                same_path: true,
            })
        } else {
            None
        }
    });
    assert_eq!(document.bool_field("recovered"), Some(true));
    assert_eq!(document.text_field("revision"), Some("r7"));
    assert!(!stages.contains(&OperationStage::RegisterWrite));
}

#[test]
fn occupied_places_are_left_alone() {
    let occupied = |stage: OperationStage| match stage {
        OperationStage::CreateExists | OperationStage::CreateOccupied => {
            Some(OperationAnswer::Holds(true))
        }
        _ => None,
    };
    let (document, _, _, _) = drive(operation(true, ""), occupied);
    assert_eq!(document.text_field("error_code"), Some("path_exists"));
    let (document, _, _, _) =
        drive(operation(true, ", \"adopt_existing_empty\": true"), occupied);
    assert_eq!(document.bool_field("created_directory"), Some(false));
}

#[test]
fn operations_are_refused_for_what_they_lack() {
    let said = |step: OperationStep| match step {
        OperationStep::Finish { result, .. } => result.error.unwrap(),
        other => panic!("{other:?}"),
    };
    assert_eq!(
        said(begin_operation(true, "register_project", false, "c", "", false, 1)),
        "register_project request missing stdin payload"
    );
    assert_eq!(
        said(begin_operation(true, "register_project", false, "c", "{}", false, 1)),
        "register_project missing required field 'id'"
    );
    assert!(said(begin_operation(true, "register_project", false, "c", "{", false, 1))
        .starts_with("failed to parse register_project payload: EOF"));
    assert_eq!(
        parse_operation_request(&parse_json("{\"id\": \"a\", \"name\": \"b\"}").unwrap())
            .unwrap_err(),
        "path"
    );
    let request = parse_operation_request(
        &parse_json("{\"id\": \"a\", \"name\": \"b\", \"path\": \"/c\"}").unwrap(),
    )
    .unwrap();
    assert!(request.allow_patch);
    assert!(!request.overwrite);
    assert_eq!(request.template, "empty");
}
