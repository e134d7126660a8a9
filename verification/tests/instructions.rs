use std::io::Read;
use webcodex::instruction_scan::{
    error_result, line_count, open_instruction_file, path_verdict, read_instruction_bytes,
    scan_response, snapshot_result, ComponentState, ConfiguredFile, HandleState, InstructionScan,
    OpenOutcome, INSTRUCTION_READ_LIMIT, MAX_CONFIGURED_INSTRUCTION_FILE_BYTES,
};
use webcodex::runner_instruction::{
    accept_snapshot, belongs_to_runner, is_lower_hex_sha256, plan_instructions, reply_text,
    valid_runner_logical_source, InstructionPlan, InstructionSourceScope, ProjectInstructionFile,
    RunnerInstructionRequest, RunnerInstructionSnapshotResponse, RunnerView, MAX_LINES_PER_FILE,
    RUNNER_INSTRUCTION_RESPONSE_FORMAT, RUNNER_INSTRUCTION_RESPONSE_MAX_BYTES,
};

const DIR: ComponentState = ComponentState::Present { link_like: false, is_file: false, is_dir: true };
const FILE: ComponentState = ComponentState::Present { link_like: false, is_file: true, is_dir: false };
const LINK: ComponentState = ComponentState::Present { link_like: true, is_file: false, is_dir: true };

fn configured(name: &str, components: Vec<ComponentState>, bytes: &[u8]) -> ConfiguredFile {
    let opened = match path_verdict(&components) {
        Some(outcome) => outcome,
        None => open_instruction_file(HandleState::Open { link_like: false, is_file: true }),
    };
    ConfiguredFile {
        basename: Some(name.to_string()),
        opened,
        identity: Some(name.to_string()),
        length: Some(bytes.len() as u64),
        bytes: read_instruction_bytes(bytes.to_vec()),
    }
}

fn observe_generation(
    generation: u64,
    files: Vec<ConfiguredFile>,
) -> RunnerInstructionSnapshotResponse {
    assert!(RunnerInstructionRequest::snapshot().validate().is_ok());
    let mut scan = InstructionScan::new();
    for (index, file) in files.into_iter().enumerate() {
        scan.take_file(index, file);
    }
    let response = scan_response(scan, generation);
    assert_eq!(response.validate(), Ok(()));
    response
}

fn observe(name: &str, bytes: &[u8]) -> RunnerInstructionSnapshotResponse {
    observe_generation(1, vec![configured(name, vec![DIR, DIR, FILE], bytes)])
}

#[test]
fn logical_runner_sources_cannot_encode_native_or_traversal_paths() {
    assert!(valid_runner_logical_source("runner/0/AGENTS.md"));
    assert!(valid_runner_logical_source("runner/15/company-guidance.md"));
    assert!(!valid_runner_logical_source("/Users/alice/.codex/AGENTS.md"));
    assert!(!valid_runner_logical_source("runner/0//Users/alice/AGENTS.md"));
    assert!(!valid_runner_logical_source("runner/0/../AGENTS.md"));
    assert!(!valid_runner_logical_source("runner/0/C:\\Users\\alice\\AGENTS.md"));
    assert!(!valid_runner_logical_source("runner/not-an-index/AGENTS.md"));
}

#[test]
fn instruction_reader_stops_at_byte_cap_even_when_the_source_grows() {
    let cap = MAX_CONFIGURED_INSTRUCTION_FILE_BYTES;
    let mut reader = std::io::Cursor::new(vec![b'x'; (cap * 2) as usize]);
    let mut bytes = Vec::new();
    (&mut reader).take(INSTRUCTION_READ_LIMIT).read_to_end(&mut bytes).unwrap();
    assert!(read_instruction_bytes(bytes).is_none());
    assert_eq!(reader.position(), cap + 1);
}

#[test]
fn instruction_snapshot_bounds_utf8_lines_and_detects_tail_changes() {
    let prefix = "bounded guidance\n".repeat(400);
    let first = observe("global.md", format!("{prefix}first tail\n").as_bytes());
    assert!(first.scan_complete);
    assert_eq!(first.files[0].content.lines().count(), 400);
    assert!(first.files[0].truncated);
    assert!(first.files[0].read_more.is_none());
    let second = observe("global.md", format!("{prefix}second tail\n").as_bytes());
    assert_eq!(first.files[0].content, second.files[0].content);
    assert_ne!(first.files[0].fingerprint, second.files[0].fingerprint);
    let invalid = observe("global.md", &[0xff, 0xfe, 0x00]);
    assert!(!invalid.scan_complete);
    assert!(invalid.files.is_empty());
    let oversized = observe(
        "global.md",
        &vec![b'x'; MAX_CONFIGURED_INSTRUCTION_FILE_BYTES as usize + 1],
    );
    assert!(!oversized.scan_complete);
    assert!(oversized.files.is_empty());
}

#[test]
fn instruction_snapshot_reads_unicode_crlf_and_canonical_windows_paths() {
    let plain = observe("AGENTS.md", "# 全局规则\r\n保留用户修改。\r\n".as_bytes());
    let canonical = observe("AGENTS.md", "# 全局规则\r\n保留用户修改。\r\n".as_bytes());
    assert!(plain.scan_complete && canonical.scan_complete);
    assert_eq!(plain.files[0].content, "# 全局规则\n保留用户修改。");
    assert_eq!(plain.files[0].fingerprint, canonical.files[0].fingerprint);
    assert_eq!(plain.files[0].path, "runner/0/AGENTS.md");
}

#[test]
fn instruction_snapshot_rejects_parent_symlink_redirection() {
    let result = observe_generation(
        1,
        vec![configured(
            "AGENTS.md",
            vec![DIR, LINK, FILE],
            b"unconfigured target must stay private",
        )],
    );
    assert!(!result.scan_complete);
    assert!(result.files.is_empty());
}

#[test]
fn instruction_snapshot_observes_confirmed_removal_and_empty_files() {
    assert_eq!(observe("AGENTS.md", b"global guidance").files.len(), 1);
    let removed = observe_generation(
        1,
        vec![configured("AGENTS.md", vec![DIR, DIR, ComponentState::Missing], b"")],
    );
    assert!(removed.scan_complete);
    assert!(removed.files.is_empty());
    let empty = observe("AGENTS.md", b"");
    assert!(empty.scan_complete);
    assert!(empty.files.is_empty());
}

#[test]
fn missing_instruction_parent_is_not_a_confirmed_leaf_removal() {
    let result = observe_generation(
        1,
        vec![configured(
            "AGENTS.md",
            vec![DIR, ComponentState::Missing, ComponentState::Missing, ComponentState::Missing],
            b"",
        )],
    );
    assert!(!result.scan_complete);
    assert!(result.files.is_empty());
}

#[test]
fn moved_instruction_parent_recovers_before_confirmed_leaf_removal() {
    let first = observe("AGENTS.md", b"retained global guidance");
    assert!(first.scan_complete);
    assert_eq!(first.files.len(), 1);
    let gone = vec![DIR, ComponentState::Missing, ComponentState::Missing];
    let unavailable = observe_generation(1, vec![configured("AGENTS.md", gone, b"")]);
    assert!(!unavailable.scan_complete);
    assert!(unavailable.files.is_empty());
    let recovered = observe("AGENTS.md", b"retained global guidance");
    assert!(recovered.scan_complete);
    assert_eq!(recovered.files[0].fingerprint, first.files[0].fingerprint);
    let removed = observe_generation(
        1,
        vec![configured("AGENTS.md", vec![DIR, DIR, ComponentState::Missing], b"")],
    );
    assert!(removed.scan_complete);
    assert!(removed.files.is_empty());
}

#[test]
fn missing_leaf_under_redirected_or_dangling_parent_stays_unavailable() {
    for components in [
        vec![DIR, LINK, ComponentState::Missing],
        vec![
            DIR,
            ComponentState::Present { link_like: true, is_file: false, is_dir: false },
            ComponentState::Missing,
        ],
    ] {
        let result = observe_generation(1, vec![configured("AGENTS.md", components, b"")]);
        assert!(!result.scan_complete);
        assert!(result.files.is_empty());
    }
}

#[test]
fn omitted_config_produces_complete_empty_snapshot() {
    let parsed = observe_generation(1, Vec::new());
    assert!(parsed.scan_complete);
    assert!(parsed.files.is_empty());
}

#[test]
fn snapshot_uses_logical_sources_and_live_content() {
    let first = observe_generation(7, vec![configured("AGENTS.md", vec![DIR, FILE], b"first\n")]);
    assert_eq!(first.files.len(), 1);
    assert_eq!(first.files[0].path, "runner/0/AGENTS.md");
    assert_eq!(first.files[0].content, "first");
    assert!(first.files[0].read_more.is_none());
    let second = observe_generation(7, vec![configured("AGENTS.md", vec![DIR, FILE], b"second\n")]);
    assert_eq!(second.generation, 7);
    assert_eq!(second.files[0].content, "second");
    assert_ne!(second.files[0].fingerprint, first.files[0].fingerprint);
}

#[test]
fn snapshot_rejects_configured_symlink_instead_of_following_it() {
    let linked = ComponentState::Present { link_like: true, is_file: false, is_dir: false };
    let parsed = observe_generation(
        1,
        vec![configured("AGENTS.md", vec![DIR, linked], b"must not be projected\n")],
    );
    assert!(!parsed.scan_complete);
    assert!(parsed.files.is_empty());
}

#[test]
fn the_fingerprint_is_the_digest_of_the_whole_file() {
    let shown = observe("AGENTS.md", b"abc");
    assert_eq!(
        shown.files[0].fingerprint,
        "ba7816bf8f01cfea414140de5dae2223b00361a396177a9cb410ff61f20015ad"
    );
    assert!(is_lower_hex_sha256(&shown.files[0].fingerprint));
    assert!(!is_lower_hex_sha256("BA78"));
    assert!(!is_lower_hex_sha256(&"a".repeat(63)));
}

#[test]
fn a_file_is_shown_once() {
    let mut scan = InstructionScan::new();
    scan.take_file(0, configured("A.md", vec![DIR, FILE], b"one"));
    assert!(scan.knows("A.md"));
    assert!(!scan.knows("B.md"));
    scan.take_file(1, configured("A.md", vec![DIR, FILE], b"one"));
    assert_eq!(scan.candidates.len(), 1);
}

#[test]
fn a_file_that_changes_while_it_is_read_is_left_out() {
    let mut file = configured("A.md", vec![DIR, FILE], b"one");
    file.length = Some(4);
    let response = observe_generation(1, vec![file]);
    assert!(!response.scan_complete);
    assert!(response.files.is_empty());
}

#[test]
fn lines_are_counted_as_they_are_shown() {
    for text in ["", "a", "a\n", "a\nb", "\n", "\n\n", "a\r\nb\r\n"] {
        assert_eq!(line_count(text), text.lines().count(), "{text:?}");
    }
}

fn file(path: &str) -> ProjectInstructionFile {
    ProjectInstructionFile {
        source_scope: InstructionSourceScope::Runner,
        path: path.to_string(),
        content: "ab".to_string(),
        start_line: 1,
        limit: MAX_LINES_PER_FILE,
        chars: 2,
        total_lines: 1,
        truncated: false,
        read_more: None,
        fingerprint: "a".repeat(64),
    }
}

fn response(files: Vec<ProjectInstructionFile>) -> RunnerInstructionSnapshotResponse {
    RunnerInstructionSnapshotResponse {
        format: RUNNER_INSTRUCTION_RESPONSE_FORMAT.to_string(),
        generation: 1,
        scan_complete: true,
        files,
    }
}

#[test]
fn responses_are_refused_for_each_fault() {
    assert_eq!(response(vec![file("runner/0/a")]).validate(), Ok(()));
    let mut bad = response(Vec::new());
    bad.format = "x".to_string();
    assert_eq!(bad.validate(), Err("unexpected instruction response format"));
    let mut bad = response(Vec::new());
    bad.generation = 0;
    assert_eq!(
        bad.validate(),
        Err("instruction config generation must be positive")
    );
    let many = (0..17).map(|index| file(&format!("runner/{index}/a"))).collect();
    assert_eq!(
        response(many).validate(),
        Err("Runner instruction response contains too many sources")
    );
    let mut foreign = file("runner/0/a");
    foreign.source_scope = InstructionSourceScope::Project;
    assert_eq!(
        response(vec![foreign]).validate(),
        Err("Runner instruction response contains non-Runner source")
    );
    assert_eq!(
        response(vec![file("runner/0/a"), file("runner/0/a")]).validate(),
        Err("Runner instruction response contains invalid logical source")
    );
    let mut more = file("runner/0/a");
    more.read_more = Some("x".to_string());
    assert_eq!(
        response(vec![more]).validate(),
        Err("Runner instruction response must not expose read_more")
    );
    let mut long = file("runner/0/a");
    long.chars = 3;
    assert_eq!(
        response(vec![long]).validate(),
        Err("Runner instruction response contains invalid bounded source metadata")
    );
}

#[test]
fn snapshots_are_accepted_or_left_out() {
    let (files, complete) = accept_snapshot(Some(response(vec![file("runner/0/a")])));
    assert_eq!(files.len(), 1);
    assert!(complete);
    let (files, complete) = accept_snapshot(None);
    assert!(files.is_empty());
    assert!(!complete);
    let mut bad = response(vec![file("runner/0/a")]);
    bad.generation = 0;
    let (files, complete) = accept_snapshot(Some(bad));
    assert!(files.is_empty());
    assert!(!complete);
}

#[test]
fn replies_are_read_only_where_they_succeeded() {
    assert_eq!(reply_text(false, Some(0), Some("{}")), Some("{}"));
    assert_eq!(reply_text(true, Some(0), Some("{}")), None);
    assert_eq!(reply_text(false, Some(1), Some("{}")), None);
    assert_eq!(reply_text(false, Some(0), None), None);
    let long = "x".repeat(RUNNER_INSTRUCTION_RESPONSE_MAX_BYTES + 1);
    assert_eq!(reply_text(false, Some(0), Some(&long)), None);
}

#[test]
fn results_carry_the_text_or_a_code() {
    let sound = response(vec![file("runner/0/a")]);
    let done = snapshot_result(&sound, Some("{}".to_string()), 4);
    assert_eq!(done.exit_code, Some(0));
    assert_eq!(done.stdout.as_deref(), Some("{}"));
    let large = "x".repeat(RUNNER_INSTRUCTION_RESPONSE_MAX_BYTES + 1);
    assert_eq!(
        snapshot_result(&sound, Some(large), 4).error.as_deref(),
        Some("instruction_response_too_large")
    );
    assert_eq!(
        snapshot_result(&response(vec![file("x")]), Some("{}".to_string()), 4).error.as_deref(),
        Some("instruction_response_invalid")
    );
    assert_eq!(error_result(1, "code").error.as_deref(), Some("code"));
}

#[test]
fn runners_are_asked_where_they_can_answer() {
    let runner = |supports: bool, id: &str| {
        Some(RunnerView { supports_instructions: supports, runner_instance_id: id.to_string() })
    };
    assert!(matches!(plan_instructions(None), InstructionPlan::Nothing { complete: false }));
    assert!(matches!(
        plan_instructions(runner(false, "i")),
        InstructionPlan::Nothing { complete: true }
    ));
    assert!(matches!(
        plan_instructions(runner(true, "")),
        InstructionPlan::Nothing { complete: false }
    ));
    match plan_instructions(runner(true, "i")) {
        InstructionPlan::Ask(id) => assert_eq!(id, "i"),
        other => panic!("{other:?}"),
    }
    assert!(belongs_to_runner("agent:a:b"));
    assert!(!belongs_to_runner("local:b"));
}

#[test]
fn opening_goes_by_the_handle() {
    assert_eq!(
        open_instruction_file(HandleState::Open { link_like: true, is_file: true }),
        OpenOutcome::Unavailable
    );
    assert_eq!(open_instruction_file(HandleState::Missing), OpenOutcome::Missing);
    assert_eq!(open_instruction_file(HandleState::Failed), OpenOutcome::Unavailable);
    assert_eq!(
        path_verdict(&vec![DIR, ComponentState::Unreadable]),
        Some(OpenOutcome::Unavailable)
    );
    assert_eq!(path_verdict(&vec![DIR, DIR]), Some(OpenOutcome::Unavailable));
}
