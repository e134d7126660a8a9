use webcodex::code_mode::{
    normalized_timeout_ms, stats_value, CodeModeError, CodeModeErrorKind, CodeModeExecution,
    CodeModeHostError, CodeModeStats, CodeModeToolRequest, DEFAULT_TIMEOUT_MS, MAX_TIMEOUT_MS,
};
use webcodex::code_mode_schema::{
    code_mode_exec_input_schema, content_schema, output_schema_for_tool, stats_schema,
};
use webcodex::discovery::{
    bound_description, compact_input_descriptions, compact_tool, INPUT_DESCRIPTION_MAX_CHARS,
    TOOL_DESCRIPTION_MAX_CHARS,
};
use webcodex::json::{number_value, parse_json, render_json, text_value, JsonValue};
use webcodex::model_surface::{
    adaptive_runtime_direct_tool_specs, adaptive_runtime_gateway_target_route,
    adaptive_runtime_tool_invocation_route,
    adaptive_runtime_tool_invocation_route_with_operator_extension, effective_mcp_compact_schemas,
    AdaptiveRuntimeGatewayTargetRoute, ToolSpec, ADAPTIVE_RUNTIME_GATEWAY_TOOL_NAME,
    TOOL_SURFACE_AVAILABILITY_DIRECT, TOOL_SURFACE_AVAILABILITY_GATEWAY,
    TOOL_SURFACE_AVAILABILITY_UNAVAILABLE,
};
use webcodex::code_mode_audit::code_mode_result_audit_fields;
use webcodex::nested_host::{
    bounded_model_error, execution_result, forbidden_nested_fields, is_admitted_nested_tool,
    nested_response, nested_success, read_only_nested_tools, RootCodeModeHost, ToolCallErrorStatus,
    ToolCallOutcome, MAX_MODEL_ERROR_BYTES,
};
use webcodex::orchestration::{
    is_server_owned_orchestration_argument, CanonicalOrchestrationHost, NestedStart,
    OrchestrationHostError, OrchestrationPolicy,
};
use webcodex::tool_definition::{
    adaptive_runtime_direct_tool_definitions, apply_text_edits_definition,
    code_mode_exec_definition, write_project_file_definition, RunnerCapabilityRequirement,
    ToolApprovalPolicy, ToolAuditPolicy, ToolCatalog, ToolCategory, ToolDefinition, ToolEffect,
    ToolIdempotency, ToolPathHint, ToolProvider, ToolReviewEvidence, ToolRisk, ToolScope,
    ToolSemanticContract, ToolVisibility,
};
use webcodex::tool_result::ToolResult;

const CODING_INTENT_TOOL_NAMES: [&str; 6] = [
    "read_files",
    "apply_text_edits",
    "write_project_file",
    "apply_patch",
    "run_script",
    "code_mode_exec",
];

fn tree(text: &str) -> JsonValue {
    parse_json(text).unwrap()
}

fn observer(
    name: &'static str,
    visibility: ToolVisibility,
    direct_rank: Option<u32>,
) -> ToolDefinition {
    ToolDefinition {
        name,
        description: "looks",
        action_description: None,
        audit: ToolAuditPolicy::Canonical,
        visibility,
        category: ToolCategory::Runtime,
        capability: None,
        provider: ToolProvider::Runner,
        scope: Some(ToolScope::ProjectRead),
        review_evidence: None,
        context_reobservable: true,
        explicit_session: false,
        contract: ToolSemanticContract {
            effect: ToolEffect::Observe,
            risk: ToolRisk::Read,
            approval: ToolApprovalPolicy::Unasked,
            idempotency: ToolIdempotency::PureRead,
        },
        path_hint: ToolPathHint::NoPath,
        write_like: false,
        shell_like: false,
        asks_permission: false,
        direct_rank,
    }
}

fn catalog() -> ToolCatalog {
    let mut definitions = vec![
        apply_text_edits_definition(),
        write_project_file_definition(),
        code_mode_exec_definition(),
        observer("skill_list", ToolVisibility::Hidden, None),
    ];
    for name in read_only_nested_tools() {
        let rank = if name == "read_files" { Some(20) } else { None };
        definitions.push(observer(name, ToolVisibility::ModelVisible, rank));
    }
    for name in ["run_script", "apply_patch", "call_runtime_tool"] {
        let mut definition = write_project_file_definition();
        definition.name = name;
        definition.direct_rank = if name == "call_runtime_tool" { Some(45) } else { None };
        definitions.push(definition);
    }
    ToolCatalog { definitions }
}

fn registered() -> Vec<ToolSpec> {
    let spec = |name: &str, description: &str| ToolSpec {
        name: name.to_string(),
        description: description.to_string(),
        input_schema: code_mode_exec_input_schema(),
    };
    let mut specs = vec![spec("read_files", "replaced by a later registration")];
    for definition in catalog().definitions {
        specs.push(spec(definition.name, "current"));
    }
    specs
}

#[test]
fn direct_specs_are_definition_derived_and_model_visible() {
    let catalog = catalog();
    let registered = registered();
    let specs = adaptive_runtime_direct_tool_specs(&catalog, &registered);
    let expected = adaptive_runtime_direct_tool_definitions(&catalog)
        .into_iter()
        .map(|definition| definition.name)
        .collect::<Vec<_>>();
    let actual = specs.iter().map(|spec| spec.name.as_str()).collect::<Vec<_>>();
    assert_eq!(actual, expected);
    for spec in specs {
        assert!(catalog.is_model_visible_tool_name(&spec.name), "{}", spec.name);
        assert!(catalog.is_adaptive_runtime_direct_tool(&spec.name), "{}", spec.name);
        assert_eq!(spec.description, "current");
    }
    assert_eq!(
        expected,
        ["read_files", "code_mode_exec", "call_runtime_tool", "apply_text_edits"]
    );
}

#[test]
fn coding_intent_tools_are_reachable() {
    let catalog = catalog();
    for tool_name in CODING_INTENT_TOOL_NAMES {
        let (availability, gateway) = adaptive_runtime_tool_invocation_route(&catalog, tool_name);
        assert_ne!(availability, TOOL_SURFACE_AVAILABILITY_UNAVAILABLE, "{tool_name}");
        if availability == TOOL_SURFACE_AVAILABILITY_DIRECT {
            assert_eq!(gateway, None, "{tool_name}");
        } else {
            assert_eq!(gateway, Some(ADAPTIVE_RUNTIME_GATEWAY_TOOL_NAME), "{tool_name}");
        }
    }
}

#[test]
fn long_tail_and_direct_fallback_routes_are_canonical() {
    let catalog = catalog();
    for tool_name in ["run_script", "apply_patch"] {
        assert_eq!(
            adaptive_runtime_gateway_target_route(&catalog, tool_name),
            AdaptiveRuntimeGatewayTargetRoute::Gateway
        );
    }
    assert_eq!(
        adaptive_runtime_gateway_target_route(&catalog, "read_files"),
        AdaptiveRuntimeGatewayTargetRoute::Direct
    );
}

#[test]
fn hidden_tools_fail_closed_without_protocol_admission() {
    let catalog = catalog();
    assert!(!catalog.is_model_visible_tool_name("skill_list"));
    assert_eq!(
        adaptive_runtime_gateway_target_route(&catalog, "skill_list"),
        AdaptiveRuntimeGatewayTargetRoute::Unknown
    );
    assert_eq!(
        adaptive_runtime_tool_invocation_route_with_operator_extension(
            &catalog,
            "skill_list",
            true
        ),
        (
            TOOL_SURFACE_AVAILABILITY_GATEWAY,
            Some(ADAPTIVE_RUNTIME_GATEWAY_TOOL_NAME)
        )
    );
}

#[test]
fn gateway_is_not_recursive() {
    assert_eq!(
        adaptive_runtime_gateway_target_route(&catalog(), ADAPTIVE_RUNTIME_GATEWAY_TOOL_NAME),
        AdaptiveRuntimeGatewayTargetRoute::Recursive
    );
}

#[test]
fn compact_schema_policy_defaults_true_and_respects_override() {
    assert!(effective_mcp_compact_schemas(None));
    assert!(effective_mcp_compact_schemas(Some(true)));
    assert!(!effective_mcp_compact_schemas(Some(false)));
}

#[test]
fn unknown_tools_are_unavailable() {
    assert_eq!(
        adaptive_runtime_tool_invocation_route(&catalog(), "no_such_tool"),
        (TOOL_SURFACE_AVAILABILITY_UNAVAILABLE, None)
    );
    assert_eq!(
        adaptive_runtime_gateway_target_route(&catalog(), "no_such_tool"),
        AdaptiveRuntimeGatewayTargetRoute::Unknown
    );
}

// The catalog with the definitions of these tools is not part of this crate: what
// it says of them here is what `catalog` above declares, so that only the names
// are put to the test.
#[test]
fn e1_allowlist_remains_canonically_read_only() {
    let catalog = catalog();
    let tools = read_only_nested_tools();
    for tool in &tools {
        let definition = catalog
            .lookup(tool)
            .unwrap_or_else(|| panic!("missing canonical definition for {tool}"));
        assert_eq!(definition.contract.effect, ToolEffect::Observe, "{tool}");
        assert_eq!(definition.contract.risk, ToolRisk::Read, "{tool}");
        assert!(!definition.is_shell_like(), "{tool}");
        assert!(!definition.is_write_like(), "{tool}");
        assert!(!definition.requires_permission(), "{tool}");
    }
    assert!(tools.contains(&"git_review_summary"));
    assert!(tools.contains(&"show_changes"));
    assert!(!tools.contains(&"code_mode_exec"));
    assert!(!tools.contains(&"run_shell"));
}

#[test]
fn nested_target_and_wrapper_fields_are_server_owned() {
    for field in [
        "project",
        "session_id",
        "recording_session_id",
        "ack_session_context_revision",
        "ack_session_message_ids",
        "context_request",
        "session_message_resolution",
        "expected_failure",
        "expected_failure_kind",
        "result_expectation",
        "accepted_exit_codes",
        "assertion_name",
    ] {
        assert!(forbidden_nested_fields().contains(&field), "{field}");
    }
}

#[test]
fn editing_tools_ask_and_observing_tools_do_not() {
    assert!(apply_text_edits_definition().requires_permission());
    assert!(write_project_file_definition().is_write_like());
    assert!(!code_mode_exec_definition().requires_permission());
    assert_eq!(apply_text_edits_definition().path_hint, ToolPathHint::PathList);
    assert_eq!(write_project_file_definition().path_hint, ToolPathHint::SinglePath);
    assert_eq!(
        write_project_file_definition().contract.idempotency,
        ToolIdempotency::NonIdempotent
    );
    let program = code_mode_exec_definition();
    assert!(program.description.starts_with("Experimental read-only JavaScript orchestration"));
    assert_eq!(program.audit, ToolAuditPolicy::NamedFields);
    assert_eq!(program.provider, ToolProvider::Control);
    assert_eq!(program.scope, Some(ToolScope::ProjectRead));
    assert_eq!(program.review_evidence, Some(ToolReviewEvidence::ReadOnlyInspection));
    assert!(program.context_reobservable && program.explicit_session);
    let edits = apply_text_edits_definition();
    assert_eq!(edits.category, ToolCategory::Edit);
    assert_eq!(edits.capability, Some(RunnerCapabilityRequirement::FileWrite));
    assert_eq!(edits.scope, Some(ToolScope::ProjectWrite));
    assert!(edits.action_description.unwrap().starts_with("Apply 1..16 transactional"));
    assert!(write_project_file_definition().description.starts_with("Create a new file"));
    assert!(edits.description.starts_with("Transactional structured option"));
}

// ---- Nested calls ------------------------------------------------------

fn plan(fields: &'static [&'static str]) -> OrchestrationPolicy {
    OrchestrationPolicy {
        frontend: "test_structured_plan",
        policy_name: "test structured plan",
        admitted_tools: &["read_files"],
        denied_tools: &[],
        additional_forbidden_argument_fields: fields,
    }
}

#[test]
fn canonical_orchestration_host_rejects_server_owned_metadata_without_frontend_help() {
    let mut host = CanonicalOrchestrationHost::new(
        "agent:unused:demo",
        "wc_sess_1111111111111111",
        plan(&[]),
    );
    for (field, value) in [
        ("project", "\"agent:other:demo\""),
        ("session_id", "\"wc_sess_0000000000000000\""),
        ("recording_session_id", "\"wc_sess_0000000000000000\""),
        ("ack_session_context_revision", "1"),
        ("ack_session_message_ids", "[]"),
        ("context_request", "[\"webcodex.workflow\"]"),
        (
            "session_message_resolution",
            "{\"message_id\": \"wc_msg_0000000000000000\", \"resolution\": \"handled\"}",
        ),
        ("expected_failure", "true"),
        ("expected_failure_kind", "\"anything\""),
        ("result_expectation", "\"failure\""),
        ("accepted_exit_codes", "[0, 1]"),
        ("assertion_name", "\"nested-assertion\""),
        ("__webcodex_private", "true"),
    ] {
        let arguments = tree(&format!(
            "{{\"{field}\": {value}, \"items\": [{{\"path\": \"README.md\"}}]}}"
        ));
        match host.start_call("read_files", arguments) {
            NestedStart::Refused(error) => {
                assert!(error.into_message().contains(field), "{field}")
            }
            other => panic!("server-owned nested metadata must fail before dispatch: {other:?}"),
        }
    }
    let composition = host.composition_summary(0, 0, 0);
    assert_eq!(composition.nested_calls, 0);
    assert!(composition.nested_tool_counts.is_empty());
}

fn outcome(success: bool, output: &str) -> ToolCallOutcome {
    ToolCallOutcome {
        error_status: None,
        result: Some(ToolResult {
            success,
            output: tree(output),
            error: if success { None } else { Some("failed".to_string()) },
        }),
    }
}

#[test]
fn an_orchestrated_call_is_counted() {
    let mut host = CanonicalOrchestrationHost::new("p", "s", plan(&["path"]));
    let mut guard = match host.start_call("read_files", tree("{\"items\": []}")) {
        NestedStart::Call { arguments, ordinal, guard } => {
            assert_eq!(ordinal, 1);
            assert_eq!(arguments.text_field("project"), Some("p"));
            assert_eq!(arguments.text_field("session_id"), Some("s"));
            guard
        }
        other => panic!("{other:?}"),
    };
    let response = host.end_call(&mut guard, outcome(true, "{\"a\": 1}")).unwrap();
    assert!(response.success);
    host.give_up_call(&mut guard);
    assert!(matches!(
        host.start_call("run_shell", tree("{}")),
        NestedStart::Refused(_)
    ));
    assert!(matches!(
        host.start_call("read_files", tree("{\"path\": 1}")),
        NestedStart::Refused(_)
    ));
    assert!(matches!(
        host.start_call("read_files", tree("[]")),
        NestedStart::Refused(_)
    ));
    let composition = host.composition_summary(11, 12, 13);
    assert_eq!(composition.nested_calls, 1);
    assert_eq!(composition.nested_successes, 1);
    assert_eq!(composition.nested_failures, 0);
    assert_eq!(composition.max_in_flight, 1);
    assert_eq!(composition.nested_raw_result_bytes_total, 33);
    assert_eq!(
        (composition.duration_ms, composition.returned_bytes, composition.slot_wait_ms),
        (11, 12, 13)
    );
    assert_eq!(composition.nested_tool_counts, [("read_files".to_string(), 1)]);
    assert!(is_server_owned_orchestration_argument("project"));
    assert!(is_server_owned_orchestration_argument("__webcodex_x"));
    assert!(!is_server_owned_orchestration_argument("items"));
    assert_eq!(OrchestrationHostError::new("m").into_message(), "m");
}

fn request(tool_name: &str, arguments: &str) -> CodeModeToolRequest {
    CodeModeToolRequest { tool_name: tool_name.to_string(), arguments: tree(arguments) }
}

#[test]
fn a_program_calls_what_it_may_call_where_it_runs() {
    let mut host = RootCodeModeHost::new("agent:a:demo", "wc_sess_2222222222222222");
    let arguments = host
        .prepare_arguments(&request("read_files", "{\"items\": []}"))
        .unwrap();
    assert_eq!(arguments.text_field("project"), Some("agent:a:demo"));
    assert_eq!(arguments.text_field("session_id"), Some("wc_sess_2222222222222222"));
    let refused = host
        .prepare_arguments(&request("read_files", "{\"project\": \"agent:b:bravo\"}"))
        .unwrap_err();
    assert!(refused.message().contains("server-owned field `project`"));
    assert!(host.prepare_arguments(&request("run_shell", "{}")).is_err());
    assert!(host.prepare_arguments(&request("code_mode_exec", "{}")).is_err());
    assert!(host.prepare_arguments(&request("read_files", "1")).is_err());
    assert!(is_admitted_nested_tool("git_log"));
    assert!(!is_admitted_nested_tool("run_shell"));
    assert_eq!(host.begin_nested_call("read_files").0, 1);
    assert_eq!(host.begin_nested_call("git_log").0, 2);
    let summary = host.composition_summary(&CodeModeStats::default(), 0);
    assert_eq!(summary.nested_calls, 2);
    assert_eq!(summary.max_in_flight, 2);
}

#[test]
fn private_fields_are_the_servers_too() {
    let host = RootCodeModeHost::new("p", "s");
    let refused = host
        .prepare_arguments(&request(
            "read_files",
            "{\"__webcodex_private\": true, \"items\": [{\"path\": \"README.md\"}]}",
        ))
        .unwrap_err();
    assert_eq!(
        refused.message(),
        "nested tool arguments may not set server-owned field `__webcodex_private`"
    );
    let named_first = host
        .prepare_arguments(&request("read_files", "{\"__webcodex_x\": 1, \"session_id\": \"t\"}"))
        .unwrap_err();
    assert!(named_first.message().contains("`session_id`"));
    assert!(host.prepare_arguments(&request("read_files", "{\"_webcodex_x\": 1}")).is_ok());
}

#[test]
fn a_run_of_three_calls_is_summed_up() {
    let mut host = RootCodeModeHost::new("p", "s");
    let (_, _, mut status) = host.start_call(&request("git_status", "{}")).unwrap();
    let (_, _, mut hits) = host.start_call(&request("search_project_texts", "{}")).unwrap();
    assert!(host.end_call(&mut status, outcome(true, "{\"text\": \"clean\"}")).is_ok());
    assert!(host.end_call(&mut hits, outcome(true, "{\"hits\": 1}")).is_ok());
    let (_, _, mut files) = host.start_call(&request("read_files", "{}")).unwrap();
    assert!(host.end_call(&mut files, outcome(true, "{\"files\": []}")).is_ok());
    let stats =
        CodeModeStats { tool_calls: 3, max_in_flight: 2, duration_ms: 14, returned_bytes: 18 };
    let summary = host.composition_summary(&stats, 5);
    assert_eq!(
        (summary.nested_calls, summary.nested_successes, summary.nested_failures),
        (3, 3, 0)
    );
    assert_eq!(summary.max_in_flight, 2);
    assert_eq!((summary.slot_wait_ms, summary.duration_ms), (5, 14));
    assert!(summary.nested_raw_result_bytes_total > summary.returned_bytes);
    let names: Vec<&str> =
        summary.nested_tool_counts.iter().map(|(name, _)| name.as_str()).collect();
    assert_eq!(names, ["git_status", "read_files", "search_project_texts"]);
    assert_eq!(host.composition_summary(&stats, 99).slot_wait_ms, 14);
}

#[test]
fn a_program_sees_what_its_call_came_to() {
    assert!(nested_success(&outcome(true, "{}")));
    assert!(!nested_success(&outcome(false, "{}")));
    let seen = nested_response(outcome(false, "{\"a\": 1}")).unwrap();
    assert!(!seen.success);
    assert_eq!(seen.error.as_deref(), Some("failed"));
    let refused = ToolCallOutcome {
        error_status: Some(ToolCallErrorStatus::InvalidArguments { message: "bad".to_string() }),
        result: None,
    };
    assert!(nested_response(refused).unwrap_err().message().contains("bad"));
    let nothing = ToolCallOutcome { error_status: None, result: None };
    assert!(!nested_success(&nothing));
    assert!(nested_response(nothing).is_err());
}

#[test]
fn a_call_of_a_program_is_counted_once_it_is_admitted() {
    let mut host = RootCodeModeHost::new("p", "s");
    assert!(host.start_call(&request("run_shell", "{}")).is_err());
    assert!(host.start_call(&request("read_files", "{\"project\": \"q\"}")).is_err());
    assert!(host.start_call(&request("read_files", "{\"__webcodex_x\": 1}")).is_err());
    let (arguments, ordinal, mut first) =
        host.start_call(&request("git_log", "{\"limit\": 2}")).unwrap();
    assert_eq!(ordinal, 1);
    assert_eq!(arguments.text_field("session_id"), Some("s"));
    let response = host.end_call(&mut first, outcome(false, "{}")).unwrap();
    assert!(!response.success);
    let (_, ordinal, mut second) = host.start_call(&request("git_log", "{}")).unwrap();
    assert_eq!(ordinal, 2);
    let refused = ToolCallOutcome {
        error_status: Some(ToolCallErrorStatus::InvalidArguments { message: "bad".to_string() }),
        result: None,
    };
    assert!(host.end_call(&mut second, refused).is_err());
    host.give_up_call(&mut first);
    host.give_up_call(&mut second);
    let (_, _, mut third) = host.start_call(&request("git_log", "{}")).unwrap();
    host.give_up_call(&mut third);
    let summary = host.composition_summary(&CodeModeStats::default(), 0);
    assert_eq!(
        (summary.nested_calls, summary.nested_successes, summary.nested_failures),
        (3, 0, 3)
    );
    assert_eq!(summary.max_in_flight, 1);
    assert_eq!(summary.nested_raw_result_bytes_total, 46);
    assert_eq!(summary.nested_tool_counts, [("git_log".to_string(), 3)]);
}

#[test]
fn calls_are_counted_up_to_the_largest_number() {
    let mut host = RootCodeModeHost::new("p", "s");
    host.composition.account.nested_calls = usize::MAX;
    host.composition.account.in_flight = usize::MAX;
    host.composition.account.nested_tool_counts = vec![("git_log".to_string(), usize::MAX)];
    assert_eq!(host.begin_nested_call("git_log").0, usize::MAX);
    assert_eq!(host.composition.account.in_flight, usize::MAX);
    assert_eq!(
        host.composition.account.nested_tool_counts,
        [("git_log".to_string(), usize::MAX)]
    );
}

#[test]
fn a_result_is_measured_as_json_text() {
    let failed = outcome(false, "{}").result.unwrap();
    assert_eq!(failed.serialized_json_len(), 46);
    assert_eq!(ToolResult::ok(tree("{\"a\": 1}")).serialized_json_len(), 33);
}

#[test]
fn only_the_numbers_and_the_failure_of_a_program_are_kept() {
    let fields = code_mode_result_audit_fields();
    let names: Vec<&str> = fields.iter().map(|field| field.name).collect();
    assert_eq!(
        names,
        ["tool_calls", "max_in_flight", "duration_ms", "returned_bytes", "failure_kind"]
    );
    let error = CodeModeError {
        kind: CodeModeErrorKind::Timeout,
        message: "private".to_string(),
        stats: CodeModeStats { tool_calls: 4, max_in_flight: 3, duration_ms: 2, returned_bytes: 1 },
    };
    let (result, _) = execution_result(&Err(error));
    let numbers: Vec<Option<u64>> = fields[..4]
        .iter()
        .map(|field| field.read(&result.output).and_then(|value| value.as_u64()))
        .collect();
    assert_eq!(numbers, [Some(4), Some(3), Some(2), Some(1)]);
    assert_eq!(fields[4].read(&result.output).and_then(|value| value.as_text()), Some("timeout"));
    let (result, _) = execution_result(&Ok(CodeModeExecution {
        content: vec!["said".to_string()],
        stats: CodeModeStats::default(),
    }));
    assert!(fields[4].read(&result.output).is_none());
}

#[test]
fn failures_that_a_model_sees_are_bounded() {
    assert_eq!(bounded_model_error("short"), "short");
    let long = "PRIVATE_RUNTIME_DETAIL_".repeat(2000);
    let shown = bounded_model_error(&long);
    assert!(shown.len() <= MAX_MODEL_ERROR_BYTES);
    assert!(shown.ends_with('…'));
    assert!(long.starts_with(shown.trim_end_matches('…')));
    let error = CodeModeError {
        kind: CodeModeErrorKind::Runtime,
        message: long,
        stats: CodeModeStats::default(),
    };
    let (result, stats) = execution_result(&Err(error));
    assert!(!result.success);
    assert_eq!(result.error.as_deref(), Some("code mode execution failed"));
    assert_eq!(result.output.text_field("failure_kind"), Some("runtime_error"));
    assert!(result.output.text_field("message").unwrap().starts_with("PRIVATE_RUNTIME_DETAIL_"));
    assert_eq!(stats, CodeModeStats::default());
    let execution = CodeModeExecution {
        content: vec!["one".to_string()],
        stats: CodeModeStats { tool_calls: 1, max_in_flight: 1, duration_ms: 2, returned_bytes: 3 },
    };
    let (result, _) = execution_result(&Ok(execution));
    assert!(result.success);
    assert_eq!(result.output.get("content").unwrap().as_array().unwrap().len(), 1);
}

#[test]
fn time_is_granted_within_its_bounds() {
    assert_eq!(normalized_timeout_ms(None), DEFAULT_TIMEOUT_MS);
    assert_eq!(normalized_timeout_ms(Some(0)), 1);
    assert_eq!(normalized_timeout_ms(Some(17)), 17);
    assert_eq!(normalized_timeout_ms(Some(MAX_TIMEOUT_MS + 1)), MAX_TIMEOUT_MS);
    let names = [
        (CodeModeErrorKind::InvalidRequest, "invalid_request"),
        (CodeModeErrorKind::Runtime, "runtime_error"),
        (CodeModeErrorKind::Timeout, "timeout"),
        (CodeModeErrorKind::ToolCallBudgetExceeded, "tool_call_budget_exceeded"),
        (CodeModeErrorKind::OutputLimitExceeded, "output_limit_exceeded"),
    ];
    for (kind, name) in names {
        assert_eq!(kind.as_str(), name);
    }
    assert_eq!(CodeModeHostError::new("m").message(), "m");
    assert_eq!(
        render_json(&stats_value(&CodeModeStats {
            tool_calls: 1,
            max_in_flight: 2,
            duration_ms: 3,
            returned_bytes: 4
        })),
        "{\"duration_ms\":3,\"max_in_flight\":2,\"returned_bytes\":4,\"tool_calls\":1}"
    );
}

// ---- Shapes ------------------------------------------------------------

#[test]
fn the_shape_of_a_run_is_closed() {
    let schema = code_mode_exec_input_schema();
    assert_eq!(schema.bool_field("additionalProperties"), Some(false));
    let required = schema.get("required").unwrap().as_array().unwrap();
    let names: Vec<_> = required.iter().map(|name| name.as_text().unwrap()).collect();
    assert_eq!(names, ["project", "session_id", "source"]);
    let source = schema.get_within("properties", "source").unwrap();
    assert_eq!(source.get("maxLength").unwrap().as_u64(), Some(65_536));
    let session = schema.get_within("properties", "session_id").unwrap();
    assert_eq!(
        session.text_field("pattern"),
        Some("^wc_sess_([A-Za-z0-9_-]{16}|[0-9a-f]{32})$")
    );
    let timeout = schema.get_within("properties", "timeout_ms").unwrap();
    assert_eq!(timeout.get("minimum").unwrap().as_u64(), Some(0));
    assert_eq!(timeout.text_field("type"), Some("integer"));
}

#[test]
fn the_shape_of_a_result_names_its_bounds() {
    let stats = stats_schema();
    let calls = stats.get_within("properties", "tool_calls").unwrap();
    assert_eq!(calls.get("maximum").unwrap().as_u64(), Some(32));
    let flight = stats.get_within("properties", "max_in_flight").unwrap();
    assert_eq!(flight.get("maximum").unwrap().as_u64(), Some(8));
    let duration = stats.get_within("properties", "duration_ms").unwrap();
    assert!(duration.get("maximum").is_none());
    assert_eq!(content_schema().get("maxItems").unwrap().as_u64(), Some(256));
    let shapes = output_schema_for_tool("code_mode_exec").unwrap();
    let names: Vec<_> = shapes.iter().map(|(name, _)| name.as_str()).collect();
    assert_eq!(names, ["content", "stats", "message", "failure_kind"]);
    assert_eq!(shapes[2].1.get("maxLength").unwrap().as_u64(), Some(16_384));
    assert_eq!(shapes[3].1.get("enum").unwrap().as_array().unwrap().len(), 5);
    assert!(output_schema_for_tool("read_files").is_none());
}

// ---- The listing -------------------------------------------------------

#[test]
fn descriptions_end_with_a_sentence_or_a_word() {
    assert_eq!(bound_description("  whole  ", 20), "whole");
    assert_eq!(bound_description("", 0), "");
    assert_eq!(bound_description("One. Two three four.", 10), "One.");
    assert_eq!(bound_description("Read foo.rs and bar.rs twice", 14), "Read foo.rs…");
    assert_eq!(bound_description("Really? Yes! No no no", 13), "Really? Yes!");
    assert_eq!(bound_description("abcdefgh", 5), "abcd…");
    assert_eq!(bound_description("ab cdefgh", 5), "ab…");
    assert_eq!(bound_description("äöü äöü", 4), "äöü…");
    assert_eq!(bound_description("abc", 1), "…");
}

#[test]
fn only_descriptions_of_schemas_are_shortened() {
    let long = "word ".repeat(100);
    let text = format!(
        "{{\"description\": \"{long}\",
          \"default\": {{\"description\": \"{long}\"}},
          \"properties\": {{\"description\": {{\"type\": \"string\", \"description\": \"{long}\"}}}},
          \"anyOf\": [{{\"description\": \"{long}\"}}],
          \"items\": {{\"description\": \"{long}\", \"enum\": [{{\"description\": \"{long}\"}}]}}}}"
    );
    let mut schema = tree(&text);
    compact_input_descriptions(&mut schema);
    let short = bound_description(&long, INPUT_DESCRIPTION_MAX_CHARS);
    assert!(short.chars().count() <= INPUT_DESCRIPTION_MAX_CHARS);
    assert_eq!(schema.text_field("description"), Some(short.as_str()));
    assert_eq!(
        schema.get("default").unwrap().text_field("description"),
        Some(long.as_str())
    );
    assert_eq!(
        schema.get_within("properties", "description").unwrap().text_field("description"),
        Some(short.as_str())
    );
    let any = schema.get("anyOf").unwrap().as_array().unwrap();
    assert_eq!(any[0].text_field("description"), Some(short.as_str()));
    let items = schema.get("items").unwrap();
    assert_eq!(items.text_field("description"), Some(short.as_str()));
    let held = items.get("enum").unwrap().as_array().unwrap();
    assert_eq!(held[0].text_field("description"), Some(long.as_str()));
    let once = render_json(&schema);
    compact_input_descriptions(&mut schema);
    assert_eq!(render_json(&schema), once);
}

#[test]
fn a_listed_tool_keeps_its_contract() {
    let long = "Word word. ".repeat(60);
    let mut tool = tree(&format!(
        "{{\"name\": \"list_jobs\", \"description\": \"{long}\",
          \"inputSchema\": {{\"type\": \"object\", \"required\": [\"session_id\"],
            \"properties\": {{
              \"session_id\": {{\"description\": \"own\"}},
              \"context_request\": {{\"description\": \"canonical\"}},
              \"recording_session_id\": {{\"description\": 7}}}}}}}}"
    ));
    compact_tool(&mut tool);
    assert_eq!(tool.text_field("name"), Some("list_jobs"));
    assert_eq!(
        tool.text_field("description"),
        Some("Recover or inventory caller-visible Job identities. When a job_id or continuation is already known, use observe_jobs directly.")
    );
    let schema = tool.get("inputSchema").unwrap();
    assert_eq!(
        schema.get_within("properties", "session_id").unwrap().text_field("description"),
        Some("own")
    );
    assert!(schema
        .get_within("properties", "context_request")
        .unwrap()
        .text_field("description")
        .unwrap()
        .starts_with("Optional context sidecar after the result; never authority."));
    assert!(schema
        .get_within("properties", "recording_session_id")
        .unwrap()
        .text_field("description")
        .is_none());
    let mut other = tree(&format!("{{\"name\": \"other\", \"description\": \"{long}\"}}"));
    compact_tool(&mut other);
    let shown = other.text_field("description").unwrap();
    assert!(shown.chars().count() <= TOOL_DESCRIPTION_MAX_CHARS);
    assert!(shown.ends_with("word."));
    let mut number = number_value(3);
    compact_tool(&mut number);
    assert_eq!(number.as_u64(), Some(3));
    let mut plain = text_value("x");
    compact_input_descriptions(&mut plain);
    assert_eq!(plain.as_text(), Some("x"));
}
