//! Decision logic of the WebCodex control plane, with its contracts proved.
pub mod browser_call;
pub mod browser_error;
pub mod browser_page;
pub mod call_guard;
pub mod chromium;
pub mod code_mode;
pub mod code_mode_audit;
pub mod code_mode_schema;
pub mod command;
pub mod composition;
pub mod desktop;
pub mod digest;
pub mod discovery;
pub mod git;
pub mod instruction_scan;
pub mod job_terminal;
pub mod job_terminal_flow;
pub mod json;
pub mod machine_events;
pub mod managed_worktree;
pub mod model_surface;
pub mod nested_host;
pub mod orchestration;
pub mod process_activity;
pub mod process_diagnostic;
pub mod process_key;
pub mod process_output;
pub mod process_supervisor;
pub mod project_lifecycle;
pub mod project_operation;
pub mod project_record;
pub mod runner_instruction;
pub mod text;
pub mod tool_definition;
pub mod tool_result;
pub mod worktree_laws;
pub mod worktree_recovery;
pub mod worktree_request;
pub mod worktree_result;
