//! The host that all frontends for orchestrating tools share: a frontend may
//! narrow what its programs can do, and can give back nothing that the Server
//! keeps for itself.
use crate::call_guard;
use crate::call_guard::NestedCallGuard;
use crate::composition;
use crate::composition::{copy_counts, CallAccount};
use crate::json;
use crate::json::JsonValue;
use crate::nested_host;
use crate::nested_host::{nested_result, with_target, ToolCallOutcome};
use crate::text;
use crate::text::has_prefix;
use crate::tool_result::ToolResult;
use vstd::prelude::*;
use vstd::string::*;

verus! {

/// Which tools a frontend lets its programs call.
#[derive(Debug, Clone, Copy)]
pub struct OrchestrationPolicy {
    pub frontend: &'static str,
    pub policy_name: &'static str,
    pub admitted_tools: &'static [&'static str],
    pub denied_tools: &'static [&'static str],
    /// Fields that the frontend reserves on top of those of the Server.
    pub additional_forbidden_argument_fields: &'static [&'static str],
}

/// The characters of each of some names.
pub open spec fn listed(values: Seq<&'static str>) -> Seq<Seq<char>> {
    Seq::new(values.len(), |i: int| values[i]@)
}

/// Whether a policy admits a tool: it is admitted and not denied.
pub open spec fn admits(policy: OrchestrationPolicy, tool_name: Seq<char>) -> bool {
    !listed(policy.denied_tools@).contains(tool_name) && listed(policy.admitted_tools@).contains(
        tool_name,
    )
}

fn is_listed(name: &str, values: &[&'static str]) -> (found: bool)
    ensures
        found == listed(values@).contains(name@),
{
    let mut i: usize = 0;
    while i < values.len()
        invariant
            i <= values@.len(),
            forall|j: int| 0 <= j < i ==> (#[trigger] listed(values@)[j]) != name@,
        decreases values@.len() - i,
    {
        if text::same_text(values[i], name) {
            assert(listed(values@)[i as int] == name@);
            return true;
        }
        i = i + 1;
    }
    false
}

impl OrchestrationPolicy {
    /// Whether the policy admits a tool.
    pub fn is_admitted(self, tool_name: &str) -> (admitted: bool)
        ensures
            admitted == admits(self, tool_name@),
    {
        !is_listed(tool_name, self.denied_tools) && is_listed(tool_name, self.admitted_tools)
    }
}

/// Whether a field is the Server's: one of the named ones, or a private one.
pub open spec fn server_owned(field: Seq<char>) -> bool {
    nested_host::forbidden_field_names().contains(field) || nested_host::is_private(field)
}

/// Whether a field is the Server's.
pub fn is_server_owned_orchestration_argument(field: &str) -> (owned: bool)
    ensures
        owned == server_owned(field@),
{
    let fields = nested_host::forbidden_nested_fields();
    let mut i: usize = 0;
    while i < fields.len()
        invariant
            i <= fields@.len(),
            nested_host::names(fields@) == nested_host::forbidden_field_names(),
            forall|j: int|
                0 <= j < i ==> (#[trigger] nested_host::names(fields@)[j]) != field@,
        decreases fields@.len() - i,
    {
        if text::same_text(fields[i], field) {
            assert(nested_host::forbidden_field_names()[i as int] == field@);
            return true;
        }
        i = i + 1;
    }
    assert forall|j: int| 0 <= j < nested_host::forbidden_field_names().len() implies
        nested_host::forbidden_field_names()[j] != field@ by {
        assert(nested_host::names(fields@)[j] == nested_host::forbidden_field_names()[j]);
    }
    has_prefix(field, "__webcodex_")
}

/// The first key that is the Server's.
pub open spec fn first_server_owned(fields: Seq<(Seq<char>, json::JsonView)>) -> Option<Seq<char>>
    decreases fields.len(),
{
    if fields.len() == 0 {
        None
    } else if server_owned(fields[0].0) {
        Some(fields[0].0)
    } else {
        first_server_owned(fields.drop_first())
    }
}

fn find_server_owned(fields: &Vec<(String, JsonValue)>) -> (found: Option<&str>)
    ensures
        text::str_of(found) == first_server_owned(json::fields_view(fields@)),
{
    let ghost all = json::fields_view(fields@);
    let mut i: usize = 0;
    assert(all.skip(0) =~= all);
    while i < fields.len()
        invariant
            i <= fields@.len(),
            all == json::fields_view(fields@),
            first_server_owned(all) == first_server_owned(all.skip(i as int)),
        decreases fields@.len() - i,
    {
        if is_server_owned_orchestration_argument(fields[i].0.as_str()) {
            return Some(fields[i].0.as_str());
        }
        assert(all.skip(i as int).drop_first() =~= all.skip(i + 1));
        i = i + 1;
    }
    None
}

fn find_reserved(fields: &Vec<(String, JsonValue)>, reserved: &'static [&'static str]) -> (found:
    Option<&'static str>)
    ensures
        text::str_of(found) == nested_host::first_present(
            json::fields_view(fields@),
            listed(reserved@),
        ),
{
    let ghost all = listed(reserved@);
    let ghost held = json::fields_view(fields@);
    let mut i: usize = 0;
    assert(all.skip(0) =~= all);
    while i < reserved.len()
        invariant
            i <= reserved@.len(),
            all == listed(reserved@),
            held == json::fields_view(fields@),
            nested_host::first_present(held, all) == nested_host::first_present(
                held,
                all.skip(i as int),
            ),
        decreases reserved@.len() - i,
    {
        if json::field(fields, reserved[i]).is_some() {
            return Some(reserved[i]);
        }
        assert(all.skip(i as int).drop_first() =~= all.skip(i + 1));
        i = i + 1;
    }
    None
}

/// Why a host did not answer a call.
#[derive(Debug)]
pub struct OrchestrationHostError {
    pub message: String,
}

impl OrchestrationHostError {
    /// A failure with a message.
    pub fn new(message: &str) -> (error: OrchestrationHostError)
        ensures
            error.message@ == message@,
    {
        OrchestrationHostError { message: message.to_owned() }
    }

    /// The message of the failure.
    pub fn into_message(self) -> (message: String)
        ensures
            message == self.message,
    {
        self.message
    }
}

/// The arguments with which a tool is called for a program, or why it is not.
pub open spec fn prepared(
    policy: OrchestrationPolicy,
    tool_name: Seq<char>,
    arguments: json::JsonView,
    project: Seq<char>,
    session_id: Seq<char>,
) -> Result<json::JsonView, Seq<char>> {
    if !admits(policy, tool_name) {
        Err("nested tool `"@ + tool_name + "` is not admitted by "@ + policy.policy_name@)
    } else {
        match arguments {
            json::JsonView::Object(fields) => match first_server_owned(fields) {
                Some(field) => Err(nested_host::server_owned_message(field)),
                None => match nested_host::first_present(
                    fields,
                    listed(policy.additional_forbidden_argument_fields@),
                ) {
                    Some(field) => Err(
                        "nested tool arguments may not set frontend-reserved field `"@ + field
                            + "`"@,
                    ),
                    None => Ok(
                        json::JsonView::Object(nested_host::targeted(fields, project, session_id)),
                    ),
                },
            },
            _ => Err("nested tool arguments must be a JSON object"@),
        }
    }
}

/// What is recorded of a program's calls.
#[derive(Debug)]
pub struct OrchestrationCompositionSummary {
    pub nested_calls: usize,
    pub nested_successes: usize,
    pub nested_failures: usize,
    pub max_in_flight: usize,
    pub duration_ms: u64,
    pub slot_wait_ms: u64,
    pub returned_bytes: usize,
    pub nested_raw_result_bytes_total: usize,
    pub nested_tool_counts: Vec<(String, usize)>,
}

/// The account of a program's calls.
#[derive(Debug)]
pub struct OrchestrationCompositionAccumulator {
    pub account: CallAccount,
}

impl OrchestrationCompositionAccumulator {
    /// An account of no calls.
    pub fn new() -> (accumulator: OrchestrationCompositionAccumulator)
        ensures
            composition::adds_up(accumulator.account),
            composition::is_empty(accumulator.account),
    {
        OrchestrationCompositionAccumulator { account: CallAccount::new() }
    }

    /// Enters a call that begins, and hands out its number.
    pub fn begin_call(&mut self, tool_name: &str) -> (ordinal: usize)
        ensures
            composition::adds_up(old(self).account) && old(self).account.nested_calls < usize::MAX
                ==> composition::adds_up(final(self).account),
            composition::begun(old(self).account, final(self).account, tool_name@),
            ordinal == final(self).account.nested_calls,
    {
        self.account.begin_call(tool_name)
    }

    /// Enters the end of a call, with the size of what it handed back.
    pub fn finish_call(&mut self, success: bool, raw_result_bytes: usize)
        ensures
            composition::ended(
                old(self).account,
                final(self).account,
                success,
                raw_result_bytes as int,
            ),
            composition::adds_up(old(self).account) && old(self).account.in_flight > 0
                ==> composition::adds_up(final(self).account),
    {
        self.account.finish_call(success, raw_result_bytes);
    }

    /// What is recorded of the calls.
    pub fn summary(&self, duration_ms: u64, returned_bytes: usize, slot_wait_ms: u64) -> (summary:
        OrchestrationCompositionSummary)
        ensures
            summary.nested_calls == self.account.nested_calls,
            summary.nested_successes == self.account.nested_successes,
            summary.nested_failures == self.account.nested_failures,
            summary.max_in_flight == self.account.max_in_flight,
            summary.duration_ms == duration_ms,
            summary.slot_wait_ms == slot_wait_ms,
            summary.returned_bytes == returned_bytes,
            summary.nested_raw_result_bytes_total == self.account.nested_raw_result_bytes_total,
            composition::counts_view(summary.nested_tool_counts@) == composition::counts_view(
                self.account.nested_tool_counts@,
            ),
    {
        OrchestrationCompositionSummary {
            nested_calls: self.account.nested_calls,
            nested_successes: self.account.nested_successes,
            nested_failures: self.account.nested_failures,
            max_in_flight: self.account.max_in_flight,
            duration_ms,
            slot_wait_ms,
            returned_bytes,
            nested_raw_result_bytes_total: self.account.nested_raw_result_bytes_total,
            nested_tool_counts: copy_counts(&self.account.nested_tool_counts),
        }
    }
}

/// What a tool hands back to a program.
#[derive(Debug)]
pub struct OrchestrationToolResponse {
    pub success: bool,
    pub output: JsonValue,
    pub error: Option<String>,
}

/// The host of the calls of one program, bound to one project, one session and
/// one policy.
#[derive(Debug)]
pub struct CanonicalOrchestrationHost {
    pub project: String,
    pub session_id: String,
    pub policy: OrchestrationPolicy,
    pub composition: OrchestrationCompositionAccumulator,
}

/// What may come of a call before the tool is called.
#[derive(Debug)]
pub enum NestedStart {
    /// Call the tool with these arguments, as the call of this number; its guard.
    Call { arguments: JsonValue, ordinal: usize, guard: NestedCallGuard },
    Refused(OrchestrationHostError),
}

impl CanonicalOrchestrationHost {
    /// A host with no calls yet.
    pub fn new(project: &str, session_id: &str, policy: OrchestrationPolicy) -> (host:
        CanonicalOrchestrationHost)
        ensures
            host.project@ == project@,
            host.session_id@ == session_id@,
            host.policy == policy,
            composition::adds_up(host.composition.account),
            composition::is_empty(host.composition.account),
    {
        CanonicalOrchestrationHost {
            project: project.to_owned(),
            session_id: session_id.to_owned(),
            policy,
            composition: OrchestrationCompositionAccumulator::new(),
        }
    }

    /// Enters a call that begins, and hands out its number and its guard.
    pub fn begin_nested_call(&mut self, tool_name: &str) -> (begun: (usize, NestedCallGuard))
        ensures
            composition::adds_up(old(self).composition.account)
                && old(self).composition.account.nested_calls < usize::MAX ==> composition::adds_up(
                final(self).composition.account,
            ),
            final(self).project == old(self).project,
            final(self).session_id == old(self).session_id,
            final(self).policy == old(self).policy,
            composition::begun(
                old(self).composition.account,
                final(self).composition.account,
                tool_name@,
            ),
            begun.0 == final(self).composition.account.nested_calls,
            !begun.1.finished,
    {
        (self.composition.begin_call(tool_name), NestedCallGuard::new())
    }

    /// What is recorded of the calls.
    pub fn composition_summary(
        &self,
        duration_ms: u64,
        returned_bytes: usize,
        slot_wait_ms: u64,
    ) -> (summary: OrchestrationCompositionSummary)
        ensures
            summary.nested_calls == self.composition.account.nested_calls,
            summary.nested_successes == self.composition.account.nested_successes,
            summary.nested_failures == self.composition.account.nested_failures,
            summary.max_in_flight == self.composition.account.max_in_flight,
            summary.duration_ms == duration_ms,
            summary.slot_wait_ms == slot_wait_ms,
            summary.returned_bytes == returned_bytes,
            summary.nested_raw_result_bytes_total
                == self.composition.account.nested_raw_result_bytes_total,
            composition::counts_view(summary.nested_tool_counts@) == composition::counts_view(
                self.composition.account.nested_tool_counts@,
            ),
    {
        self.composition.summary(duration_ms, returned_bytes, slot_wait_ms)
    }

    /// The arguments with which a tool is called for the program.
    pub fn prepare_arguments(&self, tool_name: &str, arguments: JsonValue) -> (result: Result<
        JsonValue,
        OrchestrationHostError,
    >)
        ensures
            ({
                let expected = prepared(
                    self.policy,
                    tool_name@,
                    arguments@,
                    self.project@,
                    self.session_id@,
                );
                match result {
                    Ok(made) => expected == Ok::<json::JsonView, Seq<char>>(made@),
                    Err(error) => expected == Err::<json::JsonView, Seq<char>>(error.message@),
                }
            }),
    {
        if !self.policy.is_admitted(tool_name) {
            let mut message = "nested tool `".to_owned();
            message.append(tool_name);
            message.append("` is not admitted by ");
            message.append(self.policy.policy_name);
            return Err(OrchestrationHostError { message });
        }
        match arguments {
            JsonValue::Object(fields) => {
                proof {
                    json::lemma_object_view(fields);
                }
                if let Some(field) = find_server_owned(&fields) {
                    let mut message =
                        "nested tool arguments may not set server-owned field `".to_owned();
                    message.append(field);
                    message.append("`");
                    return Err(OrchestrationHostError { message });
                }
                let reserved = self.policy.additional_forbidden_argument_fields;
                if let Some(field) = find_reserved(&fields, reserved) {
                    let mut message =
                        "nested tool arguments may not set frontend-reserved field `".to_owned();
                    message.append(field);
                    message.append("`");
                    return Err(OrchestrationHostError { message });
                }
                Ok(with_target(fields, self.project.as_str(), self.session_id.as_str()))
            },
            _ => Err(OrchestrationHostError::new("nested tool arguments must be a JSON object")),
        }
    }

    /// Begins a call of a tool for the program: a call that is refused is not
    /// counted.
    pub fn start_call(&mut self, tool_name: &str, arguments: JsonValue) -> (start: NestedStart)
        ensures
            composition::adds_up(old(self).composition.account)
                && old(self).composition.account.nested_calls < usize::MAX ==> composition::adds_up(
                final(self).composition.account,
            ),
            final(self).project == old(self).project,
            final(self).session_id == old(self).session_id,
            final(self).policy == old(self).policy,
            ({
                let expected = prepared(
                    old(self).policy,
                    tool_name@,
                    arguments@,
                    old(self).project@,
                    old(self).session_id@,
                );
                match start {
                    NestedStart::Call { arguments: made, ordinal, guard } => {
                        &&& !guard.finished
                        &&& expected == Ok::<json::JsonView, Seq<char>>(made@)
                        &&& ordinal == final(self).composition.account.nested_calls
                        &&& composition::begun(
                            old(self).composition.account,
                            final(self).composition.account,
                            tool_name@,
                        )
                    },
                    NestedStart::Refused(error) => {
                        &&& expected == Err::<json::JsonView, Seq<char>>(error.message@)
                        &&& *final(self) == *old(self)
                    },
                }
            }),
    {
        match self.prepare_arguments(tool_name, arguments) {
            Ok(arguments) => {
                let (ordinal, guard) = self.begin_nested_call(tool_name);
                NestedStart::Call { arguments, ordinal, guard }
            },
            Err(error) => NestedStart::Refused(error),
        }
    }

    /// Ends a call: what the program gets of it. How much the tool handed back is
    /// added up.
    pub fn end_call(&mut self, guard: &mut NestedCallGuard, outcome: ToolCallOutcome) -> (response:
        Result<OrchestrationToolResponse, OrchestrationHostError>)
        ensures
            final(guard).finished,
            composition::adds_up(old(self).composition.account)
                && old(self).composition.account.in_flight > 0 ==> composition::adds_up(
                final(self).composition.account,
            ),
            final(self).project == old(self).project,
            final(self).session_id == old(self).session_id,
            final(self).policy == old(self).policy,
            call_guard::counted_end(
                old(guard).finished,
                old(self).composition.account,
                final(self).composition.account,
                nested_host::call_succeeded(outcome),
                nested_host::returned_bytes(outcome),
            ),
            match response {
                Ok(held) => nested_host::call_result(outcome) matches Ok(result) && held.success
                    == result.success && held.output@ == result.output@ && text::text_of(
                    held.error,
                ) == text::text_of(result.error),
                Err(error) => nested_host::call_result(outcome) == Err::<
                    ToolResult,
                    Seq<char>,
                >(error.message@),
            },
    {
        let success = nested_host::nested_success(&outcome);
        let raw_result_bytes = nested_host::raw_result_bytes(&outcome);
        guard.finish(&mut self.composition.account, success, raw_result_bytes);
        match nested_result(outcome) {
            Ok(result) => Ok(
                OrchestrationToolResponse {
                    success: result.success,
                    output: result.output,
                    error: result.error,
                },
            ),
            Err(message) => Err(OrchestrationHostError { message }),
        }
    }

    /// Ends a call that was given up.
    pub fn give_up_call(&mut self, guard: &mut NestedCallGuard)
        ensures
            final(guard).finished,
            final(self).project == old(self).project,
            final(self).session_id == old(self).session_id,
            final(self).policy == old(self).policy,
            call_guard::counted_end(
                old(guard).finished,
                old(self).composition.account,
                final(self).composition.account,
                false,
                0,
            ),
            composition::adds_up(old(self).composition.account)
                && old(self).composition.account.in_flight > 0 ==> composition::adds_up(
                final(self).composition.account,
            ),
    {
        guard.give_up(&mut self.composition.account);
    }
}

// ---- Laws ---------------------------------------------------------------------------------

/// Whatever its policy says, no frontend can let a program set a field of the
/// Server, and every call is made with the project and the session of its host.
pub proof fn law_no_policy_gives_back_server_fields(
    policy: OrchestrationPolicy,
    tool_name: Seq<char>,
    arguments: json::JsonView,
    project: Seq<char>,
    session_id: Seq<char>,
    key: Seq<char>,
)
    ensures
        prepared(policy, tool_name, arguments, project, session_id) matches Ok(made) ==> {
            &&& server_owned(key) ==> arguments.get(key) is None
            &&& made.get("project"@) == Some(json::JsonView::Text(project))
            &&& made.get("session_id"@) == Some(json::JsonView::Text(session_id))
            &&& key != "project"@ && key != "session_id"@ ==> made.get(key) == arguments.get(key)
        },
{
    reveal_strlit("project");
    reveal_strlit("session_id");
    assert("project"@.len() != "session_id"@.len());
    if let json::JsonView::Object(fields) = arguments {
        lemma_no_server_key(fields, key);
        nested_host::lemma_targeted(fields, project, session_id, "project"@);
        nested_host::lemma_targeted(fields, project, session_id, "session_id"@);
        nested_host::lemma_targeted(fields, project, session_id, key);
    }
}

proof fn lemma_no_server_key(fields: Seq<(Seq<char>, json::JsonView)>, key: Seq<char>)
    ensures
        first_server_owned(fields) is None && server_owned(key) ==> json::lookup(fields, key)
            is None,
    decreases fields.len(),
{
    if fields.len() > 0 {
        lemma_no_server_key(fields.drop_first(), key);
    }
}

/// A tool that a policy denies is not called, even where the policy admits it too.
pub proof fn law_denied_tool_is_not_called(
    policy: OrchestrationPolicy,
    tool_name: Seq<char>,
    arguments: json::JsonView,
    project: Seq<char>,
    session_id: Seq<char>,
)
    requires
        listed(policy.denied_tools@).contains(tool_name),
    ensures
        prepared(policy, tool_name, arguments, project, session_id) is Err,
{
}

/// A policy that reserves more fields refuses more, never less.
pub proof fn law_reserving_only_narrows(
    policy: OrchestrationPolicy,
    plain: OrchestrationPolicy,
    tool_name: Seq<char>,
    arguments: json::JsonView,
    project: Seq<char>,
    session_id: Seq<char>,
)
    requires
        plain.policy_name == policy.policy_name,
        plain.admitted_tools == policy.admitted_tools,
        plain.denied_tools == policy.denied_tools,
        plain.additional_forbidden_argument_fields@.len() == 0,
    ensures
        prepared(policy, tool_name, arguments, project, session_id) is Ok ==> prepared(
            plain,
            tool_name,
            arguments,
            project,
            session_id,
        ) == prepared(policy, tool_name, arguments, project, session_id),
{
}

/// Whether a policy admits every tool of an account.
pub open spec fn counts_only_admitted(
    policy: OrchestrationPolicy,
    account: composition::CallAccount,
) -> bool {
    forall|i: int|
        0 <= i < account.nested_tool_counts@.len() ==> admits(
            policy,
            (#[trigger] account.nested_tool_counts@[i]).0@,
        )
}

/// The counts of a program name only tools that its policy admits: they do so
/// after every call that begins, if they did before it.
pub proof fn law_counts_name_only_admitted_tools(
    policy: OrchestrationPolicy,
    tool_name: Seq<char>,
    arguments: json::JsonView,
    project: Seq<char>,
    session_id: Seq<char>,
    before: composition::CallAccount,
    after: composition::CallAccount,
)
    requires
        counts_only_admitted(policy, before),
        prepared(policy, tool_name, arguments, project, session_id) is Ok,
        composition::begun(before, after, tool_name),
    ensures
        counts_only_admitted(policy, after),
{
    let counts = composition::counts_view(before.nested_tool_counts@);
    let counted = composition::counts_view(after.nested_tool_counts@);
    assert forall|i: int| 0 <= i < after.nested_tool_counts@.len() implies admits(
        policy,
        (#[trigger] after.nested_tool_counts@[i]).0@,
    ) by {
        composition::law_only_called_tools_are_counted(counts, tool_name, i);
        assert(counted[i].0 == after.nested_tool_counts@[i].0@);
        if counted[i].0 != tool_name {
            let j = choose|j: int|
                0 <= j < counts.len() && #[trigger] counts[j].0 == counted[i].0;
            assert(counts[j].0 == before.nested_tool_counts@[j].0@);
        }
    }
}

/// A tool is called for a policy where the policy names it among those it admits
/// and not among those it denies: a denial wins.
pub proof fn law_denial_wins_over_admission(policy: OrchestrationPolicy, tool_name: Seq<char>)
    ensures
        (exists|i: int|
            0 <= i < policy.denied_tools@.len() && (#[trigger] policy.denied_tools@[i])@
                == tool_name) ==> !admits(policy, tool_name),
        admits(policy, tool_name) ==> exists|i: int|
            0 <= i < policy.admitted_tools@.len() && (#[trigger] policy.admitted_tools@[i])@
                == tool_name,
        (forall|i: int|
            0 <= i < policy.denied_tools@.len() ==> (#[trigger] policy.denied_tools@[i])@
                != tool_name) ==> ((exists|i: int|
            0 <= i < policy.admitted_tools@.len() && (#[trigger] policy.admitted_tools@[i])@
                == tool_name) ==> admits(policy, tool_name)),
{
    let denied = listed(policy.denied_tools@);
    let admitted = listed(policy.admitted_tools@);
    if exists|i: int|
        0 <= i < policy.denied_tools@.len() && (#[trigger] policy.denied_tools@[i])@ == tool_name {
        let i = choose|i: int|
            0 <= i < policy.denied_tools@.len() && (#[trigger] policy.denied_tools@[i])@
                == tool_name;
        assert(denied[i] == tool_name);
    } else {
        assert(!denied.contains(tool_name)) by {
            if denied.contains(tool_name) {
                let i = choose|i: int| 0 <= i < denied.len() && denied[i] == tool_name;
                assert(policy.denied_tools@[i]@ == tool_name);
            }
        }
    }
    if admitted.contains(tool_name) {
        let i = choose|i: int| 0 <= i < admitted.len() && admitted[i] == tool_name;
        assert(policy.admitted_tools@[i]@ == tool_name);
    }
    if exists|i: int|
        0 <= i < policy.admitted_tools@.len() && (#[trigger] policy.admitted_tools@[i])@
            == tool_name {
        let i = choose|i: int|
            0 <= i < policy.admitted_tools@.len() && (#[trigger] policy.admitted_tools@[i])@
                == tool_name;
        assert(admitted[i] == tool_name);
    }
}

/// A call that is refused says why: which tool is not admitted by which policy,
/// that its arguments are no object, or which field is not the caller's to set.
pub proof fn law_refused_call_says_why(
    policy: OrchestrationPolicy,
    tool_name: Seq<char>,
    arguments: json::JsonView,
    project: Seq<char>,
    session_id: Seq<char>,
)
    ensures
        !admits(policy, tool_name) ==> prepared(policy, tool_name, arguments, project, session_id)
            == Err::<json::JsonView, Seq<char>>(
            "nested tool `"@ + tool_name + "` is not admitted by "@ + policy.policy_name@,
        ),
        admits(policy, tool_name) && !(arguments is Object) ==> prepared(
            policy,
            tool_name,
            arguments,
            project,
            session_id,
        ) == Err::<json::JsonView, Seq<char>>("nested tool arguments must be a JSON object"@),
        admits(policy, tool_name) ==> (arguments matches json::JsonView::Object(fields) ==> {
            let made = prepared(policy, tool_name, arguments, project, session_id);
            &&& first_server_owned(fields) matches Some(field) ==> made == Err::<
                json::JsonView,
                Seq<char>,
            >("nested tool arguments may not set server-owned field `"@ + field + "`"@)
            &&& first_server_owned(fields) is None ==> (nested_host::first_present(
                fields,
                listed(policy.additional_forbidden_argument_fields@),
            ) matches Some(field) ==> made == Err::<json::JsonView, Seq<char>>(
                "nested tool arguments may not set frontend-reserved field `"@ + field + "`"@,
            ))
            &&& first_server_owned(fields) is None && nested_host::first_present(
                fields,
                listed(policy.additional_forbidden_argument_fields@),
            ) is None ==> made is Ok
        }),
{
}

/// The field that is refused is one of the arguments, and one that only the server
/// sets; where none is found, no argument is such a field.
pub proof fn law_server_field_is_found(fields: Seq<(Seq<char>, json::JsonView)>)
    ensures
        first_server_owned(fields) matches Some(field) ==> server_owned(field) && json::lookup(
            fields,
            field,
        ) is Some,
        first_server_owned(fields) is None ==> forall|i: int|
            0 <= i < fields.len() ==> !server_owned((#[trigger] fields[i]).0),
    decreases fields.len(),
{
    if fields.len() > 0 && !server_owned(fields[0].0) {
        let rest = fields.drop_first();
        law_server_field_is_found(rest);
        if first_server_owned(fields) is None {
            assert forall|i: int| 0 <= i < fields.len() implies !server_owned(
                (#[trigger] fields[i]).0,
            ) by {
                if i > 0 {
                    assert(rest[i - 1] == fields[i]);
                }
            }
        }
    }
}

/// What is summed up of the calls of a host is its account and what is known of the
/// run: each figure from where it is kept.
pub proof fn law_summary_holds_the_account(
    accumulator: OrchestrationCompositionAccumulator,
    duration_ms: u64,
    returned_bytes: usize,
    slot_wait_ms: u64,
    summary: OrchestrationCompositionSummary,
)
    requires
        call_ensures(
            OrchestrationCompositionAccumulator::summary,
            (&accumulator, duration_ms, returned_bytes, slot_wait_ms),
            summary,
        ),
    ensures
        summary.nested_calls == accumulator.account.nested_calls,
        summary.nested_successes == accumulator.account.nested_successes,
        summary.nested_failures == accumulator.account.nested_failures,
        summary.max_in_flight == accumulator.account.max_in_flight,
        summary.nested_raw_result_bytes_total == accumulator.account.nested_raw_result_bytes_total,
        summary.duration_ms == duration_ms,
        summary.returned_bytes == returned_bytes,
        summary.slot_wait_ms == slot_wait_ms,
        composition::adds_up(accumulator.account) && accumulator.account.in_flight == 0
            ==> summary.nested_successes + summary.nested_failures == summary.nested_calls,
{
}

} // verus!
