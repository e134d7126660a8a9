//! What is declared of a tool: who sees it, what it does, and what it asks for.
use vstd::prelude::*;

use crate::text::same_text;

verus! {

/// Who sees a tool.
#[derive(Debug, Clone, Copy, PartialEq, Eq, Structural)]
pub enum ToolVisibility {
    ModelVisible,
    Hidden,
}

/// Whether a tool changes anything.
#[derive(Debug, Clone, Copy, PartialEq, Eq, Structural)]
pub enum ToolEffect {
    Observe,
    Mutate,
}

/// What a call of a tool puts at risk.
#[derive(Debug, Clone, Copy, PartialEq, Eq, Structural)]
pub enum ToolRisk {
    Read,
    ProjectWrite,
}

/// Whether a call of a tool is put up for approval.
#[derive(Debug, Clone, Copy, PartialEq, Eq, Structural)]
pub enum ToolApprovalPolicy {
    Unasked,
    Standard,
}

/// What a second call of a tool does.
#[derive(Debug, Clone, Copy, PartialEq, Eq, Structural)]
pub enum ToolIdempotency {
    PureRead,
    NonIdempotent,
}

/// What a tool does, as far as its callers have to know.
#[derive(Debug, Clone, Copy, PartialEq, Eq, Structural)]
pub struct ToolSemanticContract {
    pub effect: ToolEffect,
    pub risk: ToolRisk,
    pub approval: ToolApprovalPolicy,
    pub idempotency: ToolIdempotency,
}

/// Where the arguments of a tool name files.
#[derive(Debug, Clone, Copy, PartialEq, Eq, Structural)]
pub enum ToolPathHint {
    NoPath,
    SinglePath,
    PathList,
}

/// What is kept of the results of a tool: the values of named fields, or what is
/// kept of any tool.
#[derive(Debug, Clone, Copy, PartialEq, Eq, Structural)]
pub enum ToolAuditPolicy {
    NamedFields,
    Canonical,
}

/// What a tool is for.
#[derive(Debug, Clone, Copy, PartialEq, Eq, Structural)]
pub enum ToolCategory {
    Runtime,
    Edit,
}

/// What a Runner has to be able to do for a tool.
#[derive(Debug, Clone, Copy, PartialEq, Eq, Structural)]
pub enum RunnerCapabilityRequirement {
    FileWrite,
}

/// Who carries a tool out.
#[derive(Debug, Clone, Copy, PartialEq, Eq, Structural)]
pub enum ToolProvider {
    Control,
    Runner,
}

/// What a caller has to be allowed.
#[derive(Debug, Clone, Copy, PartialEq, Eq, Structural)]
pub enum ToolScope {
    ProjectRead,
    ProjectWrite,
}

/// What a call of a tool shows to those who look at a session later.
#[derive(Debug, Clone, Copy, PartialEq, Eq, Structural)]
pub enum ToolReviewEvidence {
    ReadOnlyInspection,
}

/// What a tool is declared to be. `direct_rank` is its place among the tools
/// that a model calls directly, where it is one of them; `action_description` is
/// its description for callers that take only short ones, where it has one.
#[derive(Debug, Clone, Copy)]
pub struct ToolDefinition {
    pub name: &'static str,
    pub description: &'static str,
    pub action_description: Option<&'static str>,
    pub audit: ToolAuditPolicy,
    pub visibility: ToolVisibility,
    pub category: ToolCategory,
    pub capability: Option<RunnerCapabilityRequirement>,
    pub provider: ToolProvider,
    pub contract: ToolSemanticContract,
    pub scope: Option<ToolScope>,
    pub review_evidence: Option<ToolReviewEvidence>,
    /// Whether its context can be observed again.
    pub context_reobservable: bool,
    /// Whether a call names its session itself.
    pub explicit_session: bool,
    pub path_hint: ToolPathHint,
    pub write_like: bool,
    pub shell_like: bool,
    pub asks_permission: bool,
    pub direct_rank: Option<u32>,
}

impl ToolDefinition {
    /// Whether the tool writes.
    pub fn is_write_like(&self) -> (found: bool)
        ensures
            found == self.write_like,
    {
        self.write_like
    }

    /// Whether the tool runs commands.
    pub fn is_shell_like(&self) -> (found: bool)
        ensures
            found == self.shell_like,
    {
        self.shell_like
    }

    /// Whether a call of the tool asks for permission.
    pub fn requires_permission(&self) -> (found: bool)
        ensures
            found == self.asks_permission,
    {
        self.asks_permission
    }
}

/// What a model is told of the tool that runs programs.
pub const CODE_MODE_EXEC_COPY: &'static str =
    "Experimental read-only JavaScript orchestration for related/adaptive inspections. tools.<name>(args) re-enters canonical ToolRuntime under the outer-bound Project/Session; text(value) emits bounded output. Prefer a direct tool for one simple observation. No shell/fs/network/mutation/Jobs.";

/// What a model is told of the tool that writes a whole file.
pub const WRITE_PROJECT_FILE_COPY: &'static str =
    "Create a new file or perform an intentional whole-file replacement. Existing-file replacement requires expected_read_revision from read_files; ToolRuntime resolves that model-facing snapshot handle to the Runner's existing SHA guard, so the model does not copy a digest. Choose this path when whole-file replacement is genuinely the clearest reliable mutation, then inspect the resulting diff and validate the final source.";

/// What a model is told of the tool that makes exact edits.
pub const APPLY_TEXT_EDITS_COPY: &'static str =
    "Transactional structured option for small/local exact edits where old_text or anchor identity is natural and likely to succeed. Globally unique replace_exact/delete_exact/insert_before/insert_after edits may omit expected_read_revision and are re-proved against current Runner content; occurrence stays global source order, and occurrence or line_scope is positional and requires expected_read_revision. Callers may also supply expected_read_revision for a stronger whole-file stale-context fence. ToolRuntime resolves read revisions to the existing Runner SHA wire guard, so model input never needs a digest. The whole batch is preflighted transactionally, conflicts fail closed, and the Runner still rechecks planned source content before mutation. Choose mutation methods by expected correctness and reliability, not tool usage; inspect the resulting diff and validate the final source.";

/// What is said in short of the tool that makes exact edits.
pub const APPLY_TEXT_EDITS_ACTION_COPY: &'static str =
    "Apply 1..16 transactional exact file changes. Globally unique local edits may omit expected_read_revision; delete/rename and positional occurrence/line_scope require it. ToolRuntime resolves revision guards internally and the whole batch preflights before mutation.";

/// Whether a tool only looks: it observes, reads, neither writes nor runs
/// commands, and needs no permission.
pub open spec fn only_observes(definition: ToolDefinition) -> bool {
    &&& definition.contract.effect == ToolEffect::Observe
    &&& definition.contract.risk == ToolRisk::Read
    &&& !definition.shell_like
    &&& !definition.write_like
    &&& !definition.asks_permission
}

/// What a tool that edits files is declared to be.
pub open spec fn edits_files(definition: ToolDefinition) -> bool {
    &&& definition.contract == (ToolSemanticContract {
        effect: ToolEffect::Mutate,
        risk: ToolRisk::ProjectWrite,
        approval: ToolApprovalPolicy::Standard,
        idempotency: ToolIdempotency::NonIdempotent,
    })
    &&& definition.write_like
    &&& !definition.shell_like
    &&& definition.asks_permission
    &&& definition.audit == ToolAuditPolicy::Canonical
    &&& definition.category == ToolCategory::Edit
    &&& definition.capability == Some(RunnerCapabilityRequirement::FileWrite)
    &&& definition.provider == ToolProvider::Runner
    &&& definition.scope == Some(ToolScope::ProjectWrite)
    &&& definition.review_evidence is None
    &&& !definition.context_reobservable
    &&& !definition.explicit_session
}

/// The tool that runs a program which calls other tools.
pub fn code_mode_exec_definition() -> (definition: ToolDefinition)
    ensures
        definition.name@ == "code_mode_exec"@,
        definition.description@ == CODE_MODE_EXEC_COPY@,
        definition.action_description is None,
        definition.audit == ToolAuditPolicy::NamedFields,
        definition.category == ToolCategory::Runtime,
        definition.capability is None,
        definition.provider == ToolProvider::Control,
        definition.scope == Some(ToolScope::ProjectRead),
        definition.review_evidence == Some(ToolReviewEvidence::ReadOnlyInspection),
        definition.context_reobservable,
        definition.explicit_session,
        definition.visibility == ToolVisibility::ModelVisible,
        only_observes(definition),
        definition.contract.approval == ToolApprovalPolicy::Unasked,
        definition.contract.idempotency == ToolIdempotency::PureRead,
        definition.path_hint == ToolPathHint::NoPath,
        definition.direct_rank == Some(45u32),
{
    ToolDefinition {
        name: "code_mode_exec",
        description: CODE_MODE_EXEC_COPY,
        action_description: None,
        audit: ToolAuditPolicy::NamedFields,
        visibility: ToolVisibility::ModelVisible,
        category: ToolCategory::Runtime,
        capability: None,
        provider: ToolProvider::Control,
        scope: Some(ToolScope::ProjectRead),
        review_evidence: Some(ToolReviewEvidence::ReadOnlyInspection),
        context_reobservable: true,
        explicit_session: true,
        contract: ToolSemanticContract {
            effect: ToolEffect::Observe,
            risk: ToolRisk::Read,
            approval: ToolApprovalPolicy::Unasked,
            idempotency: ToolIdempotency::PureRead,
        },
        path_hint: ToolPathHint::NoPath,
        write_like: false,
        shell_like: false,
        asks_permission: false,
        direct_rank: Some(45),
    }
}

/// The tool that writes one whole file.
pub fn write_project_file_definition() -> (definition: ToolDefinition)
    ensures
        definition.name@ == "write_project_file"@,
        definition.description@ == WRITE_PROJECT_FILE_COPY@,
        definition.action_description is None,
        definition.visibility == ToolVisibility::ModelVisible,
        edits_files(definition),
        definition.path_hint == ToolPathHint::SinglePath,
        definition.direct_rank is None,
{
    ToolDefinition {
        name: "write_project_file",
        description: WRITE_PROJECT_FILE_COPY,
        action_description: None,
        audit: ToolAuditPolicy::Canonical,
        visibility: ToolVisibility::ModelVisible,
        category: ToolCategory::Edit,
        capability: Some(RunnerCapabilityRequirement::FileWrite),
        provider: ToolProvider::Runner,
        scope: Some(ToolScope::ProjectWrite),
        review_evidence: None,
        context_reobservable: false,
        explicit_session: false,
        contract: ToolSemanticContract {
            effect: ToolEffect::Mutate,
            risk: ToolRisk::ProjectWrite,
            approval: ToolApprovalPolicy::Standard,
            idempotency: ToolIdempotency::NonIdempotent,
        },
        path_hint: ToolPathHint::SinglePath,
        write_like: true,
        shell_like: false,
        asks_permission: true,
        direct_rank: None,
    }
}

/// The tool that makes exact edits in several files.
pub fn apply_text_edits_definition() -> (definition: ToolDefinition)
    ensures
        definition.name@ == "apply_text_edits"@,
        definition.description@ == APPLY_TEXT_EDITS_COPY@,
        definition.action_description matches Some(short) && short@
            == APPLY_TEXT_EDITS_ACTION_COPY@,
        definition.visibility == ToolVisibility::ModelVisible,
        edits_files(definition),
        definition.path_hint == ToolPathHint::PathList,
        definition.direct_rank == Some(60u32),
{
    ToolDefinition {
        name: "apply_text_edits",
        description: APPLY_TEXT_EDITS_COPY,
        action_description: Some(APPLY_TEXT_EDITS_ACTION_COPY),
        audit: ToolAuditPolicy::Canonical,
        visibility: ToolVisibility::ModelVisible,
        category: ToolCategory::Edit,
        capability: Some(RunnerCapabilityRequirement::FileWrite),
        provider: ToolProvider::Runner,
        scope: Some(ToolScope::ProjectWrite),
        review_evidence: None,
        context_reobservable: false,
        explicit_session: false,
        contract: ToolSemanticContract {
            effect: ToolEffect::Mutate,
            risk: ToolRisk::ProjectWrite,
            approval: ToolApprovalPolicy::Standard,
            idempotency: ToolIdempotency::NonIdempotent,
        },
        path_hint: ToolPathHint::PathList,
        write_like: true,
        shell_like: false,
        asks_permission: true,
        direct_rank: Some(60),
    }
}

/// The tools that there are.
#[derive(Debug)]
pub struct ToolCatalog {
    pub definitions: Vec<ToolDefinition>,
}

/// The index of the first definition with this name; the number of definitions
/// where there is none.
pub open spec fn defined_at(definitions: Seq<ToolDefinition>, name: Seq<char>) -> nat
    decreases definitions.len(),
{
    if definitions.len() == 0 || definitions[0].name@ == name {
        0
    } else {
        1 + defined_at(definitions.drop_first(), name)
    }
}

/// What is declared of the tool with this name.
pub open spec fn defined(definitions: Seq<ToolDefinition>, name: Seq<char>) -> Option<
    ToolDefinition,
> {
    if defined_at(definitions, name) < definitions.len() {
        Some(definitions[defined_at(definitions, name) as int])
    } else {
        None
    }
}

/// Whether a model sees the tool with this name.
pub open spec fn model_visible(definitions: Seq<ToolDefinition>, name: Seq<char>) -> bool {
    defined(definitions, name) matches Some(definition) && definition.visibility
        == ToolVisibility::ModelVisible
}

/// Whether a model calls the tool with this name directly.
pub open spec fn directly_called(definitions: Seq<ToolDefinition>, name: Seq<char>) -> bool {
    defined(definitions, name) matches Some(definition) && definition.direct_rank is Some
}

/// Whether no two definitions have the same name.
pub open spec fn distinct_names(definitions: Seq<ToolDefinition>) -> bool {
    forall|i: int, j: int|
        0 <= i < j < definitions.len() ==> #[trigger] definitions[i].name@
            != #[trigger] definitions[j].name@
}

proof fn lemma_defined_at(definitions: Seq<ToolDefinition>, name: Seq<char>, at: int)
    requires
        0 <= at <= definitions.len(),
        forall|i: int| 0 <= i < at ==> (#[trigger] definitions[i]).name@ != name,
        at < definitions.len() ==> definitions[at].name@ == name,
    ensures
        defined_at(definitions, name) == at,
    decreases definitions.len(),
{
    if at > 0 {
        let rest = definitions.drop_first();
        assert(definitions[0].name@ != name);
        assert forall|i: int| 0 <= i < at - 1 implies (#[trigger] rest[i]).name@ != name by {
            assert(rest[i] == definitions[i + 1]);
        }
        lemma_defined_at(rest, name, at - 1);
    }
}

/// Where no two definitions have the same name, each is found under its own.
pub proof fn lemma_found_under_its_name(definitions: Seq<ToolDefinition>, at: int)
    requires
        distinct_names(definitions),
        0 <= at < definitions.len(),
    ensures
        defined(definitions, definitions[at].name@) == Some(definitions[at]),
{
    lemma_defined_at(definitions, definitions[at].name@, at);
}

impl ToolCatalog {
    /// What is declared of the tool with this name.
    pub fn lookup(&self, name: &str) -> (found: Option<ToolDefinition>)
        ensures
            found == defined(self.definitions@, name@),
    {
        let mut i: usize = 0;
        while i < self.definitions.len()
            invariant
                i <= self.definitions@.len(),
                forall|j: int| 0 <= j < i ==> (#[trigger] self.definitions@[j]).name@ != name@,
            decreases self.definitions@.len() - i,
        {
            if same_text(self.definitions[i].name, name) {
                proof {
                    lemma_defined_at(self.definitions@, name@, i as int);
                }
                return Some(self.definitions[i]);
            }
            i = i + 1;
        }
        proof {
            lemma_defined_at(self.definitions@, name@, i as int);
        }
        None
    }

    /// Whether a model sees the tool with this name.
    pub fn is_model_visible_tool_name(&self, name: &str) -> (found: bool)
        ensures
            found == model_visible(self.definitions@, name@),
    {
        match self.lookup(name) {
            Some(definition) => definition.visibility == ToolVisibility::ModelVisible,
            None => false,
        }
    }

    /// Whether a model calls the tool with this name directly.
    pub fn is_adaptive_runtime_direct_tool(&self, name: &str) -> (found: bool)
        ensures
            found == directly_called(self.definitions@, name@),
    {
        match self.lookup(name) {
            Some(definition) => definition.direct_rank.is_some(),
            None => false,
        }
    }
}

// ---- The tools that a model calls directly -----------------------------

/// The rank of the definition at an index; 0 where it has none.
pub open spec fn rank_at(definitions: Seq<ToolDefinition>, at: usize) -> u32 {
    match definitions[at as int].direct_rank {
        Some(rank) => rank,
        None => 0,
    }
}

/// An order of definitions with one more put in, behind those of its rank and
/// of lower ranks.
pub open spec fn put_in(definitions: Seq<ToolDefinition>, order: Seq<usize>, at: usize) -> Seq<
    usize,
>
    decreases order.len(),
{
    if order.len() == 0 || rank_at(definitions, order.last()) <= rank_at(definitions, at) {
        order.push(at)
    } else {
        put_in(definitions, order.drop_last(), at).push(order.last())
    }
}

/// The indices of the directly called tools among the first `count`, by rank;
/// among tools of one rank, what was declared first stays first.
pub open spec fn direct_order(definitions: Seq<ToolDefinition>, count: nat) -> Seq<usize>
    decreases count,
{
    if count == 0 {
        Seq::empty()
    } else {
        let before = direct_order(definitions, (count - 1) as nat);
        if definitions[count - 1].direct_rank is Some {
            put_in(definitions, before, (count - 1) as usize)
        } else {
            before
        }
    }
}

/// The directly called tools, by rank.
pub open spec fn direct_definitions(definitions: Seq<ToolDefinition>) -> Seq<ToolDefinition> {
    let order = direct_order(definitions, definitions.len());
    Seq::new(order.len(), |i: int| definitions[order[i] as int])
}

proof fn lemma_put_in(definitions: Seq<ToolDefinition>, order: Seq<usize>, at: usize)
    requires
        at < definitions.len(),
        forall|i: int| 0 <= i < order.len() ==> #[trigger] order[i] < at,
        forall|i: int, j: int|
            0 <= i < j < order.len() ==> rank_at(definitions, #[trigger] order[i]) <= rank_at(
                definitions,
                #[trigger] order[j],
            ),
        order.no_duplicates(),
    ensures
        put_in(definitions, order, at).len() == order.len() + 1,
        forall|i: int|
            0 <= i < put_in(definitions, order, at).len() ==> #[trigger] put_in(
                definitions,
                order,
                at,
            )[i] <= at,
        forall|i: int, j: int|
            0 <= i < j < put_in(definitions, order, at).len() ==> rank_at(
                definitions,
                #[trigger] put_in(definitions, order, at)[i],
            ) <= rank_at(definitions, #[trigger] put_in(definitions, order, at)[j]),
        put_in(definitions, order, at).no_duplicates(),
        forall|k: usize|
            #[trigger] put_in(definitions, order, at).contains(k) == (k == at || order.contains(
                k,
            )),
    decreases order.len(),
{
    let all = put_in(definitions, order, at);
    if order.len() == 0 || rank_at(definitions, order.last()) <= rank_at(definitions, at) {
        assert forall|k: usize| #[trigger] all.contains(k) == (k == at || order.contains(k)) by {
            if order.contains(k) {
                let i = choose|i: int| 0 <= i < order.len() && order[i] == k;
                assert(all[i] == k);
            }
            assert(all[order.len() as int] == at);
        }
    } else {
        let front = order.drop_last();
        let last = order.last();
        lemma_put_in(definitions, front, at);
        let before = put_in(definitions, front, at);
        assert(all == before.push(last));
        assert forall|k: usize| #[trigger] all.contains(k) == (k == at || order.contains(k)) by {
            assert(all.contains(k) == (k == last || before.contains(k))) by {
                if before.contains(k) {
                    let i = choose|i: int| 0 <= i < before.len() && before[i] == k;
                    assert(all[i] == k);
                }
                assert(all[before.len() as int] == last);
            }
            assert(order.contains(k) == (k == last || front.contains(k))) by {
                if front.contains(k) {
                    let i = choose|i: int| 0 <= i < front.len() && front[i] == k;
                    assert(order[i] == k);
                }
                if order.contains(k) && k != last {
                    let i = choose|i: int| 0 <= i < order.len() && order[i] == k;
                    assert(front[i] == k);
                }
                assert(order[order.len() - 1] == last);
            }
        }
        assert forall|i: int| 0 <= i < before.len() implies rank_at(
            definitions,
            #[trigger] before[i],
        ) <= rank_at(definitions, last) by {
            assert(before.contains(before[i]));
            if before[i] != at {
                let j = choose|j: int| 0 <= j < front.len() && front[j] == before[i];
                assert(order[j] == before[i]);
            }
        }
        assert(!before.contains(last)) by {
            if front.contains(last) {
                let j = choose|j: int| 0 <= j < front.len() && front[j] == last;
                assert(order[j] == order[order.len() - 1]);
            }
        }
    }
}

/// The order of the directly called tools holds the index of each of them once,
/// and no other, and the ranks rise along it.
pub proof fn law_direct_order_is_by_rank(definitions: Seq<ToolDefinition>, count: nat)
    requires
        count <= definitions.len(),
        count <= usize::MAX,
    ensures
        direct_order(definitions, count).no_duplicates(),
        forall|k: usize|
            #[trigger] direct_order(definitions, count).contains(k) == (k < count
                && definitions[k as int].direct_rank is Some),
        forall|i: int, j: int|
            0 <= i < j < direct_order(definitions, count).len() ==> rank_at(
                definitions,
                #[trigger] direct_order(definitions, count)[i],
            ) <= rank_at(definitions, #[trigger] direct_order(definitions, count)[j]),
    decreases count,
{
    if count > 0 {
        law_direct_order_is_by_rank(definitions, (count - 1) as nat);
        let before = direct_order(definitions, (count - 1) as nat);
        assert forall|i: int| 0 <= i < before.len() implies #[trigger] before[i] < count - 1 by {
            assert(before.contains(before[i]));
        }
        if definitions[count - 1].direct_rank is Some {
            lemma_put_in(definitions, before, (count - 1) as usize);
        }
    }
}

fn put_in_order(definitions: &Vec<ToolDefinition>, order: &mut Vec<usize>, at: usize)
    requires
        at < definitions@.len(),
        forall|i: int| 0 <= i < old(order)@.len() ==> #[trigger] old(order)@[i] < definitions@.len(),
    ensures
        final(order)@ == put_in(definitions@, old(order)@, at),
{
    let ghost before = order@;
    let rank: u32 = match definitions[at].direct_rank {
        Some(rank) => rank,
        None => 0,
    };
    let mut place: usize = order.len();
    assert(before.take(place as int) =~= before);
    assert(before.skip(place as int) =~= Seq::<usize>::empty());
    assert(put_in(definitions@, before.take(place as int), at) + before.skip(place as int) =~= put_in(
        definitions@,
        before,
        at,
    ));
    while place > 0
        invariant
            at < definitions@.len(),
            order@ == before,
            place <= before.len(),
            rank == rank_at(definitions@, at),
            forall|i: int| 0 <= i < before.len() ==> #[trigger] before[i] < definitions@.len(),
            put_in(definitions@, before, at) == put_in(definitions@, before.take(place as int), at)
                + before.skip(place as int),
        ensures
            order@ == before,
            place <= before.len(),
            put_in(definitions@, before, at) == before.insert(place as int, at),
        decreases place,
    {
        let ghost front = before.take(place as int);
        let last: usize = order[place - 1];
        assert(front.last() == last);
        let other: u32 = match definitions[last].direct_rank {
            Some(other) => other,
            None => 0,
        };
        if other <= rank {
            assert(front.push(at) + before.skip(place as int) =~= before.insert(place as int, at));
            break;
        }
        assert(front.drop_last() =~= before.take(place - 1));
        assert(put_in(definitions@, front, at) + before.skip(place as int) =~= put_in(
            definitions@,
            before.take(place - 1),
            at,
        ) + before.skip(place - 1));
        place = place - 1;
        if place == 0 {
            assert(before.take(0).push(at) + before.skip(0) =~= before.insert(0, at));
        }
    }
    order.insert(place, at);
}

/// The directly called tools, by rank.
pub fn adaptive_runtime_direct_tool_definitions(catalog: &ToolCatalog) -> (direct: Vec<
    ToolDefinition,
>)
    ensures
        direct@ == direct_definitions(catalog.definitions@),
{
    let definitions = &catalog.definitions;
    let mut order: Vec<usize> = Vec::new();
    let mut i: usize = 0;
    while i < definitions.len()
        invariant
            i <= definitions@.len(),
            order@ == direct_order(definitions@, i as nat),
            forall|j: int| 0 <= j < order@.len() ==> #[trigger] order@[j] < i,
        decreases definitions@.len() - i,
    {
        if definitions[i].direct_rank.is_some() {
            put_in_order(definitions, &mut order, i);
        }
        i = i + 1;
        proof {
            law_direct_order_is_by_rank(definitions@, i as nat);
            assert forall|j: int| 0 <= j < order@.len() implies #[trigger] order@[j] < i by {
                assert(direct_order(definitions@, i as nat).contains(order@[j]));
            }
        }
    }
    let mut direct: Vec<ToolDefinition> = Vec::new();
    let mut i: usize = 0;
    while i < order.len()
        invariant
            i <= order@.len(),
            order@ == direct_order(definitions@, definitions@.len()),
            forall|j: int| 0 <= j < order@.len() ==> #[trigger] order@[j] < definitions@.len(),
            direct@.len() == i,
            forall|j: int| 0 <= j < i ==> #[trigger] direct@[j] == definitions@[order@[j] as int],
        decreases order@.len() - i,
    {
        direct.push(definitions[order[i]]);
        i = i + 1;
    }
    assert(direct@ =~= direct_definitions(definitions@));
    direct
}

/// What is declared of a tool is found under its name: the first declaration that
/// bears it, with its own visibility and rank.
pub proof fn law_declaration_is_found_under_its_name(
    definitions: Seq<ToolDefinition>,
    name: Seq<char>,
    at: int,
)
    requires
        0 <= at < definitions.len(),
        definitions[at].name@ == name,
        forall|i: int| 0 <= i < at ==> (#[trigger] definitions[i]).name@ != name,
    ensures
        defined(definitions, name) == Some(definitions[at]),
        model_visible(definitions, name) <==> definitions[at].visibility
            == ToolVisibility::ModelVisible,
        directly_called(definitions, name) <==> definitions[at].direct_rank is Some,
{
    lemma_defined_at(definitions, name, at);
}

/// A name that no declaration bears is found nowhere, is not seen and not called.
pub proof fn law_undeclared_names_are_not_found(
    definitions: Seq<ToolDefinition>,
    name: Seq<char>,
)
    requires
        forall|i: int| 0 <= i < definitions.len() ==> (#[trigger] definitions[i]).name@ != name,
    ensures
        defined(definitions, name) is None,
        !model_visible(definitions, name),
        !directly_called(definitions, name),
{
    lemma_defined_at(definitions, name, definitions.len() as int);
}

/// A declaration with a rank is put behind those of the same or a lower rank and
/// before those of a higher one: declarations of one rank keep the order in which
/// they were declared.
pub proof fn law_equal_ranks_keep_their_order(
    definitions: Seq<ToolDefinition>,
    order: Seq<usize>,
    at: usize,
)
    ensures
        order.len() == 0 ==> put_in(definitions, order, at) == seq![at],
        order.len() > 0 && rank_at(definitions, order.last()) <= rank_at(definitions, at)
            ==> put_in(definitions, order, at) == order.push(at),
        order.len() > 0 && rank_at(definitions, order.last()) > rank_at(definitions, at) ==> put_in(
            definitions,
            order,
            at,
        ) == put_in(definitions, order.drop_last(), at).push(order.last()),
{
    if order.len() == 0 {
        assert(order.push(at) =~= seq![at]);
    }
}

/// What only looks neither writes, nor runs a shell, nor asks for permission; what
/// edits files writes, in the project, and asks.
pub proof fn law_looking_and_editing_are_told_apart(definition: ToolDefinition)
    ensures
        only_observes(definition) ==> definition.contract.effect == ToolEffect::Observe
            && definition.contract.risk == ToolRisk::Read && !definition.shell_like
            && !definition.write_like && !definition.asks_permission,
        edits_files(definition) ==> definition.contract.effect == ToolEffect::Mutate
            && definition.contract.risk == ToolRisk::ProjectWrite && definition.write_like
            && !definition.shell_like && definition.asks_permission && definition.scope == Some(
            ToolScope::ProjectWrite,
        ) && definition.contract.idempotency == ToolIdempotency::NonIdempotent
            && definition.contract.approval == ToolApprovalPolicy::Standard && definition.capability
            == Some(RunnerCapabilityRequirement::FileWrite) && definition.provider
            == ToolProvider::Runner && definition.category == ToolCategory::Edit,
        !(only_observes(definition) && edits_files(definition)),
{
}

/// What is declared of the three tools: running a program only looks and is read
/// from the project; writing a file and editing texts change it, one by a single path
/// and the other by a list of them.
pub proof fn law_declared_tools_do_what_they_are_for(
    program: ToolDefinition,
    write: ToolDefinition,
    edit: ToolDefinition,
)
    requires
        call_ensures(code_mode_exec_definition, (), program),
        call_ensures(write_project_file_definition, (), write),
        call_ensures(apply_text_edits_definition, (), edit),
    ensures
        program.name@ == "code_mode_exec"@ && write.name@ == "write_project_file"@ && edit.name@
            == "apply_text_edits"@,
        program.contract.effect == ToolEffect::Observe && !program.write_like
            && !program.asks_permission && program.scope == Some(ToolScope::ProjectRead)
            && program.provider == ToolProvider::Control && program.direct_rank == Some(45u32),
        write.contract.effect == ToolEffect::Mutate && write.write_like && write.asks_permission
            && write.scope == Some(ToolScope::ProjectWrite) && write.path_hint
            == ToolPathHint::SinglePath && write.direct_rank is None,
        edit.contract.effect == ToolEffect::Mutate && edit.write_like && edit.asks_permission
            && edit.scope == Some(ToolScope::ProjectWrite) && edit.path_hint
            == ToolPathHint::PathList && edit.direct_rank == Some(60u32),
        program.visibility == ToolVisibility::ModelVisible && write.visibility
            == ToolVisibility::ModelVisible && edit.visibility == ToolVisibility::ModelVisible,
{
}

} // verus!
