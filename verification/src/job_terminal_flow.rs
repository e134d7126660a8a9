//! Arming a wait for the end of a job, and delivering what it tells: what is
//! asked of the store, of the registry and of the carrier, in which order, and
//! what each answer leads to.
use crate::job_terminal;
use crate::job_terminal::{
    envelope, fact_from_event, same_source, source_from_snapshot, JobTerminalDeliveryEnvelope,
    JobTerminalDeliveryState, JobTerminalFact, JobTerminalRegistrationSnapshot,
    JobTerminalSourceIdentity, JobTerminalWaitPrincipal, JobTerminalWaitRecord,
    JobTerminalWaitState, JobTerminalWaitStoreError,
};
use crate::json;
use crate::json::{add_field, optional_text, signed_value, text_value, JsonValue};
use crate::text;
use crate::text::as_text;
use crate::tool_result;
use crate::tool_result::ToolResult;
use vstd::prelude::*;
use vstd::string::*;

verus! {

// ---- Delivering ------------------------------------------------------------------------

/// What became of a delivery.
#[derive(Debug, Clone, Copy, PartialEq, Eq, Structural)]
pub enum JobTerminalDeliveryAttempt {
    NoCarrier,
    PreflightFailed,
    Deduplicated,
    Delivered,
    DeliveryUnknown,
}

/// What is observed of an attempt to deliver.
pub open spec fn attempt_name(attempt: JobTerminalDeliveryAttempt) -> Seq<char> {
    match attempt {
        JobTerminalDeliveryAttempt::NoCarrier => "no_carrier"@,
        JobTerminalDeliveryAttempt::PreflightFailed => "preflight_failed"@,
        JobTerminalDeliveryAttempt::Deduplicated => "deduplicated"@,
        JobTerminalDeliveryAttempt::Delivered => "delivery_accepted"@,
        JobTerminalDeliveryAttempt::DeliveryUnknown => "delivery_unknown"@,
    }
}

impl JobTerminalDeliveryAttempt {
    /// What is observed of the attempt.
    pub fn outcome(&self) -> (name: &'static str)
        ensures
            name@ == attempt_name(*self),
    {
        match self {
            JobTerminalDeliveryAttempt::NoCarrier => "no_carrier",
            JobTerminalDeliveryAttempt::PreflightFailed => "preflight_failed",
            JobTerminalDeliveryAttempt::Deduplicated => "deduplicated",
            JobTerminalDeliveryAttempt::Delivered => "delivery_accepted",
            JobTerminalDeliveryAttempt::DeliveryUnknown => "delivery_unknown",
        }
    }
}

/// What a carrier says of a dispatch.
#[derive(Debug, Clone, Copy, PartialEq, Eq, Structural)]
pub enum JobTerminalDispatchOutcome {
    Delivered,
    OutcomeUnknown,
}

/// Where a delivery stands: what the driver does next.
#[derive(Debug)]
pub enum DeliveryStage {
    /// Read the wait out of the store.
    Read,
    /// Whether a carrier is installed.
    Carrier(JobTerminalWaitRecord),
    /// Ask the carrier whether it would take this.
    Preflight(JobTerminalDeliveryEnvelope),
    /// Claim the delivery in the store.
    Prepare(JobTerminalDeliveryEnvelope),
    /// Hand this to the carrier, once.
    Dispatch { told: JobTerminalDeliveryEnvelope, attempt_id: String },
    /// Record how the claimed delivery went.
    Finish { attempt_id: String, delivered: bool },
}

/// What the driver answers.
#[derive(Debug)]
pub enum DeliveryAnswer {
    /// The wait, or why it could not be read.
    Wait(Result<JobTerminalWaitRecord, JobTerminalWaitStoreError>),
    /// Whether what was asked holds.
    Holds(bool),
    /// The claim, where there is still something to claim.
    Claimed(Result<Option<String>, JobTerminalWaitStoreError>),
    /// What the carrier said; nothing where it broke down.
    Dispatched(Option<JobTerminalDispatchOutcome>),
    /// Whether the outcome was recorded.
    Recorded(Result<(), JobTerminalWaitStoreError>),
}

/// Where a step of a delivery leads.
#[derive(Debug)]
pub enum DeliveryStep {
    Do(DeliveryStage),
    End(JobTerminalDeliveryAttempt),
    Failed(JobTerminalWaitStoreError),
}

/// Whether an answer is one to the open question.
pub open spec fn delivery_fits(stage: DeliveryStage, answer: DeliveryAnswer) -> bool {
    match stage {
        DeliveryStage::Read => answer is Wait,
        DeliveryStage::Carrier(_) => answer is Holds,
        DeliveryStage::Preflight(_) => answer is Holds,
        DeliveryStage::Prepare(_) => answer is Claimed,
        DeliveryStage::Dispatch { .. } => answer is Dispatched,
        DeliveryStage::Finish { .. } => answer is Recorded,
    }
}

/// Where an answer leads. A wait that is no longer pending, or that another
/// delivery claimed, is left alone; whatever is not a confirmed delivery is
/// recorded as unknown.
pub open spec fn delivery_leads(
    stage: DeliveryStage,
    answer: DeliveryAnswer,
    step: DeliveryStep,
) -> bool {
    match (stage, answer) {
        (DeliveryStage::Read, DeliveryAnswer::Wait(Err(error))) => step == DeliveryStep::Failed(
            error,
        ),
        (DeliveryStage::Read, DeliveryAnswer::Wait(Ok(wait))) => {
            if wait.delivery_state == JobTerminalDeliveryState::Pending {
                step == DeliveryStep::Do(DeliveryStage::Carrier(wait))
            } else {
                step == DeliveryStep::End(JobTerminalDeliveryAttempt::Deduplicated)
            }
        },
        (DeliveryStage::Carrier(wait), DeliveryAnswer::Holds(installed)) => {
            if !installed {
                step == DeliveryStep::End(JobTerminalDeliveryAttempt::NoCarrier)
            } else {
                match job_terminal::envelope_of(wait) {
                    Ok(view) => step matches DeliveryStep::Do(DeliveryStage::Preflight(told))
                        && told@ == view,
                    Err(message) => step matches DeliveryStep::Failed(error) && error.code@
                        == job_terminal::invariant_code() && error.message@ == message,
                }
            }
        },
        (DeliveryStage::Preflight(told), DeliveryAnswer::Holds(accepted)) => {
            if accepted {
                step == DeliveryStep::Do(DeliveryStage::Prepare(told))
            } else {
                step == DeliveryStep::End(JobTerminalDeliveryAttempt::PreflightFailed)
            }
        },
        (DeliveryStage::Prepare(_), DeliveryAnswer::Claimed(Err(error))) => step
            == DeliveryStep::Failed(error),
        (DeliveryStage::Prepare(_), DeliveryAnswer::Claimed(Ok(None))) => step
            == DeliveryStep::End(JobTerminalDeliveryAttempt::Deduplicated),
        (DeliveryStage::Prepare(told), DeliveryAnswer::Claimed(Ok(Some(attempt_id)))) => step
            == DeliveryStep::Do(DeliveryStage::Dispatch { told, attempt_id }),
        (DeliveryStage::Dispatch { attempt_id, .. }, DeliveryAnswer::Dispatched(outcome)) => step
            == DeliveryStep::Do(
            DeliveryStage::Finish {
                attempt_id,
                delivered: outcome == Some(JobTerminalDispatchOutcome::Delivered),
            },
        ),
        (DeliveryStage::Finish { .. }, DeliveryAnswer::Recorded(Err(error))) => step
            == DeliveryStep::Failed(error),
        (DeliveryStage::Finish { delivered, .. }, DeliveryAnswer::Recorded(Ok(_))) => step
            == DeliveryStep::End(
            if delivered {
                JobTerminalDeliveryAttempt::Delivered
            } else {
                JobTerminalDeliveryAttempt::DeliveryUnknown
            },
        ),
        _ => false,
    }
}

/// How many steps a delivery can still take.
pub open spec fn delivery_steps_left(stage: DeliveryStage) -> nat {
    match stage {
        DeliveryStage::Read => 6,
        DeliveryStage::Carrier(_) => 5,
        DeliveryStage::Preflight(_) => 4,
        DeliveryStage::Prepare(_) => 3,
        DeliveryStage::Dispatch { .. } => 2,
        DeliveryStage::Finish { .. } => 1,
    }
}

/// Takes an answer.
pub fn step_delivery(stage: DeliveryStage, answer: DeliveryAnswer) -> (step: DeliveryStep)
    requires
        delivery_fits(stage, answer),
    ensures
        delivery_leads(stage, answer, step),
{
    match (stage, answer) {
        (DeliveryStage::Read, DeliveryAnswer::Wait(Err(error))) => DeliveryStep::Failed(error),
        (DeliveryStage::Read, DeliveryAnswer::Wait(Ok(wait))) => {
            if wait.delivery_state != JobTerminalDeliveryState::Pending {
                DeliveryStep::End(JobTerminalDeliveryAttempt::Deduplicated)
            } else {
                DeliveryStep::Do(DeliveryStage::Carrier(wait))
            }
        },
        (DeliveryStage::Carrier(wait), DeliveryAnswer::Holds(installed)) => {
            if !installed {
                return DeliveryStep::End(JobTerminalDeliveryAttempt::NoCarrier);
            }
            match envelope(&wait) {
                Ok(told) => DeliveryStep::Do(DeliveryStage::Preflight(told)),
                Err(error) => DeliveryStep::Failed(error),
            }
        },
        (DeliveryStage::Preflight(told), DeliveryAnswer::Holds(accepted)) => {
            if accepted {
                DeliveryStep::Do(DeliveryStage::Prepare(told))
            } else {
                DeliveryStep::End(JobTerminalDeliveryAttempt::PreflightFailed)
            }
        },
        (DeliveryStage::Prepare(_), DeliveryAnswer::Claimed(Err(error))) => {
            DeliveryStep::Failed(error)
        },
        (DeliveryStage::Prepare(_), DeliveryAnswer::Claimed(Ok(None))) => {
            DeliveryStep::End(JobTerminalDeliveryAttempt::Deduplicated)
        },
        (DeliveryStage::Prepare(told), DeliveryAnswer::Claimed(Ok(Some(attempt_id)))) => {
            DeliveryStep::Do(DeliveryStage::Dispatch { told, attempt_id })
        },
        (DeliveryStage::Dispatch { attempt_id, .. }, DeliveryAnswer::Dispatched(outcome)) => {
            let delivered = match outcome {
                Some(JobTerminalDispatchOutcome::Delivered) => true,
                _ => false,
            };
            DeliveryStep::Do(DeliveryStage::Finish { attempt_id, delivered })
        },
        (DeliveryStage::Finish { .. }, DeliveryAnswer::Recorded(Err(error))) => {
            DeliveryStep::Failed(error)
        },
        (DeliveryStage::Finish { delivered, .. }, DeliveryAnswer::Recorded(Ok(_))) => {
            if delivered {
                DeliveryStep::End(JobTerminalDeliveryAttempt::Delivered)
            } else {
                DeliveryStep::End(JobTerminalDeliveryAttempt::DeliveryUnknown)
            }
        },
        _ => vstd::pervasive::unreached(),
    }
}

/// The place of the first delivery that failed, or their number.
pub open spec fn first_failure(
    results: Seq<Result<JobTerminalDeliveryAttempt, JobTerminalWaitStoreError>>,
) -> nat
    decreases results.len(),
{
    if results.len() == 0 || results[0] is Err {
        0
    } else {
        1 + first_failure(results.drop_first())
    }
}

/// What recording the end of a job comes to: every delivery was attempted, and
/// the first that failed gives its code.
pub fn recorded_outcome(
    results: &Vec<Result<JobTerminalDeliveryAttempt, JobTerminalWaitStoreError>>,
) -> (outcome: Result<(), String>)
    ensures
        match outcome {
            Ok(_) => first_failure(results@) == results@.len(),
            Err(code) => first_failure(results@) < results@.len() && (results@[first_failure(
                results@,
            ) as int] matches Err(error) && error.code@ == code@),
        },
{
    let mut i: usize = 0;
    assert(results@.skip(0) =~= results@);
    while i < results.len()
        invariant
            i <= results@.len(),
            first_failure(results@) == i + first_failure(results@.skip(i as int)),
        decreases results@.len() - i,
    {
        match &results[i] {
            Err(error) => {
                return Err(error.code.clone());
            },
            Ok(_) => {},
        }
        assert(results@.skip(i as int).drop_first() =~= results@.skip(i + 1));
        i = i + 1;
    }
    Ok(())
}

// ---- Arming ----------------------------------------------------------------------------

/// A wait to be stored.
#[derive(Debug)]
pub struct NewJobTerminalWait {
    pub source: JobTerminalSourceIdentity,
    pub idempotency_key: String,
    pub expires_at: i64,
    pub already_terminal: Option<JobTerminalFact>,
}

/// The wait that a request for a job of the registry stores: where the job has
/// ended already, with its end.
pub fn new_wait(snapshot: &JobTerminalRegistrationSnapshot, idempotency_key: &str) -> (wait:
    NewJobTerminalWait)
    ensures
        wait.source@ == job_terminal::snapshot_source(*snapshot),
        wait.idempotency_key@ == idempotency_key@,
        wait.expires_at == snapshot.wait_expires_at,
        match snapshot.terminal_event {
            None => wait.already_terminal is None,
            Some(event) => wait.already_terminal matches Some(fact) && fact.source@
                == job_terminal::event_source(event) && fact.status@ == event.status@
                && fact.outcome@ == event.outcome@ && fact.terminal_observed_at
                == event.terminal_observed_at && fact.expires_at == event.expires_at,
        },
{
    NewJobTerminalWait {
        source: source_from_snapshot(snapshot),
        idempotency_key: idempotency_key.to_owned(),
        expires_at: snapshot.wait_expires_at,
        already_terminal: match &snapshot.terminal_event {
            Some(event) => Some(fact_from_event(event)),
            None => None,
        },
    }
}

/// What storing a wait came to.
#[derive(Debug)]
pub struct WaitMutation {
    pub wait: JobTerminalWaitRecord,
    pub replayed: bool,
    pub state_changed: bool,
}

/// What is observed of a wait that was stored: one that was stored before, or a new
/// one, and of that whether the job had ended already.
pub open spec fn registration_names(mutation: WaitMutation) -> Seq<Seq<char>> {
    if mutation.replayed {
        seq!["registration_replayed"@]
    } else if mutation.wait.state == JobTerminalWaitState::Triggered {
        seq!["armed"@, "already_terminal_immediate_match"@]
    } else {
        seq!["armed"@]
    }
}

/// What is observed of a wait that was stored.
pub fn registration_outcomes(mutation: &WaitMutation) -> (outcomes: Vec<&'static str>)
    ensures
        Seq::new(outcomes@.len(), |i: int| outcomes@[i]@) == registration_names(*mutation),
{
    let mut outcomes: Vec<&'static str> = Vec::new();
    if mutation.replayed {
        outcomes.push("registration_replayed");
    } else {
        outcomes.push("armed");
        if mutation.wait.state == JobTerminalWaitState::Triggered {
            outcomes.push("already_terminal_immediate_match");
        }
    }
    assert(Seq::new(outcomes@.len(), |i: int| outcomes@[i]@) =~= registration_names(*mutation));
    outcomes
}

/// What the end of a job matched.
#[derive(Debug)]
pub struct MatchedWaits {
    pub matched_count: u64,
    /// The waits that can be delivered, and for whom.
    pub candidates: Vec<(JobTerminalWaitPrincipal, String)>,
}

/// Where the arming of a wait stands: what the driver does next.
#[derive(Debug, Clone, Copy, PartialEq, Eq, Structural)]
pub enum ArmStage {
    /// Look at the job in the registry.
    FirstSnapshot,
    /// Store the wait.
    Create,
    /// Look at the job again.
    SecondSnapshot,
    /// Match the end of the job that the second look shows.
    Match,
    /// Attempt the deliveries of the candidates; how they go does not matter here.
    Candidates,
    /// Read the wait.
    Read,
    /// Attempt the delivery of the wait.
    Deliver,
    /// Read the wait for the last time.
    LastRead,
}

/// What the driver answers.
#[derive(Debug)]
pub enum ArmAnswer {
    Snapshot(Result<JobTerminalRegistrationSnapshot, String>),
    Created(Result<WaitMutation, JobTerminalWaitStoreError>),
    Matched(Result<MatchedWaits, JobTerminalWaitStoreError>),
    Attempted,
    Wait {
        wait: Result<JobTerminalWaitRecord, JobTerminalWaitStoreError>,
        automatic_resume_available: bool,
    },
    Delivered(Result<JobTerminalDeliveryAttempt, JobTerminalWaitStoreError>),
}

/// The state of the arming of a wait.
#[derive(Debug)]
pub struct ArmState {
    pub stage: ArmStage,
    /// The job, as the last look showed it.
    pub snapshot: Option<JobTerminalRegistrationSnapshot>,
    pub wait: Option<JobTerminalWaitRecord>,
    pub replayed: bool,
    pub state_changed: bool,
    pub candidates: Vec<(JobTerminalWaitPrincipal, String)>,
}

/// Where a step of the arming leads.
#[derive(Debug)]
pub enum ArmStep {
    Do(ArmState),
    Finish(ToolResult),
}

/// Whether an answer is one to the open question.
pub open spec fn arm_fits(stage: ArmStage, answer: ArmAnswer) -> bool {
    match stage {
        ArmStage::FirstSnapshot => answer is Snapshot,
        ArmStage::Create => answer is Created,
        ArmStage::SecondSnapshot => answer is Snapshot,
        ArmStage::Match => answer is Matched,
        ArmStage::Candidates => answer is Attempted,
        ArmStage::Read => answer is Wait,
        ArmStage::Deliver => answer is Delivered,
        ArmStage::LastRead => answer is Wait,
    }
}

/// How many steps the arming can still take.
pub open spec fn arm_steps_left(stage: ArmStage) -> nat {
    match stage {
        ArmStage::FirstSnapshot => 8,
        ArmStage::Create => 7,
        ArmStage::SecondSnapshot => 6,
        ArmStage::Match => 5,
        ArmStage::Candidates => 4,
        ArmStage::Read => 3,
        ArmStage::Deliver => 2,
        ArmStage::LastRead => 1,
    }
}

/// What a state knows at its stage.
pub open spec fn arm_well_formed(state: ArmState) -> bool {
    &&& state.stage != ArmStage::FirstSnapshot ==> state.snapshot is Some
    &&& arm_steps_left(state.stage) < arm_steps_left(ArmStage::Create) ==> state.wait is Some
    &&& state.stage == ArmStage::Match ==> state.snapshot->Some_0.terminal_event is Some
}

/// A document with the kind of an error.
pub open spec fn kind_document(kind: Seq<char>) -> json::JsonView {
    json::JsonView::Object(seq![("error_kind"@, json::JsonView::Text(kind))])
}

/// A document with the kind of an error and a wait.
pub open spec fn kind_and_wait(kind: Seq<char>, wait_id: Seq<char>) -> json::JsonView {
    json::JsonView::Object(
        seq![
            ("error_kind"@, json::JsonView::Text(kind)),
            ("wait_id"@, json::JsonView::Text(wait_id)),
        ],
    )
}

/// The result where waiting is not set up.
pub open spec fn unavailable_result() -> tool_result::ToolResultView {
    tool_result::failed(
        "Job terminal attention is not configured"@,
        kind_document("job_terminal_attention_unavailable"@),
    )
}

/// The result where the store failed.
pub open spec fn store_failure_result(code: Seq<char>) -> tool_result::ToolResultView {
    tool_result::failed("Job terminal attention operation failed"@, kind_document(code))
}

/// The document of a wait.
pub open spec fn wait_document(
    wait: JobTerminalWaitRecord,
    replayed: bool,
    state_changed: bool,
    automatic_resume_available: bool,
) -> json::JsonView {
    json::JsonView::Object(
        seq![
            ("wait_id"@, json::JsonView::Text(wait.wait_id@)),
            ("job_id"@, json::JsonView::Text(wait.source.job_id@)),
            ("state"@, json::JsonView::Text(wait.state_name@)),
            ("delivery_state"@, json::JsonView::Text(wait.delivery_name@)),
            ("terminal_status"@, json::text_or_null(text::text_of(wait.terminal_status))),
            ("terminal_outcome"@, json::text_or_null(text::text_of(wait.terminal_outcome))),
            ("replayed"@, json::JsonView::Bool(replayed)),
            ("state_changed"@, json::JsonView::Bool(state_changed)),
            ("automatic_resume_available"@, json::JsonView::Bool(automatic_resume_available)),
            ("expires_at"@, json::signed_number(wait.expires_at)),
            ("fallback_tool"@, json::JsonView::Text("observe_jobs"@)),
        ],
    )
}

/// Whether a step ends with a result.
pub open spec fn ends_with(step: ArmStep, result: tool_result::ToolResultView) -> bool {
    step matches ArmStep::Finish(held) && held@ == result
}

/// Where an answer leads. A wait that is stored as waiting is armed only after a
/// second look: an end that came between the first look and the storing is
/// matched then.
pub open spec fn arm_leads(state: ArmState, answer: ArmAnswer, step: ArmStep) -> bool {
    let wait = state.wait->Some_0;
    match (state.stage, answer) {
        (ArmStage::FirstSnapshot, ArmAnswer::Snapshot(Err(error))) => ends_with(
            step,
            tool_result::failed(error@, kind_document("unknown_job"@)),
        ),
        (ArmStage::FirstSnapshot, ArmAnswer::Snapshot(Ok(snapshot))) => step == ArmStep::Do(
            ArmState { stage: ArmStage::Create, snapshot: Some(snapshot), ..state },
        ),
        (ArmStage::Create, ArmAnswer::Created(Err(error))) => ends_with(
            step,
            store_failure_result(error.code@),
        ),
        (ArmStage::Create, ArmAnswer::Created(Ok(mutation))) => step == ArmStep::Do(
            ArmState {
                stage: if mutation.wait.state == JobTerminalWaitState::Waiting {
                    ArmStage::SecondSnapshot
                } else {
                    ArmStage::Read
                },
                wait: Some(mutation.wait),
                replayed: mutation.replayed,
                state_changed: mutation.state_changed,
                ..state
            },
        ),
        (ArmStage::SecondSnapshot, ArmAnswer::Snapshot(Err(error))) => ends_with(
            step,
            tool_result::failed(error@, kind_and_wait("unknown_job"@, wait.wait_id@)),
        ),
        (ArmStage::SecondSnapshot, ArmAnswer::Snapshot(Ok(snapshot))) => {
            if job_terminal::snapshot_source(snapshot) != job_terminal::snapshot_source(
                state.snapshot->Some_0,
            ) {
                ends_with(
                    step,
                    tool_result::failed(
                        "Job identity changed while terminal attention was being armed"@,
                        kind_and_wait("job_identity_changed"@, wait.wait_id@),
                    ),
                )
            } else {
                step == ArmStep::Do(
                    ArmState {
                        stage: if snapshot.terminal_event is Some {
                            ArmStage::Match
                        } else {
                            ArmStage::Read
                        },
                        snapshot: Some(snapshot),
                        ..state
                    },
                )
            }
        },
        (ArmStage::Match, ArmAnswer::Matched(Err(error))) => ends_with(
            step,
            store_failure_result(error.code@),
        ),
        (ArmStage::Match, ArmAnswer::Matched(Ok(matched))) => step == ArmStep::Do(
            ArmState {
                stage: ArmStage::Candidates,
                state_changed: state.state_changed || matched.matched_count > 0,
                candidates: matched.candidates,
                ..state
            },
        ),
        (ArmStage::Candidates, _) => step == ArmStep::Do(
            ArmState { stage: ArmStage::Read, ..state },
        ),
        (ArmStage::Read, ArmAnswer::Wait { wait: Err(error), .. }) => ends_with(
            step,
            store_failure_result(error.code@),
        ),
        (
            ArmStage::Read,
            ArmAnswer::Wait { wait: Ok(read), automatic_resume_available },
        ) => {
            if read.state == JobTerminalWaitState::Triggered {
                step == ArmStep::Do(
                    ArmState { stage: ArmStage::Deliver, wait: Some(read), ..state },
                )
            } else {
                ends_with(
                    step,
                    tool_result::succeeded(
                        wait_document(
                            read,
                            state.replayed,
                            state.state_changed,
                            automatic_resume_available,
                        ),
                    ),
                )
            }
        },
        (ArmStage::Deliver, ArmAnswer::Delivered(Err(error))) => ends_with(
            step,
            store_failure_result(error.code@),
        ),
        (ArmStage::Deliver, ArmAnswer::Delivered(Ok(attempt))) => step == ArmStep::Do(
            ArmState {
                stage: ArmStage::LastRead,
                state_changed: state.state_changed || attempt
                    == JobTerminalDeliveryAttempt::Delivered || attempt
                    == JobTerminalDeliveryAttempt::DeliveryUnknown,
                ..state
            },
        ),
        (ArmStage::LastRead, ArmAnswer::Wait { wait: Err(error), .. }) => ends_with(
            step,
            store_failure_result(error.code@),
        ),
        (
            ArmStage::LastRead,
            ArmAnswer::Wait { wait: Ok(read), automatic_resume_available },
        ) => ends_with(
            step,
            tool_result::succeeded(
                wait_document(
                    read,
                    state.replayed,
                    state.state_changed,
                    automatic_resume_available,
                ),
            ),
        ),
        _ => false,
    }
}

fn kind_output(kind: &str) -> (document: JsonValue)
    ensures
        document@ == kind_document(kind@),
{
    let mut fields: Vec<(String, JsonValue)> = Vec::new();
    add_field(&mut fields, "error_kind", text_value(kind));
    proof {
        json::lemma_object_view(fields);
        assert(json::fields_view(fields@) =~= kind_document(kind@)->Object_0);
    }
    JsonValue::Object(fields)
}

fn kind_and_wait_output(kind: &str, wait_id: &str) -> (document: JsonValue)
    ensures
        document@ == kind_and_wait(kind@, wait_id@),
{
    let mut fields: Vec<(String, JsonValue)> = Vec::new();
    add_field(&mut fields, "error_kind", text_value(kind));
    add_field(&mut fields, "wait_id", text_value(wait_id));
    proof {
        json::lemma_object_view(fields);
        assert(json::fields_view(fields@) =~= kind_and_wait(kind@, wait_id@)->Object_0);
    }
    JsonValue::Object(fields)
}

/// The result where waiting is not set up.
pub fn unavailable() -> (result: ToolResult)
    ensures
        result@ == unavailable_result(),
{
    ToolResult::err_with_output(
        "Job terminal attention is not configured",
        kind_output("job_terminal_attention_unavailable"),
    )
}

/// The result where the store failed.
pub fn store_failure(code: &str) -> (result: ToolResult)
    ensures
        result@ == store_failure_result(code@),
{
    ToolResult::err_with_output("Job terminal attention operation failed", kind_output(code))
}

/// The document of a wait.
pub fn wait_output(
    wait: &JobTerminalWaitRecord,
    replayed: bool,
    state_changed: bool,
    automatic_resume_available: bool,
) -> (document: JsonValue)
    ensures
        document@ == wait_document(*wait, replayed, state_changed, automatic_resume_available),
{
    let mut fields: Vec<(String, JsonValue)> = Vec::new();
    add_field(&mut fields, "wait_id", text_value(wait.wait_id.as_str()));
    add_field(&mut fields, "job_id", text_value(wait.source.job_id.as_str()));
    add_field(&mut fields, "state", text_value(wait.state_name.as_str()));
    add_field(&mut fields, "delivery_state", text_value(wait.delivery_name.as_str()));
    add_field(&mut fields, "terminal_status", optional_text(as_text(&wait.terminal_status)));
    add_field(&mut fields, "terminal_outcome", optional_text(as_text(&wait.terminal_outcome)));
    add_field(&mut fields, "replayed", JsonValue::Bool(replayed));
    add_field(&mut fields, "state_changed", JsonValue::Bool(state_changed));
    add_field(
        &mut fields,
        "automatic_resume_available",
        JsonValue::Bool(automatic_resume_available),
    );
    add_field(&mut fields, "expires_at", signed_value(wait.expires_at));
    add_field(&mut fields, "fallback_tool", text_value("observe_jobs"));
    proof {
        json::lemma_object_view(fields);
        assert(json::fields_view(fields@) =~= wait_document(
            *wait,
            replayed,
            state_changed,
            automatic_resume_available,
        )->Object_0);
    }
    JsonValue::Object(fields)
}

/// Begins to arm a wait, where there is a store and a carrier for deliveries.
pub fn begin_wait(has_store: bool, has_controller: bool) -> (step: ArmStep)
    ensures
        match step {
            ArmStep::Finish(result) => !(has_store && has_controller) && result@
                == unavailable_result(),
            ArmStep::Do(state) => has_store && has_controller && state.stage
                == ArmStage::FirstSnapshot && state.snapshot is None && state.wait is None
                && !state.replayed && !state.state_changed && state.candidates@.len() == 0
                && arm_well_formed(state),
        },
{
    if !has_store || !has_controller {
        return ArmStep::Finish(unavailable());
    }
    ArmStep::Do(
        ArmState {
            stage: ArmStage::FirstSnapshot,
            snapshot: None,
            wait: None,
            replayed: false,
            state_changed: false,
            candidates: Vec::new(),
        },
    )
}

impl ArmState {
    fn go(self, stage: ArmStage) -> (step: ArmStep)
        ensures
            step == ArmStep::Do(ArmState { stage, ..self }),
    {
        let mut state = self;
        state.stage = stage;
        ArmStep::Do(state)
    }

    fn wait_id(&self) -> (id: &str)
        requires
            self.wait is Some,
        ensures
            id@ == self.wait->Some_0.wait_id@,
    {
        match &self.wait {
            Some(wait) => wait.wait_id.as_str(),
            None => vstd::pervasive::unreached(),
        }
    }

    fn finish(&self, wait: &JobTerminalWaitRecord, automatic_resume_available: bool) -> (step:
        ArmStep)
        ensures
            ends_with(
                step,
                tool_result::succeeded(
                    wait_document(
                        *wait,
                        self.replayed,
                        self.state_changed,
                        automatic_resume_available,
                    ),
                ),
            ),
    {
        ArmStep::Finish(
            ToolResult::ok(
                wait_output(wait, self.replayed, self.state_changed, automatic_resume_available),
            ),
        )
    }

    fn second_look(self, snapshot: JobTerminalRegistrationSnapshot) -> (step: ArmStep)
        requires
            arm_well_formed(self),
            self.stage == ArmStage::SecondSnapshot,
        ensures
            arm_leads(self, ArmAnswer::Snapshot(Ok(snapshot)), step),
    {
        let first = match &self.snapshot {
            Some(first) => source_from_snapshot(first),
            None => vstd::pervasive::unreached(),
        };
        if !same_source(&source_from_snapshot(&snapshot), &first) {
            return ArmStep::Finish(
                ToolResult::err_with_output(
                    "Job identity changed while terminal attention was being armed",
                    kind_and_wait_output("job_identity_changed", self.wait_id()),
                ),
            );
        }
        let mut state = self;
        let ended = snapshot.terminal_event.is_some();
        state.snapshot = Some(snapshot);
        if ended {
            state.go(ArmStage::Match)
        } else {
            state.go(ArmStage::Read)
        }
    }

    /// Takes an answer.
    pub fn step(self, answer: ArmAnswer) -> (step: ArmStep)
        requires
            arm_well_formed(self),
            arm_fits(self.stage, answer),
        ensures
            arm_leads(self, answer, step),
            step matches ArmStep::Do(state) ==> arm_well_formed(state) && arm_steps_left(
                state.stage,
            ) < arm_steps_left(self.stage),
    {
        let mut state = self;
        match (state.stage, answer) {
            (ArmStage::FirstSnapshot, ArmAnswer::Snapshot(Err(error))) => ArmStep::Finish(
                ToolResult::err_with_output(error.as_str(), kind_output("unknown_job")),
            ),
            (ArmStage::FirstSnapshot, ArmAnswer::Snapshot(Ok(snapshot))) => {
                state.snapshot = Some(snapshot);
                state.go(ArmStage::Create)
            },
            (ArmStage::Create, ArmAnswer::Created(Err(error))) => {
                ArmStep::Finish(store_failure(error.code.as_str()))
            },
            (ArmStage::Create, ArmAnswer::Created(Ok(mutation))) => {
                let waiting = mutation.wait.state == JobTerminalWaitState::Waiting;
                state.replayed = mutation.replayed;
                state.state_changed = mutation.state_changed;
                state.wait = Some(mutation.wait);
                if waiting {
                    state.go(ArmStage::SecondSnapshot)
                } else {
                    state.go(ArmStage::Read)
                }
            },
            (ArmStage::SecondSnapshot, ArmAnswer::Snapshot(Err(error))) => ArmStep::Finish(
                ToolResult::err_with_output(
                    error.as_str(),
                    kind_and_wait_output("unknown_job", state.wait_id()),
                ),
            ),
            (ArmStage::SecondSnapshot, ArmAnswer::Snapshot(Ok(snapshot))) => {
                state.second_look(snapshot)
            },
            (ArmStage::Match, ArmAnswer::Matched(Err(error))) => {
                ArmStep::Finish(store_failure(error.code.as_str()))
            },
            (ArmStage::Match, ArmAnswer::Matched(Ok(matched))) => {
                state.state_changed = state.state_changed || matched.matched_count > 0;
                state.candidates = matched.candidates;
                state.go(ArmStage::Candidates)
            },
            (ArmStage::Candidates, _) => state.go(ArmStage::Read),
            (ArmStage::Read, ArmAnswer::Wait { wait: Err(error), .. }) => {
                ArmStep::Finish(store_failure(error.code.as_str()))
            },
            (ArmStage::Read, ArmAnswer::Wait { wait: Ok(read), automatic_resume_available }) => {
                if read.state == JobTerminalWaitState::Triggered {
                    state.wait = Some(read);
                    state.go(ArmStage::Deliver)
                } else {
                    state.finish(&read, automatic_resume_available)
                }
            },
            (ArmStage::Deliver, ArmAnswer::Delivered(Err(error))) => {
                ArmStep::Finish(store_failure(error.code.as_str()))
            },
            (ArmStage::Deliver, ArmAnswer::Delivered(Ok(attempt))) => {
                match attempt {
                    JobTerminalDeliveryAttempt::Delivered
                    | JobTerminalDeliveryAttempt::DeliveryUnknown => {
                        state.state_changed = true;
                    },
                    _ => {},
                }
                state.go(ArmStage::LastRead)
            },
            (ArmStage::LastRead, ArmAnswer::Wait { wait: Err(error), .. }) => {
                ArmStep::Finish(store_failure(error.code.as_str()))
            },
            (
                ArmStage::LastRead,
                ArmAnswer::Wait { wait: Ok(read), automatic_resume_available },
            ) => state.finish(&read, automatic_resume_available),
            _ => vstd::pervasive::unreached(),
        }
    }
}

// ---- Laws ----------------------------------------------------------------------------------

/// A carrier is handed something only after the store granted a claim on it, and
/// each claim leads to exactly one dispatch: behind it comes only the record of
/// its outcome.
pub proof fn law_each_claim_is_dispatched_once(
    stage: DeliveryStage,
    answer: DeliveryAnswer,
    step: DeliveryStep,
)
    requires
        delivery_fits(stage, answer),
        delivery_leads(stage, answer, step),
    ensures
        step matches DeliveryStep::Do(DeliveryStage::Dispatch { attempt_id, .. }) ==> answer
            == DeliveryAnswer::Claimed(Ok(Some(attempt_id))),
        stage is Dispatch ==> (step matches DeliveryStep::Do(after) && after is Finish),
        step matches DeliveryStep::Do(after) ==> delivery_steps_left(after)
            < delivery_steps_left(stage),
{
}

/// A delivery that was not confirmed is never reported as delivered, and one whose
/// outcome is open is recorded as not delivered.
pub proof fn law_unconfirmed_delivery_is_unknown(
    told: JobTerminalDeliveryEnvelope,
    attempt_id: String,
    outcome: Option<JobTerminalDispatchOutcome>,
    step: DeliveryStep,
)
    requires
        delivery_leads(
            DeliveryStage::Dispatch { told, attempt_id },
            DeliveryAnswer::Dispatched(outcome),
            step,
        ),
        outcome != Some(JobTerminalDispatchOutcome::Delivered),
    ensures
        step == DeliveryStep::Do(DeliveryStage::Finish { attempt_id, delivered: false }),
        delivery_leads(
            DeliveryStage::Finish { attempt_id, delivered: false },
            DeliveryAnswer::Recorded(Ok(())),
            DeliveryStep::End(JobTerminalDeliveryAttempt::DeliveryUnknown),
        ),
{
}

/// A wait that is not pending any more is not delivered again.
pub proof fn law_settled_wait_is_not_delivered_again(
    wait: JobTerminalWaitRecord,
    step: DeliveryStep,
)
    requires
        wait.delivery_state != JobTerminalDeliveryState::Pending,
        delivery_leads(DeliveryStage::Read, DeliveryAnswer::Wait(Ok(wait)), step),
    ensures
        step == DeliveryStep::End(JobTerminalDeliveryAttempt::Deduplicated),
{
}

/// Where a wait was stored as waiting, the job is looked at again before the
/// arming ends well: an end that came in between is not missed.
pub proof fn law_waiting_is_followed_by_a_second_look(
    state: ArmState,
    mutation: WaitMutation,
    step: ArmStep,
)
    requires
        arm_well_formed(state),
        state.stage == ArmStage::Create,
        mutation.wait.state == JobTerminalWaitState::Waiting,
        arm_leads(state, ArmAnswer::Created(Ok(mutation)), step),
    ensures
        step matches ArmStep::Do(after) && after.stage == ArmStage::SecondSnapshot,
{
}

/// A second look that shows the end of the same job leads to its match.
pub proof fn law_late_end_is_matched(
    state: ArmState,
    snapshot: JobTerminalRegistrationSnapshot,
    step: ArmStep,
)
    requires
        arm_well_formed(state),
        state.stage == ArmStage::SecondSnapshot,
        snapshot.terminal_event is Some,
        job_terminal::snapshot_source(snapshot) == job_terminal::snapshot_source(
            state.snapshot->Some_0,
        ),
        arm_leads(state, ArmAnswer::Snapshot(Ok(snapshot)), step),
    ensures
        step matches ArmStep::Do(after) && after.stage == ArmStage::Match && after.snapshot
            == Some(snapshot),
{
}

/// A wait is reported as it stands in the store: by its own names, for its own job,
/// with what the caller is told of this arming and the tool that looks in place of
/// an automatic resume.
pub proof fn law_wait_is_reported_as_it_is(
    wait: JobTerminalWaitRecord,
    replayed: bool,
    state_changed: bool,
    automatic_resume_available: bool,
)
    ensures
        wait_document(wait, replayed, state_changed, automatic_resume_available) is Object,
        (wait_document(wait, replayed, state_changed, automatic_resume_available)->Object_0).len() == 11,
        wait_document(wait, replayed, state_changed, automatic_resume_available).get("wait_id"@) == Some(json::JsonView::Text(wait.wait_id@)),
        wait_document(wait, replayed, state_changed, automatic_resume_available).get("job_id"@) == Some(json::JsonView::Text(wait.source.job_id@)),
        wait_document(wait, replayed, state_changed, automatic_resume_available).get("state"@) == Some(json::JsonView::Text(wait.state_name@)),
        wait_document(wait, replayed, state_changed, automatic_resume_available).get("delivery_state"@) == Some(json::JsonView::Text(wait.delivery_name@)),
        wait_document(wait, replayed, state_changed, automatic_resume_available).get("terminal_status"@) == Some(match wait.terminal_status {
            Some(status) => json::JsonView::Text(status@),
            None => json::JsonView::Null,
        }),
        wait_document(wait, replayed, state_changed, automatic_resume_available).get("terminal_outcome"@) == Some(match wait.terminal_outcome {
            Some(outcome) => json::JsonView::Text(outcome@),
            None => json::JsonView::Null,
        }),
        wait_document(wait, replayed, state_changed, automatic_resume_available).get("replayed"@) == Some(json::JsonView::Bool(replayed)),
        wait_document(wait, replayed, state_changed, automatic_resume_available).get("state_changed"@) == Some(json::JsonView::Bool(state_changed)),
        wait_document(wait, replayed, state_changed, automatic_resume_available).get("automatic_resume_available"@) == Some(json::JsonView::Bool(automatic_resume_available)),
        wait_document(wait, replayed, state_changed, automatic_resume_available).get("expires_at"@) == Some(json::signed_number(wait.expires_at)),
        wait_document(wait, replayed, state_changed, automatic_resume_available).get("fallback_tool"@) == Some(json::JsonView::Text("observe_jobs"@)),
{
    reveal_strlit("wait_id");
    reveal_strlit("job_id");
    reveal_strlit("state");
    reveal_strlit("delivery_state");
    reveal_strlit("terminal_status");
    reveal_strlit("terminal_outcome");
    reveal_strlit("replayed");
    reveal_strlit("state_changed");
    reveal_strlit("automatic_resume_available");
    reveal_strlit("expires_at");
    reveal_strlit("fallback_tool");
    assert("wait_id"@.len() == 7);
    assert("job_id"@.len() == 6);
    assert("state"@.len() == 5);
    assert("delivery_state"@.len() == 14);
    assert("terminal_status"@.len() == 15);
    assert("terminal_outcome"@.len() == 16);
    assert("replayed"@.len() == 8);
    assert("state_changed"@.len() == 13);
    assert("automatic_resume_available"@.len() == 26);
    assert("expires_at"@.len() == 10);
    assert("fallback_tool"@.len() == 13);
    assert("state_changed"@[0] != "fallback_tool"@[0]);
    let fields = wait_document(wait, replayed, state_changed, automatic_resume_available)->Object_0;
    json::law_field_is_found(fields, 0);
    json::law_field_is_found(fields, 1);
    json::law_field_is_found(fields, 2);
    json::law_field_is_found(fields, 3);
    json::law_field_is_found(fields, 4);
    json::law_field_is_found(fields, 5);
    json::law_field_is_found(fields, 6);
    json::law_field_is_found(fields, 7);
    json::law_field_is_found(fields, 8);
    json::law_field_is_found(fields, 9);
    json::law_field_is_found(fields, 10);
}

/// From the stage that reads the wait, a delivery is attempted exactly where the
/// wait that was read has come true, and it is that wait that is delivered. Any
/// other wait is reported as it was read, and nothing is delivered.
pub proof fn law_delivery_is_attempted_exactly_for_a_triggered_wait(
    state: ArmState,
    read: JobTerminalWaitRecord,
    automatic_resume_available: bool,
    step: ArmStep,
)
    requires
        state.stage == ArmStage::Read,
        arm_leads(state, ArmAnswer::Wait { wait: Ok(read), automatic_resume_available }, step),
    ensures
        read.state == JobTerminalWaitState::Triggered <==> (step matches ArmStep::Do(after)
            && after.stage == ArmStage::Deliver),
        read.state == JobTerminalWaitState::Triggered ==> (step matches ArmStep::Do(after)
            && after.wait == Some(read) && after.snapshot == state.snapshot && after.replayed
            == state.replayed && after.state_changed == state.state_changed),
        read.state != JobTerminalWaitState::Triggered ==> (step matches ArmStep::Finish(result)
            && result.success && result.error is None && result.output@.get("wait_id"@) == Some(
            json::JsonView::Text(read.wait_id@),
        ) && result.output@.get("state"@) == Some(json::JsonView::Text(read.state_name@))
            && result.output@.get("delivery_state"@) == Some(
            json::JsonView::Text(read.delivery_name@),
        ) && result.output@.get("replayed"@) == Some(json::JsonView::Bool(state.replayed))
            && result.output@.get("state_changed"@) == Some(
            json::JsonView::Bool(state.state_changed),
        ) && result.output@.get("automatic_resume_available"@) == Some(
            json::JsonView::Bool(automatic_resume_available),
        )),
{
    law_wait_is_reported_as_it_is(
        read,
        state.replayed,
        state.state_changed,
        automatic_resume_available,
    );
}

/// Behind a delivery the wait is read once more, and what is reported is the wait
/// as it was read then.
pub proof fn law_delivered_wait_is_read_again(
    state: ArmState,
    attempt: JobTerminalDeliveryAttempt,
    step: ArmStep,
    read: JobTerminalWaitRecord,
    automatic_resume_available: bool,
    last: ArmStep,
)
    requires
        state.stage == ArmStage::Deliver,
        arm_leads(state, ArmAnswer::Delivered(Ok(attempt)), step),
        step matches ArmStep::Do(after) ==> arm_leads(
            after,
            ArmAnswer::Wait { wait: Ok(read), automatic_resume_available },
            last,
        ),
    ensures
        step matches ArmStep::Do(after) && after.stage == ArmStage::LastRead && after.wait
            == state.wait && after.replayed == state.replayed,
        step matches ArmStep::Do(after) && after.state_changed == (state.state_changed || attempt
            is Delivered || attempt is DeliveryUnknown),
        last matches ArmStep::Finish(result) && result.success && result.error is None
            && result.output@.get("wait_id"@) == Some(json::JsonView::Text(read.wait_id@))
            && result.output@.get("state"@) == Some(json::JsonView::Text(read.state_name@))
            && result.output@.get("delivery_state"@) == Some(
            json::JsonView::Text(read.delivery_name@),
        ) && result.output@.get("replayed"@) == Some(json::JsonView::Bool(state.replayed))
            && result.output@.get("state_changed"@) == Some(
            json::JsonView::Bool(
                state.state_changed || attempt is Delivered || attempt is DeliveryUnknown,
            ),
        ) && result.output@.get("automatic_resume_available"@) == Some(
            json::JsonView::Bool(automatic_resume_available),
        ),
{
    law_wait_is_reported_as_it_is(
        read,
        state.replayed,
        state.state_changed || attempt is Delivered || attempt is DeliveryUnknown,
        automatic_resume_available,
    );
}

/// A job that is not known ends the arming before anything is stored; a job that
/// is known is armed as it was seen.
pub proof fn law_arming_begins_with_the_job(
    state: ArmState,
    seen: Result<JobTerminalRegistrationSnapshot, String>,
    step: ArmStep,
)
    requires
        state.stage == ArmStage::FirstSnapshot,
        arm_leads(state, ArmAnswer::Snapshot(seen), step),
    ensures
        seen matches Ok(snapshot) ==> (step matches ArmStep::Do(after) && after.stage
            == ArmStage::Create && after.snapshot == Some(snapshot) && after.wait == state.wait
            && after.replayed == state.replayed && after.state_changed == state.state_changed),
        seen matches Err(error) ==> (step matches ArmStep::Finish(result) && !result.success
            && text::text_of(result.error) == Some(error@) && result.output@.get("error_kind"@)
            == Some(json::JsonView::Text("unknown_job"@))),
{
    reveal_with_fuel(json::lookup, 2);
}

/// What is stored is what the arming goes on with, and reports: a wait that waits
/// is followed by a second look at the job, any other is read.
pub proof fn law_stored_wait_is_gone_on_with(
    state: ArmState,
    mutation: WaitMutation,
    step: ArmStep,
)
    requires
        state.stage == ArmStage::Create,
        arm_leads(state, ArmAnswer::Created(Ok(mutation)), step),
    ensures
        step matches ArmStep::Do(after) && after.wait == Some(mutation.wait) && after.replayed
            == mutation.replayed && after.state_changed == mutation.state_changed && after.snapshot
            == state.snapshot,
        step matches ArmStep::Do(after) && (mutation.wait.state == JobTerminalWaitState::Waiting
            <==> after.stage == ArmStage::SecondSnapshot),
        step matches ArmStep::Do(after) && (mutation.wait.state != JobTerminalWaitState::Waiting
            <==> after.stage == ArmStage::Read),
{
}

/// The second look goes on only with the job that was seen first: another job
/// under its name, or none, ends the arming with an error that names the wait; the
/// same job that has not ended leads to the reading of the wait, and one that has
/// ended to its match.
pub proof fn law_second_look_is_at_the_same_job(
    state: ArmState,
    seen: Result<JobTerminalRegistrationSnapshot, String>,
    step: ArmStep,
)
    requires
        arm_well_formed(state),
        state.stage == ArmStage::SecondSnapshot,
        arm_leads(state, ArmAnswer::Snapshot(seen), step),
    ensures
        seen matches Err(error) ==> (step matches ArmStep::Finish(result) && !result.success
            && text::text_of(result.error) == Some(error@) && result.output@.get("error_kind"@)
            == Some(json::JsonView::Text("unknown_job"@)) && result.output@.get("wait_id"@) == Some(
            json::JsonView::Text(state.wait->Some_0.wait_id@),
        )),
        seen matches Ok(snapshot) ==> (snapshot.job_id@ != state.snapshot->Some_0.job_id@
            || snapshot.client_id@ != state.snapshot->Some_0.client_id@ ==> (
        step matches ArmStep::Finish(result) && !result.success && result.output@.get(
            "error_kind"@,
        ) == Some(json::JsonView::Text("job_identity_changed"@)) && result.output@.get("wait_id"@)
            == Some(json::JsonView::Text(state.wait->Some_0.wait_id@)))),
        seen matches Ok(snapshot) ==> (job_terminal::snapshot_source(snapshot)
            == job_terminal::snapshot_source(state.snapshot->Some_0) ==> (
        step matches ArmStep::Do(after) && after.snapshot == Some(snapshot) && after.wait
            == state.wait && (snapshot.terminal_event is None <==> after.stage == ArmStage::Read)
            && (snapshot.terminal_event is Some <==> after.stage == ArmStage::Match))),
{
    reveal_strlit("error_kind");
    reveal_strlit("wait_id");
    assert("error_kind"@.len() == 10);
    assert("wait_id"@.len() == 7);
    reveal_with_fuel(json::lookup, 3);
}

/// What a match adds: the waits that came true are the ones whose delivery is
/// tried, and the store has changed where there was any; then the wait is read.
pub proof fn law_match_is_followed_by_its_deliveries(
    state: ArmState,
    matched: MatchedWaits,
    step: ArmStep,
)
    requires
        state.stage == ArmStage::Match,
        arm_leads(state, ArmAnswer::Matched(Ok(matched)), step),
    ensures
        step matches ArmStep::Do(after) && after.stage == ArmStage::Candidates && after.candidates
            == matched.candidates && after.wait == state.wait && after.replayed == state.replayed,
        step matches ArmStep::Do(after) && (after.state_changed <==> state.state_changed
            || matched.matched_count > 0),
{
}

/// A store that fails ends the arming with the code of that failure, at whatever
/// stage it fails, and nothing is reported of a wait.
pub proof fn law_store_failure_ends_the_arming(
    state: ArmState,
    error: JobTerminalWaitStoreError,
    answer: ArmAnswer,
    step: ArmStep,
)
    requires
        match state.stage {
            ArmStage::Create => answer == ArmAnswer::Created(Err(error)),
            ArmStage::Match => answer == ArmAnswer::Matched(Err(error)),
            ArmStage::Read | ArmStage::LastRead => answer matches ArmAnswer::Wait { wait, .. }
                && wait == Err::<JobTerminalWaitRecord, JobTerminalWaitStoreError>(error),
            ArmStage::Deliver => answer == ArmAnswer::Delivered(Err(error)),
            _ => false,
        },
        arm_leads(state, answer, step),
    ensures
        step matches ArmStep::Finish(result) && !result.success && result.output@.get(
            "error_kind"@,
        ) == Some(json::JsonView::Text(error.code@)) && text::text_of(result.error) == Some(
            "Job terminal attention operation failed"@,
        ),
{
    reveal_with_fuel(json::lookup, 2);
}

/// The way of a delivery: a pending wait is shown to the carrier that is
/// installed, the carrier's consent is followed by a claim, the claim by one
/// dispatch, and the dispatch by its record.
pub proof fn law_delivery_goes_to_its_record(
    wait: JobTerminalWaitRecord,
    told: JobTerminalDeliveryEnvelope,
    attempt_id: String,
    outcome: Option<JobTerminalDispatchOutcome>,
    delivered: bool,
    step: DeliveryStep,
)
    ensures
        delivery_leads(DeliveryStage::Read, DeliveryAnswer::Wait(Ok(wait)), step)
            && wait.delivery_state == JobTerminalDeliveryState::Pending ==> step
            == DeliveryStep::Do(DeliveryStage::Carrier(wait)),
        delivery_leads(DeliveryStage::Carrier(wait), DeliveryAnswer::Holds(false), step) ==> step
            == DeliveryStep::End(JobTerminalDeliveryAttempt::NoCarrier),
        delivery_leads(DeliveryStage::Carrier(wait), DeliveryAnswer::Holds(true), step)
            && wait.terminal_status is Some && wait.terminal_outcome is Some ==> (
        step matches DeliveryStep::Do(DeliveryStage::Preflight(shown)) && shown@.wait_id
            == wait.wait_id@ && shown@.job_id == wait.source.job_id@ && shown@.status
            == wait.terminal_status->Some_0@ && shown@.outcome == wait.terminal_outcome->Some_0@),
        delivery_leads(DeliveryStage::Carrier(wait), DeliveryAnswer::Holds(true), step) && (
        wait.terminal_status is None || wait.terminal_outcome is None) ==> step is Failed,
        delivery_leads(DeliveryStage::Preflight(told), DeliveryAnswer::Holds(true), step) ==> step
            == DeliveryStep::Do(DeliveryStage::Prepare(told)),
        delivery_leads(DeliveryStage::Preflight(told), DeliveryAnswer::Holds(false), step) ==> step
            == DeliveryStep::End(JobTerminalDeliveryAttempt::PreflightFailed),
        delivery_leads(
            DeliveryStage::Prepare(told),
            DeliveryAnswer::Claimed(Ok(Some(attempt_id))),
            step,
        ) ==> step == DeliveryStep::Do(DeliveryStage::Dispatch { told, attempt_id }),
        delivery_leads(DeliveryStage::Prepare(told), DeliveryAnswer::Claimed(Ok(None)), step)
            ==> step == DeliveryStep::End(JobTerminalDeliveryAttempt::Deduplicated),
        delivery_leads(
            DeliveryStage::Dispatch { told, attempt_id },
            DeliveryAnswer::Dispatched(Some(JobTerminalDispatchOutcome::Delivered)),
            step,
        ) ==> step == DeliveryStep::Do(DeliveryStage::Finish { attempt_id, delivered: true }),
        delivery_leads(
            DeliveryStage::Finish { attempt_id, delivered: true },
            DeliveryAnswer::Recorded(Ok(())),
            step,
        ) ==> step == DeliveryStep::End(JobTerminalDeliveryAttempt::Delivered),
        delivery_leads(
            DeliveryStage::Finish { attempt_id, delivered: false },
            DeliveryAnswer::Recorded(Ok(())),
            step,
        ) ==> step == DeliveryStep::End(JobTerminalDeliveryAttempt::DeliveryUnknown),
{
}

/// A store that fails ends a delivery with that failure.
pub proof fn law_store_failure_ends_the_delivery(
    told: JobTerminalDeliveryEnvelope,
    attempt_id: String,
    delivered: bool,
    error: JobTerminalWaitStoreError,
    step: DeliveryStep,
)
    requires
        delivery_leads(DeliveryStage::Read, DeliveryAnswer::Wait(Err(error)), step)
            || delivery_leads(DeliveryStage::Prepare(told), DeliveryAnswer::Claimed(Err(error)), step)
            || delivery_leads(
            DeliveryStage::Finish { attempt_id, delivered },
            DeliveryAnswer::Recorded(Err(error)),
            step,
        ),
    ensures
        step == DeliveryStep::Failed(error),
{
}

/// What comes of the deliveries of one match: it went well exactly where none of
/// them failed, and where one failed it is the first of them that is told.
pub proof fn law_first_failed_delivery_is_told(
    results: Seq<Result<JobTerminalDeliveryAttempt, JobTerminalWaitStoreError>>,
)
    ensures
        first_failure(results) <= results.len(),
        first_failure(results) == results.len() <==> forall|i: int|
            0 <= i < results.len() ==> (#[trigger] results[i]) is Ok,
        first_failure(results) < results.len() ==> results[first_failure(results) as int] is Err,
        forall|i: int| 0 <= i < first_failure(results) ==> (#[trigger] results[i]) is Ok,
    decreases results.len(),
{
    if results.len() > 0 && results[0] is Ok {
        let rest = results.drop_first();
        law_first_failed_delivery_is_told(rest);
        assert forall|i: int| 0 <= i < first_failure(results) implies (#[trigger] results[i])
            is Ok by {
            if i > 0 {
                assert(rest[i - 1] == results[i]);
            }
        }
        if forall|i: int| 0 <= i < results.len() ==> (#[trigger] results[i]) is Ok {
            assert forall|i: int| 0 <= i < rest.len() implies (#[trigger] rest[i]) is Ok by {
                assert(rest[i] == results[i + 1]);
            }
        }
    }
}

/// What is observed of a wait that was stored: that it was stored before, and
/// nothing else; or that it is new, and then also that it came true at once where
/// it did.
pub proof fn law_registration_is_observed_once(mutation: WaitMutation)
    ensures
        mutation.replayed ==> registration_names(mutation) == seq!["registration_replayed"@],
        !mutation.replayed ==> registration_names(mutation).len() > 0 && registration_names(
            mutation,
        )[0] == "armed"@,
        !mutation.replayed ==> (registration_names(mutation).len() == 2 <==> mutation.wait.state
            == JobTerminalWaitState::Triggered),
        !mutation.replayed && mutation.wait.state == JobTerminalWaitState::Triggered
            ==> registration_names(mutation)[1] == "already_terminal_immediate_match"@,
{
}

/// A step of an arming from the stage that reads the wait: a triggered wait leads to
/// its delivery, and any other to its report, as it was read.
pub proof fn law_arming_delivers_what_has_come_true(
    state: ArmState,
    read: JobTerminalWaitRecord,
    automatic_resume_available: bool,
    step: ArmStep,
)
    requires
        state.stage == ArmStage::Read,
        call_ensures(
            ArmState::step,
            (state, ArmAnswer::Wait { wait: Ok(read), automatic_resume_available }),
            step,
        ),
    ensures
        step matches ArmStep::Do(after) && after.stage == ArmStage::Deliver <==> read.state
            == JobTerminalWaitState::Triggered,
        step is Finish <==> read.state != JobTerminalWaitState::Triggered,
        step matches ArmStep::Finish(result) ==> result.success && result.output@.get("wait_id"@)
            == Some(json::JsonView::Text(read.wait_id@)) && result.output@.get("state"@) == Some(
            json::JsonView::Text(read.state_name@),
        ),
{
    law_delivery_is_attempted_exactly_for_a_triggered_wait(
        state,
        read,
        automatic_resume_available,
        step,
    );
}

/// What is stored for a request is the job it was made for, as it was seen, under
/// the key of the request: until the wait expires, and with the job's end where it
/// has ended already.
pub proof fn law_stored_wait_is_of_the_job(
    snapshot: JobTerminalRegistrationSnapshot,
    idempotency_key: &str,
    wait: NewJobTerminalWait,
)
    requires
        call_ensures(new_wait, (&snapshot, idempotency_key), wait),
    ensures
        wait.source@.job_id == snapshot.job_id@,
        wait.source@.client_id == snapshot.client_id@,
        wait.source@ == job_terminal::snapshot_source(snapshot),
        wait.idempotency_key@ == idempotency_key@,
        wait.expires_at == snapshot.wait_expires_at,
        wait.already_terminal is Some <==> snapshot.terminal_event is Some,
        snapshot.terminal_event matches Some(event) ==> (wait.already_terminal matches Some(fact)
            && fact.source@.job_id == event.job_id@ && fact.status@ == event.status@
            && fact.outcome@ == event.outcome@ && fact.terminal_observed_at
            == event.terminal_observed_at && fact.expires_at == event.expires_at),
{
}

/// An arming begins only where there is a store and a controller, and from nothing:
/// without a snapshot, a wait, a change or anyone to deliver to.
pub proof fn law_arming_begins_from_nothing(has_store: bool, has_controller: bool, step: ArmStep)
    requires
        call_ensures(begin_wait, (has_store, has_controller), step),
    ensures
        step is Do <==> has_store && has_controller,
        step matches ArmStep::Do(state) ==> state.stage == ArmStage::FirstSnapshot
            && state.snapshot is None && state.wait is None && !state.replayed
            && !state.state_changed && state.candidates@.len() == 0,
        step matches ArmStep::Finish(result) ==> !result.success && result.output@.get(
            "error_kind"@,
        ) == Some(json::JsonView::Text("job_terminal_attention_unavailable"@)),
{
    reveal_with_fuel(json::lookup, 2);
}

/// What came of a delivery has a name of its own.
pub proof fn law_attempts_have_names_of_their_own(
    a: JobTerminalDeliveryAttempt,
    b: JobTerminalDeliveryAttempt,
)
    ensures
        attempt_name(a) == attempt_name(b) <==> a == b,
        attempt_name(JobTerminalDeliveryAttempt::Delivered) == "delivery_accepted"@,
        attempt_name(JobTerminalDeliveryAttempt::DeliveryUnknown) == "delivery_unknown"@,
        attempt_name(JobTerminalDeliveryAttempt::Deduplicated) == "deduplicated"@,
        attempt_name(JobTerminalDeliveryAttempt::PreflightFailed) == "preflight_failed"@,
        attempt_name(JobTerminalDeliveryAttempt::NoCarrier) == "no_carrier"@,
{
    reveal_strlit("no_carrier");
    reveal_strlit("preflight_failed");
    reveal_strlit("deduplicated");
    reveal_strlit("delivery_accepted");
    reveal_strlit("delivery_unknown");
    assert("no_carrier"@.len() == 10);
    assert("preflight_failed"@.len() == 16);
    assert("deduplicated"@.len() == 12);
    assert("delivery_accepted"@.len() == 17);
    assert("delivery_unknown"@.len() == 16);
    assert("preflight_failed"@[0] != "delivery_unknown"@[0]);
}

} // verus!
