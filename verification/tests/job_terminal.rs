use webcodex::job_terminal::{
    envelope, fact_from_event, principal_for_auth, principal_of, same_source, source,
    source_from_snapshot, CallerIdentity, JobTerminalDeliveryState, JobTerminalEvent,
    JobTerminalRegistrationSnapshot, JobTerminalSourceIdentity, JobTerminalWaitRecord,
    JobTerminalWaitState, JobTerminalWaitStoreError, RunnerAccess, RunnerAccessGroup,
};
use webcodex::job_terminal_flow::{
    begin_wait, new_wait, recorded_outcome, registration_outcomes, step_delivery, store_failure,
    unavailable, wait_output,
    ArmAnswer, ArmStage, ArmState, ArmStep, DeliveryAnswer, DeliveryStage, DeliveryStep,
    JobTerminalDeliveryAttempt, JobTerminalDispatchOutcome, MatchedWaits, WaitMutation,
};

fn caller(user: &str, name: &str, key: &str) -> Option<CallerIdentity> {
    Some(CallerIdentity {
        user_id: Some(user.to_string()),
        username: Some(name.to_string()),
        api_key_id: Some(key.to_string()),
    })
}

fn access(name: &str) -> Option<RunnerAccess> {
    Some(RunnerAccess {
        owner_bypass: false,
        global_visibility: false,
        group: None,
        username: Some(name.to_string()),
    })
}

fn job(job_id: &str) -> JobTerminalSourceIdentity {
    JobTerminalSourceIdentity {
        job_id: job_id.to_string(),
        client_id: "runner".to_string(),
        auth_kind: "managed_owner".to_string(),
        auth_value: Some("alice".to_string()),
    }
}

fn triggered(job_id: &str, expires_at: i64) -> JobTerminalWaitRecord {
    JobTerminalWaitRecord {
        wait_id: format!("wait-{job_id}"),
        source: job(job_id),
        state: JobTerminalWaitState::Triggered,
        state_name: "triggered".to_string(),
        delivery_state: JobTerminalDeliveryState::Pending,
        delivery_name: "pending".to_string(),
        terminal_status: Some("completed".to_string()),
        terminal_outcome: Some("succeeded".to_string()),
        expires_at,
    }
}

/// A store of one wait and a carrier.
struct Host {
    wait: JobTerminalWaitRecord,
    carrier: Option<(bool, JobTerminalDispatchOutcome)>,
    preflights: usize,
    dispatches: usize,
}

impl Host {
    fn copy(&self) -> JobTerminalWaitRecord {
        let mut copy = triggered(&self.wait.source.job_id, self.wait.expires_at);
        copy.delivery_state = self.wait.delivery_state;
        copy
    }

    fn attempt_delivery(&mut self) -> JobTerminalDeliveryAttempt {
        let mut stage = DeliveryStage::Read;
        loop {
            let answer = match &stage {
                DeliveryStage::Read => DeliveryAnswer::Wait(Ok(self.copy())),
                DeliveryStage::Carrier(_) => DeliveryAnswer::Holds(self.carrier.is_some()),
                DeliveryStage::Preflight(_) => {
                    self.preflights += 1;
                    DeliveryAnswer::Holds(self.carrier.unwrap().0)
                }
                DeliveryStage::Prepare(_) => DeliveryAnswer::Claimed(Ok(
                    if self.wait.delivery_state == JobTerminalDeliveryState::Pending {
                        self.wait.delivery_state = JobTerminalDeliveryState::Other;
                        Some("attempt".to_string())
                    } else {
                        None
                    },
                )),
                DeliveryStage::Dispatch { .. } => {
                    self.dispatches += 1;
                    DeliveryAnswer::Dispatched(Some(self.carrier.unwrap().1))
                }
                DeliveryStage::Finish { delivered, .. } => {
                    self.wait.delivery_state = if *delivered {
                        JobTerminalDeliveryState::Delivered
                    } else {
                        JobTerminalDeliveryState::DeliveryUnknown
                    };
                    DeliveryAnswer::Recorded(Ok(()))
                }
            };
            match step_delivery(stage, answer) {
                DeliveryStep::Do(next) => stage = next,
                DeliveryStep::End(attempt) => return attempt,
                DeliveryStep::Failed(error) => panic!("{error:?}"),
            }
        }
    }
}

#[test]
fn terminal_wait_principal_tracks_job_visibility_not_rotating_credentials() {
    let first = principal_for_auth(&access("alice"), &caller("user-alice", "alice", "key-a"));
    let rotated = principal_for_auth(&access("alice"), &caller("user-alice", "alice", "key-b"));
    assert_eq!(first.kind, rotated.kind);
    assert_eq!(first.digest, rotated.digest);

    let bob = principal_for_auth(&access("bob"), &caller("user-bob", "bob", "key-b"));
    assert_ne!(first.digest, bob.digest);
}

#[test]
fn principals_are_digests_of_their_subject() {
    let principal = principal_of("shared_key", "abc");
    assert_eq!(principal.kind, "shared_key");
    assert_eq!(principal.digest.len(), 64);
    assert_ne!(principal.digest, principal_of("shared_key", "abd").digest);
    assert_ne!(principal.digest, principal_of("other", "abc").digest);
    let anonymous = principal_for_auth(&None, &None);
    assert_eq!(anonymous.digest, principal_for_auth(&None, &None).digest);
}

#[test]
fn logical_job_source_survives_runner_instance_transfer() {
    let snapshot = JobTerminalRegistrationSnapshot {
        job_id: "job-detached".to_string(),
        client_id: "runner".to_string(),
        runner_instance_id: "instance-old".to_string(),
        auth_group: None,
        owner_at_admission: Some("alice".to_string()),
        terminal_event: None,
        wait_expires_at: 1_900,
    };
    let event = JobTerminalEvent {
        job_id: "job-detached".to_string(),
        client_id: "runner".to_string(),
        runner_instance_id: "instance-new".to_string(),
        auth_group: None,
        owner_at_admission: Some("alice".to_string()),
        status: "completed".to_string(),
        outcome: "succeeded".to_string(),
        terminal_observed_at: 1_000,
        expires_at: 1_900,
    };
    assert!(same_source(
        &source_from_snapshot(&snapshot),
        &fact_from_event(&event).source
    ));
}

#[test]
fn sources_name_who_owns_the_job() {
    let shared = source("j", "c", &Some(RunnerAccessGroup::SharedKey("k".to_string())), &None);
    let grant = source("j", "c", &Some(RunnerAccessGroup::ProjectGrant("k".to_string())), &None);
    let open = source("j", "c", &Some(RunnerAccessGroup::OpenAnonymous), &None);
    assert!(!same_source(&shared, &grant));
    assert!(!same_source(&shared, &open));
    assert_eq!(shared.auth_value.as_deref(), Some("k"));
    let owner = source("j", "c", &None, &Some("alice".to_string()));
    assert_eq!(owner.auth_kind, "managed_owner");
    assert_eq!(owner.auth_value.as_deref(), Some("alice"));
}

#[test]
fn no_carrier_and_preflight_failure_leave_triggered_event_pending() {
    let mut host = Host {
        wait: triggered("job-no-carrier", 1_900),
        carrier: None,
        preflights: 0,
        dispatches: 0,
    };
    assert_eq!(host.attempt_delivery(), JobTerminalDeliveryAttempt::NoCarrier);
    assert_eq!(host.wait.delivery_state, JobTerminalDeliveryState::Pending);

    host.carrier = Some((false, JobTerminalDispatchOutcome::Delivered));
    assert_eq!(host.attempt_delivery(), JobTerminalDeliveryAttempt::PreflightFailed);
    assert_eq!(host.preflights, 1);
    assert_eq!(host.dispatches, 0);
    assert_eq!(host.wait.state, JobTerminalWaitState::Triggered);
    assert_eq!(host.wait.delivery_state, JobTerminalDeliveryState::Pending);
}

#[test]
fn accepted_dispatch_delivers_once_and_duplicate_scheduling_is_deduplicated() {
    let mut host = Host {
        wait: triggered("job-delivered", 2_900),
        carrier: Some((true, JobTerminalDispatchOutcome::Delivered)),
        preflights: 0,
        dispatches: 0,
    };
    assert_eq!(host.attempt_delivery(), JobTerminalDeliveryAttempt::Delivered);
    assert_eq!(host.attempt_delivery(), JobTerminalDeliveryAttempt::Deduplicated);
    assert_eq!(host.dispatches, 1);
    assert_eq!(host.wait.delivery_state, JobTerminalDeliveryState::Delivered);
}

#[test]
fn unknown_dispatch_outcome_is_fenced_and_never_silently_redispatched() {
    let mut host = Host {
        wait: triggered("job-unknown", 3_900),
        carrier: Some((true, JobTerminalDispatchOutcome::OutcomeUnknown)),
        preflights: 0,
        dispatches: 0,
    };
    assert_eq!(host.attempt_delivery(), JobTerminalDeliveryAttempt::DeliveryUnknown);
    assert_eq!(host.attempt_delivery(), JobTerminalDeliveryAttempt::Deduplicated);
    assert_eq!(host.dispatches, 1);
    assert_eq!(host.wait.delivery_state, JobTerminalDeliveryState::DeliveryUnknown);
}

#[test]
fn a_store_that_fails_ends_the_delivery() {
    let error = || JobTerminalWaitStoreError {
        code: "store_busy".to_string(),
        message: "busy".to_string(),
    };
    match step_delivery(DeliveryStage::Read, DeliveryAnswer::Wait(Err(error()))) {
        DeliveryStep::Failed(failed) => assert_eq!(failed.code, "store_busy"),
        other => panic!("{other:?}"),
    }
    let mut unfinished = triggered("j", 1);
    unfinished.terminal_status = None;
    assert!(envelope(&unfinished).is_err());
    assert_eq!(envelope(&triggered("j", 1)).unwrap().status, "completed");
    assert!(recorded_outcome(&vec![Ok(JobTerminalDeliveryAttempt::NoCarrier)]).is_ok());
    assert_eq!(
        recorded_outcome(&vec![Ok(JobTerminalDeliveryAttempt::NoCarrier), Err(error())]),
        Err("store_busy".to_string())
    );
}

fn seen(terminal: bool) -> JobTerminalRegistrationSnapshot {
    JobTerminalRegistrationSnapshot {
        job_id: "j".to_string(),
        client_id: "runner".to_string(),
        runner_instance_id: "i".to_string(),
        auth_group: None,
        owner_at_admission: Some("alice".to_string()),
        terminal_event: if terminal {
            Some(JobTerminalEvent {
                job_id: "j".to_string(),
                client_id: "runner".to_string(),
                runner_instance_id: "i".to_string(),
                auth_group: None,
                owner_at_admission: Some("alice".to_string()),
                status: "completed".to_string(),
                outcome: "succeeded".to_string(),
                terminal_observed_at: 5,
                expires_at: 99,
            })
        } else {
            None
        },
        wait_expires_at: 99,
    }
}

fn state(step: ArmStep) -> ArmState {
    match step {
        ArmStep::Do(state) => state,
        other => panic!("{other:?}"),
    }
}

#[test]
fn a_wait_is_armed_after_a_second_look() {
    let wait = new_wait(&seen(true), "key");
    assert_eq!(wait.idempotency_key, "key");
    assert_eq!(wait.already_terminal.unwrap().status, "completed");
    let armed = state(begin_wait(true, true));
    assert_eq!(armed.stage, ArmStage::FirstSnapshot);
    let armed = state(armed.step(ArmAnswer::Snapshot(Ok(seen(false)))));
    assert_eq!(armed.stage, ArmStage::Create);
    let mut waiting = triggered("j", 99);
    waiting.state = JobTerminalWaitState::Waiting;
    let armed = state(armed.step(ArmAnswer::Created(Ok(WaitMutation {
        wait: waiting,
        replayed: false,
        state_changed: true,
    }))));
    assert_eq!(armed.stage, ArmStage::SecondSnapshot);
    let armed = state(armed.step(ArmAnswer::Snapshot(Ok(seen(true)))));
    assert_eq!(armed.stage, ArmStage::Match);
    let armed = state(armed.step(ArmAnswer::Matched(Ok(MatchedWaits {
        matched_count: 1,
        candidates: vec![(principal_of("k", "s"), "wait-j".to_string())],
    }))));
    assert_eq!(armed.stage, ArmStage::Candidates);
    let armed = state(armed.step(ArmAnswer::Attempted));
    assert_eq!(armed.stage, ArmStage::Read);
}

#[test]
fn arming_that_fails_says_why() {
    assert!(matches!(begin_wait(false, true), ArmStep::Finish(_)));
    assert_eq!(
        unavailable().output.text_field("error_kind"),
        Some("job_terminal_attention_unavailable")
    );
    assert_eq!(
        store_failure("store_busy").output.text_field("error_kind"),
        Some("store_busy")
    );
    match state(begin_wait(true, true)).step(ArmAnswer::Snapshot(Err("no such job".to_string()))) {
        ArmStep::Finish(result) => {
            assert!(!result.success);
            assert_eq!(result.error.as_deref(), Some("no such job"));
            assert_eq!(result.output.text_field("error_kind"), Some("unknown_job"));
        }
        other => panic!("{other:?}"),
    }
    let armed = state(state(begin_wait(true, true)).step(ArmAnswer::Snapshot(Ok(seen(false)))));
    let mut waiting = triggered("j", 99);
    waiting.state = JobTerminalWaitState::Waiting;
    let armed = state(armed.step(ArmAnswer::Created(Ok(WaitMutation {
        wait: waiting,
        replayed: false,
        state_changed: true,
    }))));
    let mut other = seen(false);
    other.client_id = "elsewhere".to_string();
    match armed.step(ArmAnswer::Snapshot(Ok(other))) {
        ArmStep::Finish(result) => assert_eq!(
            result.output.text_field("error_kind"),
            Some("job_identity_changed")
        ),
        other => panic!("{other:?}"),
    }
    let shown = wait_output(&triggered("j", -7), true, false, true);
    assert_eq!(shown.text_field("fallback_tool"), Some("observe_jobs"));
    assert_eq!(shown.get("expires_at").and_then(|held| held.as_i64()), Some(-7));
}

#[test]
fn what_became_of_a_wait_is_observed() {
    let mut mutation =
        WaitMutation { wait: triggered("j", 99), replayed: false, state_changed: true };
    assert_eq!(
        registration_outcomes(&mutation),
        ["armed", "already_terminal_immediate_match"]
    );
    mutation.wait.state = JobTerminalWaitState::Waiting;
    assert_eq!(registration_outcomes(&mutation), ["armed"]);
    mutation.replayed = true;
    assert_eq!(registration_outcomes(&mutation), ["registration_replayed"]);
    let names = [
        (JobTerminalDeliveryAttempt::NoCarrier, "no_carrier"),
        (JobTerminalDeliveryAttempt::PreflightFailed, "preflight_failed"),
        (JobTerminalDeliveryAttempt::Deduplicated, "deduplicated"),
        (JobTerminalDeliveryAttempt::Delivered, "delivery_accepted"),
        (JobTerminalDeliveryAttempt::DeliveryUnknown, "delivery_unknown"),
    ];
    for (attempt, name) in names {
        assert_eq!(attempt.outcome(), name);
    }
}
