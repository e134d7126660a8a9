//! The end of a job as something that is waited for: who may wait, which job it
//! is, and what is told about its end.
use crate::digest;
use crate::digest::{hash_field, push_text, sha256_hex};
use crate::text;
use crate::text::own_text;
use vstd::prelude::*;
use vstd::string::*;

verus! {

/// A group of callers that share access to a Runner.
#[derive(Debug)]
pub enum RunnerAccessGroup {
    SharedKey(String),
    ProjectGrant(String),
    OpenAnonymous,
}

/// The access that a caller has to Runners.
#[derive(Debug)]
pub struct RunnerAccess {
    pub owner_bypass: bool,
    pub global_visibility: bool,
    pub group: Option<RunnerAccessGroup>,
    pub username: Option<String>,
}

/// What is known of a caller.
#[derive(Debug)]
pub struct CallerIdentity {
    pub user_id: Option<String>,
    pub username: Option<String>,
    pub api_key_id: Option<String>,
}

/// For whom a wait is kept.
#[derive(Debug)]
pub struct JobTerminalWaitPrincipal {
    pub kind: String,
    pub digest: String,
}

/// The first bytes of the digest of a principal.
pub const PRINCIPAL_DOMAIN: &'static str = "webcodex.job-terminal-wait.principal.v1\0";

/// The first of three texts that is there.
pub open spec fn first_of(a: Option<Seq<char>>, b: Option<Seq<char>>, c: Option<Seq<char>>) -> Option<
    Seq<char>,
> {
    if a is Some {
        a
    } else if b is Some {
        b
    } else {
        c
    }
}

/// The kind and the subject that a caller's waits are kept under. What decides is
/// which jobs the caller can see, not by which credential.
pub open spec fn principal_subject(
    access: Option<RunnerAccess>,
    caller: Option<CallerIdentity>,
) -> (Seq<char>, Seq<char>) {
    match access {
        None => ("internal"@, "internal"@),
        Some(access) => if access.owner_bypass {
            ("bootstrap"@, "bootstrap"@)
        } else if access.global_visibility {
            let known = match caller {
                Some(caller) => first_of(
                    text::text_of(caller.user_id),
                    text::text_of(caller.username),
                    text::text_of(caller.api_key_id),
                ),
                None => None,
            };
            (
                "global_user"@,
                match known {
                    Some(subject) => subject,
                    None => "global"@,
                },
            )
        } else {
            match access.group {
                Some(RunnerAccessGroup::SharedKey(value)) => ("shared_key"@, value@),
                Some(RunnerAccessGroup::ProjectGrant(value)) => ("project_grant"@, value@),
                Some(RunnerAccessGroup::OpenAnonymous) => ("open_anonymous"@, "open_anonymous"@),
                None => (
                    "managed_owner"@,
                    match text::text_of(access.username) {
                        Some(username) => username,
                        None => "managed_unowned"@,
                    },
                ),
            }
        },
    }
}

/// The bytes whose digest names a principal.
pub open spec fn principal_bytes(kind: Seq<char>, subject: Seq<char>) -> Seq<u8> {
    vstd::utf8::encode_utf8(PRINCIPAL_DOMAIN@) + digest::framed(kind) + digest::framed(subject)
}

/// The principal of a kind and a subject.
pub fn principal_of(kind: &str, subject: &str) -> (principal: JobTerminalWaitPrincipal)
    ensures
        principal.kind@ == kind@,
        principal.digest@ == digest::sha256_of(principal_bytes(kind@, subject@)),
        principal.digest@.len() == 64,
        text::all_lower_hex(principal.digest@),
{
    let mut bytes: Vec<u8> = Vec::new();
    push_text(&mut bytes, PRINCIPAL_DOMAIN);
    hash_field(&mut bytes, kind);
    hash_field(&mut bytes, subject);
    assert(bytes@ =~= principal_bytes(kind@, subject@));
    JobTerminalWaitPrincipal { kind: kind.to_owned(), digest: sha256_hex(bytes.as_slice()) }
}

fn global_subject<'a>(caller: &'a Option<CallerIdentity>) -> (subject: &'a str)
    ensures
        subject@ == match *caller {
            Some(caller) => match first_of(
                text::text_of(caller.user_id),
                text::text_of(caller.username),
                text::text_of(caller.api_key_id),
            ) {
                Some(subject) => subject,
                None => "global"@,
            },
            None => "global"@,
        },
{
    match caller {
        Some(caller) => {
            if let Some(user_id) = &caller.user_id {
                return user_id.as_str();
            }
            if let Some(username) = &caller.username {
                return username.as_str();
            }
            if let Some(api_key_id) = &caller.api_key_id {
                return api_key_id.as_str();
            }
            "global"
        },
        None => "global",
    }
}

/// For whom the waits of a caller are kept.
pub fn principal_for_auth(access: &Option<RunnerAccess>, caller: &Option<CallerIdentity>) -> (principal:
    JobTerminalWaitPrincipal)
    ensures
        ({
            let held = principal_subject(*access, *caller);
            principal.kind@ == held.0 && principal.digest@ == digest::sha256_of(
                principal_bytes(held.0, held.1),
            )
        }),
{
    match access {
        None => principal_of("internal", "internal"),
        Some(access) => if access.owner_bypass {
            principal_of("bootstrap", "bootstrap")
        } else if access.global_visibility {
            principal_of("global_user", global_subject(caller))
        } else {
            match &access.group {
                Some(RunnerAccessGroup::SharedKey(value)) => {
                    principal_of("shared_key", value.as_str())
                },
                Some(RunnerAccessGroup::ProjectGrant(value)) => {
                    principal_of("project_grant", value.as_str())
                },
                Some(RunnerAccessGroup::OpenAnonymous) => {
                    principal_of("open_anonymous", "open_anonymous")
                },
                None => match &access.username {
                    Some(username) => principal_of("managed_owner", username.as_str()),
                    None => principal_of("managed_owner", "managed_unowned"),
                },
            }
        },
    }
}

// ---- Which job -----------------------------------------------------------------------

/// Which job a wait is for: its logical source, whichever process runs it.
#[derive(Debug)]
pub struct JobTerminalSourceIdentity {
    pub job_id: String,
    pub client_id: String,
    pub auth_kind: String,
    pub auth_value: Option<String>,
}

/// What a [`JobTerminalSourceIdentity`] stands for.
pub struct SourceView {
    pub job_id: Seq<char>,
    pub client_id: Seq<char>,
    pub auth_kind: Seq<char>,
    pub auth_value: Option<Seq<char>>,
}

impl View for JobTerminalSourceIdentity {
    type V = SourceView;

    open spec fn view(&self) -> SourceView {
        SourceView {
            job_id: self.job_id@,
            client_id: self.client_id@,
            auth_kind: self.auth_kind@,
            auth_value: text::text_of(self.auth_value),
        }
    }
}

/// The end of a job, as its Runner reports it.
#[derive(Debug)]
pub struct JobTerminalEvent {
    pub job_id: String,
    pub client_id: String,
    pub runner_instance_id: String,
    pub auth_group: Option<RunnerAccessGroup>,
    pub owner_at_admission: Option<String>,
    pub status: String,
    pub outcome: String,
    pub terminal_observed_at: i64,
    pub expires_at: i64,
}

/// What the registry knows of a job that somebody wants to wait for.
#[derive(Debug)]
pub struct JobTerminalRegistrationSnapshot {
    pub job_id: String,
    pub client_id: String,
    pub runner_instance_id: String,
    pub auth_group: Option<RunnerAccessGroup>,
    pub owner_at_admission: Option<String>,
    pub terminal_event: Option<JobTerminalEvent>,
    pub wait_expires_at: i64,
}

/// The end of a job, as it is stored.
#[derive(Debug)]
pub struct JobTerminalFact {
    pub source: JobTerminalSourceIdentity,
    pub status: String,
    pub outcome: String,
    pub terminal_observed_at: i64,
    pub expires_at: i64,
}

/// The access under which a job was admitted: the group where it has one, else
/// its owner.
pub open spec fn admission(group: Option<RunnerAccessGroup>, owner: Option<String>) -> (
    Seq<char>,
    Option<Seq<char>>,
) {
    match group {
        Some(RunnerAccessGroup::SharedKey(value)) => ("shared_key"@, Some(value@)),
        Some(RunnerAccessGroup::ProjectGrant(value)) => ("project_grant"@, Some(value@)),
        Some(RunnerAccessGroup::OpenAnonymous) => ("open_anonymous"@, None),
        None => match owner {
            Some(owner) => ("managed_owner"@, Some(owner@)),
            None => ("managed_unowned"@, None),
        },
    }
}

/// The logical source of a job.
pub open spec fn source_of(
    job_id: Seq<char>,
    client_id: Seq<char>,
    group: Option<RunnerAccessGroup>,
    owner: Option<String>,
) -> SourceView {
    SourceView {
        job_id,
        client_id,
        auth_kind: admission(group, owner).0,
        auth_value: admission(group, owner).1,
    }
}

/// The logical source of a job.
pub fn source(
    job_id: &str,
    client_id: &str,
    group: &Option<RunnerAccessGroup>,
    owner: &Option<String>,
) -> (identity: JobTerminalSourceIdentity)
    ensures
        identity@ == source_of(job_id@, client_id@, *group, *owner),
{
    let (auth_kind, auth_value): (&str, Option<&str>) = match group {
        Some(RunnerAccessGroup::SharedKey(value)) => ("shared_key", Some(value.as_str())),
        Some(RunnerAccessGroup::ProjectGrant(value)) => ("project_grant", Some(value.as_str())),
        Some(RunnerAccessGroup::OpenAnonymous) => ("open_anonymous", None),
        None => match owner {
            Some(owner) => ("managed_owner", Some(owner.as_str())),
            None => ("managed_unowned", None),
        },
    };
    JobTerminalSourceIdentity {
        job_id: job_id.to_owned(),
        client_id: client_id.to_owned(),
        auth_kind: auth_kind.to_owned(),
        auth_value: own_text(auth_value),
    }
}

/// The logical source of a job in the registry.
pub open spec fn snapshot_source(snapshot: JobTerminalRegistrationSnapshot) -> SourceView {
    source_of(
        snapshot.job_id@,
        snapshot.client_id@,
        snapshot.auth_group,
        snapshot.owner_at_admission,
    )
}

/// The logical source of a job that ended.
pub open spec fn event_source(event: JobTerminalEvent) -> SourceView {
    source_of(event.job_id@, event.client_id@, event.auth_group, event.owner_at_admission)
}

/// The logical source of a job in the registry.
pub fn source_from_snapshot(snapshot: &JobTerminalRegistrationSnapshot) -> (identity:
    JobTerminalSourceIdentity)
    ensures
        identity@ == snapshot_source(*snapshot),
{
    source(
        snapshot.job_id.as_str(),
        snapshot.client_id.as_str(),
        &snapshot.auth_group,
        &snapshot.owner_at_admission,
    )
}

/// The end of a job, as it is stored.
pub fn fact_from_event(event: &JobTerminalEvent) -> (fact: JobTerminalFact)
    ensures
        fact.source@ == event_source(*event),
        fact.status@ == event.status@,
        fact.outcome@ == event.outcome@,
        fact.terminal_observed_at == event.terminal_observed_at,
        fact.expires_at == event.expires_at,
{
    JobTerminalFact {
        source: source(
            event.job_id.as_str(),
            event.client_id.as_str(),
            &event.auth_group,
            &event.owner_at_admission,
        ),
        status: event.status.clone(),
        outcome: event.outcome.clone(),
        terminal_observed_at: event.terminal_observed_at,
        expires_at: event.expires_at,
    }
}

/// Whether two sources are the same.
pub fn same_source(a: &JobTerminalSourceIdentity, b: &JobTerminalSourceIdentity) -> (same: bool)
    ensures
        same == (a@ == b@),
{
    text::same_text(a.job_id.as_str(), b.job_id.as_str()) && text::same_text(
        a.client_id.as_str(),
        b.client_id.as_str(),
    ) && text::same_text(a.auth_kind.as_str(), b.auth_kind.as_str()) && same_value(
        &a.auth_value,
        &b.auth_value,
    )
}

fn same_value(a: &Option<String>, b: &Option<String>) -> (same: bool)
    ensures
        same == (text::text_of(*a) == text::text_of(*b)),
{
    match (a, b) {
        (Some(a), Some(b)) => text::same_text(a.as_str(), b.as_str()),
        (None, None) => true,
        _ => false,
    }
}

// ---- What is told ----------------------------------------------------------------------

/// Where a wait stands. The store may know of further states.
#[derive(Debug, Clone, Copy, PartialEq, Eq, Structural)]
pub enum JobTerminalWaitState {
    Waiting,
    Triggered,
    Other,
}

/// Where the delivery of a wait stands. The store may know of further states.
#[derive(Debug, Clone, Copy, PartialEq, Eq, Structural)]
pub enum JobTerminalDeliveryState {
    Pending,
    Delivered,
    DeliveryUnknown,
    Other,
}

/// A wait, as it is stored.
#[derive(Debug)]
pub struct JobTerminalWaitRecord {
    pub wait_id: String,
    pub source: JobTerminalSourceIdentity,
    pub state: JobTerminalWaitState,
    /// The name of the state.
    pub state_name: String,
    pub delivery_state: JobTerminalDeliveryState,
    /// The name of the state of the delivery.
    pub delivery_name: String,
    pub terminal_status: Option<String>,
    pub terminal_outcome: Option<String>,
    pub expires_at: i64,
}

/// A failure of the store.
#[derive(Debug)]
pub struct JobTerminalWaitStoreError {
    pub code: String,
    pub message: String,
}

/// What is told about the end of a job.
#[derive(Debug)]
pub struct JobTerminalDeliveryEnvelope {
    pub wait_id: String,
    pub job_id: String,
    pub status: String,
    pub outcome: String,
}

/// What a [`JobTerminalDeliveryEnvelope`] stands for.
pub struct EnvelopeView {
    pub wait_id: Seq<char>,
    pub job_id: Seq<char>,
    pub status: Seq<char>,
    pub outcome: Seq<char>,
}

impl View for JobTerminalDeliveryEnvelope {
    type V = EnvelopeView;

    open spec fn view(&self) -> EnvelopeView {
        EnvelopeView {
            wait_id: self.wait_id@,
            job_id: self.job_id@,
            status: self.status@,
            outcome: self.outcome@,
        }
    }
}

/// What a wait that came true tells; else which part of it is missing.
pub open spec fn envelope_of(wait: JobTerminalWaitRecord) -> Result<EnvelopeView, Seq<char>> {
    match (wait.terminal_status, wait.terminal_outcome) {
        (None, _) => Err("triggered Job terminal wait is missing terminal status"@),
        (_, None) => Err("triggered Job terminal wait is missing terminal outcome"@),
        (Some(status), Some(outcome)) => Ok(
            EnvelopeView {
                wait_id: wait.wait_id@,
                job_id: wait.source.job_id@,
                status: status@,
                outcome: outcome@,
            },
        ),
    }
}

/// The code of a store that broke its own rules.
pub open spec fn invariant_code() -> Seq<char> {
    "job_terminal_wait_storage_invariant"@
}

/// What a wait that came true tells.
pub fn envelope(wait: &JobTerminalWaitRecord) -> (result: Result<
    JobTerminalDeliveryEnvelope,
    JobTerminalWaitStoreError,
>)
    ensures
        match result {
            Ok(told) => envelope_of(*wait) == Ok::<EnvelopeView, Seq<char>>(told@),
            Err(error) => error.code@ == invariant_code() && envelope_of(*wait) == Err::<
                EnvelopeView,
                Seq<char>,
            >(error.message@),
        },
{
    let status = match &wait.terminal_status {
        Some(status) => status.clone(),
        None => {
            return Err(
                JobTerminalWaitStoreError {
                    code: "job_terminal_wait_storage_invariant".to_owned(),
                    message: "triggered Job terminal wait is missing terminal status".to_owned(),
                },
            );
        },
    };
    let outcome = match &wait.terminal_outcome {
        Some(outcome) => outcome.clone(),
        None => {
            return Err(
                JobTerminalWaitStoreError {
                    code: "job_terminal_wait_storage_invariant".to_owned(),
                    message: "triggered Job terminal wait is missing terminal outcome".to_owned(),
                },
            );
        },
    };
    Ok(
        JobTerminalDeliveryEnvelope {
            wait_id: wait.wait_id.clone(),
            job_id: wait.source.job_id.clone(),
            status,
            outcome,
        },
    )
}

// ---- Laws --------------------------------------------------------------------------------

/// A caller whose access stays the same keeps its waits, whichever credential it
/// presents; only with global visibility does the caller's own identity count.
pub proof fn law_principal_follows_visibility(
    access: Option<RunnerAccess>,
    first: Option<CallerIdentity>,
    second: Option<CallerIdentity>,
)
    requires
        access matches Some(held) ==> held.owner_bypass || !held.global_visibility,
    ensures
        principal_subject(access, first) == principal_subject(access, second),
{
}

/// A caller with global visibility who is known by a user id keeps its waits when
/// its key changes.
pub proof fn law_rotated_key_keeps_the_principal(
    access: RunnerAccess,
    caller: CallerIdentity,
    rotated: Option<String>,
)
    requires
        caller.user_id is Some || caller.username is Some,
    ensures
        principal_subject(Some(access), Some(caller)) == principal_subject(
            Some(access),
            Some(CallerIdentity { api_key_id: rotated, ..caller }),
        ),
{
}

/// Two principals are named by the same bytes only where their kinds and their
/// subjects are the same.
pub proof fn law_principals_are_told_apart(
    kind: Seq<char>,
    subject: Seq<char>,
    other_kind: Seq<char>,
    other_subject: Seq<char>,
)
    requires
        text::byte_len(kind) <= u64::MAX,
        text::byte_len(subject) <= u64::MAX,
        text::byte_len(other_kind) <= u64::MAX,
        text::byte_len(other_subject) <= u64::MAX,
        principal_bytes(kind, subject) == principal_bytes(other_kind, other_subject),
    ensures
        kind == other_kind,
        subject == other_subject,
{
    let domain = vstd::utf8::encode_utf8(PRINCIPAL_DOMAIN@);
    let a = digest::framed(kind) + digest::framed(subject);
    let b = digest::framed(other_kind) + digest::framed(other_subject);
    assert(a =~= principal_bytes(kind, subject).skip(domain.len() as int));
    assert(b =~= principal_bytes(other_kind, other_subject).skip(domain.len() as int));
    digest::law_framing_keeps_fields_apart(kind, subject, other_kind, other_subject);
}

/// The source of a job does not depend on the process that runs it: a snapshot
/// and an event of the same job have the same source whichever process they name.
pub proof fn law_source_survives_a_transfer(
    snapshot: JobTerminalRegistrationSnapshot,
    event: JobTerminalEvent,
)
    requires
        snapshot.job_id@ == event.job_id@,
        snapshot.client_id@ == event.client_id@,
        snapshot.auth_group == event.auth_group,
        text::text_of(snapshot.owner_at_admission) == text::text_of(event.owner_at_admission),
    ensures
        snapshot_source(snapshot) == event_source(event),
{
}

/// Whose a wait is. Where nothing is known of the access it is internal; one who may
/// pass for every owner is the bootstrap; one who sees everything is known by the
/// user id, else by the name, else by the key, and as one of all without any; and
/// anyone else by the group that let them in, or by their name.
pub proof fn law_principal_is_who_was_let_in(
    access: RunnerAccess,
    caller: CallerIdentity,
)
    ensures
        principal_subject(None, Some(caller)) == ("internal"@, "internal"@),
        access.owner_bypass ==> principal_subject(Some(access), Some(caller)) == (
            "bootstrap"@,
            "bootstrap"@,
        ),
        !access.owner_bypass && access.global_visibility ==> {
            let held = principal_subject(Some(access), Some(caller));
            &&& held.0 == "global_user"@
            &&& caller.user_id matches Some(id) ==> held.1 == id@
            &&& caller.user_id is None ==> (caller.username matches Some(name) ==> held.1 == name@)
            &&& caller.user_id is None && caller.username is None ==> (
            caller.api_key_id matches Some(key) ==> held.1 == key@)
            &&& caller.user_id is None && caller.username is None && caller.api_key_id is None
                ==> held.1 == "global"@
            &&& principal_subject(Some(access), None) == ("global_user"@, "global"@)
        },
        !access.owner_bypass && !access.global_visibility ==> {
            let held = principal_subject(Some(access), Some(caller));
            match access.group {
                Some(RunnerAccessGroup::SharedKey(value)) => held == ("shared_key"@, value@),
                Some(RunnerAccessGroup::ProjectGrant(value)) => held == ("project_grant"@, value@),
                Some(RunnerAccessGroup::OpenAnonymous) => held == (
                    "open_anonymous"@,
                    "open_anonymous"@,
                ),
                None => match access.username {
                    Some(name) => held == ("managed_owner"@, name@),
                    None => held == ("managed_owner"@, "managed_unowned"@),
                },
            }
        },
{
}

/// A job is told by its identifier, its runner and by who let it in: a shared key, a
/// grant, anyone, or its owner, each with what they are known by. Jobs that differ in
/// one of these are different sources.
pub proof fn law_source_tells_jobs_apart(
    job_id: Seq<char>,
    client_id: Seq<char>,
    group: Option<RunnerAccessGroup>,
    owner: Option<String>,
)
    ensures
        source_of(job_id, client_id, group, owner).job_id == job_id,
        source_of(job_id, client_id, group, owner).client_id == client_id,
        group matches Some(RunnerAccessGroup::SharedKey(value)) ==> source_of(
            job_id,
            client_id,
            group,
            owner,
        ).auth_kind == "shared_key"@ && source_of(job_id, client_id, group, owner).auth_value
            == Some(value@),
        group matches Some(RunnerAccessGroup::ProjectGrant(value)) ==> source_of(
            job_id,
            client_id,
            group,
            owner,
        ).auth_kind == "project_grant"@ && source_of(job_id, client_id, group, owner).auth_value
            == Some(value@),
        group == Some(RunnerAccessGroup::OpenAnonymous) ==> source_of(
            job_id,
            client_id,
            group,
            owner,
        ).auth_kind == "open_anonymous"@ && source_of(job_id, client_id, group, owner).auth_value
            is None,
        group is None ==> (owner matches Some(name) ==> source_of(
            job_id,
            client_id,
            group,
            owner,
        ).auth_kind == "managed_owner"@ && source_of(job_id, client_id, group, owner).auth_value
            == Some(name@)),
        group is None && owner is None ==> source_of(job_id, client_id, group, owner).auth_kind
            == "managed_unowned"@ && source_of(job_id, client_id, group, owner).auth_value is None,
{
}

/// The source of a snapshot and of an event is that of the job they speak of.
pub proof fn law_sources_are_of_their_own_job(
    snapshot: JobTerminalRegistrationSnapshot,
    event: JobTerminalEvent,
)
    ensures
        snapshot_source(snapshot).job_id == snapshot.job_id@,
        snapshot_source(snapshot).client_id == snapshot.client_id@,
        event_source(event).job_id == event.job_id@,
        event_source(event).client_id == event.client_id@,
        snapshot.job_id@ != event.job_id@ || snapshot.client_id@ != event.client_id@
            ==> snapshot_source(snapshot) != event_source(event),
{
}

/// What is delivered of a wait is its own: its identifier, its job and how that
/// ended. A wait that came true without that is an error, and says what is missing.
pub proof fn law_envelope_tells_of_its_wait(wait: JobTerminalWaitRecord)
    ensures
        wait.terminal_status matches Some(status) ==> (wait.terminal_outcome matches Some(outcome)
            ==> (envelope_of(wait) matches Ok(told) && told.wait_id == wait.wait_id@ && told.job_id
            == wait.source.job_id@ && told.status == status@ && told.outcome == outcome@)),
        wait.terminal_status is None ==> envelope_of(wait) == Err::<EnvelopeView, Seq<char>>(
            "triggered Job terminal wait is missing terminal status"@,
        ),
        wait.terminal_status is Some && wait.terminal_outcome is None ==> envelope_of(wait)
            == Err::<EnvelopeView, Seq<char>>(
            "triggered Job terminal wait is missing terminal outcome"@,
        ),
        invariant_code() == "job_terminal_wait_storage_invariant"@,
{
}

} // verus!
