//! The bookkeeping of the processes that the Desktop owns: who may start, what
//! an observation means, in which order and how they are stopped.
use crate::process_key::ProcessKey;
use vstd::prelude::*;
use vstd::string::*;

verus! {

/// A stop may take this many milliseconds.
pub const GRACEFUL_STOP_MS: u64 = 5000;

/// A local process has this many milliseconds to end after its input closed.
pub const LOCAL_EOF_GRACE_MS: u64 = 250;

/// While a stop waits, the process is looked at every so many milliseconds.
pub const PROCESS_POLL_MS: u64 = 20;

/// Where a process stands in its life.
#[derive(Debug, Clone, Copy, PartialEq, Eq, Structural)]
pub enum ProcessPhase {
    Starting,
    Running,
    Stopping,
    Exited,
    Failed,
}

/// What is known of a process at one moment.
#[derive(Debug, Clone, Copy, PartialEq, Eq, Structural)]
pub struct ProcessSnapshot {
    pub kind: ProcessKey,
    pub generation: u64,
    pub phase: ProcessPhase,
    pub pid: Option<u32>,
    pub exit_code: Option<i32>,
    pub owned_by_desktop: bool,
}

/// A process that the Desktop owns.
#[derive(Debug, Clone, Copy, PartialEq, Eq, Structural)]
pub struct ManagedProcess {
    pub key: ProcessKey,
    pub generation: u64,
    pub pid: u32,
    pub phase: ProcessPhase,
    pub exit_code: Option<i32>,
    pub observation_failures: u32,
}

/// The processes that the Desktop owns.
#[derive(Debug)]
pub struct ProcessSupervisor {
    pub processes: Vec<ManagedProcess>,
    pub next_generation: u64,
}

/// Why a process did not start.
#[derive(Debug, Clone, Copy, PartialEq, Eq, Structural)]
pub enum SpawnRefusal {
    AlreadyRunning,
    StopUnconfirmed,
    GenerationsExhausted,
    NotStarted,
    NoOutput,
    NoDiagnostics,
}

/// What is said of a process that did not start. `kind` is the process as it is
/// shown.
pub open spec fn refusal_message(refusal: SpawnRefusal, kind: Seq<char>) -> Seq<char> {
    match refusal {
        SpawnRefusal::AlreadyRunning => "Desktop already owns an active "@ + kind + " process"@,
        SpawnRefusal::StopUnconfirmed => "Process cleanup could not be confirmed"@,
        SpawnRefusal::GenerationsExhausted => "Process generations are exhausted"@,
        SpawnRefusal::NotStarted => "Could not start the "@ + kind + " process"@,
        SpawnRefusal::NoOutput => "Could not capture process output"@,
        SpawnRefusal::NoDiagnostics => "Could not capture process diagnostics"@,
    }
}

impl SpawnRefusal {
    /// The code of the refusal.
    pub fn code(self) -> (code: &'static str)
        ensures
            code@ == match self {
                SpawnRefusal::AlreadyRunning => "process_already_running"@,
                SpawnRefusal::StopUnconfirmed => "process_stop_unconfirmed"@,
                SpawnRefusal::GenerationsExhausted => "process_generation_exhausted"@,
                _ => "process_start_failed"@,
            },
    {
        match self {
            SpawnRefusal::AlreadyRunning => "process_already_running",
            SpawnRefusal::StopUnconfirmed => "process_stop_unconfirmed",
            SpawnRefusal::GenerationsExhausted => "process_generation_exhausted",
            _ => "process_start_failed",
        }
    }

    /// What is said of the refusal. `kind` is the process as it is shown.
    pub fn message(self, kind: &str) -> (message: String)
        ensures
            message@ == refusal_message(self, kind@),
    {
        match self {
            SpawnRefusal::AlreadyRunning => {
                let mut message = "Desktop already owns an active ".to_owned();
                message.append(kind);
                message.append(" process");
                message
            },
            SpawnRefusal::StopUnconfirmed => "Process cleanup could not be confirmed".to_owned(),
            SpawnRefusal::GenerationsExhausted => "Process generations are exhausted".to_owned(),
            SpawnRefusal::NotStarted => {
                let mut message = "Could not start the ".to_owned();
                message.append(kind);
                message.append(" process");
                message
            },
            SpawnRefusal::NoOutput => "Could not capture process output".to_owned(),
            SpawnRefusal::NoDiagnostics => "Could not capture process diagnostics".to_owned(),
        }
    }

    /// What the user can do about the refusal.
    pub fn advice(self) -> (advice: &'static str)
        ensures
            advice@ == match self {
                SpawnRefusal::AlreadyRunning => "Stop the existing Desktop-owned process first."@,
                SpawnRefusal::StopUnconfirmed => {
                    "Retry stopping the Desktop-owned process before replacing it."@
                },
                SpawnRefusal::GenerationsExhausted => "Restart Desktop."@,
                SpawnRefusal::NotStarted => {
                    "Check the configured WebCodex binaries and retry."@
                },
                _ => "Retry the operation."@,
            },
    {
        match self {
            SpawnRefusal::AlreadyRunning => "Stop the existing Desktop-owned process first.",
            SpawnRefusal::StopUnconfirmed => {
                "Retry stopping the Desktop-owned process before replacing it."
            },
            SpawnRefusal::GenerationsExhausted => "Restart Desktop.",
            SpawnRefusal::NotStarted => "Check the configured WebCodex binaries and retry.",
            _ => "Retry the operation.",
        }
    }
}

/// What has to happen before a process starts.
#[derive(Debug, Clone, Copy, PartialEq, Eq, Structural)]
pub enum SpawnAdmission {
    /// Nothing is in the way.
    Start,
    /// An ended process is still held: it has to be stopped first.
    StopFirst,
    /// The process is running.
    Refused(SpawnRefusal),
}

/// The place of the process of a key, or the number of processes.
pub open spec fn position(processes: Seq<ManagedProcess>, key: ProcessKey) -> nat
    decreases processes.len(),
{
    if processes.len() == 0 || processes[0].key == key {
        0
    } else {
        1 + position(processes.drop_first(), key)
    }
}

/// The process of a key, where one is held.
pub open spec fn held(processes: Seq<ManagedProcess>, key: ProcessKey) -> Option<ManagedProcess> {
    if position(processes, key) < processes.len() {
        Some(processes[position(processes, key) as int])
    } else {
        None
    }
}

/// What has to happen before a process of a key starts.
pub open spec fn admission_of(processes: Seq<ManagedProcess>, key: ProcessKey) -> SpawnAdmission {
    match held(processes, key) {
        None => SpawnAdmission::Start,
        Some(process) => if is_live(process.phase) || process.phase == ProcessPhase::Stopping {
            SpawnAdmission::Refused(SpawnRefusal::AlreadyRunning)
        } else {
            SpawnAdmission::StopFirst
        },
    }
}

/// Whether a process may still do its work.
pub open spec fn is_live(phase: ProcessPhase) -> bool {
    phase == ProcessPhase::Starting || phase == ProcessPhase::Running
}

/// At most one process of each key is held, and every generation that was handed
/// out lies below the next one.
pub open spec fn well_formed(supervisor: ProcessSupervisor) -> bool {
    &&& forall|i: int, j: int|
        0 <= i < j < supervisor.processes@.len() ==> (#[trigger] supervisor.processes@[i]).key != (
        #[trigger] supervisor.processes@[j]).key
    &&& forall|i: int|
        0 <= i < supervisor.processes@.len() ==> (#[trigger] supervisor.processes@[i]).generation
            < supervisor.next_generation
}

/// What the driver saw of a process.
#[derive(Debug, Clone, Copy, PartialEq, Eq, Structural)]
pub enum Observation {
    /// It ended: its exit code, where it has one, and whether that is success.
    Ended { code: Option<i32>, success: bool },
    /// It is running.
    Alive,
    /// It could not be observed; what is known of the tree of its descendants.
    Unobservable(TreeState),
}

/// What is known of the tree of a process's descendants.
#[derive(Debug, Clone, Copy, PartialEq, Eq, Structural)]
pub enum TreeState {
    Empty,
    Active,
    Unknown,
}

/// What an observation asks to be recorded.
#[derive(Debug, Clone, Copy, PartialEq, Eq, Structural)]
pub enum Notice {
    Nothing,
    /// The process ended, with success or without.
    Ended { success: bool },
    /// The process could not be observed, for the first time.
    FirstFailure,
}

/// A process after an observation. One that cannot be observed keeps running
/// only while its tree is known to be active.
pub open spec fn observed(process: ManagedProcess, seen: Observation) -> ManagedProcess {
    if !is_live(process.phase) {
        process
    } else {
        match seen {
            Observation::Ended { code, success } => ManagedProcess {
                observation_failures: 0,
                exit_code: code,
                phase: if success {
                    ProcessPhase::Exited
                } else {
                    ProcessPhase::Failed
                },
                ..process
            },
            Observation::Alive => ManagedProcess {
                observation_failures: 0,
                phase: ProcessPhase::Running,
                ..process
            },
            Observation::Unobservable(tree) => ManagedProcess {
                observation_failures: if process.observation_failures == u32::MAX {
                    u32::MAX
                } else {
                    (process.observation_failures + 1) as u32
                },
                phase: if tree == TreeState::Active {
                    ProcessPhase::Running
                } else {
                    ProcessPhase::Failed
                },
                ..process
            },
        }
    }
}

/// What an observation asks to be recorded.
pub open spec fn notice_of(process: ManagedProcess, seen: Observation) -> Notice {
    if !is_live(process.phase) {
        Notice::Nothing
    } else {
        match seen {
            Observation::Ended { success, .. } => Notice::Ended { success },
            Observation::Alive => Notice::Nothing,
            Observation::Unobservable(_) => if process.observation_failures == 0 {
                Notice::FirstFailure
            } else {
                Notice::Nothing
            },
        }
    }
}

/// The processes after one observation of each.
pub open spec fn refreshed(processes: Seq<ManagedProcess>, seen: Seq<Observation>) -> Seq<
    ManagedProcess,
> {
    Seq::new(processes.len(), |i: int| observed(processes[i], seen[i]))
}

/// What one observation of each process asks to be recorded.
pub open spec fn notices_of(processes: Seq<ManagedProcess>, seen: Seq<Observation>) -> Seq<Notice> {
    Seq::new(processes.len(), |i: int| notice_of(processes[i], seen[i]))
}

/// Whether an observation is due for a process.
pub fn needs_observation(process: &ManagedProcess) -> (due: bool)
    ensures
        due == is_live(process.phase),
{
    match process.phase {
        ProcessPhase::Starting | ProcessPhase::Running => true,
        _ => false,
    }
}

/// A process after an observation, and what is to be recorded of it.
pub fn observe_process(process: &ManagedProcess, seen: Observation) -> (result: (
    ManagedProcess,
    Notice,
))
    ensures
        result.0 == observed(*process, seen),
        result.1 == notice_of(*process, seen),
{
    let mut after = *process;
    if !needs_observation(process) {
        return (after, Notice::Nothing);
    }
    match seen {
        Observation::Ended { code, success } => {
            after.observation_failures = 0;
            after.exit_code = code;
            after.phase = if success {
                ProcessPhase::Exited
            } else {
                ProcessPhase::Failed
            };
            (after, Notice::Ended { success })
        },
        Observation::Alive => {
            after.observation_failures = 0;
            after.phase = ProcessPhase::Running;
            (after, Notice::Nothing)
        },
        Observation::Unobservable(tree) => {
            after.observation_failures = after.observation_failures.saturating_add(1);
            after.phase = match tree {
                TreeState::Active => ProcessPhase::Running,
                _ => ProcessPhase::Failed,
            };
            let notice = if after.observation_failures == 1 {
                Notice::FirstFailure
            } else {
                Notice::Nothing
            };
            (after, notice)
        },
    }
}

/// The rank of a process in the order of stopping: what is exposed to others
/// comes before the runtime that they share.
pub open spec fn stop_rank(key: ProcessKey) -> int {
    match key {
        ProcessKey::QuickShare => 0,
        ProcessKey::RegularTunnel(_) => 1,
        ProcessKey::LocalRunner => 2,
        ProcessKey::LocalServer => 3,
    }
}

/// The keys of a rank, in their order.
pub open spec fn of_rank(keys: Seq<ProcessKey>, rank: int) -> Seq<ProcessKey>
    decreases keys.len(),
{
    if keys.len() == 0 {
        Seq::empty()
    } else if stop_rank(keys.last()) == rank {
        of_rank(keys.drop_last(), rank).push(keys.last())
    } else {
        of_rank(keys.drop_last(), rank)
    }
}

/// The keys in the order of stopping; keys of one rank keep their order.
pub open spec fn stop_order_of(keys: Seq<ProcessKey>) -> Seq<ProcessKey> {
    of_rank(keys, 0) + of_rank(keys, 1) + of_rank(keys, 2) + of_rank(keys, 3)
}

/// The keys of processes.
pub open spec fn keys_of(processes: Seq<ManagedProcess>) -> Seq<ProcessKey> {
    Seq::new(processes.len(), |i: int| processes[i].key)
}

fn rank_of(key: ProcessKey) -> (rank: u8)
    ensures
        rank == stop_rank(key),
{
    match key {
        ProcessKey::QuickShare => 0,
        ProcessKey::RegularTunnel(_) => 1,
        ProcessKey::LocalRunner => 2,
        ProcessKey::LocalServer => 3,
    }
}

fn push_rank(order: &mut Vec<ProcessKey>, keys: &Vec<ProcessKey>, rank: u8)
    ensures
        final(order)@ == old(order)@ + of_rank(keys@, rank as int),
{
    let ghost before = order@;
    let mut i: usize = 0;
    assert(keys@.take(0) =~= Seq::<ProcessKey>::empty());
    assert(order@ =~= before + of_rank(keys@.take(0), rank as int));
    while i < keys.len()
        invariant
            i <= keys@.len(),
            order@ == before + of_rank(keys@.take(i as int), rank as int),
        decreases keys@.len() - i,
    {
        assert(keys@.take(i + 1).drop_last() =~= keys@.take(i as int));
        if rank_of(keys[i]) == rank {
            order.push(keys[i]);
        }
        assert(order@ =~= before + of_rank(keys@.take(i + 1), rank as int));
        i = i + 1;
    }
    assert(keys@.take(i as int) =~= keys@);
}

/// The keys in the order of stopping.
pub fn stop_order(keys: &Vec<ProcessKey>) -> (order: Vec<ProcessKey>)
    ensures
        order@ == stop_order_of(keys@),
{
    let mut order: Vec<ProcessKey> = Vec::new();
    push_rank(&mut order, keys, 0);
    push_rank(&mut order, keys, 1);
    push_rank(&mut order, keys, 2);
    push_rank(&mut order, keys, 3);
    assert(order@ =~= stop_order_of(keys@));
    order
}

proof fn lemma_position(processes: Seq<ManagedProcess>, key: ProcessKey, at: int)
    requires
        0 <= at <= processes.len(),
        forall|i: int| 0 <= i < at ==> (#[trigger] processes[i]).key != key,
        at < processes.len() ==> processes[at].key == key,
    ensures
        position(processes, key) == at,
    decreases processes.len(),
{
    if at > 0 {
        let rest = processes.drop_first();
        assert(processes[0].key != key);
        assert forall|i: int| 0 <= i < at - 1 implies (#[trigger] rest[i]).key != key by {
            assert(rest[i] == processes[i + 1]);
        }
        lemma_position(rest, key, at - 1);
    }
}

impl ProcessSupervisor {
    /// A supervisor that owns nothing.
    pub fn new() -> (supervisor: ProcessSupervisor)
        ensures
            supervisor.processes@.len() == 0,
            supervisor.next_generation == 1,
            well_formed(supervisor),
    {
        ProcessSupervisor { processes: Vec::new(), next_generation: 1 }
    }

    fn find(&self, key: ProcessKey) -> (found: Option<usize>)
        ensures
            match found {
                Some(at) => at < self.processes@.len() && position(self.processes@, key) == at
                    && self.processes@[at as int].key == key,
                None => position(self.processes@, key) == self.processes@.len(),
            },
    {
        let mut i: usize = 0;
        while i < self.processes.len()
            invariant
                i <= self.processes@.len(),
                forall|j: int| 0 <= j < i ==> (#[trigger] self.processes@[j]).key != key,
            decreases self.processes@.len() - i,
        {
            if self.processes[i].key == key {
                proof {
                    lemma_position(self.processes@, key, i as int);
                }
                return Some(i);
            }
            i = i + 1;
        }
        proof {
            lemma_position(self.processes@, key, i as int);
        }
        None
    }

    /// What has to happen before a process of this key starts.
    pub fn admission(&self, key: ProcessKey) -> (decision: SpawnAdmission)
        ensures
            decision == admission_of(self.processes@, key),
    {
        match self.find(key) {
            None => SpawnAdmission::Start,
            Some(at) => match self.processes[at].phase {
                ProcessPhase::Starting | ProcessPhase::Running | ProcessPhase::Stopping => {
                    SpawnAdmission::Refused(SpawnRefusal::AlreadyRunning)
                },
                _ => SpawnAdmission::StopFirst,
            },
        }
    }

    /// Whether a process of this key is gone after it was stopped: one that is
    /// still held may not be replaced.
    pub fn confirm_stopped(&self, key: ProcessKey) -> (result: Result<(), SpawnRefusal>)
        ensures
            result == match held(self.processes@, key) {
                None => Ok::<(), SpawnRefusal>(()),
                Some(_) => Err(SpawnRefusal::StopUnconfirmed),
            },
    {
        match self.find(key) {
            None => Ok(()),
            Some(_) => Err(SpawnRefusal::StopUnconfirmed),
        }
    }

    /// Hands out the next generation. The last number is never handed out.
    pub fn reserve_generation(&mut self) -> (result: Result<u64, SpawnRefusal>)
        requires
            well_formed(*old(self)),
        ensures
            well_formed(*final(self)),
            final(self).processes@ == old(self).processes@,
            match result {
                Ok(generation) => generation == old(self).next_generation
                    && final(self).next_generation == generation + 1,
                Err(refusal) => refusal == SpawnRefusal::GenerationsExhausted
                    && old(self).next_generation == u64::MAX && final(self).next_generation
                    == u64::MAX,
            },
    {
        let generation = self.next_generation;
        if generation == u64::MAX {
            return Err(SpawnRefusal::GenerationsExhausted);
        }
        self.next_generation = generation + 1;
        Ok(generation)
    }

    /// Takes over a process that was started.
    pub fn insert(&mut self, key: ProcessKey, generation: u64, pid: u32)
        requires
            well_formed(*old(self)),
            held(old(self).processes@, key) is None,
            generation < old(self).next_generation,
        ensures
            well_formed(*final(self)),
            final(self).next_generation == old(self).next_generation,
            final(self).processes@ == old(self).processes@.push(
                ManagedProcess {
                    key,
                    generation,
                    pid,
                    phase: ProcessPhase::Starting,
                    exit_code: None,
                    observation_failures: 0,
                },
            ),
    {
        proof {
            lemma_absent(self.processes@, key);
        }
        self.processes.push(
            ManagedProcess {
                key,
                generation,
                pid,
                phase: ProcessPhase::Starting,
                exit_code: None,
                observation_failures: 0,
            },
        );
    }

    /// Takes in one observation for each process that is held, in their order;
    /// what is to be recorded of each.
    pub fn refresh(&mut self, seen: &Vec<Observation>) -> (notices: Vec<Notice>)
        requires
            well_formed(*old(self)),
            seen@.len() == old(self).processes@.len(),
        ensures
            well_formed(*final(self)),
            final(self).next_generation == old(self).next_generation,
            final(self).processes@ == refreshed(old(self).processes@, seen@),
            notices@ == notices_of(old(self).processes@, seen@),
    {
        let ghost before = self.processes@;
        let mut notices: Vec<Notice> = Vec::new();
        let mut i: usize = 0;
        while i < self.processes.len()
            invariant
                i <= before.len(),
                before == old(self).processes@,
                self.processes@.len() == before.len(),
                seen@.len() == before.len(),
                self.next_generation == old(self).next_generation,
                notices@.len() == i,
                forall|j: int| i <= j < before.len() ==> self.processes@[j] == before[j],
                forall|j: int|
                    0 <= j < i ==> (#[trigger] self.processes@[j]) == observed(before[j], seen@[j]),
                forall|j: int|
                    0 <= j < i ==> (#[trigger] notices@[j]) == notice_of(before[j], seen@[j]),
            decreases before.len() - i,
        {
            let (after, notice) = observe_process(&self.processes[i], seen[i]);
            self.processes.set(i, after);
            notices.push(notice);
            i = i + 1;
        }
        assert(self.processes@ =~= refreshed(before, seen@));
        assert(notices@ =~= notices_of(before, seen@));
        notices
    }

    /// What is known of the process of a key.
    pub fn snapshot(&self, key: ProcessKey) -> (snapshot: Option<ProcessSnapshot>)
        ensures
            snapshot == match held(self.processes@, key) {
                None => None,
                Some(process) => Some(
                    ProcessSnapshot {
                        kind: key,
                        generation: process.generation,
                        phase: process.phase,
                        pid: Some(process.pid),
                        exit_code: process.exit_code,
                        owned_by_desktop: true,
                    },
                ),
            },
    {
        match self.find(key) {
            None => None,
            Some(at) => {
                let process = self.processes[at];
                Some(
                    ProcessSnapshot {
                        kind: key,
                        generation: process.generation,
                        phase: process.phase,
                        pid: Some(process.pid),
                        exit_code: process.exit_code,
                        owned_by_desktop: true,
                    },
                )
            },
        }
    }

    /// The keys of the processes that are held.
    pub fn keys(&self) -> (keys: Vec<ProcessKey>)
        ensures
            keys@ == keys_of(self.processes@),
    {
        let mut keys: Vec<ProcessKey> = Vec::new();
        let mut i: usize = 0;
        while i < self.processes.len()
            invariant
                i <= self.processes@.len(),
                keys@ == keys_of(self.processes@.take(i as int)),
            decreases self.processes@.len() - i,
        {
            keys.push(self.processes[i].key);
            i = i + 1;
            assert(keys@ =~= keys_of(self.processes@.take(i as int)));
        }
        assert(self.processes@.take(i as int) =~= self.processes@);
        keys
    }

    /// Whether the process of a key is of this generation: a monitor of an
    /// earlier one may not stop its replacement.
    pub fn holds_generation(&self, key: ProcessKey, generation: u64) -> (found: bool)
        ensures
            found == (held(self.processes@, key) matches Some(process) && process.generation
                == generation),
    {
        match self.find(key) {
            None => false,
            Some(at) => self.processes[at].generation == generation,
        }
    }

    /// Gives up the process of a key, for the time of its stop.
    pub fn release(&mut self, key: ProcessKey) -> (process: Option<ManagedProcess>)
        requires
            well_formed(*old(self)),
        ensures
            well_formed(*final(self)),
            final(self).next_generation == old(self).next_generation,
            process == held(old(self).processes@, key),
            held(final(self).processes@, key) is None,
            final(self).processes@ == if process is Some {
                old(self).processes@.remove(position(old(self).processes@, key) as int)
            } else {
                old(self).processes@
            },
    {
        match self.find(key) {
            None => None,
            Some(at) => {
                let ghost before = self.processes@;
                let process = self.processes.remove(at);
                proof {
                    let after = self.processes@;
                    assert forall|i: int| 0 <= i < after.len() implies (#[trigger] after[i]).key
                        != key by {
                        assert(after[i] == before[if i < at {
                            i
                        } else {
                            i + 1
                        }]);
                    }
                    lemma_position(after, key, after.len() as int);
                }
                Some(process)
            },
        }
    }

    /// Takes back a process whose end could not be confirmed.
    pub fn retain(&mut self, process: ManagedProcess)
        requires
            well_formed(*old(self)),
            held(old(self).processes@, process.key) is None,
            process.generation < old(self).next_generation,
        ensures
            well_formed(*final(self)),
            final(self).next_generation == old(self).next_generation,
            final(self).processes@ == old(self).processes@.push(
                ManagedProcess { phase: ProcessPhase::Stopping, ..process },
            ),
    {
        proof {
            lemma_absent(self.processes@, process.key);
        }
        let mut kept = process;
        kept.phase = ProcessPhase::Stopping;
        self.processes.push(kept);
    }
}

proof fn lemma_absent(processes: Seq<ManagedProcess>, key: ProcessKey)
    requires
        held(processes, key) is None,
    ensures
        forall|i: int| 0 <= i < processes.len() ==> (#[trigger] processes[i]).key != key,
    decreases processes.len(),
{
    if processes.len() > 0 {
        let rest = processes.drop_first();
        assert(held(rest, key) is None);
        lemma_absent(rest, key);
        assert forall|i: int| 0 <= i < processes.len() implies (#[trigger] processes[i]).key
            != key by {
            if i > 0 {
                assert(rest[i - 1] == processes[i]);
            }
        }
    }
}

// ---- Starting ------------------------------------------------------------------------

/// How a process is started, as far as its key decides.
#[derive(Debug, Clone, Copy, PartialEq, Eq, Structural)]
pub struct SpawnOptions {
    /// Whether its children leave the group of the process without a word: a Runner
    /// looks after its own.
    pub silent_child_breakaway: bool,
    /// Whether somebody receives the events of its output.
    pub receives_events: bool,
    /// Whether its output is read for events.
    pub parses_events: bool,
}

/// How a process is started. `machine_stdout` says whether its caller wants the
/// events of its output.
pub fn spawn_options(key: ProcessKey, machine_stdout: bool) -> (options: SpawnOptions)
    ensures
        options.silent_child_breakaway == (key == ProcessKey::LocalRunner),
        options.receives_events == machine_stdout,
        options.parses_events == (machine_stdout || key is RegularTunnel),
{
    let exposed = match key {
        ProcessKey::RegularTunnel(_) => true,
        _ => false,
    };
    SpawnOptions {
        silent_child_breakaway: key == ProcessKey::LocalRunner,
        receives_events: machine_stdout,
        parses_events: machine_stdout || exposed,
    }
}

/// Where a start stands: what the driver does next, and what it answers.
#[derive(Debug, Clone, Copy, PartialEq, Eq, Structural)]
pub enum StartStage {
    /// Observe all processes.
    Refresh,
    /// Stop the process that is still held.
    Stop,
    /// Start the process; its number, or why there is none.
    Start { generation: u64 },
}

/// What the driver answers.
#[derive(Debug, Clone, Copy)]
pub enum StartAnswer {
    Done,
    Started(Result<u32, SpawnRefusal>),
}

/// Where a step of a start leads.
#[derive(Debug, Clone, Copy, PartialEq, Eq, Structural)]
pub enum StartStep {
    Do(StartStage),
    /// The process is owned.
    Owned { generation: u64 },
    Refused(SpawnRefusal),
}

/// Whether an answer is one to the stage.
pub open spec fn start_fits(stage: StartStage, answer: StartAnswer) -> bool {
    stage is Start <==> answer is Started
}

/// What a start knows at its stage: once a process is to be started, no process of
/// its key is held and its generation was handed out.
pub open spec fn start_well_formed(
    processes: Seq<ManagedProcess>,
    next_generation: u64,
    key: ProcessKey,
    stage: StartStage,
) -> bool {
    stage matches StartStage::Start { generation } ==> held(processes, key) is None && generation
        < next_generation
}

/// What follows once nothing of the key is held: a generation, where there is one.
pub open spec fn with_generation(next_generation: u64) -> StartStep {
    if next_generation == u64::MAX {
        StartStep::Refused(SpawnRefusal::GenerationsExhausted)
    } else {
        StartStep::Do(StartStage::Start { generation: next_generation })
    }
}

/// Where an answer leads.
pub open spec fn next_start(
    processes: Seq<ManagedProcess>,
    next_generation: u64,
    key: ProcessKey,
    stage: StartStage,
    answer: StartAnswer,
) -> StartStep {
    match stage {
        StartStage::Refresh => match admission_of(processes, key) {
            SpawnAdmission::Start => with_generation(next_generation),
            SpawnAdmission::StopFirst => StartStep::Do(StartStage::Stop),
            SpawnAdmission::Refused(refusal) => StartStep::Refused(refusal),
        },
        StartStage::Stop => if held(processes, key) is None {
            with_generation(next_generation)
        } else {
            StartStep::Refused(SpawnRefusal::StopUnconfirmed)
        },
        StartStage::Start { generation } => match answer->Started_0 {
            Ok(_) => StartStep::Owned { generation },
            Err(refusal) => StartStep::Refused(refusal),
        },
    }
}

impl ProcessSupervisor {
    fn go_with_generation(&mut self) -> (step: StartStep)
        requires
            well_formed(*old(self)),
        ensures
            well_formed(*final(self)),
            final(self).processes@ == old(self).processes@,
            step == with_generation(old(self).next_generation),
            final(self).next_generation == old(self).next_generation + if step is Do {
                1int
            } else {
                0int
            },
    {
        match self.reserve_generation() {
            Ok(generation) => StartStep::Do(StartStage::Start { generation }),
            Err(refusal) => StartStep::Refused(refusal),
        }
    }

    /// Takes an answer. A start begins at [`StartStage::Refresh`]; a process is
    /// owned from the step on that is told of its start.
    pub fn step_start(&mut self, key: ProcessKey, stage: StartStage, answer: StartAnswer) -> (step:
        StartStep)
        requires
            well_formed(*old(self)),
            start_fits(stage, answer),
            start_well_formed(old(self).processes@, old(self).next_generation, key, stage),
        ensures
            well_formed(*final(self)),
            step == next_start(
                old(self).processes@,
                old(self).next_generation,
                key,
                stage,
                answer,
            ),
            step matches StartStep::Do(after) ==> start_well_formed(
                final(self).processes@,
                final(self).next_generation,
                key,
                after,
            ),
            final(self).next_generation == old(self).next_generation + if step matches StartStep::Do(
                StartStage::Start { .. },
            ) {
                1int
            } else {
                0int
            },
            final(self).processes@ == match step {
                StartStep::Owned { generation } => old(self).processes@.push(
                    ManagedProcess {
                        key,
                        generation,
                        pid: answer->Started_0->Ok_0,
                        phase: ProcessPhase::Starting,
                        exit_code: None,
                        observation_failures: 0,
                    },
                ),
                _ => old(self).processes@,
            },
    {
        match stage {
            StartStage::Refresh => match self.admission(key) {
                SpawnAdmission::Start => self.go_with_generation(),
                SpawnAdmission::StopFirst => StartStep::Do(StartStage::Stop),
                SpawnAdmission::Refused(refusal) => StartStep::Refused(refusal),
            },
            StartStage::Stop => match self.confirm_stopped(key) {
                Ok(()) => self.go_with_generation(),
                Err(refusal) => StartStep::Refused(refusal),
            },
            StartStage::Start { generation } => match answer {
                StartAnswer::Started(Ok(pid)) => {
                    self.insert(key, generation, pid);
                    StartStep::Owned { generation }
                },
                StartAnswer::Started(Err(refusal)) => StartStep::Refused(refusal),
                StartAnswer::Done => vstd::pervasive::unreached(),
            },
        }
    }
}

// ---- Stopping ------------------------------------------------------------------------

/// Where a stop stands: what the driver does next, and what it answers.
#[derive(Debug, Clone, Copy, PartialEq, Eq, Structural)]
pub enum StopStage {
    /// Close the input of the process, also where it is not live: a descendant may
    /// hold it.
    CloseInput { key: ProcessKey, phase: ProcessPhase },
    /// Wait for the tree to end until an instant; whether it did.
    WaitForEof { until: u64 },
    /// Ask the tree to end; whether that could be asked.
    RequestEnd,
    /// Wait for the tree to end until an instant; whether it did.
    WaitForSignal { until: u64 },
    /// Whether the tree has ended.
    Check,
    /// End the tree by force and wait until the deadline; whether it ended.
    Force,
    /// Whether the tree has ended.
    CheckAgain,
    /// End the tree by force and wait until the deadline; whether it ended.
    ForceAgain,
    /// Whether the tree has ended.
    CheckLast,
}

/// How a stop ended.
#[derive(Debug, Clone, Copy, PartialEq, Eq, Structural)]
pub enum StopEnd {
    /// The whole tree has ended.
    Stopped,
    /// That could not be confirmed: the process stays owned.
    Retained,
}

/// Where a step of a stop leads.
#[derive(Debug, Clone, Copy, PartialEq, Eq, Structural)]
pub enum StopStep {
    Do(StopStage),
    End(StopEnd),
}

/// The earlier of two instants.
pub open spec fn earlier(a: u64, b: u64) -> u64 {
    if a <= b {
        a
    } else {
        b
    }
}

/// An instant some milliseconds later, as far as instants go.
pub open spec fn later(now: u64, ms: u64) -> u64 {
    if now + ms > u64::MAX {
        u64::MAX
    } else {
        (now + ms) as u64
    }
}

/// How long a process has to end by itself after its input closed: what is
/// exposed to others until the deadline, a local process for a moment.
pub open spec fn eof_deadline(key: ProcessKey, now: u64, deadline: u64) -> u64 {
    match key {
        ProcessKey::QuickShare | ProcessKey::RegularTunnel(_) => deadline,
        _ => earlier(deadline, later(now, LOCAL_EOF_GRACE_MS)),
    }
}

fn earlier_of(a: u64, b: u64) -> (instant: u64)
    ensures
        instant == earlier(a, b),
{
    if a <= b {
        a
    } else {
        b
    }
}

fn instant_after(now: u64, ms: u64) -> (instant: u64)
    ensures
        instant == later(now, ms),
{
    now.saturating_add(ms)
}

/// Begins to stop a process.
pub fn begin_stop(key: ProcessKey, phase: ProcessPhase) -> (stage: StopStage)
    ensures
        stage == (StopStage::CloseInput { key, phase }),
{
    StopStage::CloseInput { key, phase }
}

/// What follows once the input of a process is closed: one that is not live has
/// nothing to end by itself.
pub open spec fn after_input(
    key: ProcessKey,
    phase: ProcessPhase,
    now: u64,
    deadline: u64,
) -> StopStage {
    if is_live(phase) {
        StopStage::WaitForEof { until: eof_deadline(key, now, deadline) }
    } else {
        StopStage::CheckAgain
    }
}

fn go_after_input(key: ProcessKey, phase: ProcessPhase, now: u64, deadline: u64) -> (stage:
    StopStage)
    ensures
        stage == after_input(key, phase, now, deadline),
{
    match phase {
        ProcessPhase::Starting | ProcessPhase::Running => {
            let until = match key {
                ProcessKey::QuickShare | ProcessKey::RegularTunnel(_) => deadline,
                _ => earlier_of(deadline, instant_after(now, LOCAL_EOF_GRACE_MS)),
            };
            StopStage::WaitForEof { until }
        },
        _ => StopStage::CheckAgain,
    }
}

/// Where an answer leads. `now` is the instant of the answer.
pub open spec fn next_stop(stage: StopStage, answer: bool, now: u64, deadline: u64) -> StopStep {
    match stage {
        StopStage::CloseInput { key, phase } => StopStep::Do(
            after_input(key, phase, now, deadline),
        ),
        StopStage::WaitForEof { .. } => StopStep::Do(
            if !answer && now < deadline {
                StopStage::RequestEnd
            } else {
                StopStage::Check
            },
        ),
        StopStage::RequestEnd => StopStep::Do(
            if answer {
                StopStage::WaitForSignal {
                    until: earlier(deadline, later(now, LOCAL_EOF_GRACE_MS)),
                }
            } else {
                StopStage::Check
            },
        ),
        StopStage::WaitForSignal { .. } => StopStep::Do(StopStage::Check),
        StopStage::Check => StopStep::Do(
            if answer {
                StopStage::CheckAgain
            } else {
                StopStage::Force
            },
        ),
        StopStage::Force => StopStep::Do(StopStage::CheckAgain),
        StopStage::CheckAgain => StopStep::Do(
            if answer {
                StopStage::CheckLast
            } else {
                StopStage::ForceAgain
            },
        ),
        StopStage::ForceAgain => StopStep::Do(StopStage::CheckLast),
        StopStage::CheckLast => StopStep::End(
            if answer {
                StopEnd::Stopped
            } else {
                StopEnd::Retained
            },
        ),
    }
}

/// Takes an answer. `now` is the instant of the answer.
pub fn step_stop(stage: StopStage, answer: bool, now: u64, deadline: u64) -> (step: StopStep)
    ensures
        step == next_stop(stage, answer, now, deadline),
{
    match stage {
        StopStage::CloseInput { key, phase } => StopStep::Do(
            go_after_input(key, phase, now, deadline),
        ),
        StopStage::WaitForEof { .. } => if !answer && now < deadline {
            StopStep::Do(StopStage::RequestEnd)
        } else {
            StopStep::Do(StopStage::Check)
        },
        StopStage::RequestEnd => if answer {
            let until = earlier_of(deadline, instant_after(now, LOCAL_EOF_GRACE_MS));
            StopStep::Do(StopStage::WaitForSignal { until })
        } else {
            StopStep::Do(StopStage::Check)
        },
        StopStage::WaitForSignal { .. } => StopStep::Do(StopStage::Check),
        StopStage::Check => if answer {
            StopStep::Do(StopStage::CheckAgain)
        } else {
            StopStep::Do(StopStage::Force)
        },
        StopStage::Force => StopStep::Do(StopStage::CheckAgain),
        StopStage::CheckAgain => if answer {
            StopStep::Do(StopStage::CheckLast)
        } else {
            StopStep::Do(StopStage::ForceAgain)
        },
        StopStage::ForceAgain => StopStep::Do(StopStage::CheckLast),
        StopStage::CheckLast => if answer {
            StopStep::End(StopEnd::Stopped)
        } else {
            StopStep::End(StopEnd::Retained)
        },
    }
}

/// What a wait for the end of a tree does next.
#[derive(Debug, Clone, Copy, PartialEq, Eq, Structural)]
pub enum WaitStep {
    Ended,
    TimedOut,
    SleepUntil(u64),
}

/// What a wait for the end of a tree does next: it never sleeps past the
/// deadline.
pub fn wait_for_tree_exit(ended: bool, now: u64, deadline: u64) -> (step: WaitStep)
    ensures
        step == if ended {
            WaitStep::Ended
        } else if now >= deadline {
            WaitStep::TimedOut
        } else {
            WaitStep::SleepUntil(earlier(deadline, later(now, PROCESS_POLL_MS)))
        },
        step matches WaitStep::SleepUntil(until) ==> now < until <= deadline,
{
    if ended {
        WaitStep::Ended
    } else if now >= deadline {
        WaitStep::TimedOut
    } else {
        WaitStep::SleepUntil(earlier_of(deadline, instant_after(now, PROCESS_POLL_MS)))
    }
}

// ---- Laws --------------------------------------------------------------------------------

/// How many steps a stop can still take.
pub open spec fn steps_left(stage: StopStage) -> nat {
    match stage {
        StopStage::CloseInput { .. } => 9,
        StopStage::WaitForEof { .. } => 8,
        StopStage::RequestEnd => 7,
        StopStage::WaitForSignal { .. } => 6,
        StopStage::Check => 5,
        StopStage::Force => 4,
        StopStage::CheckAgain => 3,
        StopStage::ForceAgain => 2,
        StopStage::CheckLast => 1,
    }
}

/// A stop comes to an end, waits never beyond its deadline, and gives a process
/// up only where the end of its whole tree was seen.
pub proof fn law_stop_ends_and_confirms(
    stage: StopStage,
    answer: bool,
    now: u64,
    deadline: u64,
)
    ensures
        match next_stop(stage, answer, now, deadline) {
            StopStep::Do(after) => {
                &&& steps_left(after) < steps_left(stage)
                &&& after matches StopStage::WaitForSignal { until } ==> until <= deadline
                &&& after matches StopStage::WaitForEof { until } ==> until <= deadline
            },
            StopStep::End(end) => end == StopEnd::Stopped <==> (stage == StopStage::CheckLast
                && answer),
        },
{
}

/// A process is stopped by force only after its end was looked for and not seen.
pub proof fn law_force_comes_after_a_look(
    stage: StopStage,
    answer: bool,
    now: u64,
    deadline: u64,
)
    ensures
        next_stop(stage, answer, now, deadline) == StopStep::Do(StopStage::Force) <==> (stage
            == StopStage::Check && !answer),
        next_stop(stage, answer, now, deadline) == StopStep::Do(StopStage::ForceAgain) <==> (stage
            == StopStage::CheckAgain && !answer),
{
}

/// Whether some answer at some instant leads from one stage to another.
pub open spec fn leads(stage: StopStage, after: StopStage, deadline: u64) -> bool {
    exists|answer: bool, now: u64|
        #[trigger] next_stop(stage, answer, now, deadline) == StopStep::Do(after)
}

/// Whether the stages of a stop follow one another, from its beginning on.
pub open spec fn is_stop_run(
    stages: Seq<StopStage>,
    key: ProcessKey,
    phase: ProcessPhase,
    deadline: u64,
) -> bool {
    &&& stages.len() > 0
    &&& stages[0] == (StopStage::CloseInput { key, phase })
    &&& forall|i: int, j: int|
        0 <= i < j < stages.len() && j == i + 1 ==> #[trigger] leads(
            stages[i],
            stages[j],
            deadline,
        )
}

/// The input of a process is closed first and once: whatever waits for its end,
/// asks for it or forces it comes after that.
pub proof fn law_input_is_closed_first(
    stages: Seq<StopStage>,
    key: ProcessKey,
    phase: ProcessPhase,
    deadline: u64,
    i: int,
)
    requires
        is_stop_run(stages, key, phase, deadline),
        0 <= i < stages.len(),
    ensures
        stages[i] is CloseInput <==> i == 0,
        stages[i] == StopStage::RequestEnd || stages[i] == StopStage::Force || stages[i]
            == StopStage::ForceAgain ==> i > 0 && stages[0] is CloseInput,
{
    if i > 0 {
        assert(leads(stages[i - 1], stages[i], deadline));
    }
}

proof fn lemma_held_push(processes: Seq<ManagedProcess>, added: ManagedProcess, key: ProcessKey)
    requires
        held(processes, added.key) is None,
    ensures
        held(processes.push(added), key) == if key == added.key {
            Some(added)
        } else {
            held(processes, key)
        },
    decreases processes.len(),
{
    let after = processes.push(added);
    if processes.len() == 0 {
        assert(after.drop_first() =~= Seq::<ManagedProcess>::empty());
        assert(position(after.drop_first(), key) == 0);
    } else {
        let rest = processes.drop_first();
        lemma_absent(processes, added.key);
        assert(processes[0].key != added.key);
        assert(held(rest, added.key) is None);
        lemma_held_push(rest, added, key);
        assert(after.drop_first() =~= rest.push(added));
        if processes[0].key != key {
            assert(position(after, key) == 1 + position(rest.push(added), key));
        }
    }
}

proof fn lemma_held_remove(processes: Seq<ManagedProcess>, at: int, key: ProcessKey)
    requires
        0 <= at < processes.len(),
        processes[at].key != key,
    ensures
        held(processes.remove(at), key) == held(processes, key),
    decreases processes.len(),
{
    let after = processes.remove(at);
    let rest = processes.drop_first();
    if at == 0 {
        assert(after =~= rest);
    } else {
        assert(after[0] == processes[0]);
        assert(after.drop_first() =~= rest.remove(at - 1));
        if processes[0].key != key {
            lemma_held_remove(rest, at - 1, key);
        }
    }
}

/// A stop touches no process but its own. A process whose end could not be
/// confirmed stays owned, as the one that it was and as one that is being stopped;
/// one whose end was confirmed is no longer owned.
pub proof fn law_stop_touches_only_its_process(
    before: Seq<ManagedProcess>,
    released: Seq<ManagedProcess>,
    key: ProcessKey,
    other: ProcessKey,
)
    requires
        held(before, key) is Some,
        released == before.remove(position(before, key) as int),
        held(released, key) is None,
        other != key,
    ensures
        ({
            let process = held(before, key)->Some_0;
            let kept = ManagedProcess { phase: ProcessPhase::Stopping, ..process };
            let retained = released.push(kept);
            &&& held(released, other) == held(before, other)
            &&& held(retained, other) == held(before, other)
            &&& held(retained, key) == Some(kept)
            &&& kept.generation == process.generation
        }),
{
    let process = held(before, key)->Some_0;
    lemma_position_key(before, key);
    lemma_held_remove(before, position(before, key) as int, other);
    let kept = ManagedProcess { phase: ProcessPhase::Stopping, ..process };
    lemma_held_push(released, kept, other);
    lemma_held_push(released, kept, key);
}

proof fn lemma_position_key(processes: Seq<ManagedProcess>, key: ProcessKey)
    ensures
        position(processes, key) < processes.len() ==> processes[position(
            processes,
            key,
        ) as int].key == key,
    decreases processes.len(),
{
    if processes.len() > 0 && processes[0].key != key {
        lemma_position_key(processes.drop_first(), key);
    }
}

/// A process that ended stays ended, with its exit code, whatever is observed;
/// and no observation changes which process it is.
pub proof fn law_ended_process_stays_ended(process: ManagedProcess, seen: Observation)
    ensures
        !is_live(process.phase) ==> observed(process, seen) == process,
        observed(process, seen).key == process.key,
        observed(process, seen).generation == process.generation,
        observed(process, seen).pid == process.pid,
{
}

/// A process that cannot be observed is announced once, until it was observed
/// again: a second failure in a row is not announced.
pub proof fn law_observation_failure_is_announced_once(
    process: ManagedProcess,
    first: TreeState,
    second: TreeState,
)
    ensures
        notice_of(
            observed(process, Observation::Unobservable(first)),
            Observation::Unobservable(second),
        ) == Notice::Nothing,
{
}

/// A process is started only after all were observed and none of its key is held
/// any more: one that still works or is being stopped is not replaced, one that
/// ended is stopped first and has to be gone, and its generation is no older one's.
pub proof fn law_start_replaces_nothing(
    supervisor: ProcessSupervisor,
    key: ProcessKey,
    stage: StartStage,
    answer: StartAnswer,
)
    requires
        well_formed(supervisor),
        start_fits(stage, answer),
    ensures
        ({
            let step = next_start(
                supervisor.processes@,
                supervisor.next_generation,
                key,
                stage,
                answer,
            );
            &&& step matches StartStep::Do(StartStage::Start { generation }) ==> {
                &&& stage !is Start
                &&& held(supervisor.processes@, key) is None
                &&& forall|i: int|
                    0 <= i < supervisor.processes@.len() ==> (
                    #[trigger] supervisor.processes@[i]).generation < generation
            }
            &&& step == StartStep::Do(StartStage::Stop) ==> stage == StartStage::Refresh && (held(
                supervisor.processes@,
                key,
            ) matches Some(process) && !is_live(process.phase) && process.phase
                != ProcessPhase::Stopping)
            &&& step is Owned ==> (stage is Start && answer matches StartAnswer::Started(Ok(_)))
            &&& step != StartStep::Do(StartStage::Refresh)
        }),
{
}

/// Two generations that were handed out one after the other differ, and neither
/// is that of a process held before.
pub proof fn law_generations_are_fresh(supervisor: ProcessSupervisor, key: ProcessKey)
    requires
        well_formed(supervisor),
    ensures
        held(supervisor.processes@, key) matches Some(process) ==> process.generation
            != supervisor.next_generation,
{
}

/// The order of stopping holds every key as often as before, and what is exposed
/// to others comes before the runtime.
pub proof fn law_stop_order_is_a_sorted_rearrangement(keys: Seq<ProcessKey>)
    ensures
        stop_order_of(keys).to_multiset() == keys.to_multiset(),
        forall|i: int, j: int|
            0 <= i < j < stop_order_of(keys).len() ==> stop_rank(#[trigger] stop_order_of(keys)[i])
                <= stop_rank(#[trigger] stop_order_of(keys)[j]),
{
    lemma_of_rank(keys, 0);
    lemma_of_rank(keys, 1);
    lemma_of_rank(keys, 2);
    lemma_of_rank(keys, 3);
    lemma_order_multiset(keys);
}

proof fn lemma_of_rank(keys: Seq<ProcessKey>, rank: int)
    ensures
        forall|i: int|
            0 <= i < of_rank(keys, rank).len() ==> stop_rank(#[trigger] of_rank(keys, rank)[i])
                == rank,
    decreases keys.len(),
{
    if keys.len() > 0 {
        let before = of_rank(keys.drop_last(), rank);
        let all = of_rank(keys, rank);
        lemma_of_rank(keys.drop_last(), rank);
        assert forall|i: int| 0 <= i < all.len() implies stop_rank(#[trigger] all[i]) == rank by {
            if i < before.len() {
                assert(all[i] == before[i]);
            }
        }
    }
}

proof fn lemma_order_multiset(keys: Seq<ProcessKey>)
    ensures
        stop_order_of(keys).to_multiset() == keys.to_multiset(),
    decreases keys.len(),
{
    broadcast use vstd::seq_lib::group_to_multiset_ensures;

    vstd::seq_lib::lemma_multiset_commutative(of_rank(keys, 0), of_rank(keys, 1));
    vstd::seq_lib::lemma_multiset_commutative(
        of_rank(keys, 0) + of_rank(keys, 1),
        of_rank(keys, 2),
    );
    vstd::seq_lib::lemma_multiset_commutative(
        of_rank(keys, 0) + of_rank(keys, 1) + of_rank(keys, 2),
        of_rank(keys, 3),
    );
    if keys.len() == 0 {
        assert(stop_order_of(keys) =~= keys);
    } else {
        let front = keys.drop_last();
        let key = keys.last();
        lemma_order_multiset(front);
        vstd::seq_lib::lemma_multiset_commutative(of_rank(front, 0), of_rank(front, 1));
        vstd::seq_lib::lemma_multiset_commutative(
            of_rank(front, 0) + of_rank(front, 1),
            of_rank(front, 2),
        );
        vstd::seq_lib::lemma_multiset_commutative(
            of_rank(front, 0) + of_rank(front, 1) + of_rank(front, 2),
            of_rank(front, 3),
        );
        assert(keys =~= front.push(key));
        let rank = stop_rank(key);
        assert(of_rank(keys, rank) == of_rank(front, rank).push(key));
        assert(stop_order_of(keys).to_multiset() =~= stop_order_of(front).to_multiset().insert(
            key,
        ));
    }
}

/// What an observation does to a live process. One that is seen running is
/// running, with no failure counted and the exit code it had. One that is seen
/// to have ended has that exit code, and is exited or failed as it succeeded or
/// not. One that could not be observed counts a failure more, and goes on only
/// where its tree is known to be active. Nothing else of the process changes.
pub proof fn law_observation_decides_the_phase(process: ManagedProcess, seen: Observation)
    requires
        process.phase == ProcessPhase::Starting || process.phase == ProcessPhase::Running,
    ensures
        observed(process, seen).key == process.key,
        observed(process, seen).generation == process.generation,
        observed(process, seen).pid == process.pid,
        seen is Alive ==> {
            &&& observed(process, seen).phase == ProcessPhase::Running
            &&& observed(process, seen).exit_code == process.exit_code
            &&& observed(process, seen).observation_failures == 0
            &&& notice_of(process, seen) == Notice::Nothing
        },
        seen matches Observation::Ended { code, success } ==> {
            &&& success ==> observed(process, seen).phase == ProcessPhase::Exited
            &&& !success ==> observed(process, seen).phase == ProcessPhase::Failed
            &&& observed(process, seen).exit_code == code
            &&& observed(process, seen).observation_failures == 0
            &&& notice_of(process, seen) == (Notice::Ended { success })
        },
        seen matches Observation::Unobservable(tree) ==> {
            &&& tree == TreeState::Active ==> observed(process, seen).phase == ProcessPhase::Running
            &&& tree != TreeState::Active ==> observed(process, seen).phase == ProcessPhase::Failed
            &&& observed(process, seen).exit_code == process.exit_code
            &&& process.observation_failures < u32::MAX ==> observed(
                process,
                seen,
            ).observation_failures == process.observation_failures + 1
            &&& process.observation_failures == u32::MAX ==> observed(
                process,
                seen,
            ).observation_failures == u32::MAX
            &&& process.observation_failures == 0 ==> notice_of(process, seen)
                == Notice::FirstFailure
            &&& process.observation_failures > 0 ==> notice_of(process, seen) == Notice::Nothing
        },
{
}

/// A process that is starting or running stays so unless it was seen to have
/// ended, or could not be observed while its tree was not known to be active; and
/// no observation brings a process that is not live back to life.
pub proof fn law_only_an_end_or_a_loss_takes_a_live_process(
    process: ManagedProcess,
    seen: Observation,
)
    ensures
        process.phase == ProcessPhase::Starting || process.phase == ProcessPhase::Running ==> (
        observed(process, seen).phase == ProcessPhase::Running <==> !(seen is Ended) && !(
        seen matches Observation::Unobservable(tree) && tree != TreeState::Active)),
        process.phase == ProcessPhase::Stopping || process.phase == ProcessPhase::Exited
            || process.phase == ProcessPhase::Failed ==> observed(process, seen) == process
            && notice_of(process, seen) == Notice::Nothing,
{
}

/// A refresh gives each process what its own observation says of it, and touches
/// neither its place nor its identity.
pub proof fn law_refresh_goes_process_by_process(
    processes: Seq<ManagedProcess>,
    seen: Seq<Observation>,
    i: int,
)
    requires
        processes.len() == seen.len(),
        0 <= i < processes.len(),
    ensures
        refreshed(processes, seen).len() == processes.len(),
        notices_of(processes, seen).len() == processes.len(),
        refreshed(processes, seen)[i].key == processes[i].key,
        refreshed(processes, seen)[i].generation == processes[i].generation,
        refreshed(processes, seen)[i].pid == processes[i].pid,
        (processes[i].phase == ProcessPhase::Starting || processes[i].phase
            == ProcessPhase::Running) && seen[i] is Alive ==> refreshed(processes, seen)[i].phase
            == ProcessPhase::Running && notices_of(processes, seen)[i] == Notice::Nothing,
        (processes[i].phase == ProcessPhase::Starting || processes[i].phase
            == ProcessPhase::Running) ==> (seen[i] matches Observation::Ended { code, success }
            ==> refreshed(processes, seen)[i].exit_code == code && notices_of(processes, seen)[i]
            == (Notice::Ended { success })),
        !(processes[i].phase == ProcessPhase::Starting || processes[i].phase
            == ProcessPhase::Running) ==> refreshed(processes, seen)[i] == processes[i],
{
}

/// The process that a key stands for: the one in the list with that key, wherever
/// it stands, and none where no process has it.
pub proof fn law_key_finds_its_process(processes: Seq<ManagedProcess>, key: ProcessKey, i: int)
    requires
        0 <= i < processes.len(),
        processes[i].key == key,
        forall|j: int, k: int|
            0 <= j < k < processes.len() ==> (#[trigger] processes[j]).key != (
            #[trigger] processes[k]).key,
    ensures
        held(processes, key) == Some(processes[i]),
        held(processes.remove(i), key) is None,
        forall|other: ProcessKey|
            other != key ==> held(processes.remove(i), other) == #[trigger] held(processes, other),
    decreases processes.len(),
{
    lemma_position_at(processes, key, i);
    let rest = processes.remove(i);
    assert forall|j: int| 0 <= j < rest.len() implies (#[trigger] rest[j]).key != key by {
        if j < i {
            assert(rest[j] == processes[j]);
        } else {
            assert(rest[j] == processes[j + 1]);
        }
    }
    lemma_position_absent(rest, key);
    assert forall|other: ProcessKey| other != key implies held(rest, other) == #[trigger] held(
        processes,
        other,
    ) by {
        lemma_position_after_removal(processes, i, other);
    }
}

proof fn lemma_position_at(processes: Seq<ManagedProcess>, key: ProcessKey, i: int)
    requires
        0 <= i < processes.len(),
        processes[i].key == key,
        forall|j: int| 0 <= j < i ==> (#[trigger] processes[j]).key != key,
    ensures
        position(processes, key) == i,
    decreases processes.len(),
{
    if i > 0 {
        assert(processes[0].key != key);
        lemma_position_at(processes.drop_first(), key, i - 1);
    }
}

proof fn lemma_position_absent(processes: Seq<ManagedProcess>, key: ProcessKey)
    requires
        forall|j: int| 0 <= j < processes.len() ==> (#[trigger] processes[j]).key != key,
    ensures
        position(processes, key) == processes.len(),
    decreases processes.len(),
{
    if processes.len() > 0 {
        lemma_position_absent(processes.drop_first(), key);
    }
}

proof fn lemma_position_after_removal(processes: Seq<ManagedProcess>, i: int, other: ProcessKey)
    requires
        0 <= i < processes.len(),
        processes[i].key != other,
    ensures
        held(processes.remove(i), other) == held(processes, other),
    decreases processes.len(),
{
    let rest = processes.remove(i);
    if exists|j: int| 0 <= j < processes.len() && (#[trigger] processes[j]).key == other {
        let at = choose|j: int|
            0 <= j < processes.len() && (#[trigger] processes[j]).key == other && forall|k: int|
                0 <= k < j ==> (#[trigger] processes[k]).key != other;
        lemma_first_with(processes, other);
        lemma_position_at(processes, other, at);
        let there = if at < i {
            at
        } else {
            at - 1
        };
        assert(rest[there] == processes[at]);
        assert forall|k: int| 0 <= k < there implies (#[trigger] rest[k]).key != other by {
            if k < i {
                assert(rest[k] == processes[k]);
            } else {
                assert(rest[k] == processes[k + 1]);
            }
        }
        lemma_position_at(rest, other, there);
    } else {
        lemma_position_absent(processes, other);
        assert forall|j: int| 0 <= j < rest.len() implies (#[trigger] rest[j]).key != other by {
            if j < i {
                assert(rest[j] == processes[j]);
            } else {
                assert(rest[j] == processes[j + 1]);
            }
        }
        lemma_position_absent(rest, other);
    }
}

proof fn lemma_first_with(processes: Seq<ManagedProcess>, key: ProcessKey)
    requires
        exists|j: int| 0 <= j < processes.len() && (#[trigger] processes[j]).key == key,
    ensures
        exists|j: int|
            0 <= j < processes.len() && (#[trigger] processes[j]).key == key && forall|k: int|
                0 <= k < j ==> (#[trigger] processes[k]).key != key,
    decreases processes.len(),
{
    if processes[0].key == key {
        assert(0 <= 0 < processes.len() && processes[0].key == key);
    } else {
        let rest = processes.drop_first();
        let there = choose|j: int| 0 <= j < processes.len() && (#[trigger] processes[j]).key == key;
        assert(rest[there - 1].key == key);
        lemma_first_with(rest, key);
        let first = choose|j: int|
            0 <= j < rest.len() && (#[trigger] rest[j]).key == key && forall|k: int|
                0 <= k < j ==> (#[trigger] rest[k]).key != key;
        assert(processes[first + 1].key == key);
        assert forall|k: int| 0 <= k < first + 1 implies (#[trigger] processes[k]).key != key by {
            if k > 0 {
                assert(rest[k - 1] == processes[k]);
            }
        }
    }
}

/// Who may be started: a process that nothing stands for; one whose holder has
/// exited or failed, once that holder is stopped; and never one whose holder is
/// starting, running or being stopped.
pub proof fn law_start_waits_for_the_holder(
    processes: Seq<ManagedProcess>,
    next_generation: u64,
    key: ProcessKey,
    answer: StartAnswer,
)
    ensures
        held(processes, key) is None && next_generation < u64::MAX ==> next_start(
            processes,
            next_generation,
            key,
            StartStage::Refresh,
            answer,
        ) == StartStep::Do(StartStage::Start { generation: next_generation }),
        held(processes, key) is None && next_generation == u64::MAX ==> next_start(
            processes,
            next_generation,
            key,
            StartStage::Refresh,
            answer,
        ) == StartStep::Refused(SpawnRefusal::GenerationsExhausted),
        held(processes, key) matches Some(process) ==> {
            let step = next_start(processes, next_generation, key, StartStage::Refresh, answer);
            &&& process.phase == ProcessPhase::Exited || process.phase == ProcessPhase::Failed
                ==> step == StartStep::Do(StartStage::Stop)
            &&& process.phase == ProcessPhase::Starting || process.phase == ProcessPhase::Running
                || process.phase == ProcessPhase::Stopping ==> step == StartStep::Refused(
                SpawnRefusal::AlreadyRunning,
            )
        },
        held(processes, key) is Some ==> next_start(
            processes,
            next_generation,
            key,
            StartStage::Stop,
            answer,
        ) == StartStep::Refused(SpawnRefusal::StopUnconfirmed),
        held(processes, key) is None && next_generation < u64::MAX ==> next_start(
            processes,
            next_generation,
            key,
            StartStage::Stop,
            answer,
        ) == StartStep::Do(StartStage::Start { generation: next_generation }),
{
}

/// A start that was made is owned under the generation it was asked for; a start
/// that failed is refused for the reason it failed.
pub proof fn law_started_process_is_owned(
    processes: Seq<ManagedProcess>,
    next_generation: u64,
    key: ProcessKey,
    generation: u64,
    started: Result<u32, SpawnRefusal>,
)
    ensures
        ({
            let step = next_start(
                processes,
                next_generation,
                key,
                StartStage::Start { generation },
                StartAnswer::Started(started),
            );
            match started {
                Ok(_) => step == (StartStep::Owned { generation }),
                Err(refusal) => step == StartStep::Refused(refusal),
            }
        }),
{
}

/// The waits of a stop. A live process is given until the deadline to end by
/// itself, one of the local services no longer than a quarter of a second of it;
/// one that is asked to end is given at most that again; no wait goes beyond the
/// deadline, and one that has begun before it does not end before it began.
pub proof fn law_stop_waits_are_bounded(
    key: ProcessKey,
    phase: ProcessPhase,
    now: u64,
    deadline: u64,
)
    requires
        now <= deadline,
    ensures
        ({
            let step = next_stop(StopStage::CloseInput { key, phase }, true, now, deadline);
            &&& (step matches StopStep::Do(StopStage::WaitForEof { until }) && now <= until
                <= deadline && match key {
                ProcessKey::QuickShare | ProcessKey::RegularTunnel(_) => until == deadline,
                ProcessKey::LocalRunner | ProcessKey::LocalServer => until - now <= 250 && (until
                    == deadline || until - now == 250),
            }) <==> (phase == ProcessPhase::Starting || phase == ProcessPhase::Running)
            &&& phase == ProcessPhase::Stopping || phase == ProcessPhase::Exited || phase
                == ProcessPhase::Failed ==> step == StopStep::Do(StopStage::CheckAgain)
        }),
        next_stop(StopStage::RequestEnd, true, now, deadline) matches StopStep::Do(
            StopStage::WaitForSignal { until },
        ) && now <= until <= deadline && until - now <= 250 && (until == deadline || until - now
            == 250),
        next_stop(StopStage::RequestEnd, false, now, deadline) == StopStep::Do(StopStage::Check),
{
}

/// What a stop does with what it sees. A process that is still there after its
/// wait is asked to end while there is time; a tree that is still there when it is
/// looked at is forced, and looked at again, and what is there at the last look is
/// kept, not given up.
pub proof fn law_stop_presses_until_the_tree_is_gone(until: u64, now: u64, deadline: u64)
    ensures
        next_stop(StopStage::WaitForEof { until }, true, now, deadline) == StopStep::Do(
            StopStage::Check,
        ),
        now < deadline ==> next_stop(StopStage::WaitForEof { until }, false, now, deadline)
            == StopStep::Do(StopStage::RequestEnd),
        now >= deadline ==> next_stop(StopStage::WaitForEof { until }, false, now, deadline)
            == StopStep::Do(StopStage::Check),
        forall|ended: bool|
            #[trigger] next_stop(StopStage::WaitForSignal { until }, ended, now, deadline)
                == StopStep::Do(StopStage::Check),
        next_stop(StopStage::Check, false, now, deadline) == StopStep::Do(StopStage::Force),
        next_stop(StopStage::Check, true, now, deadline) == StopStep::Do(StopStage::CheckAgain),
        forall|done: bool|
            #[trigger] next_stop(StopStage::Force, done, now, deadline) == StopStep::Do(
                StopStage::CheckAgain,
            ),
        next_stop(StopStage::CheckAgain, false, now, deadline) == StopStep::Do(
            StopStage::ForceAgain,
        ),
        next_stop(StopStage::CheckAgain, true, now, deadline) == StopStep::Do(
            StopStage::CheckLast,
        ),
        forall|done: bool|
            #[trigger] next_stop(StopStage::ForceAgain, done, now, deadline) == StopStep::Do(
                StopStage::CheckLast,
            ),
        next_stop(StopStage::CheckLast, true, now, deadline) == StopStep::End(StopEnd::Stopped),
        next_stop(StopStage::CheckLast, false, now, deadline) == StopStep::End(StopEnd::Retained),
{
}

/// The order in which everything is stopped: what is shared first, then the
/// tunnels, then the runner, and the server, which the others talk to, last.
pub proof fn law_shares_stop_before_services(keys: Seq<ProcessKey>, i: int, j: int)
    requires
        0 <= i < j < stop_order_of(keys).len(),
    ensures
        stop_order_of(keys)[i] is LocalServer ==> stop_order_of(keys)[j] is LocalServer,
        stop_order_of(keys)[i] is LocalRunner ==> stop_order_of(keys)[j] is LocalRunner
            || stop_order_of(keys)[j] is LocalServer,
        stop_order_of(keys)[j] is QuickShare ==> stop_order_of(keys)[i] is QuickShare,
        stop_order_of(keys)[j] is RegularTunnel ==> stop_order_of(keys)[i] is QuickShare
            || stop_order_of(keys)[i] is RegularTunnel,
{
    law_stop_order_is_a_sorted_rearrangement(keys);
}

/// A refusal names the process it was asked for, and a refusal about a running or
/// an unstarted process of one kind reads otherwise than that of another kind.
pub proof fn law_refusal_names_the_kind(kind: Seq<char>, other: Seq<char>)
    requires
        kind != other,
    ensures
        refusal_message(SpawnRefusal::AlreadyRunning, kind) != refusal_message(
            SpawnRefusal::AlreadyRunning,
            other,
        ),
        refusal_message(SpawnRefusal::NotStarted, kind) != refusal_message(
            SpawnRefusal::NotStarted,
            other,
        ),
{
    lemma_framed_differ("Desktop already owns an active "@, kind, other, " process"@);
    lemma_framed_differ("Could not start the "@, kind, other, " process"@);
}

proof fn lemma_framed_differ(
    before: Seq<char>,
    kind: Seq<char>,
    other: Seq<char>,
    after: Seq<char>,
)
    requires
        kind != other,
    ensures
        before + kind + after != before + other + after,
{
    let one = before + kind + after;
    let two = before + other + after;
    if one == two {
        assert(one.len() == two.len());
        assert(kind =~= one.subrange(before.len() as int, (before.len() + kind.len()) as int));
        assert(other =~= two.subrange(before.len() as int, (before.len() + other.len()) as int));
    }
}

/// What is told of an observation is what it does: a live process that is seen to
/// run is running, with the exit code it had and no failure counted, and nothing is
/// noted.
pub proof fn law_process_seen_running_is_running(
    process: ManagedProcess,
    result: (ManagedProcess, Notice),
)
    requires
        process.phase == ProcessPhase::Starting || process.phase == ProcessPhase::Running,
        call_ensures(observe_process, (&process, Observation::Alive), result),
    ensures
        result.0 == (ManagedProcess {
            phase: ProcessPhase::Running,
            observation_failures: 0,
            ..process
        }),
        result.1 == Notice::Nothing,
{
}

/// Which processes are looked at: those that are starting or running.
pub proof fn law_live_processes_are_looked_at(process: ManagedProcess, due: bool)
    requires
        call_ensures(needs_observation, (&process,), due),
    ensures
        due <==> process.phase == ProcessPhase::Starting || process.phase == ProcessPhase::Running,
{
}

/// What is shown of a process is what is held of it, under the key it was asked for.
pub proof fn law_snapshot_shows_what_is_held(
    supervisor: ProcessSupervisor,
    key: ProcessKey,
    shown: Option<ProcessSnapshot>,
)
    requires
        call_ensures(ProcessSupervisor::snapshot, (&supervisor, key), shown),
    ensures
        held(supervisor.processes@, key) is None <==> shown is None,
        held(supervisor.processes@, key) matches Some(process) ==> (shown matches Some(snapshot)
            && snapshot.kind == key && snapshot.generation == process.generation && snapshot.phase
            == process.phase && snapshot.pid == Some(process.pid) && snapshot.exit_code
            == process.exit_code && snapshot.owned_by_desktop),
{
}

/// A generation is held where the process under the key has it, and by no other.
pub proof fn law_generation_is_that_of_the_holder(
    supervisor: ProcessSupervisor,
    key: ProcessKey,
    generation: u64,
    found: bool,
)
    requires
        call_ensures(ProcessSupervisor::holds_generation, (&supervisor, key, generation), found),
    ensures
        held(supervisor.processes@, key) is None ==> !found,
        held(supervisor.processes@, key) matches Some(process) ==> (found <==> process.generation
            == generation),
{
}

/// A stop is confirmed exactly where nothing is held under the key any more.
pub proof fn law_stop_is_confirmed_by_absence(
    supervisor: ProcessSupervisor,
    key: ProcessKey,
    result: Result<(), SpawnRefusal>,
)
    requires
        call_ensures(ProcessSupervisor::confirm_stopped, (&supervisor, key), result),
    ensures
        result is Ok <==> held(supervisor.processes@, key) is None,
        result matches Err(refusal) ==> refusal == SpawnRefusal::StopUnconfirmed,
{
}

/// A refusal has a code and an advice that fit what was refused: a running process
/// is to be stopped, a stop to be tried again, spent generations need a restart, and
/// what could not be started is to be checked or tried again.
pub proof fn law_refusals_have_their_codes_and_advice(
    refusal: SpawnRefusal,
    code: &'static str,
    advice: &'static str,
)
    requires
        call_ensures(SpawnRefusal::code, (refusal,), code),
        call_ensures(SpawnRefusal::advice, (refusal,), advice),
    ensures
        refusal == SpawnRefusal::AlreadyRunning ==> code@ == "process_already_running"@ && advice@
            == "Stop the existing Desktop-owned process first."@,
        refusal == SpawnRefusal::StopUnconfirmed ==> code@ == "process_stop_unconfirmed"@ && advice@
            == "Retry stopping the Desktop-owned process before replacing it."@,
        refusal == SpawnRefusal::GenerationsExhausted ==> code@ == "process_generation_exhausted"@
            && advice@ == "Restart Desktop."@,
        refusal == SpawnRefusal::NotStarted ==> code@ == "process_start_failed"@ && advice@
            == "Check the configured WebCodex binaries and retry."@,
        refusal == SpawnRefusal::NoOutput || refusal == SpawnRefusal::NoDiagnostics ==> code@
            == "process_start_failed"@ && advice@ == "Retry the operation."@,
{
}

/// How a process is started: only the runner's children may leave its job, events
/// are received where they are wanted, and read where they are received or the
/// process is a tunnel.
pub proof fn law_only_the_runner_lets_children_go(
    key: ProcessKey,
    machine_stdout: bool,
    options: SpawnOptions,
)
    requires
        call_ensures(spawn_options, (key, machine_stdout), options),
    ensures
        options.silent_child_breakaway <==> key is LocalRunner,
        options.receives_events <==> machine_stdout,
        options.parses_events <==> machine_stdout || key is RegularTunnel,
{
}

/// A wait for the end of a tree ends where the tree has, or at the deadline, and
/// otherwise sleeps a fiftieth of a second, or less where the deadline is nearer.
pub proof fn law_tree_is_looked_at_until_the_deadline(
    ended: bool,
    now: u64,
    deadline: u64,
    step: WaitStep,
)
    requires
        call_ensures(wait_for_tree_exit, (ended, now, deadline), step),
    ensures
        step == WaitStep::Ended <==> ended,
        step == WaitStep::TimedOut <==> !ended && now >= deadline,
        step matches WaitStep::SleepUntil(until) ==> now < until <= deadline && until - now <= 20
            && (until == deadline || until - now == 20),
{
}

/// A stop begins with closing the input of the process that is to be stopped.
pub proof fn law_stop_begins_with_the_input(key: ProcessKey, phase: ProcessPhase, stage: StopStage)
    requires
        call_ensures(begin_stop, (key, phase), stage),
    ensures
        stage == (StopStage::CloseInput { key, phase }),
{
}

/// What a refusal says: which process runs or could not be started, that a stop could
/// not be confirmed, that the generations are spent, or what could not be captured.
pub proof fn law_refusal_says_what_was_refused(kind: Seq<char>)
    ensures
        refusal_message(SpawnRefusal::AlreadyRunning, kind) == "Desktop already owns an active "@
            + kind + " process"@,
        refusal_message(SpawnRefusal::NotStarted, kind) == "Could not start the "@ + kind
            + " process"@,
        refusal_message(SpawnRefusal::StopUnconfirmed, kind)
            == "Process cleanup could not be confirmed"@,
        refusal_message(SpawnRefusal::GenerationsExhausted, kind)
            == "Process generations are exhausted"@,
        refusal_message(SpawnRefusal::NoOutput, kind) == "Could not capture process output"@,
        refusal_message(SpawnRefusal::NoDiagnostics, kind)
            == "Could not capture process diagnostics"@,
{
}

} // verus!
