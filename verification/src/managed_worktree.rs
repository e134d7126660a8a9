//! Preparing a managed worktree: what is asked of Git, of the disk and of the
//! project registry, in which order, and what each answer leads to.
//!
//! The steps are pure. The driver asks the question of the current state,
//! carries it out, and hands the answer to [`PrepareState::step`].
use crate::git;
use crate::git::{
    exact_git_commit, listed_worktrees, managed_worktree_git_cli_path, managed_worktree_git_text,
    object_name, GitOutput,
};
use crate::json;
use crate::project_record;
use crate::project_record::{managed_worktree_project_toml, ManagedOrigin, RunnerProjectFile};
use crate::text;
use crate::text::{as_text, copy_text, is_text, joined, same_text};
use crate::worktree_request;
use crate::worktree_request::{
    choose_managed_worktree_root, parse_request, read_payload, PrepareRequest, RootChoice,
};
use vstd::prelude::*;
use vstd::string::*;

verus! {

/// Where the preparation stands: which question is open.
#[derive(Debug, Clone, Copy, PartialEq, Eq, Structural)]
pub enum Stage {
    RawRoot,
    Ingress,
    Source,
    SourcePolicy,
    TopLevel,
    SameRoot,
    Status,
    ResumeId,
    ResumeRecords,
    ResumeSource,
    ResumeLineage,
    ResumeBase,
    ResumePath,
    ResumePolicy,
    ResumeHead,
    ResumeListing,
    ResumeListed,
    Lineage,
    Base,
    Roots,
    MakeRoot,
    RootPolicy,
    Basename,
    Destination,
    Exists,
    FoundPath,
    FreshListing,
    FreshListed,
    Add,
    RejectedExists,
    RejectedListing,
    RejectedListed,
    LostExists,
    LostListing,
    LostListed,
    NewPath,
    Head,
    Listing,
    Listed,
    WorktreePolicy,
    Matches,
    ProjectId,
    Unicode,
    BaseRecord,
    Write,
    Parse,
}

/// How far a record of the registry was written.
#[derive(Debug, Clone, Copy, PartialEq, Eq, Structural)]
pub enum WriteOutcome {
    Written,
    BeforeRename,
    AfterRename,
}

/// What the driver answers.
#[derive(Debug)]
pub enum Answer {
    /// Whether what was asked holds.
    Holds(bool),
    /// Nothing where what was asked is permitted, else the kind of the refusal.
    Refused(Option<String>),
    /// The canonical path, where there is one.
    Path(Option<String>),
    /// What Git left behind; nothing where it could not be run to its end.
    Git(Option<GitOutput>),
    /// Records of the registry, or the kind of the failure.
    Records(Result<Vec<RunnerProjectFile>, String>),
    /// Identifier and root fingerprint of the source project, or the kind of
    /// the failure.
    Lineage(Result<(String, String), String>),
    /// An identifier, or the kind of the failure.
    Named(Result<String, String>),
    /// A text.
    Text(String),
    /// What the policy and the disk offer for managed worktrees.
    Roots(RootChoice),
    /// How far the record was written.
    Written(WriteOutcome),
    /// The record that a text holds, where it holds one.
    Parsed(Option<RunnerProjectFile>),
}

/// The state of a preparation.
#[derive(Debug)]
pub struct PrepareState {
    pub stage: Stage,
    /// Whether paths are spelled for Git as on Windows.
    pub windows: bool,
    pub request: PrepareRequest,
    /// The base reference that a failure reports.
    pub reported_base_ref: Option<String>,
    /// The root that Git names for the source.
    pub top_level: String,
    pub source: String,
    pub source_dirty: Option<bool>,
    pub base_sha: Option<String>,
    pub source_project_id: String,
    pub source_root_fingerprint: String,
    pub managed_root: String,
    pub leaf: String,
    pub destination: String,
    pub worktree: String,
    pub head: String,
    /// The paths that Git listed last.
    pub listed: Vec<String>,
    pub created: bool,
    pub project: Option<RunnerProjectFile>,
    pub project_id: String,
    pub content: String,
}

/// What a [`PrepareState`] stands for.
pub struct PrepareView {
    pub stage: Stage,
    pub windows: bool,
    pub request: worktree_request::RequestView,
    pub reported_base_ref: Option<Seq<char>>,
    pub top_level: Seq<char>,
    pub source: Seq<char>,
    pub source_dirty: Option<bool>,
    pub base_sha: Option<Seq<char>>,
    pub source_project_id: Seq<char>,
    pub source_root_fingerprint: Seq<char>,
    pub managed_root: Seq<char>,
    pub leaf: Seq<char>,
    pub destination: Seq<char>,
    pub worktree: Seq<char>,
    pub head: Seq<char>,
    pub listed: Seq<Seq<char>>,
    pub created: bool,
    pub project: Option<RunnerProjectFile>,
    pub project_id: Seq<char>,
    pub content: Seq<char>,
}

impl View for PrepareState {
    type V = PrepareView;

    open spec fn view(&self) -> PrepareView {
        PrepareView {
            stage: self.stage,
            windows: self.windows,
            request: self.request@,
            reported_base_ref: text::text_of(self.reported_base_ref),
            top_level: self.top_level@,
            source: self.source@,
            source_dirty: self.source_dirty,
            base_sha: text::text_of(self.base_sha),
            source_project_id: self.source_project_id@,
            source_root_fingerprint: self.source_root_fingerprint@,
            managed_root: self.managed_root@,
            leaf: self.leaf@,
            destination: self.destination@,
            worktree: self.worktree@,
            head: self.head@,
            listed: text::texts(self.listed@),
            created: self.created,
            project: self.project,
            project_id: self.project_id@,
            content: self.content@,
        }
    }
}

/// A worktree that is ready for use.
#[derive(Debug)]
pub struct ReadyWorktree {
    pub project: RunnerProjectFile,
    pub worktree: String,
    pub base_ref: String,
    pub base_sha: String,
    pub source_dirty: bool,
    /// Whether this preparation made the worktree.
    pub created: bool,
    /// Whether this preparation wrote the record.
    pub registered: bool,
}

/// How a preparation ended.
#[derive(Debug)]
pub enum Outcome {
    Failed {
        kind: String,
        state_changed: bool,
        base_ref: Option<String>,
        base_sha: Option<String>,
        source_dirty: Option<bool>,
    },
    Ready(ReadyWorktree),
}

/// What an [`Outcome`] stands for.
#[allow(inconsistent_fields)]
pub enum OutcomeView {
    Failed {
        kind: Seq<char>,
        state_changed: bool,
        base_ref: Option<Seq<char>>,
        base_sha: Option<Seq<char>>,
        source_dirty: Option<bool>,
    },
    Ready {
        project: RunnerProjectFile,
        worktree: Seq<char>,
        base_ref: Seq<char>,
        base_sha: Seq<char>,
        source_dirty: bool,
        created: bool,
        registered: bool,
    },
}

impl View for Outcome {
    type V = OutcomeView;

    open spec fn view(&self) -> OutcomeView {
        match self {
            Outcome::Failed { kind, state_changed, base_ref, base_sha, source_dirty } => {
                OutcomeView::Failed {
                    kind: kind@,
                    state_changed: *state_changed,
                    base_ref: text::text_of(*base_ref),
                    base_sha: text::text_of(*base_sha),
                    source_dirty: *source_dirty,
                }
            },
            Outcome::Ready(ready) => OutcomeView::Ready {
                project: ready.project,
                worktree: ready.worktree@,
                base_ref: ready.base_ref@,
                base_sha: ready.base_sha@,
                source_dirty: ready.source_dirty,
                created: ready.created,
                registered: ready.registered,
            },
        }
    }
}

/// Where a step leads.
#[derive(Debug)]
pub enum Step {
    Ask(PrepareState),
    Finish(Outcome),
}

/// What a [`Step`] stands for.
pub enum StepView {
    Ask(PrepareView),
    Finish(OutcomeView),
}

impl View for Step {
    type V = StepView;

    open spec fn view(&self) -> StepView {
        match self {
            Step::Ask(state) => StepView::Ask(state@),
            Step::Finish(outcome) => StepView::Finish(outcome@),
        }
    }
}

/// What the driver is asked to do.
#[derive(Debug)]
pub enum Question {
    /// Whether a project root may be spelled like this on this platform.
    RootSpelling(String),
    /// Whether the policy lets a request name this path.
    IngressAuthority(String),
    /// The canonical path of an existing directory, as text.
    CanonicalDirectory(String),
    /// Whether a project may live at this path: its spelling and the policy.
    ProjectPolicy(String),
    /// The canonical path of `path`, where it is the same path as `other`.
    SamePath { path: String, other: String },
    /// Runs Git in a directory, without effect on it.
    Git { directory: String, args: Vec<String> },
    /// Whether an identifier is well formed.
    ProjectIdentifier(String),
    /// All records of the registry.
    AllRecords,
    /// The registered project whose root is this path.
    SourceProject(String),
    /// The canonical path of something that exists.
    CanonicalPath(String),
    /// Whether one of the paths is the same path as `target`.
    AnySamePath { paths: Vec<String>, target: String },
    /// What the policy and the disk offer for managed worktrees of a source.
    ManagedRoots(String),
    /// Makes a directory with its parents; its canonical path.
    CreateDirectory(String),
    /// Whether the policy lets a project live at this path.
    PathPolicy(String),
    /// The last component of a path, fit for a file name.
    Basename(String),
    /// The path of `leaf` below `root`.
    Join { root: String, leaf: String },
    /// Whether something exists at a path.
    PathExists(String),
    /// Runs `git worktree add` in a directory.
    AddWorktree { directory: String, args: Vec<String> },
    /// The records whose canonical path is this one.
    RecordsAt(String),
    /// An identifier for a project at this path that no record has.
    FreshIdentifier(String),
    /// Whether a path is text.
    IsUnicode(String),
    /// The record of an automatically registered project.
    AutomaticRecord { id: String, path: String },
    /// Writes a new record, atomically.
    WriteRecord { id: String, content: String },
    /// The record that a text holds.
    ParseRecord(String),
}

/// What a [`Question`] stands for.
pub enum QuestionView {
    RootSpelling(Seq<char>),
    IngressAuthority(Seq<char>),
    CanonicalDirectory(Seq<char>),
    ProjectPolicy(Seq<char>),
    SamePath { path: Seq<char>, other: Seq<char> },
    Git { directory: Seq<char>, args: Seq<Seq<char>> },
    ProjectIdentifier(Seq<char>),
    AllRecords,
    SourceProject(Seq<char>),
    CanonicalPath(Seq<char>),
    AnySamePath { paths: Seq<Seq<char>>, target: Seq<char> },
    ManagedRoots(Seq<char>),
    CreateDirectory(Seq<char>),
    PathPolicy(Seq<char>),
    Basename(Seq<char>),
    Join { root: Seq<char>, leaf: Seq<char> },
    PathExists(Seq<char>),
    AddWorktree { directory: Seq<char>, args: Seq<Seq<char>> },
    RecordsAt(Seq<char>),
    FreshIdentifier(Seq<char>),
    IsUnicode(Seq<char>),
    AutomaticRecord { id: Seq<char>, path: Seq<char> },
    WriteRecord { id: Seq<char>, content: Seq<char> },
    ParseRecord(Seq<char>),
}

impl View for Question {
    type V = QuestionView;

    open spec fn view(&self) -> QuestionView {
        match self {
            Question::RootSpelling(path) => QuestionView::RootSpelling(path@),
            Question::IngressAuthority(path) => QuestionView::IngressAuthority(path@),
            Question::CanonicalDirectory(path) => QuestionView::CanonicalDirectory(path@),
            Question::ProjectPolicy(path) => QuestionView::ProjectPolicy(path@),
            Question::SamePath { path, other } => QuestionView::SamePath {
                path: path@,
                other: other@,
            },
            Question::Git { directory, args } => QuestionView::Git {
                directory: directory@,
                args: text::texts(args@),
            },
            Question::ProjectIdentifier(id) => QuestionView::ProjectIdentifier(id@),
            Question::AllRecords => QuestionView::AllRecords,
            Question::SourceProject(path) => QuestionView::SourceProject(path@),
            Question::CanonicalPath(path) => QuestionView::CanonicalPath(path@),
            Question::AnySamePath { paths, target } => QuestionView::AnySamePath {
                paths: text::texts(paths@),
                target: target@,
            },
            Question::ManagedRoots(path) => QuestionView::ManagedRoots(path@),
            Question::CreateDirectory(path) => QuestionView::CreateDirectory(path@),
            Question::PathPolicy(path) => QuestionView::PathPolicy(path@),
            Question::Basename(path) => QuestionView::Basename(path@),
            Question::Join { root, leaf } => QuestionView::Join { root: root@, leaf: leaf@ },
            Question::PathExists(path) => QuestionView::PathExists(path@),
            Question::AddWorktree { directory, args } => QuestionView::AddWorktree {
                directory: directory@,
                args: text::texts(args@),
            },
            Question::RecordsAt(path) => QuestionView::RecordsAt(path@),
            Question::FreshIdentifier(path) => QuestionView::FreshIdentifier(path@),
            Question::IsUnicode(path) => QuestionView::IsUnicode(path@),
            Question::AutomaticRecord { id, path } => QuestionView::AutomaticRecord {
                id: id@,
                path: path@,
            },
            Question::WriteRecord { id, content } => QuestionView::WriteRecord {
                id: id@,
                content: content@,
            },
            Question::ParseRecord(content) => QuestionView::ParseRecord(content@),
        }
    }
}

// ---- What the stages mean ----------------------------------------------------

/// Whether a stage belongs to the resumption of an earlier worktree.
pub open spec fn is_resume(stage: Stage) -> bool {
    stage == Stage::ResumeId || stage == Stage::ResumeRecords || stage == Stage::ResumeSource
        || stage == Stage::ResumeLineage || stage == Stage::ResumeBase || stage == Stage::ResumePath
        || stage == Stage::ResumePolicy || stage == Stage::ResumeHead || stage
        == Stage::ResumeListing || stage == Stage::ResumeListed
}

/// Place of a stage in the order of the preparation.
pub open spec fn rank(stage: Stage) -> int {
    match stage {
        Stage::RawRoot => 0,
        Stage::Ingress => 1,
        Stage::Source => 2,
        Stage::SourcePolicy => 3,
        Stage::TopLevel => 4,
        Stage::SameRoot => 5,
        Stage::Status => 6,
        Stage::ResumeId => 7,
        Stage::ResumeRecords => 8,
        Stage::ResumeSource => 9,
        Stage::ResumeLineage => 10,
        Stage::ResumeBase => 11,
        Stage::ResumePath => 12,
        Stage::ResumePolicy => 13,
        Stage::ResumeHead => 14,
        Stage::ResumeListing => 15,
        Stage::ResumeListed => 16,
        Stage::Lineage => 17,
        Stage::Base => 18,
        Stage::Roots => 19,
        Stage::MakeRoot => 20,
        Stage::RootPolicy => 21,
        Stage::Basename => 22,
        Stage::Destination => 23,
        Stage::Exists => 24,
        Stage::FoundPath => 25,
        Stage::FreshListing => 26,
        Stage::FreshListed => 27,
        Stage::Add => 28,
        Stage::RejectedExists => 29,
        Stage::RejectedListing => 30,
        Stage::RejectedListed => 31,
        Stage::LostExists => 32,
        Stage::LostListing => 33,
        Stage::LostListed => 34,
        Stage::NewPath => 35,
        Stage::Head => 36,
        Stage::Listing => 37,
        Stage::Listed => 38,
        Stage::WorktreePolicy => 39,
        Stage::Matches => 40,
        Stage::ProjectId => 41,
        Stage::Unicode => 42,
        Stage::BaseRecord => 43,
        Stage::Write => 44,
        Stage::Parse => 45,
    }
}

/// What a state knows at its stage: whether the source is dirty from the first
/// stage after the status, the base commit from the stage after its resolution,
/// the project to resume once it was found; and, behind the comparison, that the
/// head of the worktree is the base commit.
pub open spec fn well_formed(state: PrepareView) -> bool {
    &&& rank(state.stage) > rank(Stage::Status) ==> state.source_dirty is Some
    &&& rank(state.stage) > rank(Stage::Base) ==> state.base_sha is Some
    &&& is_resume(state.stage) ==> state.request.resume_project_id is Some
    &&& is_resume(state.stage) && rank(state.stage) > rank(Stage::ResumeRecords) ==> {
        &&& state.base_sha is Some
        &&& state.project matches Some(project) && project.managed_worktree && !project.disabled
            && text::text_of(project.managed_base_sha) == state.base_sha
    }
    &&& state.stage == Stage::ResumeLineage ==> state.project->Some_0.managed_source_project_id
        is Some && state.project->Some_0.managed_source_root_fingerprint is Some
    &&& state.stage == Stage::ResumeBase ==> state.request.requested_base_ref is Some
    &&& state.stage == Stage::ResumeSource ==> state.project->Some_0.managed_source is Some
    &&& rank(state.stage) > rank(Stage::Listed) ==> state.base_sha == Some(state.head)
}

/// Whether an answer is one to the open question.
pub open spec fn fits(stage: Stage, answer: Answer) -> bool {
    match stage {
        Stage::RawRoot => answer is Holds,
        Stage::Ingress => answer is Refused,
        Stage::Source => answer is Path,
        Stage::SourcePolicy => answer is Holds,
        Stage::TopLevel => answer is Git,
        Stage::SameRoot => answer is Path,
        Stage::Status => answer is Git,
        Stage::ResumeId => answer is Holds,
        Stage::ResumeRecords => answer is Records,
        Stage::ResumeSource => answer is Path,
        Stage::ResumeLineage => answer is Lineage,
        Stage::ResumeBase => answer is Git,
        Stage::ResumePath => answer is Path,
        Stage::ResumePolicy => answer is Holds,
        Stage::ResumeHead => answer is Git,
        Stage::ResumeListing => answer is Git,
        Stage::ResumeListed => answer is Holds,
        Stage::Lineage => answer is Lineage,
        Stage::Base => answer is Git,
        Stage::Roots => answer is Roots,
        Stage::MakeRoot => answer is Path,
        Stage::RootPolicy => answer is Holds,
        Stage::Basename => answer is Text,
        Stage::Destination => answer is Text,
        Stage::Exists => answer is Holds,
        Stage::FoundPath => answer is Path,
        Stage::FreshListing => answer is Git,
        Stage::FreshListed => answer is Holds,
        Stage::Add => answer is Git,
        Stage::RejectedExists => answer is Holds,
        Stage::RejectedListing => answer is Git,
        Stage::RejectedListed => answer is Holds,
        Stage::LostExists => answer is Holds,
        Stage::LostListing => answer is Git,
        Stage::LostListed => answer is Holds,
        Stage::NewPath => answer is Path,
        Stage::Head => answer is Git,
        Stage::Listing => answer is Git,
        Stage::Listed => answer is Holds,
        Stage::WorktreePolicy => answer is Holds,
        Stage::Matches => answer is Records,
        Stage::ProjectId => answer is Named,
        Stage::Unicode => answer is Holds,
        Stage::BaseRecord => answer is Text,
        Stage::Write => answer is Written,
        Stage::Parse => answer is Parsed,
    }
}

// ---- What each answer leads to -----------------------------------------------

/// The preparation ends with a failure that reports what is known.
pub open spec fn failed(state: PrepareView, kind: Seq<char>, state_changed: bool) -> StepView {
    StepView::Finish(
        OutcomeView::Failed {
            kind,
            state_changed,
            base_ref: state.reported_base_ref,
            base_sha: state.base_sha,
            source_dirty: state.source_dirty,
        },
    )
}

/// The preparation goes on with another question and nothing new.
pub open spec fn at(state: PrepareView, stage: Stage) -> StepView {
    StepView::Ask(PrepareView { stage, ..state })
}

/// The next stage where an answer was yes, else a failure.
pub open spec fn held(
    state: PrepareView,
    yes: bool,
    stage: Stage,
    kind: Seq<char>,
    state_changed: bool,
) -> StepView {
    if yes {
        at(state, stage)
    } else {
        failed(state, kind, state_changed)
    }
}

/// The trimmed output of a Git command that was run, succeeded and is whole.
pub open spec fn text_from(output: Option<GitOutput>) -> Option<Seq<char>> {
    match output {
        Some(output) => git::git_text_of(output),
        None => None,
    }
}

/// The commit that a Git command named.
pub open spec fn commit_from(output: Option<GitOutput>) -> Option<Seq<char>> {
    match output {
        Some(output) => git::commit_of(output),
        None => None,
    }
}

/// The next stage with the paths that a listing holds, else a failure.
pub open spec fn listed_next(
    state: PrepareView,
    output: Option<GitOutput>,
    stage: Stage,
    kind: Seq<char>,
    state_changed: bool,
) -> StepView {
    match text_from(output) {
        Some(listing) => StepView::Ask(
            PrepareView { stage, listed: git::listed_of(listing), ..state },
        ),
        None => failed(state, kind, state_changed),
    }
}

/// The next stage with the head of a worktree, else a failure.
pub open spec fn head_next(
    state: PrepareView,
    output: Option<GitOutput>,
    stage: Stage,
    kind: Seq<char>,
    state_changed: bool,
) -> StepView {
    match text_from(output) {
        Some(head) => StepView::Ask(PrepareView { stage, head, ..state }),
        None => failed(state, kind, state_changed),
    }
}

/// The next stage with the canonical path of a worktree, else a failure.
pub open spec fn worktree_next(
    state: PrepareView,
    path: Option<String>,
    stage: Stage,
    kind: Seq<char>,
    state_changed: bool,
) -> StepView {
    match path {
        Some(path) => StepView::Ask(PrepareView { stage, worktree: path@, ..state }),
        None => failed(state, kind, state_changed),
    }
}

/// What follows once it is known whether the source is dirty: the resumption
/// of a project, where one was asked for, else a new worktree.
pub open spec fn after_status(state: PrepareView, dirty: bool) -> StepView {
    if state.request.resume_project_id is Some {
        StepView::Ask(
            PrepareView {
                stage: Stage::ResumeId,
                source_dirty: Some(dirty),
                reported_base_ref: state.request.requested_base_ref,
                ..state
            },
        )
    } else {
        StepView::Ask(
            PrepareView { stage: Stage::Lineage, source_dirty: Some(dirty), ..state },
        )
    }
}

/// The stages that look at the source.
pub open spec fn next_source(state: PrepareView, answer: Answer) -> StepView {
    match (state.stage, answer) {
        (Stage::RawRoot, Answer::Holds(yes)) => {
            held(state, yes, Stage::Ingress, "invalid_project_path"@, false)
        },
        (Stage::Ingress, Answer::Refused(None)) => at(state, Stage::Source),
        (Stage::Ingress, Answer::Refused(Some(kind))) => failed(state, kind@, false),
        (Stage::Source, Answer::Path(Some(path))) => {
            StepView::Ask(PrepareView { stage: Stage::SourcePolicy, source: path@, ..state })
        },
        (Stage::Source, _) => failed(state, "project_path_not_found"@, false),
        (Stage::SourcePolicy, Answer::Holds(yes)) => {
            held(state, yes, Stage::TopLevel, "path_outside_allowed_roots"@, false)
        },
        (Stage::TopLevel, Answer::Git(output)) => match text_from(output) {
            Some(root) => StepView::Ask(
                PrepareView { stage: Stage::SameRoot, top_level: root, ..state },
            ),
            None => failed(state, "source_not_git_repository"@, false),
        },
        (Stage::SameRoot, Answer::Path(Some(path))) => {
            StepView::Ask(PrepareView { stage: Stage::Status, source: path@, ..state })
        },
        (Stage::SameRoot, _) => failed(state, "source_not_git_repository"@, false),
        (Stage::Status, Answer::Git(output)) => match text_from(output) {
            Some(status) => after_status(state, status.len() > 0),
            None => failed(state, "source_git_status_failed"@, false),
        },
        _ => arbitrary(),
    }
}

/// The first record with the identifier `id`.
pub open spec fn first_with_id(records: Seq<RunnerProjectFile>, id: Seq<char>) -> Option<
    RunnerProjectFile,
>
    decreases records.len(),
{
    if records.len() == 0 {
        None
    } else if records[0].id@ == id {
        Some(records[0])
    } else {
        first_with_id(records.drop_first(), id)
    }
}

/// The base commit that a record holds, where it is the name of an object.
pub open spec fn stored_base_sha(project: RunnerProjectFile) -> Option<Seq<char>> {
    match text::text_of(project.managed_base_sha) {
        Some(sha) => if git::is_object_name(sha) {
            Some(sha)
        } else {
            None
        },
        None => None,
    }
}

/// What follows once the record of the project to resume is known.
pub open spec fn after_record(state: PrepareView, project: RunnerProjectFile) -> StepView {
    let known = PrepareView { base_sha: stored_base_sha(project), ..state };
    if project.disabled || !project.managed_worktree || known.base_sha is None
        || project.managed_source is None {
        failed(known, "managed_worktree_resume_mismatch"@, false)
    } else {
        StepView::Ask(
            PrepareView { stage: Stage::ResumeSource, project: Some(project), ..known },
        )
    }
}

/// What follows once nothing more speaks against the record: the worktree.
pub open spec fn after_base(state: PrepareView) -> StepView {
    StepView::Ask(
        PrepareView {
            stage: Stage::ResumePath,
            reported_base_ref: text::text_of(state.project->Some_0.managed_base_ref),
            ..state
        },
    )
}

/// What follows once the lineage of the project is settled.
pub open spec fn after_lineage(state: PrepareView) -> StepView {
    if state.request.requested_base_ref is Some {
        at(state, Stage::ResumeBase)
    } else {
        after_base(state)
    }
}

/// Whether a lineage is the one that a record holds.
pub open spec fn same_lineage(
    project: RunnerProjectFile,
    lineage: Result<(String, String), String>,
) -> bool {
    lineage matches Ok(found) && text::text_of(project.managed_source_project_id) == Some(found.0@)
        && text::text_of(project.managed_source_root_fingerprint) == Some(found.1@)
}

/// The stages that resume an earlier worktree. None of them changes anything.
pub open spec fn next_resume(state: PrepareView, answer: Answer) -> StepView {
    let project = state.project->Some_0;
    match (state.stage, answer) {
        (Stage::ResumeId, Answer::Holds(yes)) => {
            held(state, yes, Stage::ResumeRecords, "invalid_request"@, false)
        },
        (Stage::ResumeRecords, Answer::Records(Err(kind))) => failed(state, kind@, false),
        (Stage::ResumeRecords, Answer::Records(Ok(records))) => {
            match first_with_id(records@, state.request.resume_project_id->Some_0) {
                Some(found) => after_record(state, found),
                None => failed(state, "managed_worktree_resume_mismatch"@, false),
            }
        },
        (Stage::ResumeSource, Answer::Path(None)) => {
            failed(state, "managed_worktree_resume_mismatch"@, false)
        },
        (Stage::ResumeSource, Answer::Path(Some(_))) => {
            if project.managed_source_project_id is Some
                && project.managed_source_root_fingerprint is Some {
                at(state, Stage::ResumeLineage)
            } else {
                after_lineage(state)
            }
        },
        (Stage::ResumeLineage, Answer::Lineage(lineage)) => {
            if same_lineage(project, lineage) {
                after_lineage(state)
            } else {
                failed(state, "managed_worktree_resume_mismatch"@, false)
            }
        },
        (Stage::ResumeBase, Answer::Git(output)) => match commit_from(output) {
            Some(sha) => if state.base_sha == Some(sha) {
                after_base(state)
            } else {
                failed(state, "managed_worktree_resume_base_mismatch"@, false)
            },
            None => failed(state, "base_ref_resolution_failed"@, false),
        },
        (Stage::ResumePath, Answer::Path(path)) => worktree_next(
            state,
            path,
            Stage::ResumePolicy,
            "managed_worktree_recovery_conflict"@,
            false,
        ),
        (Stage::ResumePolicy, Answer::Holds(yes)) => {
            held(state, yes, Stage::ResumeHead, "managed_worktree_recovery_conflict"@, false)
        },
        (Stage::ResumeHead, Answer::Git(output)) => {
            head_next(state, output, Stage::ResumeListing, "worktree_git_failed"@, false)
        },
        (Stage::ResumeListing, Answer::Git(output)) => {
            listed_next(state, output, Stage::ResumeListed, "worktree_git_failed"@, false)
        },
        (Stage::ResumeListed, Answer::Holds(listed)) => {
            if state.base_sha == Some(state.head) && listed {
                StepView::Finish(
                    OutcomeView::Ready {
                        project,
                        worktree: state.worktree,
                        base_ref: match text::text_of(project.managed_base_ref) {
                            Some(base_ref) => base_ref,
                            None => state.request.base_ref,
                        },
                        base_sha: state.head,
                        source_dirty: state.source_dirty->Some_0,
                        created: false,
                        registered: false,
                    },
                )
            } else {
                failed(state, "managed_worktree_recovery_conflict"@, false)
            }
        },
        _ => arbitrary(),
    }
}

/// The name of the worktree's directory.
pub open spec fn leaf_of(basename: Seq<char>, operation_id: Seq<char>) -> Seq<char> {
    basename + "-"@ + operation_id
}

/// The stages that choose a place for a new worktree.
pub open spec fn next_place(state: PrepareView, answer: Answer) -> StepView {
    match (state.stage, answer) {
        (Stage::Lineage, Answer::Lineage(Ok(lineage))) => {
            StepView::Ask(
                PrepareView {
                    stage: Stage::Base,
                    source_project_id: lineage.0@,
                    source_root_fingerprint: lineage.1@,
                    ..state
                },
            )
        },
        (Stage::Lineage, Answer::Lineage(Err(kind))) => failed(state, kind@, false),
        (Stage::Base, Answer::Git(output)) => match commit_from(output) {
            Some(sha) => StepView::Ask(
                PrepareView { stage: Stage::Roots, base_sha: Some(sha), ..state },
            ),
            None => failed(state, "base_ref_resolution_failed"@, false),
        },
        (Stage::Roots, Answer::Roots(choice)) => match worktree_request::chosen_root(choice) {
            Some(root) => StepView::Ask(
                PrepareView { stage: Stage::MakeRoot, managed_root: root, ..state },
            ),
            None => failed(state, "managed_worktree_root_unavailable"@, false),
        },
        (Stage::MakeRoot, Answer::Path(Some(path))) => {
            StepView::Ask(PrepareView { stage: Stage::RootPolicy, managed_root: path@, ..state })
        },
        (Stage::MakeRoot, _) => failed(state, "worktree_creation_failed"@, false),
        (Stage::RootPolicy, Answer::Holds(yes)) => {
            held(state, yes, Stage::Basename, "managed_worktree_root_unavailable"@, false)
        },
        (Stage::Basename, Answer::Text(basename)) => {
            StepView::Ask(
                PrepareView {
                    stage: Stage::Destination,
                    leaf: leaf_of(basename@, state.request.operation_id),
                    ..state
                },
            )
        },
        (Stage::Destination, Answer::Text(path)) => {
            StepView::Ask(PrepareView { stage: Stage::Exists, destination: path@, ..state })
        },
        (Stage::Exists, Answer::Holds(yes)) => {
            at(state, if yes {
                Stage::FoundPath
            } else {
                Stage::FreshListing
            })
        },
        _ => arbitrary(),
    }
}

/// The stages that make the worktree, or find it made.
pub open spec fn next_worktree(state: PrepareView, answer: Answer) -> StepView {
    match (state.stage, answer) {
        (Stage::FoundPath, Answer::Path(path)) => worktree_next(
            state,
            path,
            Stage::Head,
            "managed_worktree_recovery_conflict"@,
            true,
        ),
        (Stage::FreshListing, Answer::Git(output)) => {
            listed_next(state, output, Stage::FreshListed, "operation_indeterminate"@, false)
        },
        (Stage::FreshListed, Answer::Holds(listed)) => {
            held(state, !listed, Stage::Add, "managed_worktree_recovery_conflict"@, true)
        },
        (Stage::Add, Answer::Git(Some(output))) => {
            if output.success {
                StepView::Ask(PrepareView { stage: Stage::NewPath, created: true, ..state })
            } else {
                at(state, Stage::RejectedExists)
            }
        },
        (Stage::Add, _) => at(state, Stage::LostExists),
        (Stage::RejectedExists, Answer::Holds(yes)) => {
            at(state, if yes {
                Stage::NewPath
            } else {
                Stage::RejectedListing
            })
        },
        (Stage::RejectedListing, Answer::Git(output)) => {
            listed_next(state, output, Stage::RejectedListed, "operation_indeterminate"@, false)
        },
        (Stage::RejectedListed, Answer::Holds(listed)) => {
            if listed {
                failed(state, "managed_worktree_recovery_conflict"@, true)
            } else {
                failed(state, "worktree_creation_failed"@, false)
            }
        },
        (Stage::LostExists, Answer::Holds(yes)) => {
            at(state, if yes {
                Stage::NewPath
            } else {
                Stage::LostListing
            })
        },
        (Stage::LostListing, Answer::Git(output)) => {
            listed_next(state, output, Stage::LostListed, "operation_indeterminate"@, false)
        },
        (Stage::LostListed, Answer::Holds(listed)) => {
            if listed {
                failed(state, "managed_worktree_recovery_conflict"@, true)
            } else {
                failed(state, "operation_indeterminate"@, false)
            }
        },
        (Stage::NewPath, Answer::Path(path)) => {
            worktree_next(state, path, Stage::Head, "operation_indeterminate"@, true)
        },
        (Stage::Head, Answer::Git(output)) => {
            head_next(state, output, Stage::Listing, "operation_indeterminate"@, true)
        },
        (Stage::Listing, Answer::Git(output)) => {
            listed_next(state, output, Stage::Listed, "operation_indeterminate"@, true)
        },
        (Stage::Listed, Answer::Holds(listed)) => {
            held(
                state,
                state.base_sha == Some(state.head) && listed,
                Stage::WorktreePolicy,
                "managed_worktree_recovery_conflict"@,
                true,
            )
        },
        _ => arbitrary(),
    }
}

/// Whether a record is the one that the same operation wrote earlier.
pub open spec fn same_operation(state: PrepareView, project: RunnerProjectFile) -> bool {
    &&& project.managed_worktree
    &&& text::text_of(project.managed_operation_id) == Some(state.request.operation_id)
    &&& text::text_of(project.managed_base_sha) == state.base_sha
    &&& text::text_of(project.managed_source) == Some(state.source)
    &&& text::text_of(project.managed_source_project_id) == Some(state.source_project_id)
    &&& text::text_of(project.managed_source_root_fingerprint) == Some(
        state.source_root_fingerprint,
    )
}

/// The preparation ends with the worktree of the state.
pub open spec fn ready(state: PrepareView, project: RunnerProjectFile, registered: bool) -> StepView {
    StepView::Finish(
        OutcomeView::Ready {
            project,
            worktree: state.worktree,
            base_ref: state.request.base_ref,
            base_sha: state.base_sha->Some_0,
            source_dirty: state.source_dirty->Some_0,
            created: state.created && registered,
            registered,
        },
    )
}

/// What follows once the records at the worktree's path are known.
pub open spec fn after_matches(state: PrepareView, records: Seq<RunnerProjectFile>) -> StepView {
    if records.len() > 1 {
        failed(state, "ambiguous_project_path"@, true)
    } else if records.len() == 0 {
        at(state, Stage::ProjectId)
    } else if records[0].disabled || !same_operation(state, records[0]) {
        failed(state, "managed_worktree_recovery_conflict"@, true)
    } else {
        ready(state, records[0], false)
    }
}

/// The record of the worktree: `record` with the fields of a managed worktree.
pub open spec fn full_record(state: PrepareView, record: Seq<char>) -> Seq<char> {
    project_record::managed_lines(
        record,
        state.source,
        state.source_project_id,
        state.source_root_fingerprint,
        state.request.base_ref,
        state.base_sha->Some_0,
        state.request.operation_id,
    )
}

/// The stages that register the worktree.
pub open spec fn next_record(state: PrepareView, answer: Answer) -> StepView {
    match (state.stage, answer) {
        (Stage::WorktreePolicy, Answer::Holds(yes)) => {
            held(state, yes, Stage::Matches, "managed_worktree_root_unavailable"@, true)
        },
        (Stage::Matches, Answer::Records(Err(kind))) => failed(state, kind@, true),
        (Stage::Matches, Answer::Records(Ok(records))) => after_matches(state, records@),
        (Stage::ProjectId, Answer::Named(Err(kind))) => failed(state, kind@, true),
        (Stage::ProjectId, Answer::Named(Ok(id))) => {
            StepView::Ask(PrepareView { stage: Stage::Unicode, project_id: id@, ..state })
        },
        (Stage::Unicode, Answer::Holds(yes)) => {
            held(state, yes, Stage::BaseRecord, "invalid_project_path"@, true)
        },
        (Stage::BaseRecord, Answer::Text(record)) => {
            StepView::Ask(
                PrepareView {
                    stage: Stage::Write,
                    content: full_record(state, record@),
                    ..state
                },
            )
        },
        (Stage::Write, Answer::Written(WriteOutcome::Written)) => at(state, Stage::Parse),
        (Stage::Write, Answer::Written(WriteOutcome::BeforeRename)) => {
            failed(state, "worktree_registration_failed"@, true)
        },
        (Stage::Write, _) => failed(state, "operation_indeterminate"@, true),
        (Stage::Parse, Answer::Parsed(Some(project))) => ready(state, project, true),
        (Stage::Parse, _) => failed(state, "operation_indeterminate"@, true),
        _ => arbitrary(),
    }
}

/// Where an answer to the open question leads.
pub open spec fn next(state: PrepareView, answer: Answer) -> StepView {
    if rank(state.stage) <= rank(Stage::Status) {
        next_source(state, answer)
    } else if is_resume(state.stage) {
        next_resume(state, answer)
    } else if rank(state.stage) <= rank(Stage::Exists) {
        next_place(state, answer)
    } else if rank(state.stage) <= rank(Stage::Listed) {
        next_worktree(state, answer)
    } else {
        next_record(state, answer)
    }
}

// ---- Where a preparation begins ----------------------------------------------

/// A refusal before anything is known.
pub open spec fn refused(kind: Seq<char>, base_ref: Option<Seq<char>>) -> StepView {
    StepView::Finish(
        OutcomeView::Failed {
            kind,
            state_changed: false,
            base_ref,
            base_sha: None,
            source_dirty: None,
        },
    )
}

/// The first state of an accepted request.
pub open spec fn first_state(
    request: worktree_request::RequestView,
    windows: bool,
) -> PrepareView {
    PrepareView {
        stage: Stage::RawRoot,
        windows,
        request,
        reported_base_ref: Some(request.base_ref),
        top_level: Seq::empty(),
        source: Seq::empty(),
        source_dirty: None,
        base_sha: None,
        source_project_id: Seq::empty(),
        source_root_fingerprint: Seq::empty(),
        managed_root: Seq::empty(),
        leaf: Seq::empty(),
        destination: Seq::empty(),
        worktree: Seq::empty(),
        head: Seq::empty(),
        listed: Seq::empty(),
        created: false,
        project: None,
        project_id: Seq::empty(),
        content: Seq::empty(),
    }
}

/// Where a preparation begins.
pub open spec fn beginning(
    lock_acquired: bool,
    payload: Option<json::JsonView>,
    absolute: bool,
    windows: bool,
) -> StepView {
    if !lock_acquired {
        refused("operation_failed"@, None)
    } else {
        match payload {
            Some(payload) => match worktree_request::request_of(payload, absolute) {
                Ok(request) => StepView::Ask(first_state(request, windows)),
                Err(refusal) => refused(refusal.0, refusal.1),
            },
            None => refused("invalid_request"@, None),
        }
    }
}

// ---- The questions -----------------------------------------------------------

/// A Git command in a directory.
pub open spec fn git_in(directory: Seq<char>, args: Seq<Seq<char>>) -> QuestionView {
    QuestionView::Git { directory, args }
}

/// The arguments that name the commit of a reference.
pub open spec fn commit_args(base_ref: Seq<char>) -> Seq<Seq<char>> {
    seq!["rev-parse"@, "--verify"@, "--end-of-options"@, base_ref + "^{commit}"@]
}

/// The arguments that list the worktrees of a repository.
pub open spec fn listing_args() -> Seq<Seq<char>> {
    seq!["worktree"@, "list"@, "--porcelain"@]
}

/// The destination as it is spelled for Git.
pub open spec fn spelled(state: PrepareView) -> Seq<char> {
    if state.windows {
        git::cli_path(state.destination)
    } else {
        state.destination
    }
}

/// The open question of a state.
pub open spec fn question_of(state: PrepareView) -> QuestionView {
    let project = state.project->Some_0;
    match state.stage {
        Stage::RawRoot => QuestionView::RootSpelling(state.request.path),
        Stage::Ingress => QuestionView::IngressAuthority(state.request.path),
        Stage::Source => QuestionView::CanonicalDirectory(state.request.path),
        Stage::SourcePolicy => QuestionView::ProjectPolicy(state.source),
        Stage::TopLevel => git_in(state.source, seq!["rev-parse"@, "--show-toplevel"@]),
        Stage::SameRoot => QuestionView::SamePath { path: state.top_level, other: state.source },
        Stage::Status => git_in(state.source, seq!["status"@, "--porcelain"@]),
        Stage::ResumeId => {
            QuestionView::ProjectIdentifier(state.request.resume_project_id->Some_0)
        },
        Stage::ResumeRecords => QuestionView::AllRecords,
        Stage::ResumeSource => QuestionView::SamePath {
            path: project.managed_source->Some_0@,
            other: state.source,
        },
        Stage::ResumeLineage => QuestionView::SourceProject(state.source),
        Stage::ResumeBase => {
            git_in(state.source, commit_args(state.request.requested_base_ref->Some_0))
        },
        Stage::ResumePath => QuestionView::CanonicalPath(project.path@),
        Stage::ResumePolicy => QuestionView::ProjectPolicy(state.worktree),
        Stage::ResumeHead => git_in(state.worktree, seq!["rev-parse"@, "HEAD"@]),
        Stage::ResumeListing => git_in(state.source, listing_args()),
        Stage::ResumeListed => QuestionView::AnySamePath {
            paths: state.listed,
            target: state.worktree,
        },
        Stage::Lineage => QuestionView::SourceProject(state.source),
        Stage::Base => git_in(state.source, commit_args(state.request.base_ref)),
        Stage::Roots => QuestionView::ManagedRoots(state.source),
        Stage::MakeRoot => QuestionView::CreateDirectory(state.managed_root),
        Stage::RootPolicy => QuestionView::PathPolicy(state.managed_root),
        Stage::Basename => QuestionView::Basename(state.source),
        Stage::Destination => QuestionView::Join { root: state.managed_root, leaf: state.leaf },
        Stage::Exists => QuestionView::PathExists(state.destination),
        Stage::FoundPath => QuestionView::CanonicalPath(state.destination),
        Stage::FreshListing => git_in(state.source, listing_args()),
        Stage::FreshListed => QuestionView::AnySamePath {
            paths: state.listed,
            target: state.destination,
        },
        Stage::Add => QuestionView::AddWorktree {
            directory: state.source,
            args: seq![
                "worktree"@,
                "add"@,
                "--detach"@,
                spelled(state),
                state.base_sha->Some_0,
            ],
        },
        Stage::RejectedExists => QuestionView::PathExists(state.destination),
        Stage::RejectedListing => git_in(state.source, listing_args()),
        Stage::RejectedListed => QuestionView::AnySamePath {
            paths: state.listed,
            target: state.destination,
        },
        Stage::LostExists => QuestionView::PathExists(state.destination),
        Stage::LostListing => git_in(state.source, listing_args()),
        Stage::LostListed => QuestionView::AnySamePath {
            paths: state.listed,
            target: state.destination,
        },
        Stage::NewPath => QuestionView::CanonicalPath(state.destination),
        Stage::Head => git_in(state.worktree, seq!["rev-parse"@, "HEAD"@]),
        Stage::Listing => git_in(state.source, listing_args()),
        Stage::Listed => QuestionView::AnySamePath { paths: state.listed, target: state.worktree },
        Stage::WorktreePolicy => QuestionView::PathPolicy(state.worktree),
        Stage::Matches => QuestionView::RecordsAt(state.worktree),
        Stage::ProjectId => QuestionView::FreshIdentifier(state.worktree),
        Stage::Unicode => QuestionView::IsUnicode(state.worktree),
        Stage::BaseRecord => QuestionView::AutomaticRecord {
            id: state.project_id,
            path: state.worktree,
        },
        Stage::Write => QuestionView::WriteRecord {
            id: state.project_id,
            content: state.content,
        },
        Stage::Parse => QuestionView::ParseRecord(state.content),
    }
}

/// Whether carrying out a question can change anything.
pub open spec fn changes(question: QuestionView) -> bool {
    question is CreateDirectory || question is AddWorktree || question is WriteRecord
}

// ---- The executable steps ----------------------------------------------------

/// Copies of texts, in their order.
fn copied(values: &Vec<String>) -> (copy: Vec<String>)
    ensures
        text::texts(copy@) == text::texts(values@),
{
    let mut copy: Vec<String> = Vec::new();
    let mut i: usize = 0;
    while i < values.len()
        invariant
            i <= values@.len(),
            copy@.len() == i,
            forall|j: int| 0 <= j < i ==> (#[trigger] copy@[j])@ == values@[j]@,
        decreases values@.len() - i,
    {
        copy.push(values[i].clone());
        i = i + 1;
    }
    assert(text::texts(copy@) =~= text::texts(values@));
    copy
}

fn words2(a: &str, b: &str) -> (args: Vec<String>)
    ensures
        text::texts(args@) == seq![a@, b@],
{
    let mut args: Vec<String> = Vec::new();
    args.push(a.to_owned());
    args.push(b.to_owned());
    assert(text::texts(args@) =~= seq![a@, b@]);
    args
}

fn words3(a: &str, b: &str, c: &str) -> (args: Vec<String>)
    ensures
        text::texts(args@) == seq![a@, b@, c@],
{
    let mut args: Vec<String> = Vec::new();
    args.push(a.to_owned());
    args.push(b.to_owned());
    args.push(c.to_owned());
    assert(text::texts(args@) =~= seq![a@, b@, c@]);
    args
}

fn commit_words(base_ref: &str) -> (args: Vec<String>)
    ensures
        text::texts(args@) == commit_args(base_ref@),
{
    let mut args = words3("rev-parse", "--verify", "--end-of-options");
    let ghost before = text::texts(args@);
    let named = joined(base_ref, "^{commit}");
    args.push(named);
    assert(text::texts(args@) =~= before.push(named@));
    assert(text::texts(args@) =~= commit_args(base_ref@));
    args
}

impl PrepareState {
    /// The project to resume.
    fn resumed(&self) -> (project: &RunnerProjectFile)
        requires
            self.project is Some,
        ensures
            *project == self.project->Some_0,
    {
        match &self.project {
            Some(project) => project,
            None => vstd::pervasive::unreached(),
        }
    }

    fn listing(&self) -> (question: Question)
        ensures
            question@ == git_in(self.source@, listing_args()),
    {
        Question::Git {
            directory: self.source.clone(),
            args: words3("worktree", "list", "--porcelain"),
        }
    }

    fn any_listed(&self, target: &String) -> (question: Question)
        ensures
            question@ == (QuestionView::AnySamePath {
                paths: text::texts(self.listed@),
                target: target@,
            }),
    {
        Question::AnySamePath { paths: copied(&self.listed), target: target.clone() }
    }

    fn head_of(&self) -> (question: Question)
        ensures
            question@ == git_in(self.worktree@, seq!["rev-parse"@, "HEAD"@]),
    {
        Question::Git { directory: self.worktree.clone(), args: words2("rev-parse", "HEAD") }
    }

    fn addition(&self) -> (question: Question)
        requires
            self.base_sha is Some,
            self.stage == Stage::Add,
        ensures
            question@ == question_of(self@),
    {
        let sha = match &self.base_sha {
            Some(sha) => sha.clone(),
            None => vstd::pervasive::unreached(),
        };
        let mut args = words3("worktree", "add", "--detach");
        let ghost before = text::texts(args@);
        let path = managed_worktree_git_cli_path(self.destination.as_str(), self.windows);
        args.push(path);
        assert(text::texts(args@) =~= before.push(path@));
        let ghost before = text::texts(args@);
        args.push(sha);
        assert(text::texts(args@) =~= before.push(sha@));
        assert(text::texts(args@) =~= seq![
            "worktree"@,
            "add"@,
            "--detach"@,
            spelled(self@),
            self@.base_sha->Some_0,
        ]);
        Question::AddWorktree { directory: self.source.clone(), args }
    }

    /// The open question: what the driver has to find out or do next.
    pub fn question(&self) -> (question: Question)
        requires
            well_formed(self@),
        ensures
            question@ == question_of(self@),
    {
        match self.stage {
            Stage::RawRoot => Question::RootSpelling(self.request.path.clone()),
            Stage::Ingress => Question::IngressAuthority(self.request.path.clone()),
            Stage::Source => Question::CanonicalDirectory(self.request.path.clone()),
            Stage::SourcePolicy => Question::ProjectPolicy(self.source.clone()),
            Stage::TopLevel => Question::Git {
                directory: self.source.clone(),
                args: words2("rev-parse", "--show-toplevel"),
            },
            Stage::SameRoot => Question::SamePath {
                path: self.top_level.clone(),
                other: self.source.clone(),
            },
            Stage::Status => Question::Git {
                directory: self.source.clone(),
                args: words2("status", "--porcelain"),
            },
            Stage::ResumeId => match &self.request.resume_project_id {
                Some(id) => Question::ProjectIdentifier(id.clone()),
                None => vstd::pervasive::unreached(),
            },
            Stage::ResumeRecords => Question::AllRecords,
            Stage::ResumeSource => match &self.resumed().managed_source {
                Some(source) => Question::SamePath {
                    path: source.clone(),
                    other: self.source.clone(),
                },
                None => vstd::pervasive::unreached(),
            },
            Stage::ResumeLineage | Stage::Lineage => Question::SourceProject(self.source.clone()),
            Stage::ResumeBase => match &self.request.requested_base_ref {
                Some(base_ref) => Question::Git {
                    directory: self.source.clone(),
                    args: commit_words(base_ref.as_str()),
                },
                None => vstd::pervasive::unreached(),
            },
            Stage::ResumePath => Question::CanonicalPath(self.resumed().path.clone()),
            Stage::ResumePolicy => Question::ProjectPolicy(self.worktree.clone()),
            Stage::ResumeHead | Stage::Head => self.head_of(),
            Stage::ResumeListing
            | Stage::FreshListing
            | Stage::RejectedListing
            | Stage::LostListing
            | Stage::Listing => self.listing(),
            Stage::ResumeListed | Stage::Listed => self.any_listed(&self.worktree),
            Stage::FreshListed | Stage::RejectedListed | Stage::LostListed => {
                self.any_listed(&self.destination)
            },
            Stage::Base => Question::Git {
                directory: self.source.clone(),
                args: commit_words(self.request.base_ref.as_str()),
            },
            Stage::Roots => Question::ManagedRoots(self.source.clone()),
            Stage::MakeRoot => Question::CreateDirectory(self.managed_root.clone()),
            Stage::RootPolicy => Question::PathPolicy(self.managed_root.clone()),
            Stage::Basename => Question::Basename(self.source.clone()),
            Stage::Destination => Question::Join {
                root: self.managed_root.clone(),
                leaf: self.leaf.clone(),
            },
            Stage::Exists | Stage::RejectedExists | Stage::LostExists => {
                Question::PathExists(self.destination.clone())
            },
            Stage::FoundPath | Stage::NewPath => Question::CanonicalPath(self.destination.clone()),
            Stage::Add => self.addition(),
            Stage::WorktreePolicy => Question::PathPolicy(self.worktree.clone()),
            Stage::Matches => Question::RecordsAt(self.worktree.clone()),
            Stage::ProjectId => Question::FreshIdentifier(self.worktree.clone()),
            Stage::Unicode => Question::IsUnicode(self.worktree.clone()),
            Stage::BaseRecord => Question::AutomaticRecord {
                id: self.project_id.clone(),
                path: self.worktree.clone(),
            },
            Stage::Write => Question::WriteRecord {
                id: self.project_id.clone(),
                content: self.content.clone(),
            },
            Stage::Parse => Question::ParseRecord(self.content.clone()),
        }
    }
}

fn output_text(output: Option<GitOutput>) -> (result: Option<String>)
    ensures
        text::text_of(result) == text_from(output),
{
    match output {
        Some(output) => managed_worktree_git_text(output),
        None => None,
    }
}

fn output_commit(output: Option<GitOutput>) -> (result: Option<String>)
    ensures
        text::text_of(result) == commit_from(output),
{
    match output {
        Some(output) => exact_git_commit(output),
        None => None,
    }
}

/// The place of the first record with the identifier `id`.
fn find_record(records: &Vec<RunnerProjectFile>, id: &str) -> (found: Option<usize>)
    ensures
        match found {
            Some(i) => i < records@.len() && first_with_id(records@, id@) == Some(
                records@[i as int],
            ),
            None => first_with_id(records@, id@) is None,
        },
{
    let mut i: usize = 0;
    assert(records@.skip(0) =~= records@);
    while i < records.len()
        invariant
            i <= records@.len(),
            first_with_id(records@, id@) == first_with_id(records@.skip(i as int), id@),
        decreases records@.len() - i,
    {
        if same_text(records[i].id.as_str(), id) {
            return Some(i);
        }
        assert(records@.skip(i as int).drop_first() =~= records@.skip(i + 1));
        i = i + 1;
    }
    None
}

impl PrepareState {
    fn fail(self, kind: &str, state_changed: bool) -> (step: Step)
        ensures
            step@ == failed(self@, kind@, state_changed),
    {
        Step::Finish(
            Outcome::Failed {
                kind: kind.to_owned(),
                state_changed,
                base_ref: self.reported_base_ref,
                base_sha: self.base_sha,
                source_dirty: self.source_dirty,
            },
        )
    }

    fn go(self, stage: Stage) -> (step: Step)
        ensures
            step@ == at(self@, stage),
    {
        let mut state = self;
        state.stage = stage;
        Step::Ask(state)
    }

    fn go_if(self, yes: bool, stage: Stage, kind: &str, state_changed: bool) -> (step: Step)
        ensures
            step@ == held(self@, yes, stage, kind@, state_changed),
    {
        if yes {
            self.go(stage)
        } else {
            self.fail(kind, state_changed)
        }
    }

    fn go_listed(
        self,
        output: Option<GitOutput>,
        stage: Stage,
        kind: &str,
        state_changed: bool,
    ) -> (step: Step)
        ensures
            step@ == listed_next(self@, output, stage, kind@, state_changed),
    {
        match output_text(output) {
            Some(listing) => {
                let mut state = self;
                state.listed = listed_worktrees(listing.as_str());
                state.go(stage)
            },
            None => self.fail(kind, state_changed),
        }
    }

    fn go_head(
        self,
        output: Option<GitOutput>,
        stage: Stage,
        kind: &str,
        state_changed: bool,
    ) -> (step: Step)
        ensures
            step@ == head_next(self@, output, stage, kind@, state_changed),
    {
        match output_text(output) {
            Some(head) => {
                let mut state = self;
                state.head = head;
                state.go(stage)
            },
            None => self.fail(kind, state_changed),
        }
    }

    fn go_worktree(
        self,
        path: Option<String>,
        stage: Stage,
        kind: &str,
        state_changed: bool,
    ) -> (step: Step)
        ensures
            step@ == worktree_next(self@, path, stage, kind@, state_changed),
    {
        match path {
            Some(path) => {
                let mut state = self;
                state.worktree = path;
                state.go(stage)
            },
            None => self.fail(kind, state_changed),
        }
    }

    fn go_after_status(self, dirty: bool) -> (step: Step)
        ensures
            step@ == after_status(self@, dirty),
    {
        let mut state = self;
        state.source_dirty = Some(dirty);
        if state.request.resume_project_id.is_some() {
            state.reported_base_ref = copy_text(&state.request.requested_base_ref);
            state.go(Stage::ResumeId)
        } else {
            state.go(Stage::Lineage)
        }
    }

    fn step_source(self, answer: Answer) -> (step: Step)
        requires
            fits(self.stage, answer),
            rank(self.stage) <= rank(Stage::Status),
        ensures
            step@ == next_source(self@, answer),
    {
        let mut state = self;
        match (state.stage, answer) {
            (Stage::RawRoot, Answer::Holds(yes)) => {
                state.go_if(yes, Stage::Ingress, "invalid_project_path", false)
            },
            (Stage::Ingress, Answer::Refused(None)) => state.go(Stage::Source),
            (Stage::Ingress, Answer::Refused(Some(kind))) => state.fail(kind.as_str(), false),
            (Stage::Source, Answer::Path(Some(path))) => {
                state.source = path;
                state.go(Stage::SourcePolicy)
            },
            (Stage::Source, _) => state.fail("project_path_not_found", false),
            (Stage::SourcePolicy, Answer::Holds(yes)) => {
                state.go_if(yes, Stage::TopLevel, "path_outside_allowed_roots", false)
            },
            (Stage::TopLevel, Answer::Git(output)) => match output_text(output) {
                Some(root) => {
                    state.top_level = root;
                    state.go(Stage::SameRoot)
                },
                None => state.fail("source_not_git_repository", false),
            },
            (Stage::SameRoot, Answer::Path(Some(path))) => {
                state.source = path;
                state.go(Stage::Status)
            },
            (Stage::SameRoot, _) => state.fail("source_not_git_repository", false),
            (Stage::Status, Answer::Git(output)) => match output_text(output) {
                Some(status) => state.go_after_status(!status.as_str().is_empty()),
                None => state.fail("source_git_status_failed", false),
            },
            _ => vstd::pervasive::unreached(),
        }
    }

    fn go_after_record(self, project: RunnerProjectFile) -> (step: Step)
        ensures
            step@ == after_record(self@, project),
    {
        let mut state = self;
        state.base_sha =
        match &project.managed_base_sha {
            Some(sha) => if object_name(sha.as_str()) {
                Some(sha.clone())
            } else {
                None
            },
            None => None,
        };
        if project.disabled || !project.managed_worktree || state.base_sha.is_none()
            || project.managed_source.is_none() {
            state.fail("managed_worktree_resume_mismatch", false)
        } else {
            state.project = Some(project);
            state.go(Stage::ResumeSource)
        }
    }

    fn go_after_base(self) -> (step: Step)
        requires
            self.project is Some,
        ensures
            step@ == after_base(self@),
    {
        let mut state = self;
        state.reported_base_ref = copy_text(&state.resumed().managed_base_ref);
        state.go(Stage::ResumePath)
    }

    fn go_after_lineage(self) -> (step: Step)
        requires
            self.project is Some,
        ensures
            step@ == after_lineage(self@),
    {
        if self.request.requested_base_ref.is_some() {
            self.go(Stage::ResumeBase)
        } else {
            self.go_after_base()
        }
    }

    fn has_lineage(&self, lineage: &Result<(String, String), String>) -> (same: bool)
        requires
            self.project is Some,
        ensures
            same == same_lineage(self.project->Some_0, *lineage),
    {
        let project = self.resumed();
        match lineage {
            Ok(found) => is_text(as_text(&project.managed_source_project_id), found.0.as_str())
                && is_text(as_text(&project.managed_source_root_fingerprint), found.1.as_str()),
            Err(_) => false,
        }
    }

    fn head_is_base(&self) -> (same: bool)
        ensures
            same == (self@.base_sha == Some(self@.head)),
    {
        is_text(as_text(&self.base_sha), self.head.as_str())
    }

    fn finish_resumed(self) -> (step: Step)
        requires
            well_formed(self@),
            self.stage == Stage::ResumeListed,
            self@.base_sha == Some(self@.head),
        ensures
            step@ == next_resume(self@, Answer::Holds(true)),
    {
        let project = match self.project {
            Some(project) => project,
            None => vstd::pervasive::unreached(),
        };
        let base_ref = match &project.managed_base_ref {
            Some(base_ref) => base_ref.clone(),
            None => self.request.base_ref,
        };
        let source_dirty = match self.source_dirty {
            Some(dirty) => dirty,
            None => vstd::pervasive::unreached(),
        };
        Step::Finish(
            Outcome::Ready(
                ReadyWorktree {
                    project,
                    worktree: self.worktree,
                    base_ref,
                    base_sha: self.head,
                    source_dirty,
                    created: false,
                    registered: false,
                },
            ),
        )
    }

    fn step_resume(self, answer: Answer) -> (step: Step)
        requires
            fits(self.stage, answer),
            is_resume(self.stage),
            well_formed(self@),
        ensures
            step@ == next_resume(self@, answer),
    {
        let state = self;
        match (state.stage, answer) {
            (Stage::ResumeId, Answer::Holds(yes)) => {
                state.go_if(yes, Stage::ResumeRecords, "invalid_request", false)
            },
            (Stage::ResumeRecords, Answer::Records(Err(kind))) => state.fail(kind.as_str(), false),
            (Stage::ResumeRecords, Answer::Records(Ok(records))) => {
                let mut records = records;
                let found = match &state.request.resume_project_id {
                    Some(id) => find_record(&records, id.as_str()),
                    None => vstd::pervasive::unreached(),
                };
                match found {
                    Some(i) => {
                        let project = records.remove(i);
                        state.go_after_record(project)
                    },
                    None => state.fail("managed_worktree_resume_mismatch", false),
                }
            },
            (Stage::ResumeSource, Answer::Path(None)) => {
                state.fail("managed_worktree_resume_mismatch", false)
            },
            (Stage::ResumeSource, Answer::Path(Some(_))) => {
                let traced = state.resumed().managed_source_project_id.is_some()
                    && state.resumed().managed_source_root_fingerprint.is_some();
                if traced {
                    state.go(Stage::ResumeLineage)
                } else {
                    state.go_after_lineage()
                }
            },
            (Stage::ResumeLineage, Answer::Lineage(lineage)) => {
                if state.has_lineage(&lineage) {
                    state.go_after_lineage()
                } else {
                    state.fail("managed_worktree_resume_mismatch", false)
                }
            },
            (Stage::ResumeBase, Answer::Git(output)) => match output_commit(output) {
                Some(sha) => if is_text(as_text(&state.base_sha), sha.as_str()) {
                    state.go_after_base()
                } else {
                    state.fail("managed_worktree_resume_base_mismatch", false)
                },
                None => state.fail("base_ref_resolution_failed", false),
            },
            (Stage::ResumePath, Answer::Path(path)) => state.go_worktree(
                path,
                Stage::ResumePolicy,
                "managed_worktree_recovery_conflict",
                false,
            ),
            (Stage::ResumePolicy, Answer::Holds(yes)) => {
                state.go_if(yes, Stage::ResumeHead, "managed_worktree_recovery_conflict", false)
            },
            (Stage::ResumeHead, Answer::Git(output)) => {
                state.go_head(output, Stage::ResumeListing, "worktree_git_failed", false)
            },
            (Stage::ResumeListing, Answer::Git(output)) => {
                state.go_listed(output, Stage::ResumeListed, "worktree_git_failed", false)
            },
            (Stage::ResumeListed, Answer::Holds(listed)) => {
                if state.head_is_base() && listed {
                    state.finish_resumed()
                } else {
                    state.fail("managed_worktree_recovery_conflict", false)
                }
            },
            _ => vstd::pervasive::unreached(),
        }
    }

    fn step_place(self, answer: Answer) -> (step: Step)
        requires
            fits(self.stage, answer),
            rank(Stage::Lineage) <= rank(self.stage) <= rank(Stage::Exists),
        ensures
            step@ == next_place(self@, answer),
    {
        let mut state = self;
        match (state.stage, answer) {
            (Stage::Lineage, Answer::Lineage(Ok(lineage))) => {
                state.source_project_id = lineage.0;
                state.source_root_fingerprint = lineage.1;
                state.go(Stage::Base)
            },
            (Stage::Lineage, Answer::Lineage(Err(kind))) => state.fail(kind.as_str(), false),
            (Stage::Base, Answer::Git(output)) => match output_commit(output) {
                Some(sha) => {
                    state.base_sha = Some(sha);
                    state.go(Stage::Roots)
                },
                None => state.fail("base_ref_resolution_failed", false),
            },
            (Stage::Roots, Answer::Roots(choice)) => match choose_managed_worktree_root(&choice) {
                Some(root) => {
                    state.managed_root = root;
                    state.go(Stage::MakeRoot)
                },
                None => state.fail("managed_worktree_root_unavailable", false),
            },
            (Stage::MakeRoot, Answer::Path(Some(path))) => {
                state.managed_root = path;
                state.go(Stage::RootPolicy)
            },
            (Stage::MakeRoot, _) => state.fail("worktree_creation_failed", false),
            (Stage::RootPolicy, Answer::Holds(yes)) => {
                state.go_if(yes, Stage::Basename, "managed_worktree_root_unavailable", false)
            },
            (Stage::Basename, Answer::Text(basename)) => {
                let mut leaf = basename;
                leaf.append("-");
                leaf.append(state.request.operation_id.as_str());
                state.leaf = leaf;
                state.go(Stage::Destination)
            },
            (Stage::Destination, Answer::Text(path)) => {
                state.destination = path;
                state.go(Stage::Exists)
            },
            (Stage::Exists, Answer::Holds(yes)) => {
                state.go(if yes { Stage::FoundPath } else { Stage::FreshListing })
            },
            _ => vstd::pervasive::unreached(),
        }
    }

    fn step_worktree(self, answer: Answer) -> (step: Step)
        requires
            fits(self.stage, answer),
            rank(Stage::FoundPath) <= rank(self.stage) <= rank(Stage::Listed),
        ensures
            step@ == next_worktree(self@, answer),
    {
        let mut state = self;
        match (state.stage, answer) {
            (Stage::FoundPath, Answer::Path(path)) => state.go_worktree(
                path,
                Stage::Head,
                "managed_worktree_recovery_conflict",
                true,
            ),
            (Stage::FreshListing, Answer::Git(output)) => {
                state.go_listed(output, Stage::FreshListed, "operation_indeterminate", false)
            },
            (Stage::FreshListed, Answer::Holds(listed)) => {
                state.go_if(!listed, Stage::Add, "managed_worktree_recovery_conflict", true)
            },
            (Stage::Add, Answer::Git(Some(output))) => {
                if output.success {
                    state.created = true;
                    state.go(Stage::NewPath)
                } else {
                    state.go(Stage::RejectedExists)
                }
            },
            (Stage::Add, _) => state.go(Stage::LostExists),
            (Stage::RejectedExists, Answer::Holds(yes)) => {
                state.go(if yes { Stage::NewPath } else { Stage::RejectedListing })
            },
            (Stage::RejectedListing, Answer::Git(output)) => {
                state.go_listed(output, Stage::RejectedListed, "operation_indeterminate", false)
            },
            (Stage::RejectedListed, Answer::Holds(listed)) => {
                if listed {
                    state.fail("managed_worktree_recovery_conflict", true)
                } else {
                    state.fail("worktree_creation_failed", false)
                }
            },
            (Stage::LostExists, Answer::Holds(yes)) => {
                state.go(if yes { Stage::NewPath } else { Stage::LostListing })
            },
            (Stage::LostListing, Answer::Git(output)) => {
                state.go_listed(output, Stage::LostListed, "operation_indeterminate", false)
            },
            (Stage::LostListed, Answer::Holds(listed)) => {
                if listed {
                    state.fail("managed_worktree_recovery_conflict", true)
                } else {
                    state.fail("operation_indeterminate", false)
                }
            },
            (Stage::NewPath, Answer::Path(path)) => {
                state.go_worktree(path, Stage::Head, "operation_indeterminate", true)
            },
            (Stage::Head, Answer::Git(output)) => {
                state.go_head(output, Stage::Listing, "operation_indeterminate", true)
            },
            (Stage::Listing, Answer::Git(output)) => {
                state.go_listed(output, Stage::Listed, "operation_indeterminate", true)
            },
            (Stage::Listed, Answer::Holds(listed)) => {
                let verified = state.head_is_base() && listed;
                state.go_if(
                    verified,
                    Stage::WorktreePolicy,
                    "managed_worktree_recovery_conflict",
                    true,
                )
            },
            _ => vstd::pervasive::unreached(),
        }
    }

    fn wrote(&self, project: &RunnerProjectFile) -> (same: bool)
        requires
            self.base_sha is Some,
        ensures
            same == same_operation(self@, *project),
    {
        let sha = match &self.base_sha {
            Some(sha) => sha,
            None => vstd::pervasive::unreached(),
        };
        project.managed_worktree && is_text(
            as_text(&project.managed_operation_id),
            self.request.operation_id.as_str(),
        ) && is_text(as_text(&project.managed_base_sha), sha.as_str()) && is_text(
            as_text(&project.managed_source),
            self.source.as_str(),
        ) && is_text(
            as_text(&project.managed_source_project_id),
            self.source_project_id.as_str(),
        ) && is_text(
            as_text(&project.managed_source_root_fingerprint),
            self.source_root_fingerprint.as_str(),
        )
    }

    fn finish(self, project: RunnerProjectFile, registered: bool) -> (step: Step)
        requires
            self.base_sha is Some,
            self.source_dirty is Some,
        ensures
            step@ == ready(self@, project, registered),
    {
        let base_sha = match self.base_sha {
            Some(sha) => sha,
            None => vstd::pervasive::unreached(),
        };
        let source_dirty = match self.source_dirty {
            Some(dirty) => dirty,
            None => vstd::pervasive::unreached(),
        };
        Step::Finish(
            Outcome::Ready(
                ReadyWorktree {
                    project,
                    worktree: self.worktree,
                    base_ref: self.request.base_ref,
                    base_sha,
                    source_dirty,
                    created: self.created && registered,
                    registered,
                },
            ),
        )
    }

    fn go_after_matches(self, records: Vec<RunnerProjectFile>) -> (step: Step)
        requires
            self.base_sha is Some,
            self.source_dirty is Some,
        ensures
            step@ == after_matches(self@, records@),
    {
        let mut records = records;
        if records.len() > 1 {
            return self.fail("ambiguous_project_path", true);
        }
        if records.len() == 0 {
            return self.go(Stage::ProjectId);
        }
        let project = records.remove(0);
        if project.disabled || !self.wrote(&project) {
            self.fail("managed_worktree_recovery_conflict", true)
        } else {
            self.finish(project, false)
        }
    }

    fn record_with(&self, record: &str) -> (content: String)
        requires
            self.base_sha is Some,
        ensures
            content@ == full_record(self@, record@),
    {
        let sha = match &self.base_sha {
            Some(sha) => sha.as_str(),
            None => vstd::pervasive::unreached(),
        };
        managed_worktree_project_toml(
            record,
            &ManagedOrigin {
                source: self.source.as_str(),
                source_project_id: self.source_project_id.as_str(),
                source_root_fingerprint: self.source_root_fingerprint.as_str(),
                base_ref: self.request.base_ref.as_str(),
                base_sha: sha,
                operation_id: self.request.operation_id.as_str(),
            },
        )
    }

    fn step_record(self, answer: Answer) -> (step: Step)
        requires
            fits(self.stage, answer),
            well_formed(self@),
            rank(Stage::WorktreePolicy) <= rank(self.stage),
        ensures
            step@ == next_record(self@, answer),
    {
        let mut state = self;
        match (state.stage, answer) {
            (Stage::WorktreePolicy, Answer::Holds(yes)) => {
                state.go_if(yes, Stage::Matches, "managed_worktree_root_unavailable", true)
            },
            (Stage::Matches, Answer::Records(Err(kind))) => state.fail(kind.as_str(), true),
            (Stage::Matches, Answer::Records(Ok(records))) => state.go_after_matches(records),
            (Stage::ProjectId, Answer::Named(Err(kind))) => state.fail(kind.as_str(), true),
            (Stage::ProjectId, Answer::Named(Ok(id))) => {
                state.project_id = id;
                state.go(Stage::Unicode)
            },
            (Stage::Unicode, Answer::Holds(yes)) => {
                state.go_if(yes, Stage::BaseRecord, "invalid_project_path", true)
            },
            (Stage::BaseRecord, Answer::Text(record)) => {
                state.content = state.record_with(record.as_str());
                state.go(Stage::Write)
            },
            (Stage::Write, Answer::Written(WriteOutcome::Written)) => state.go(Stage::Parse),
            (Stage::Write, Answer::Written(WriteOutcome::BeforeRename)) => {
                state.fail("worktree_registration_failed", true)
            },
            (Stage::Write, _) => state.fail("operation_indeterminate", true),
            (Stage::Parse, Answer::Parsed(Some(project))) => state.finish(project, true),
            (Stage::Parse, _) => state.fail("operation_indeterminate", true),
            _ => vstd::pervasive::unreached(),
        }
    }

    /// Takes the answer to the open question.
    pub fn step(self, answer: Answer) -> (step: Step)
        requires
            well_formed(self@),
            fits(self.stage, answer),
        ensures
            step@ == next(self@, answer),
            step matches Step::Ask(state) ==> well_formed(state@) && rank(state.stage) > rank(
                self.stage,
            ),
    {
        proof {
            law_steps_keep_what_is_known(self@, answer);
        }
        match self.stage {
            Stage::RawRoot
            | Stage::Ingress
            | Stage::Source
            | Stage::SourcePolicy
            | Stage::TopLevel
            | Stage::SameRoot
            | Stage::Status => self.step_source(answer),
            Stage::ResumeId
            | Stage::ResumeRecords
            | Stage::ResumeSource
            | Stage::ResumeLineage
            | Stage::ResumeBase
            | Stage::ResumePath
            | Stage::ResumePolicy
            | Stage::ResumeHead
            | Stage::ResumeListing
            | Stage::ResumeListed => self.step_resume(answer),
            Stage::Lineage
            | Stage::Base
            | Stage::Roots
            | Stage::MakeRoot
            | Stage::RootPolicy
            | Stage::Basename
            | Stage::Destination
            | Stage::Exists => self.step_place(answer),
            Stage::FoundPath
            | Stage::FreshListing
            | Stage::FreshListed
            | Stage::Add
            | Stage::RejectedExists
            | Stage::RejectedListing
            | Stage::RejectedListed
            | Stage::LostExists
            | Stage::LostListing
            | Stage::LostListed
            | Stage::NewPath
            | Stage::Head
            | Stage::Listing
            | Stage::Listed => self.step_worktree(answer),
            Stage::WorktreePolicy
            | Stage::Matches
            | Stage::ProjectId
            | Stage::Unicode
            | Stage::BaseRecord
            | Stage::Write
            | Stage::Parse => self.step_record(answer),
        }
    }
}

/// Begins a preparation. `lock_acquired` says whether the registry could be
/// locked, `absolute` whether the path that the payload asks for is absolute on
/// this platform.
pub fn begin(lock_acquired: bool, payload: &str, absolute: bool, windows: bool) -> (step: Step)
    ensures
        step@ == beginning(lock_acquired, json::parsed_json(payload@), absolute, windows),
        step matches Step::Ask(state) ==> well_formed(state@),
{
    if !lock_acquired {
        return refuse("operation_failed", None);
    }
    let document = match read_payload(payload) {
        Some(document) => document,
        None => {
            return refuse("invalid_request", None);
        },
    };
    match parse_request(&document, absolute) {
        Ok(request) => {
            let state = PrepareState {
                stage: Stage::RawRoot,
                windows,
                reported_base_ref: Some(request.base_ref.clone()),
                request,
                top_level: String::new(),
                source: String::new(),
                source_dirty: None,
                base_sha: None,
                source_project_id: String::new(),
                source_root_fingerprint: String::new(),
                managed_root: String::new(),
                leaf: String::new(),
                destination: String::new(),
                worktree: String::new(),
                head: String::new(),
                listed: Vec::new(),
                created: false,
                project: None,
                project_id: String::new(),
                content: String::new(),
            };
            assert(state@.listed =~= Seq::<Seq<char>>::empty());
            Step::Ask(state)
        },
        Err(refusal) => refuse(refusal.kind, refusal.base_ref),
    }
}

fn refuse(kind: &str, base_ref: Option<String>) -> (step: Step)
    ensures
        step@ == refused(kind@, text::text_of(base_ref)),
{
    Step::Finish(
        Outcome::Failed {
            kind: kind.to_owned(),
            state_changed: false,
            base_ref,
            base_sha: None,
            source_dirty: None,
        },
    )
}

// ---- Laws ---------------------------------------------------------------------

proof fn lemma_source_keeps(state: PrepareView, answer: Answer)
    requires
        well_formed(state),
        fits(state.stage, answer),
        rank(state.stage) <= rank(Stage::Status),
    ensures
        next_source(state, answer) matches StepView::Ask(after) ==> well_formed(after) && rank(
            after.stage,
        ) > rank(state.stage),
{
}

proof fn lemma_resume_keeps(state: PrepareView, answer: Answer)
    requires
        well_formed(state),
        fits(state.stage, answer),
        is_resume(state.stage),
    ensures
        next_resume(state, answer) matches StepView::Ask(after) ==> well_formed(after) && rank(
            after.stage,
        ) > rank(state.stage),
{
    if state.stage == Stage::ResumeRecords && answer->Records_0 is Ok {
        let records = answer->Records_0->Ok_0;
        let id = state.request.resume_project_id->Some_0;
        if first_with_id(records@, id) is Some {
            let found = first_with_id(records@, id)->Some_0;
            assert(stored_base_sha(found) is Some ==> text::text_of(found.managed_base_sha)
                == stored_base_sha(found));
        }
    }
}

proof fn lemma_place_keeps(state: PrepareView, answer: Answer)
    requires
        well_formed(state),
        fits(state.stage, answer),
        rank(Stage::Lineage) <= rank(state.stage) <= rank(Stage::Exists),
    ensures
        next_place(state, answer) matches StepView::Ask(after) ==> well_formed(after) && rank(
            after.stage,
        ) > rank(state.stage),
{
}

proof fn lemma_worktree_keeps(state: PrepareView, answer: Answer)
    requires
        well_formed(state),
        fits(state.stage, answer),
        rank(Stage::FoundPath) <= rank(state.stage) <= rank(Stage::Listed),
    ensures
        next_worktree(state, answer) matches StepView::Ask(after) ==> well_formed(after) && rank(
            after.stage,
        ) > rank(state.stage),
{
}

proof fn lemma_record_keeps(state: PrepareView, answer: Answer)
    requires
        well_formed(state),
        fits(state.stage, answer),
        rank(Stage::WorktreePolicy) <= rank(state.stage),
    ensures
        next_record(state, answer) matches StepView::Ask(after) ==> well_formed(after) && rank(
            after.stage,
        ) > rank(state.stage),
{
}

/// Every step keeps what is known at its stage, and leads to a later stage or to
/// the end: a preparation ends after fewer steps than there are stages.
pub proof fn law_steps_keep_what_is_known(state: PrepareView, answer: Answer)
    requires
        well_formed(state),
        fits(state.stage, answer),
    ensures
        next(state, answer) matches StepView::Ask(after) ==> well_formed(after) && rank(after.stage)
            > rank(state.stage),
{
    if rank(state.stage) <= rank(Stage::Status) {
        lemma_source_keeps(state, answer);
    } else if is_resume(state.stage) {
        lemma_resume_keeps(state, answer);
    } else if rank(state.stage) <= rank(Stage::Exists) {
        lemma_place_keeps(state, answer);
    } else if rank(state.stage) <= rank(Stage::Listed) {
        lemma_worktree_keeps(state, answer);
    } else {
        lemma_record_keeps(state, answer);
    }
}

/// Resuming a worktree never asks for anything that changes the disk, the
/// repository or the registry, and never reports a change.
pub proof fn law_resume_changes_nothing(state: PrepareView, answer: Answer)
    requires
        well_formed(state),
        is_resume(state.stage),
        fits(state.stage, answer),
    ensures
        !changes(question_of(state)),
        match next(state, answer) {
            StepView::Ask(after) => is_resume(after.stage),
            StepView::Finish(OutcomeView::Failed { state_changed, .. }) => !state_changed,
            StepView::Finish(OutcomeView::Ready { created, registered, .. }) => !created
                && !registered,
        },
{
}

/// Until the directory for managed worktrees is asked for, nothing is changed
/// and no failure reports a change.
pub proof fn law_nothing_changes_before_the_root_is_made(state: PrepareView, answer: Answer)
    requires
        fits(state.stage, answer),
        rank(state.stage) < rank(Stage::MakeRoot),
    ensures
        !changes(question_of(state)),
        next(state, answer) matches StepView::Finish(
            OutcomeView::Failed { state_changed, .. },
        ) ==> !state_changed,
{
}

/// A worktree is ready only where its head is the base commit that is reported.
pub proof fn law_ready_worktree_is_at_its_base(state: PrepareView, answer: Answer)
    requires
        well_formed(state),
        fits(state.stage, answer),
    ensures
        next(state, answer) matches StepView::Finish(
            OutcomeView::Ready { base_sha, worktree, .. },
        ) ==> base_sha == state.head && worktree == state.worktree && state.base_sha == Some(
            base_sha,
        ),
{
}

/// A registration is reported exactly where the record was written and read back.
pub proof fn law_registered_means_written(state: PrepareView, answer: Answer)
    requires
        well_formed(state),
        fits(state.stage, answer),
    ensures
        next(state, answer) matches StepView::Finish(
            OutcomeView::Ready { project, registered, .. },
        ) ==> {
            &&& registered == (state.stage == Stage::Parse)
            &&& registered ==> answer == Answer::Parsed(Some(project))
        },
{
}

/// Once the worktree stands, every failure reports a change.
pub proof fn law_failures_behind_the_worktree_report_a_change(state: PrepareView, answer: Answer)
    requires
        fits(state.stage, answer),
        rank(state.stage) >= rank(Stage::NewPath),
    ensures
        next(state, answer) matches StepView::Finish(
            OutcomeView::Failed { state_changed, .. },
        ) ==> state_changed,
{
}

/// A project that is registered already is handed back only where the same
/// operation wrote its record and it is enabled.
pub proof fn law_recovery_needs_the_same_operation(state: PrepareView, answer: Answer)
    requires
        well_formed(state),
        fits(state.stage, answer),
        state.stage == Stage::Matches,
    ensures
        next(state, answer) matches StepView::Finish(OutcomeView::Ready { project, .. }) ==> {
            &&& same_operation(state, project)
            &&& !project.disabled
            &&& answer matches Answer::Records(Ok(records)) && records@.len() == 1 && records@[0]
                == project
        },
{
}

/// Where the base of a new worktree is to be resolved, what is put to Git is the
/// resolution of exactly the base reference of the request to a commit, in the
/// source directory.
pub proof fn law_git_is_asked_for_the_requested_base(state: PrepareState, question: Question)
    requires
        state.stage == Stage::Base,
        call_ensures(PrepareState::question, (&state,), question),
    ensures
        question matches Question::Git { directory, args } && directory@ == state.source@
            && args@.len() == 4 && args@[0]@ == "rev-parse"@ && args@[1]@ == "--verify"@
            && args@[2]@ == "--end-of-options"@ && args@[3]@ == state.request.base_ref@
            + "^{commit}"@,
{
    let asked = question_of(state@);
    assert(asked is Git);
    if let Question::Git { directory, args } = question {
        let words = text::texts(args@);
        assert(words == asked->Git_args);
        assert(words[0] == args@[0]@ && words[1] == args@[1]@ && words[2] == args@[2]@ && words[3]
            == args@[3]@);
    }
}

} // verus!
