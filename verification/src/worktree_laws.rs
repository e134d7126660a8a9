//! What the preparation of a managed worktree asks, and what it makes of the
//! answers: from the request to the outcome.
use crate::git;
use crate::managed_worktree;
use crate::managed_worktree::{Answer, OutcomeView, PrepareView, QuestionView, Stage, StepView};
use crate::text;
use crate::worktree_recovery;
use crate::worktree_recovery::Answers;
use crate::worktree_request::RequestView;
use vstd::prelude::*;
use vstd::utf8::*;

verus! {

/// The commit that an answer of Git names: what it printed, without white space
/// around it and in small letters, where Git succeeded, all of it was read and it
/// is the name of an object.
pub open spec fn named_commit(answer: Answer) -> Option<Seq<char>> {
    match answer {
        Answer::Git(Some(output)) => {
            let printed = text::trimmed(decode_utf8(output.stdout@));
            if output.success && !output.stdout_capped && valid_utf8(output.stdout@) && (
            printed.len() == 40 || printed.len() == 64) && text::all_hex(printed) {
                Some(text::ascii_lowered(printed))
            } else {
                None
            }
        },
        _ => None,
    }
}

/// What an answer of Git says: what it printed, without white space around it,
/// where Git succeeded and all that it printed was read.
pub open spec fn printed_text(answer: Answer) -> Option<Seq<char>> {
    match answer {
        Answer::Git(Some(output)) => if output.success && !output.stdout_capped
            && !output.stderr_capped && valid_utf8(output.stdout@) {
            Some(text::trimmed(decode_utf8(output.stdout@)))
        } else {
            None
        },
        _ => None,
    }
}

/// The base of a new worktree is asked of Git in the source directory, as the
/// commit behind exactly the base reference of the request. The commit that the
/// answer names is the base from then on; where it names none, the preparation
/// ends without a change.
pub proof fn law_base_is_the_commit_behind_the_requested_reference(
    state: PrepareView,
    answer: Answer,
)
    requires
        state.stage == Stage::Base,
        answer is Git,
    ensures
        managed_worktree::question_of(state) matches QuestionView::Git { directory, args } && directory
            == state.source && args.len() == 4 && args[0] == "rev-parse"@ && args[1] == "--verify"@
            && args[2] == "--end-of-options"@ && args[3] == state.request.base_ref + "^{commit}"@,
        named_commit(answer) matches Some(sha) ==> (managed_worktree::next(state, answer) matches StepView::Ask(on)
            && on.stage == Stage::Roots && on.base_sha == Some(sha) && on.request == state.request
            && on.source == state.source && on.source_dirty == state.source_dirty),
        named_commit(answer) is None ==> managed_worktree::next(state, answer) == StepView::Finish(
            OutcomeView::Failed {
                kind: "base_ref_resolution_failed"@,
                state_changed: false,
                base_ref: state.reported_base_ref,
                base_sha: state.base_sha,
                source_dirty: state.source_dirty,
            },
        ),
{
}

/// Two requests with different base references are asked about differently,
/// wherever their base is resolved.
pub proof fn law_bases_are_asked_about_apart(a: PrepareView, b: PrepareView)
    ensures
        a.stage == Stage::Base && b.stage == Stage::Base && a.request.base_ref
            != b.request.base_ref ==> managed_worktree::question_of(a) != managed_worktree::question_of(b),
        a.stage == Stage::ResumeBase && b.stage == Stage::ResumeBase
            && a.request.requested_base_ref is Some && b.request.requested_base_ref is Some
            && a.request.requested_base_ref != b.request.requested_base_ref ==> managed_worktree::question_of(a)
            != managed_worktree::question_of(b),
        a.source != b.source && a.stage == b.stage && (a.stage == Stage::Base || a.stage
            == Stage::ResumeBase) ==> managed_worktree::question_of(a) != managed_worktree::question_of(b),
{
    if a.stage == Stage::Base && b.stage == Stage::Base && a.request.base_ref
        != b.request.base_ref {
        lemma_peeled_apart(a.request.base_ref, b.request.base_ref);
        assert(managed_worktree::question_of(a)->Git_args[3] == a.request.base_ref + "^{commit}"@);
        assert(managed_worktree::question_of(b)->Git_args[3] == b.request.base_ref + "^{commit}"@);
    }
    if a.stage == Stage::ResumeBase && b.stage == Stage::ResumeBase
        && a.request.requested_base_ref is Some && b.request.requested_base_ref is Some
        && a.request.requested_base_ref != b.request.requested_base_ref {
        let one = a.request.requested_base_ref->Some_0;
        let two = b.request.requested_base_ref->Some_0;
        lemma_peeled_apart(one, two);
        assert(managed_worktree::question_of(a)->Git_args[3] == one + "^{commit}"@);
        assert(managed_worktree::question_of(b)->Git_args[3] == two + "^{commit}"@);
    }
}

proof fn lemma_peeled_apart(one: Seq<char>, two: Seq<char>)
    requires
        one != two,
    ensures
        one + "^{commit}"@ != two + "^{commit}"@,
{
    let a = one + "^{commit}"@;
    let b = two + "^{commit}"@;
    if a == b {
        assert(a.len() == b.len());
        assert(one =~= a.take(one.len() as int));
        assert(two =~= b.take(two.len() as int));
    }
}

/// What is asked of the source: its spelling and whose it is by the path of the
/// request, and from then on only by the directory that was found.
pub proof fn law_source_is_asked_about_by_its_path(state: PrepareView)
    ensures
        state.stage == Stage::RawRoot ==> managed_worktree::question_of(state) == QuestionView::RootSpelling(
            state.request.path,
        ),
        state.stage == Stage::Ingress ==> managed_worktree::question_of(state) == QuestionView::IngressAuthority(
            state.request.path,
        ),
        state.stage == Stage::Source ==> managed_worktree::question_of(state) == QuestionView::CanonicalDirectory(
            state.request.path,
        ),
        state.stage == Stage::SourcePolicy ==> managed_worktree::question_of(state) == QuestionView::ProjectPolicy(
            state.source,
        ),
        state.stage == Stage::TopLevel ==> managed_worktree::question_of(state) == (QuestionView::Git {
            directory: state.source,
            args: seq!["rev-parse"@, "--show-toplevel"@],
        }),
        state.stage == Stage::SameRoot ==> managed_worktree::question_of(state) == (QuestionView::SamePath {
            path: state.top_level,
            other: state.source,
        }),
        state.stage == Stage::Status ==> managed_worktree::question_of(state) == (QuestionView::Git {
            directory: state.source,
            args: seq!["status"@, "--porcelain"@],
        }),
        state.stage == Stage::Lineage || state.stage == Stage::ResumeLineage ==> managed_worktree::question_of(state)
            == QuestionView::SourceProject(state.source),
        state.stage == Stage::Roots ==> managed_worktree::question_of(state) == QuestionView::ManagedRoots(
            state.source,
        ),
        state.stage == Stage::Basename ==> managed_worktree::question_of(state) == QuestionView::Basename(
            state.source,
        ),
{
}

/// What is asked of the worktrees of a repository: always of the source, and always
/// the whole list.
pub proof fn law_worktrees_are_listed_from_the_source(state: PrepareView)
    requires
        state.stage == Stage::ResumeListing || state.stage == Stage::FreshListing || state.stage
            == Stage::RejectedListing || state.stage == Stage::LostListing || state.stage
            == Stage::Listing,
    ensures
        managed_worktree::question_of(state) == (QuestionView::Git {
            directory: state.source,
            args: seq!["worktree"@, "list"@, "--porcelain"@],
        }),
{
}

/// A worktree is looked for in the list under the place where it is to be until it
/// stands, and under the place where it stands from then on; its head is read where
/// it stands.
pub proof fn law_worktree_is_looked_for_where_it_is(state: PrepareView)
    ensures
        state.stage == Stage::FreshListed || state.stage == Stage::RejectedListed || state.stage
            == Stage::LostListed ==> managed_worktree::question_of(state) == (QuestionView::AnySamePath {
            paths: state.listed,
            target: state.destination,
        }),
        state.stage == Stage::Listed || state.stage == Stage::ResumeListed ==> managed_worktree::question_of(state)
            == (QuestionView::AnySamePath { paths: state.listed, target: state.worktree }),
        state.stage == Stage::Exists || state.stage == Stage::RejectedExists || state.stage
            == Stage::LostExists ==> managed_worktree::question_of(state) == QuestionView::PathExists(
            state.destination,
        ),
        state.stage == Stage::FoundPath || state.stage == Stage::NewPath ==> managed_worktree::question_of(state)
            == QuestionView::CanonicalPath(state.destination),
        state.stage == Stage::Head || state.stage == Stage::ResumeHead ==> managed_worktree::question_of(state) == (
        QuestionView::Git { directory: state.worktree, args: seq!["rev-parse"@, "HEAD"@] }),
        state.stage == Stage::ResumePolicy ==> managed_worktree::question_of(state) == QuestionView::ProjectPolicy(
            state.worktree,
        ),
        state.stage == Stage::WorktreePolicy ==> managed_worktree::question_of(state) == QuestionView::PathPolicy(
            state.worktree,
        ),
        state.stage == Stage::Matches ==> managed_worktree::question_of(state) == QuestionView::RecordsAt(
            state.worktree,
        ),
        state.stage == Stage::ProjectId ==> managed_worktree::question_of(state) == QuestionView::FreshIdentifier(
            state.worktree,
        ),
        state.stage == Stage::Unicode ==> managed_worktree::question_of(state) == QuestionView::IsUnicode(
            state.worktree,
        ),
{
}

/// The new worktree is added from the source, detached, at the place that was
/// formed, and at the base commit: never at a reference that could have moved since.
pub proof fn law_worktree_is_added_at_the_base_commit(state: PrepareView)
    requires
        state.stage == Stage::Add,
        state.base_sha is Some,
    ensures
        managed_worktree::question_of(state) matches QuestionView::AddWorktree { directory, args } && directory
            == state.source && args.len() == 5 && args[0] == "worktree"@ && args[1] == "add"@
            && args[2] == "--detach"@ && args[4] == state.base_sha->Some_0 && (!state.windows
            ==> args[3] == state.destination) && (state.windows ==> args[3] == git::cli_path(
            state.destination,
        )),
{
}

/// The place of a new worktree: below the directory for managed worktrees, which is
/// made where it is not there and has to be allowed; under a name that ends with the
/// operation.
pub proof fn law_worktree_is_placed_below_the_managed_root(state: PrepareView)
    ensures
        state.stage == Stage::MakeRoot ==> managed_worktree::question_of(state) == QuestionView::CreateDirectory(
            state.managed_root,
        ),
        state.stage == Stage::RootPolicy ==> managed_worktree::question_of(state) == QuestionView::PathPolicy(
            state.managed_root,
        ),
        state.stage == Stage::Destination ==> managed_worktree::question_of(state) == (QuestionView::Join {
            root: state.managed_root,
            leaf: state.leaf,
        }),
        state.stage == Stage::Basename ==> forall|name: String| #[trigger]
            managed_worktree::next(state, Answer::Text(name)) matches StepView::Ask(on) && on.stage
                == Stage::Destination && on.leaf == name@ + "-"@ + state.request.operation_id
                && on.managed_root == state.managed_root && on.base_sha == state.base_sha,
{
}

/// What is written is written under the identifier that was found free, and what
/// is read back is what was written.
pub proof fn law_record_is_written_under_its_identifier(state: PrepareView)
    ensures
        state.stage == Stage::BaseRecord ==> managed_worktree::question_of(state) == (QuestionView::AutomaticRecord {
            id: state.project_id,
            path: state.worktree,
        }),
        state.stage == Stage::Write ==> managed_worktree::question_of(state) == (QuestionView::WriteRecord {
            id: state.project_id,
            content: state.content,
        }),
        state.stage == Stage::Parse ==> managed_worktree::question_of(state) == QuestionView::ParseRecord(
            state.content,
        ),
{
}

/// What a resume asks: for the project that was named, its own path and its own
/// source, and, where a base was requested, for the commit behind that.
pub proof fn law_resume_asks_about_the_named_project(state: PrepareView)
    requires
        managed_worktree::well_formed(state),
    ensures
        state.stage == Stage::ResumeId ==> managed_worktree::question_of(state) == QuestionView::ProjectIdentifier(
            state.request.resume_project_id->Some_0,
        ),
        state.stage == Stage::ResumeRecords ==> managed_worktree::question_of(state) == QuestionView::AllRecords,
        state.stage == Stage::ResumeSource ==> managed_worktree::question_of(state) == (QuestionView::SamePath {
            path: state.project->Some_0.managed_source->Some_0@,
            other: state.source,
        }),
        state.stage == Stage::ResumePath ==> managed_worktree::question_of(state) == QuestionView::CanonicalPath(
            state.project->Some_0.path@,
        ),
        state.stage == Stage::ResumeBase ==> (managed_worktree::question_of(state) matches QuestionView::Git {
            directory,
            args,
        } && directory == state.source && args.len() == 4 && args[0] == "rev-parse"@ && args[1]
            == "--verify"@ && args[2] == "--end-of-options"@ && args[3]
            == state.request.requested_base_ref->Some_0 + "^{commit}"@),
{
}

/// Whether a state holds what the answers said: the source that was found, whether
/// it is dirty, whose it is, the base commit, the place of the worktree and the
/// worktree itself, its head and its record.
pub open spec fn holds_answers(
    state: PrepareView,
    answers: Answers,
    request: RequestView,
    windows: bool,
) -> bool {
    &&& state.request == request
    &&& state.windows == windows
    &&& Stage::Source != state.stage && managed_worktree::rank(Stage::Source) < managed_worktree::rank(state.stage) <= managed_worktree::rank(
        Stage::SameRoot,
    ) ==> ((answers.at)(Stage::Source) matches Answer::Path(Some(path)) && state.source == path@)
    &&& state.stage == Stage::SameRoot ==> printed_text((answers.at)(Stage::TopLevel)) == Some(
        state.top_level,
    )
    &&& managed_worktree::rank(state.stage) > managed_worktree::rank(Stage::SameRoot) ==> ((answers.at)(
        Stage::SameRoot,
    ) matches Answer::Path(Some(path)) && state.source == path@)
    &&& managed_worktree::rank(state.stage) > managed_worktree::rank(Stage::Status) ==> (printed_text(
        (answers.at)(Stage::Status),
    ) matches Some(status) && state.source_dirty == Some(status.len() > 0))
    &&& !managed_worktree::is_resume(state.stage) ==> state.reported_base_ref == Some(
        request.base_ref,
    )
    &&& managed_worktree::rank(state.stage) >= managed_worktree::rank(Stage::Lineage)
        ==> request.resume_project_id is None
    &&& managed_worktree::rank(state.stage) > managed_worktree::rank(Stage::Lineage) ==> ((answers.at)(
        Stage::Lineage,
    ) matches Answer::Lineage(Ok(lineage)) && state.source_project_id == lineage.0@
        && state.source_root_fingerprint == lineage.1@)
    &&& managed_worktree::rank(state.stage) > managed_worktree::rank(Stage::Base) ==> state.base_sha is Some && state.base_sha
        == named_commit((answers.at)(Stage::Base))
    &&& managed_worktree::rank(state.stage) > managed_worktree::rank(Stage::MakeRoot) ==> ((answers.at)(
        Stage::MakeRoot,
    ) matches Answer::Path(Some(path)) && state.managed_root == path@)
    &&& managed_worktree::rank(state.stage) > managed_worktree::rank(Stage::Basename) ==> ((answers.at)(
        Stage::Basename,
    ) matches Answer::Text(name) && state.leaf == name@ + "-"@ + request.operation_id)
    &&& managed_worktree::rank(state.stage) > managed_worktree::rank(Stage::Destination) ==> ((answers.at)(
        Stage::Destination,
    ) matches Answer::Text(path) && state.destination == path@)
    &&& state.stage == Stage::FoundPath ==> (answers.at)(Stage::Exists) == Answer::Holds(true)
    &&& managed_worktree::rank(Stage::FoundPath) < managed_worktree::rank(state.stage)
        < managed_worktree::rank(Stage::Head) ==> (answers.at)(Stage::Exists) == Answer::Holds(
        false,
    )
    &&& state.created ==> (answers.at)(Stage::Exists) == Answer::Holds(false) && ((answers.at)(
        Stage::Add,
    ) matches Answer::Git(Some(output)) && output.success) && managed_worktree::rank(state.stage) > managed_worktree::rank(Stage::Add)
    &&& managed_worktree::rank(state.stage) > managed_worktree::rank(Stage::NewPath) ==> ((answers.at)(Stage::Exists) == Answer::Holds(
        true,
    ) ==> ((answers.at)(Stage::FoundPath) matches Answer::Path(Some(path)) && state.worktree
        == path@))
    &&& managed_worktree::rank(state.stage) > managed_worktree::rank(Stage::NewPath) ==> ((answers.at)(Stage::Exists) == Answer::Holds(
        false,
    ) ==> ((answers.at)(Stage::NewPath) matches Answer::Path(Some(path)) && state.worktree
        == path@))
    &&& managed_worktree::rank(state.stage) > managed_worktree::rank(Stage::NewPath) ==> (answers.at)(Stage::Exists) is Holds
    &&& managed_worktree::rank(state.stage) > managed_worktree::rank(Stage::Head) ==> printed_text((answers.at)(Stage::Head)) == Some(
        state.head,
    )
    &&& managed_worktree::rank(state.stage) > managed_worktree::rank(Stage::Listed) ==> (answers.at)(Stage::Listed) == Answer::Holds(
        true,
    ) && Some(state.head) == state.base_sha
    &&& managed_worktree::rank(state.stage) > managed_worktree::rank(Stage::ProjectId) ==> ((answers.at)(
        Stage::ProjectId,
    ) matches Answer::Named(Ok(id)) && state.project_id == id@)
    &&& managed_worktree::rank(state.stage) > managed_worktree::rank(Stage::BaseRecord) ==> ((answers.at)(
        Stage::BaseRecord,
    ) matches Answer::Text(record) && state.content == record@ + "managed_worktree = true\n"@
        + record_line("managed_source"@, state.source) + record_line(
        "managed_source_project_id"@,
        state.source_project_id,
    ) + record_line("managed_source_root_fingerprint"@, state.source_root_fingerprint)
        + record_line("managed_base_ref"@, request.base_ref) + record_line(
        "managed_base_sha"@,
        state.base_sha->Some_0,
    ) + record_line("managed_operation_id"@, request.operation_id))
}

/// A line of a record: a key, and its value in quotes.
pub open spec fn record_line(key: Seq<char>, value: Seq<char>) -> Seq<char> {
    key + " = "@ + crate::project_record::toml_quoted(value) + "\n"@
}

/// A state that holds what the answers said is followed by one that does.
pub proof fn law_states_hold_what_was_answered(
    state: PrepareView,
    answers: Answers,
    request: RequestView,
    windows: bool,
)
    requires
        worktree_recovery::all_fit(answers),
        managed_worktree::well_formed(state),
        holds_answers(state, answers, request, windows),
    ensures
        managed_worktree::next(state, (answers.at)(state.stage)) matches StepView::Ask(on) ==> holds_answers(
            on,
            answers,
            request,
            windows,
        ),
{
    let answer = (answers.at)(state.stage);
    assert(managed_worktree::fits(state.stage, answer));
    if managed_worktree::rank(state.stage) <= managed_worktree::rank(Stage::Status) {
        lemma_source_holds(state, answers, request, windows);
    } else if managed_worktree::is_resume(state.stage) {
        lemma_resume_holds(state, answers, request, windows);
    } else if managed_worktree::rank(state.stage) <= managed_worktree::rank(Stage::Exists) {
        lemma_place_holds(state, answers, request, windows);
    } else if managed_worktree::rank(state.stage) <= managed_worktree::rank(Stage::Listed) {
        lemma_worktree_holds(state, answers, request, windows);
    } else {
        lemma_record_holds(state, answers, request, windows);
    }
}

/// A preparation that began with a request holds, at whatever stage it is, what the
/// answers until then said.
pub proof fn law_preparation_holds_what_was_answered(
    answers: Answers,
    request: RequestView,
    windows: bool,
    steps: nat,
)
    requires
        worktree_recovery::all_fit(answers),
    ensures
        worktree_recovery::after(
            answers,
            StepView::Ask(managed_worktree::first_state(request, windows)),
            steps,
        ) matches StepView::Ask(state) ==> managed_worktree::well_formed(state) && holds_answers(
            state,
            answers,
            request,
            windows,
        ),
    decreases steps,
{
    let begun = StepView::Ask(managed_worktree::first_state(request, windows));
    if steps > 0 {
        let before = worktree_recovery::after(answers, begun, (steps - 1) as nat);
        law_preparation_holds_what_was_answered(answers, request, windows, (steps - 1) as nat);
        reveal(worktree_recovery::one_step);
        if let StepView::Ask(state) = before {
            let answer = (answers.at)(state.stage);
            assert(managed_worktree::fits(state.stage, answer));
            managed_worktree::law_steps_keep_what_is_known(state, answer);
            law_states_hold_what_was_answered(state, answers, request, windows);
        }
    }
}

/// What a worktree that is ready is: the one that was found or made for the
/// request. It stands where it was found; its base is the commit that Git named
/// for the base reference of the request, and its head is that commit; it is
/// reported as created only where Git added it and as registered only where its
/// record was read back; and whether the source was dirty is what its status said.
pub proof fn law_ready_worktree_is_the_requested_one(
    answers: Answers,
    request: RequestView,
    windows: bool,
    steps: nat,
)
    requires
        worktree_recovery::all_fit(answers),
        request.resume_project_id is None,
    ensures
        worktree_recovery::after(
            answers,
            StepView::Ask(managed_worktree::first_state(request, windows)),
            steps,
        ) matches StepView::Finish(
            OutcomeView::Ready {
                project,
                worktree,
                base_ref,
                base_sha,
                source_dirty,
                created,
                registered,
            },
        ) ==> {
            &&& base_ref == request.base_ref
            &&& named_commit((answers.at)(Stage::Base)) == Some(base_sha)
            &&& printed_text((answers.at)(Stage::Head)) == Some(base_sha)
            &&& printed_text((answers.at)(Stage::Status)) matches Some(status) && source_dirty == (
            status.len() > 0)
            &&& (answers.at)(Stage::Exists) == Answer::Holds(true) ==> !created && ((answers.at)(
                Stage::FoundPath,
            ) matches Answer::Path(Some(path)) && worktree == path@)
            &&& (answers.at)(Stage::Exists) == Answer::Holds(false) ==> ((answers.at)(
                Stage::NewPath,
            ) matches Answer::Path(Some(path)) && worktree == path@)
            &&& created ==> registered && ((answers.at)(Stage::Add) matches Answer::Git(
                Some(output),
            ) && output.success)
            &&& registered ==> (answers.at)(Stage::Parse) == Answer::Parsed(Some(project))
            &&& !registered ==> ((answers.at)(Stage::Matches) matches Answer::Records(Ok(records))
                && records@.len() == 1 && records@[0] == project)
        },
    decreases steps,
{
    let begun = StepView::Ask(managed_worktree::first_state(request, windows));
    if steps > 0 {
        let before = worktree_recovery::after(answers, begun, (steps - 1) as nat);
        law_ready_worktree_is_the_requested_one(answers, request, windows, (steps - 1) as nat);
        law_preparation_holds_what_was_answered(answers, request, windows, (steps - 1) as nat);
        reveal(worktree_recovery::one_step);
        if let StepView::Ask(state) = before {
            let answer = (answers.at)(state.stage);
            assert(managed_worktree::fits(state.stage, answer));
            lemma_only_records_make_ready(state, answer);
        }
    }
}

proof fn lemma_only_records_make_ready(state: PrepareView, answer: Answer)
    requires
        managed_worktree::well_formed(state),
        managed_worktree::fits(state.stage, answer),
        !(state.request.resume_project_id is Some),
    ensures
        managed_worktree::next(state, answer) matches StepView::Finish(
            OutcomeView::Ready {
                project,
                worktree,
                base_ref,
                base_sha,
                source_dirty,
                created,
                registered,
            },
        ) ==> {
            &&& state.stage == Stage::Matches || state.stage == Stage::Parse
            &&& base_ref == state.request.base_ref
            &&& Some(base_sha) == state.base_sha
            &&& worktree == state.worktree
            &&& Some(source_dirty) == state.source_dirty
            &&& created ==> registered && state.created
            &&& registered <==> state.stage == Stage::Parse
            &&& registered ==> answer == Answer::Parsed(Some(project))
            &&& !registered ==> (answer matches Answer::Records(Ok(records)) && records@.len() == 1
                && records@[0] == project)
        },
{
    if managed_worktree::rank(state.stage) <= managed_worktree::rank(Stage::Status) {
        assert(managed_worktree::next(state, answer) == managed_worktree::next_source(
            state,
            answer,
        ));
    } else if managed_worktree::rank(state.stage) <= managed_worktree::rank(Stage::Exists) {
        assert(!managed_worktree::is_resume(state.stage));
    } else if managed_worktree::rank(state.stage) <= managed_worktree::rank(Stage::Listed) {
        assert(managed_worktree::next(state, answer) == managed_worktree::next_worktree(
            state,
            answer,
        ));
    } else {
        assert(managed_worktree::next(state, answer) == managed_worktree::next_record(
            state,
            answer,
        ));
    }
}

/// A preparation that asks Git to add the worktree asks for what was answered: from
/// the source that was found, at the place that was formed below the managed root,
/// at the commit that Git named for the requested base.
pub proof fn law_added_worktree_is_the_requested_one(
    answers: Answers,
    request: RequestView,
    steps: nat,
)
    requires
        worktree_recovery::all_fit(answers),
    ensures
        worktree_recovery::after(
            answers,
            StepView::Ask(managed_worktree::first_state(request, false)),
            steps,
        ) matches StepView::Ask(state) ==> state.stage == Stage::Add ==> (
        managed_worktree::question_of(state) matches QuestionView::AddWorktree { directory, args }
            && ((answers.at)(Stage::SameRoot) matches Answer::Path(Some(source)) && directory
            == source@) && args.len() == 5 && ((answers.at)(Stage::Destination) matches Answer::Text(
            place,
        ) && args[3] == place@) && Some(args[4]) == named_commit((answers.at)(Stage::Base))
            && (answers.at)(Stage::Exists) == Answer::Holds(false)),
{
    law_preparation_holds_what_was_answered(answers, request, false, steps);
    if let StepView::Ask(state) = worktree_recovery::after(
        answers,
        StepView::Ask(managed_worktree::first_state(request, false)),
        steps,
    ) {
        if state.stage == Stage::Add {
            law_worktree_is_added_at_the_base_commit(state);
        }
    }
}

proof fn lemma_source_holds(
    state: PrepareView,
    answers: Answers,
    request: RequestView,
    windows: bool,
)
    requires
        managed_worktree::fits(state.stage, (answers.at)(state.stage)),
        managed_worktree::rank(state.stage) <= managed_worktree::rank(Stage::Status),
        holds_answers(state, answers, request, windows),
    ensures
        managed_worktree::next_source(state, (answers.at)(state.stage)) matches StepView::Ask(on) ==> holds_answers(
            on,
            answers,
            request,
            windows,
        ),
{
}

proof fn lemma_resume_holds(
    state: PrepareView,
    answers: Answers,
    request: RequestView,
    windows: bool,
)
    requires
        managed_worktree::fits(state.stage, (answers.at)(state.stage)),
        managed_worktree::is_resume(state.stage),
        holds_answers(state, answers, request, windows),
    ensures
        managed_worktree::next_resume(state, (answers.at)(state.stage)) matches StepView::Ask(on) ==> holds_answers(
            on,
            answers,
            request,
            windows,
        ),
{
}

proof fn lemma_place_holds(
    state: PrepareView,
    answers: Answers,
    request: RequestView,
    windows: bool,
)
    requires
        managed_worktree::fits(state.stage, (answers.at)(state.stage)),
        managed_worktree::rank(Stage::Lineage) <= managed_worktree::rank(state.stage) <= managed_worktree::rank(Stage::Exists),
        holds_answers(state, answers, request, windows),
    ensures
        managed_worktree::next_place(state, (answers.at)(state.stage)) matches StepView::Ask(on) ==> holds_answers(
            on,
            answers,
            request,
            windows,
        ),
{
}

proof fn lemma_worktree_holds(
    state: PrepareView,
    answers: Answers,
    request: RequestView,
    windows: bool,
)
    requires
        managed_worktree::fits(state.stage, (answers.at)(state.stage)),
        managed_worktree::rank(Stage::FoundPath) <= managed_worktree::rank(state.stage) <= managed_worktree::rank(Stage::Listed),
        holds_answers(state, answers, request, windows),
    ensures
        managed_worktree::next_worktree(state, (answers.at)(state.stage)) matches StepView::Ask(on) ==> holds_answers(
            on,
            answers,
            request,
            windows,
        ),
{
}

proof fn lemma_record_holds(
    state: PrepareView,
    answers: Answers,
    request: RequestView,
    windows: bool,
)
    requires
        managed_worktree::fits(state.stage, (answers.at)(state.stage)),
        managed_worktree::rank(Stage::WorktreePolicy) <= managed_worktree::rank(state.stage),
        holds_answers(state, answers, request, windows),
    ensures
        managed_worktree::next_record(state, (answers.at)(state.stage)) matches StepView::Ask(on) ==> holds_answers(
            on,
            answers,
            request,
            windows,
        ),
{
}

// ---- What each answer leads to -------------------------------------------------------

/// Whether a step is the end of the preparation with a failure of a kind, which
/// reports what is known of the request, the base and the source.
pub open spec fn fails(
    step: StepView,
    state: PrepareView,
    kind: Seq<char>,
    state_changed: bool,
) -> bool {
    step matches StepView::Finish(outcome) && outcome == (OutcomeView::Failed {
        kind,
        state_changed,
        base_ref: state.reported_base_ref,
        base_sha: state.base_sha,
        source_dirty: state.source_dirty,
    })
}

/// Whether a step goes on at a stage.
pub open spec fn goes_on(step: StepView, stage: Stage) -> bool {
    step matches StepView::Ask(on) && on.stage == stage
}

/// The source of a worktree: its spelling, its owner, its directory, the policy,
/// the repository it is the root of and its status are each looked at in turn, the
/// next only where the last was in order; what is not in order ends the preparation
/// under its own kind, with nothing changed.
pub proof fn law_source_is_checked_step_by_step(state: PrepareView, answer: Answer)
    requires
        managed_worktree::fits(state.stage, answer),
        managed_worktree::rank(state.stage) <= managed_worktree::rank(Stage::Status),
    ensures
        ({
            let step = managed_worktree::next(state, answer);
            match state.stage {
                Stage::RawRoot => if answer == Answer::Holds(true) {
                    goes_on(step, Stage::Ingress)
                } else {
                    fails(step, state, "invalid_project_path"@, false)
                },
                Stage::Ingress => match answer {
                    Answer::Refused(Some(kind)) => fails(step, state, kind@, false),
                    _ => goes_on(step, Stage::Source),
                },
                Stage::Source => match answer {
                    Answer::Path(Some(path)) => step matches StepView::Ask(on) && on.stage
                        == Stage::SourcePolicy && on.source == path@,
                    _ => fails(step, state, "project_path_not_found"@, false),
                },
                Stage::SourcePolicy => if answer == Answer::Holds(true) {
                    goes_on(step, Stage::TopLevel)
                } else {
                    fails(step, state, "path_outside_allowed_roots"@, false)
                },
                Stage::TopLevel => match printed_text(answer) {
                    Some(root) => step matches StepView::Ask(on) && on.stage == Stage::SameRoot
                        && on.top_level == root,
                    None => fails(step, state, "source_not_git_repository"@, false),
                },
                Stage::SameRoot => match answer {
                    Answer::Path(Some(path)) => step matches StepView::Ask(on) && on.stage
                        == Stage::Status && on.source == path@,
                    _ => fails(step, state, "source_not_git_repository"@, false),
                },
                Stage::Status => match printed_text(answer) {
                    Some(status) => step matches StepView::Ask(on) && on.source_dirty == Some(
                        status.len() > 0,
                    ) && (state.request.resume_project_id is Some ==> on.stage == Stage::ResumeId
                        && on.reported_base_ref == state.request.requested_base_ref) && (
                    state.request.resume_project_id is None ==> on.stage == Stage::Lineage
                        && on.reported_base_ref == state.reported_base_ref),
                    None => fails(step, state, "source_git_status_failed"@, false),
                },
                _ => true,
            }
        }),
{
}

/// The place of a worktree: whose the source is, the base commit, the directory for
/// managed worktrees and the name below it are settled in turn; what cannot be
/// settled ends the preparation under its own kind. Where the place is taken, what
/// is there is looked at, and where it is free the worktree is added.
pub proof fn law_place_is_settled_step_by_step(state: PrepareView, answer: Answer)
    requires
        managed_worktree::fits(state.stage, answer),
        managed_worktree::rank(Stage::Lineage) <= managed_worktree::rank(state.stage)
            <= managed_worktree::rank(Stage::Exists),
    ensures
        ({
            let step = managed_worktree::next(state, answer);
            match state.stage {
                Stage::Lineage => match answer {
                    Answer::Lineage(Ok(lineage)) => step matches StepView::Ask(on) && on.stage
                        == Stage::Base && on.source_project_id == lineage.0@
                        && on.source_root_fingerprint == lineage.1@,
                    Answer::Lineage(Err(kind)) => fails(step, state, kind@, false),
                    _ => true,
                },
                Stage::Roots => match answer {
                    Answer::Roots(choice) => match crate::worktree_request::chosen_root(choice) {
                        Some(root) => step matches StepView::Ask(on) && on.stage == Stage::MakeRoot
                            && on.managed_root == root,
                        None => fails(step, state, "managed_worktree_root_unavailable"@, false),
                    },
                    _ => true,
                },
                Stage::MakeRoot => match answer {
                    Answer::Path(Some(path)) => step matches StepView::Ask(on) && on.stage
                        == Stage::RootPolicy && on.managed_root == path@,
                    _ => fails(step, state, "worktree_creation_failed"@, false),
                },
                Stage::RootPolicy => if answer == Answer::Holds(true) {
                    goes_on(step, Stage::Basename)
                } else {
                    fails(step, state, "managed_worktree_root_unavailable"@, false)
                },
                Stage::Destination => match answer {
                    Answer::Text(path) => step matches StepView::Ask(on) && on.stage
                        == Stage::Exists && on.destination == path@,
                    _ => true,
                },
                Stage::Exists => if answer == Answer::Holds(true) {
                    goes_on(step, Stage::FoundPath)
                } else {
                    goes_on(step, Stage::FreshListing)
                },
                _ => true,
            }
        }),
{
}

/// The worktree itself. A free place that Git still lists is a conflict, and only a
/// free one that it does not list is added to. What Git made of the addition
/// decides: where it succeeded the worktree is created; where it refused or was
/// lost, what stands at the place decides, and where nothing stands and nothing is
/// listed there, a refusal is a failure without a change and a loss is not known.
pub proof fn law_addition_is_followed_up(state: PrepareView, answer: Answer)
    requires
        managed_worktree::fits(state.stage, answer),
        managed_worktree::rank(Stage::FoundPath) <= managed_worktree::rank(state.stage)
            <= managed_worktree::rank(Stage::LostListed),
    ensures
        ({
            let step = managed_worktree::next(state, answer);
            match state.stage {
                Stage::FoundPath => match answer {
                    Answer::Path(Some(path)) => step matches StepView::Ask(on) && on.stage
                        == Stage::Head && on.worktree == path@ && on.created == state.created,
                    _ => fails(step, state, "managed_worktree_recovery_conflict"@, true),
                },
                Stage::FreshListing => match printed_text(answer) {
                    Some(listing) => step matches StepView::Ask(on) && on.stage
                        == Stage::FreshListed && on.listed == git::listed_of(listing),
                    None => fails(step, state, "operation_indeterminate"@, false),
                },
                Stage::FreshListed => if answer == Answer::Holds(false) {
                    goes_on(step, Stage::Add)
                } else {
                    fails(step, state, "managed_worktree_recovery_conflict"@, true)
                },
                Stage::Add => match answer {
                    Answer::Git(Some(output)) => step matches StepView::Ask(on) && (output.success
                        ==> on.stage == Stage::NewPath && on.created) && (!output.success
                        ==> on.stage == Stage::RejectedExists && on.created == state.created),
                    _ => step matches StepView::Ask(on) && on.stage == Stage::LostExists
                        && on.created == state.created,
                },
                Stage::RejectedExists => if answer == Answer::Holds(true) {
                    goes_on(step, Stage::NewPath)
                } else {
                    goes_on(step, Stage::RejectedListing)
                },
                Stage::RejectedListing => match printed_text(answer) {
                    Some(listing) => step matches StepView::Ask(on) && on.stage
                        == Stage::RejectedListed && on.listed == git::listed_of(listing),
                    None => fails(step, state, "operation_indeterminate"@, false),
                },
                Stage::RejectedListed => if answer == Answer::Holds(true) {
                    fails(step, state, "managed_worktree_recovery_conflict"@, true)
                } else {
                    fails(step, state, "worktree_creation_failed"@, false)
                },
                Stage::LostExists => if answer == Answer::Holds(true) {
                    goes_on(step, Stage::NewPath)
                } else {
                    goes_on(step, Stage::LostListing)
                },
                Stage::LostListing => match printed_text(answer) {
                    Some(listing) => step matches StepView::Ask(on) && on.stage == Stage::LostListed
                        && on.listed == git::listed_of(listing),
                    None => fails(step, state, "operation_indeterminate"@, false),
                },
                Stage::LostListed => if answer == Answer::Holds(true) {
                    fails(step, state, "managed_worktree_recovery_conflict"@, true)
                } else {
                    fails(step, state, "operation_indeterminate"@, false)
                },
                _ => true,
            }
        }),
{
}

/// A worktree that stands goes on only where its path can be read, its head is the
/// base commit and Git lists it; anything else ends the preparation with a change
/// reported.
pub proof fn law_standing_worktree_is_verified(state: PrepareView, answer: Answer)
    requires
        managed_worktree::fits(state.stage, answer),
        managed_worktree::rank(Stage::NewPath) <= managed_worktree::rank(state.stage)
            <= managed_worktree::rank(Stage::Listed),
    ensures
        ({
            let step = managed_worktree::next(state, answer);
            match state.stage {
                Stage::NewPath => match answer {
                    Answer::Path(Some(path)) => step matches StepView::Ask(on) && on.stage
                        == Stage::Head && on.worktree == path@ && on.created == state.created,
                    _ => fails(step, state, "operation_indeterminate"@, true),
                },
                Stage::Head => match printed_text(answer) {
                    Some(head) => step matches StepView::Ask(on) && on.stage == Stage::Listing
                        && on.head == head,
                    None => fails(step, state, "operation_indeterminate"@, true),
                },
                Stage::Listing => match printed_text(answer) {
                    Some(listing) => step matches StepView::Ask(on) && on.stage == Stage::Listed
                        && on.listed == git::listed_of(listing),
                    None => fails(step, state, "operation_indeterminate"@, true),
                },
                Stage::Listed => if answer == Answer::Holds(true) && state.base_sha == Some(
                    state.head,
                ) {
                    goes_on(step, Stage::WorktreePolicy)
                } else {
                    fails(step, state, "managed_worktree_recovery_conflict"@, true)
                },
                _ => true,
            }
        }),
{
}

/// The record of a worktree. One that is there is taken where it is the only one,
/// enabled and of the same operation, and is a conflict otherwise; where none is
/// there, one is written under a free identifier and read back, and only what was
/// read back is a registration.
pub proof fn law_record_is_found_or_written(state: PrepareView, answer: Answer)
    requires
        managed_worktree::fits(state.stage, answer),
        managed_worktree::rank(Stage::WorktreePolicy) <= managed_worktree::rank(state.stage),
    ensures
        ({
            let step = managed_worktree::next(state, answer);
            match state.stage {
                Stage::WorktreePolicy => if answer == Answer::Holds(true) {
                    goes_on(step, Stage::Matches)
                } else {
                    fails(step, state, "managed_worktree_root_unavailable"@, true)
                },
                Stage::Matches => match answer {
                    Answer::Records(Err(kind)) => fails(step, state, kind@, true),
                    Answer::Records(Ok(records)) => {
                        &&& records@.len() == 0 ==> goes_on(step, Stage::ProjectId)
                        &&& records@.len() > 1 ==> fails(
                            step,
                            state,
                            "ambiguous_project_path"@,
                            true,
                        )
                        &&& records@.len() == 1 && records@[0].disabled ==> fails(
                            step,
                            state,
                            "managed_worktree_recovery_conflict"@,
                            true,
                        )
                        &&& records@.len() == 1 && text::text_of(records@[0].managed_operation_id)
                            != Some(state.request.operation_id) ==> fails(
                            step,
                            state,
                            "managed_worktree_recovery_conflict"@,
                            true,
                        )
                        &&& records@.len() == 1 && text::text_of(records@[0].managed_base_sha)
                            != state.base_sha ==> fails(
                            step,
                            state,
                            "managed_worktree_recovery_conflict"@,
                            true,
                        )
                        &&& records@.len() == 1 && (!records@[0].managed_worktree || text::text_of(
                            records@[0].managed_source,
                        ) != Some(state.source) || text::text_of(
                            records@[0].managed_source_project_id,
                        ) != Some(state.source_project_id) || text::text_of(
                            records@[0].managed_source_root_fingerprint,
                        ) != Some(state.source_root_fingerprint)) ==> fails(
                            step,
                            state,
                            "managed_worktree_recovery_conflict"@,
                            true,
                        )
                        &&& records@.len() == 1 && !records@[0].disabled
                            && records@[0].managed_worktree && text::text_of(
                            records@[0].managed_operation_id,
                        ) == Some(state.request.operation_id) && text::text_of(
                            records@[0].managed_base_sha,
                        ) == state.base_sha && text::text_of(records@[0].managed_source) == Some(
                            state.source,
                        ) && text::text_of(records@[0].managed_source_project_id) == Some(
                            state.source_project_id,
                        ) && text::text_of(records@[0].managed_source_root_fingerprint) == Some(
                            state.source_root_fingerprint,
                        ) ==> (step matches StepView::Finish(
                            OutcomeView::Ready { project, created, registered, .. },
                        ) && project == records@[0] && !created && !registered)
                    },
                    _ => true,
                },
                Stage::ProjectId => match answer {
                    Answer::Named(Ok(id)) => step matches StepView::Ask(on) && on.stage
                        == Stage::Unicode && on.project_id == id@,
                    Answer::Named(Err(kind)) => fails(step, state, kind@, true),
                    _ => true,
                },
                Stage::Unicode => if answer == Answer::Holds(true) {
                    goes_on(step, Stage::BaseRecord)
                } else {
                    fails(step, state, "invalid_project_path"@, true)
                },
                Stage::BaseRecord => goes_on(step, Stage::Write),
                Stage::Write => match answer {
                    Answer::Written(managed_worktree::WriteOutcome::Written) => goes_on(
                        step,
                        Stage::Parse,
                    ),
                    Answer::Written(managed_worktree::WriteOutcome::BeforeRename) => fails(
                        step,
                        state,
                        "worktree_registration_failed"@,
                        true,
                    ),
                    _ => fails(step, state, "operation_indeterminate"@, true),
                },
                Stage::Parse => match answer {
                    Answer::Parsed(Some(project)) => step matches StepView::Finish(
                        OutcomeView::Ready {
                            project: held,
                            worktree,
                            base_ref,
                            base_sha,
                            source_dirty,
                            created,
                            registered,
                        },
                    ) && held == project && worktree == state.worktree && base_ref
                        == state.request.base_ref && base_sha == state.base_sha->Some_0
                        && source_dirty == state.source_dirty->Some_0 && created == state.created
                        && registered,
                    _ => fails(step, state, "operation_indeterminate"@, true),
                },
                _ => true,
            }
        }),
{
}

/// A project is looked up by its identifier, wherever it stands among the records.
pub proof fn law_project_is_found_by_its_identifier(
    records: Seq<crate::project_record::RunnerProjectFile>,
    id: Seq<char>,
)
    ensures
        managed_worktree::first_with_id(records, id) matches Some(found) ==> found.id@ == id
            && records.contains(found),
        managed_worktree::first_with_id(records, id) is None ==> forall|i: int|
            0 <= i < records.len() ==> (#[trigger] records[i]).id@ != id,
    decreases records.len(),
{
    if records.len() > 0 && records[0].id@ != id {
        let rest = records.drop_first();
        law_project_is_found_by_its_identifier(rest, id);
        if let Some(found) = managed_worktree::first_with_id(rest, id) {
            let i = choose|i: int| 0 <= i < rest.len() && rest[i] == found;
            assert(records[i + 1] == found);
        } else {
            assert forall|i: int| 0 <= i < records.len() implies (#[trigger] records[i]).id@
                != id by {
                if i > 0 {
                    assert(rest[i - 1] == records[i]);
                }
            }
        }
    } else if records.len() > 0 {
        assert(records.contains(records[0]));
    }
}

/// A resume begins with the project that was named: it has to be there, enabled and
/// a managed worktree with a source and a base commit of its own, and its base is
/// then the one of the resume.
pub proof fn law_resume_begins_with_a_managed_project(
    state: PrepareView,
    answer: Answer,
)
    requires
        managed_worktree::well_formed(state),
        managed_worktree::fits(state.stage, answer),
        state.stage == Stage::ResumeId || state.stage == Stage::ResumeRecords,
    ensures
        ({
            let step = managed_worktree::next(state, answer);
            match state.stage {
                Stage::ResumeId => if answer == Answer::Holds(true) {
                    goes_on(step, Stage::ResumeRecords)
                } else {
                    fails(step, state, "invalid_request"@, false)
                },
                _ => match answer {
                    Answer::Records(Err(kind)) => fails(step, state, kind@, false),
                    Answer::Records(Ok(records)) => match step {
                        StepView::Ask(on) => {
                            &&& on.stage == Stage::ResumeSource
                            &&& on.project matches Some(project) && records@.contains(project)
                                && project.id@ == state.request.resume_project_id->Some_0
                                && !project.disabled && project.managed_worktree
                                && project.managed_source is Some && text::text_of(
                                project.managed_base_sha,
                            ) == on.base_sha
                            &&& on.base_sha matches Some(sha) && (sha.len() == 40 || sha.len()
                                == 64) && text::all_hex(sha)
                        },
                        StepView::Finish(outcome) => outcome matches OutcomeView::Failed {
                            kind,
                            state_changed,
                            base_ref,
                            source_dirty,
                            ..
                        } && kind == "managed_worktree_resume_mismatch"@ && !state_changed
                            && base_ref == state.reported_base_ref && source_dirty
                            == state.source_dirty && forall|i: int|
                            0 <= i < records@.len() && (#[trigger] records@[i]).id@
                                == state.request.resume_project_id->Some_0 && (forall|j: int|
                                0 <= j < i ==> (#[trigger] records@[j]).id@ != records@[i].id@)
                                ==> records@[i].disabled || !records@[i].managed_worktree
                                || records@[i].managed_source is None
                                || records@[i].managed_base_sha is None || !git::is_object_name(
                                records@[i].managed_base_sha->Some_0@,
                            ),
                    },
                    _ => true,
                },
            }
        }),
{
    if state.stage == Stage::ResumeRecords {
        if let Answer::Records(Ok(records)) = answer {
            let id = state.request.resume_project_id->Some_0;
            law_project_is_found_by_its_identifier(records@, id);
            assert forall|i: int|
                0 <= i < records@.len() && (#[trigger] records@[i]).id@ == id && (forall|j: int|
                    0 <= j < i ==> (#[trigger] records@[j]).id@
                        != records@[i].id@) implies managed_worktree::first_with_id(records@, id)
                == Some(records@[i]) by {
                lemma_first_with_id(records@, id, i);
            }
        }
    }
}

proof fn lemma_first_with_id(
    records: Seq<crate::project_record::RunnerProjectFile>,
    id: Seq<char>,
    i: int,
)
    requires
        0 <= i < records.len(),
        records[i].id@ == id,
        forall|j: int| 0 <= j < i ==> (#[trigger] records[j]).id@ != id,
    ensures
        managed_worktree::first_with_id(records, id) == Some(records[i]),
    decreases records.len(),
{
    if i > 0 {
        assert(records[0].id@ != id);
        let rest = records.drop_first();
        assert forall|j: int| 0 <= j < i - 1 implies (#[trigger] rest[j]).id@ != id by {
            assert(rest[j] == records[j + 1]);
        }
        lemma_first_with_id(rest, id, i - 1);
    }
}

/// A resume goes on only with the same source, the same owner of it and, where a
/// base was requested, the same base; the worktree has to stand where its record
/// says, be allowed there, be listed and be at its base. Then it is ready, as it is
/// recorded; otherwise the resume ends under the kind of what did not hold.
pub proof fn law_resume_takes_only_the_same_worktree(state: PrepareView, answer: Answer)
    requires
        managed_worktree::well_formed(state),
        managed_worktree::fits(state.stage, answer),
        managed_worktree::rank(Stage::ResumeSource) <= managed_worktree::rank(state.stage)
            <= managed_worktree::rank(Stage::ResumeListed),
    ensures
        ({
            let step = managed_worktree::next(state, answer);
            let project = state.project->Some_0;
            match state.stage {
                Stage::ResumeSource => match answer {
                    Answer::Path(Some(_)) => if project.managed_source_project_id is Some
                        && project.managed_source_root_fingerprint is Some {
                        goes_on(step, Stage::ResumeLineage)
                    } else if state.request.requested_base_ref is Some {
                        goes_on(step, Stage::ResumeBase)
                    } else {
                        goes_on(step, Stage::ResumePath)
                    },
                    _ => fails(step, state, "managed_worktree_resume_mismatch"@, false),
                },
                Stage::ResumeLineage => match answer {
                    Answer::Lineage(Ok(found)) => if found.0@
                        == project.managed_source_project_id->Some_0@ && found.1@
                        == project.managed_source_root_fingerprint->Some_0@ {
                        if state.request.requested_base_ref is Some {
                            goes_on(step, Stage::ResumeBase)
                        } else {
                            goes_on(step, Stage::ResumePath)
                        }
                    } else {
                        fails(step, state, "managed_worktree_resume_mismatch"@, false)
                    },
                    _ => fails(step, state, "managed_worktree_resume_mismatch"@, false),
                },
                Stage::ResumeBase => match named_commit(answer) {
                    Some(sha) => if Some(sha) == state.base_sha {
                        step matches StepView::Ask(on) && on.stage == Stage::ResumePath
                            && on.reported_base_ref == text::text_of(project.managed_base_ref)
                    } else {
                        fails(step, state, "managed_worktree_resume_base_mismatch"@, false)
                    },
                    None => fails(step, state, "base_ref_resolution_failed"@, false),
                },
                Stage::ResumePath => match answer {
                    Answer::Path(Some(path)) => step matches StepView::Ask(on) && on.stage
                        == Stage::ResumePolicy && on.worktree == path@,
                    _ => fails(step, state, "managed_worktree_recovery_conflict"@, false),
                },
                Stage::ResumePolicy => if answer == Answer::Holds(true) {
                    goes_on(step, Stage::ResumeHead)
                } else {
                    fails(step, state, "managed_worktree_recovery_conflict"@, false)
                },
                Stage::ResumeHead => match printed_text(answer) {
                    Some(head) => step matches StepView::Ask(on) && on.stage == Stage::ResumeListing
                        && on.head == head,
                    None => fails(step, state, "worktree_git_failed"@, false),
                },
                Stage::ResumeListing => match printed_text(answer) {
                    Some(listing) => step matches StepView::Ask(on) && on.stage
                        == Stage::ResumeListed && on.listed == git::listed_of(listing),
                    None => fails(step, state, "worktree_git_failed"@, false),
                },
                Stage::ResumeListed => if answer == Answer::Holds(true) && state.base_sha == Some(
                    state.head,
                ) {
                    step matches StepView::Finish(
                        OutcomeView::Ready {
                            project: held,
                            worktree,
                            base_ref,
                            base_sha,
                            source_dirty,
                            created,
                            registered,
                        },
                    ) && held == project && worktree == state.worktree && (
                    project.managed_base_ref matches Some(recorded) ==> base_ref == recorded@) && (
                    project.managed_base_ref is None ==> base_ref == state.request.base_ref)
                        && Some(base_sha) == state.base_sha && Some(source_dirty)
                        == state.source_dirty && !created && !registered
                } else {
                    fails(step, state, "managed_worktree_recovery_conflict"@, false)
                },
                _ => true,
            }
        }),
{
}

/// A preparation begins with the request that was read; where the lock could not be
/// taken, nothing could be read or the request is refused, it ends there, with
/// nothing changed and nothing known.
pub proof fn law_preparation_begins_with_its_request(
    lock_acquired: bool,
    payload: Option<crate::json::JsonView>,
    absolute: bool,
    windows: bool,
)
    ensures
        ({
            let begun = managed_worktree::beginning(lock_acquired, payload, absolute, windows);
            &&& !lock_acquired ==> begun == StepView::Finish(
                OutcomeView::Failed {
                    kind: "operation_failed"@,
                    state_changed: false,
                    base_ref: None,
                    base_sha: None,
                    source_dirty: None,
                },
            )
            &&& lock_acquired && payload is None ==> begun == StepView::Finish(
                OutcomeView::Failed {
                    kind: "invalid_request"@,
                    state_changed: false,
                    base_ref: None,
                    base_sha: None,
                    source_dirty: None,
                },
            )
            &&& lock_acquired ==> (payload matches Some(document)
                ==> match crate::worktree_request::request_of(document, absolute) {
                Ok(request) => begun matches StepView::Ask(state) && state.request == request
                    && state.windows == windows && state.stage == Stage::RawRoot
                    && state.reported_base_ref == Some(request.base_ref) && state.source_dirty
                    is None && state.base_sha is None && !state.created && state.project is None,
                Err(refusal) => begun == StepView::Finish(
                    OutcomeView::Failed {
                        kind: refusal.0,
                        state_changed: false,
                        base_ref: refusal.1,
                        base_sha: None,
                        source_dirty: None,
                    },
                ),
            })
        }),
{
}

} // verus!
