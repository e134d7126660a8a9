//! Two preparations with one request: the second finds what the first made.
use crate::managed_worktree;
use crate::managed_worktree::{Answer, OutcomeView, PrepareView, Stage, StepView};
use crate::worktree_request;
use vstd::prelude::*;

verus! {

/// What a driver answers at each stage of one preparation. No stage comes twice.
pub struct Answers {
    pub at: spec_fn(Stage) -> Answer,
}

/// Whether every answer is one to its question.
pub open spec fn all_fit(answers: Answers) -> bool {
    forall|stage: Stage| managed_worktree::fits(stage, #[trigger] (answers.at)(stage))
}

/// One step of a preparation.
#[verifier::opaque]
pub open spec fn one_step(answers: Answers, step: StepView) -> StepView {
    match step {
        StepView::Ask(state) => managed_worktree::next(state, (answers.at)(state.stage)),
        StepView::Finish(_) => step,
    }
}

/// A preparation after so many steps.
pub open spec fn after(answers: Answers, begun: StepView, steps: nat) -> StepView
    decreases steps,
{
    if steps == 0 {
        begun
    } else {
        one_step(answers, after(answers, begun, (steps - 1) as nat))
    }
}

/// Whether a preparation ended with a worktree that it made and registered.
pub open spec fn made(step: StepView) -> bool {
    step matches StepView::Finish(OutcomeView::Ready { created, .. }) && created
}

/// Whether the record that a preparation read back holds what it wrote, and is
/// enabled.
pub open spec fn reads_back(answers: Answers, begun: StepView) -> bool {
    forall|steps: nat|
        (#[trigger] after(answers, begun, steps)) matches StepView::Ask(state) ==> state.stage
            == Stage::Parse ==> ((answers.at)(Stage::Parse) matches Answer::Parsed(
            Some(project),
        ) ==> !project.disabled && managed_worktree::same_operation(state, project))
}

/// Whether nothing changed since a preparation that ended well: the source, its
/// base commit, the policy and the place answer as they did; the worktree stands
/// where it was made, and its record is the only one there.
pub open spec fn unchanged_since(first: Answers, second: Answers) -> bool {
    &&& forall|stage: Stage|
        managed_worktree::rank(stage) <= managed_worktree::rank(Stage::Destination)
            ==> #[trigger] (second.at)(stage) == (first.at)(stage)
    &&& (second.at)(Stage::Exists) == Answer::Holds(true)
    &&& (second.at)(Stage::FoundPath) == (first.at)(Stage::NewPath)
    &&& (second.at)(Stage::Head) == (first.at)(Stage::Head)
    &&& (second.at)(Stage::Listing) == (first.at)(Stage::Listing)
    &&& (second.at)(Stage::Listed) == (first.at)(Stage::Listed)
    &&& (second.at)(Stage::WorktreePolicy) == (first.at)(Stage::WorktreePolicy)
    &&& (second.at)(Stage::Matches) matches Answer::Records(Ok(records)) && (first.at)(
        Stage::Parse,
    ) matches Answer::Parsed(Some(project)) && records@ == seq![project]
}

/// Whether a state asks for a worktree or for a record.
pub open spec fn makes_or_writes(step: StepView) -> bool {
    step matches StepView::Ask(state) && (managed_worktree::question_of(state) is AddWorktree
        || managed_worktree::question_of(state) is WriteRecord)
}

/// An outcome as that of a preparation that found its worktree.
pub open spec fn found_again(outcome: OutcomeView) -> OutcomeView {
    match outcome {
        OutcomeView::Ready { project, worktree, base_ref, base_sha, source_dirty, .. } => {
            OutcomeView::Ready {
                project,
                worktree,
                base_ref,
                base_sha,
                source_dirty,
                created: false,
                registered: false,
            }
        },
        _ => outcome,
    }
}

// ---- How preparations go on ------------------------------------------------------

/// Whether a step leads to a state that knows what its stage asks for.
spec fn sound(step: StepView) -> bool {
    step matches StepView::Ask(state) ==> managed_worktree::well_formed(state)
}

/// The place of a step in the order of the preparation; behind all stages where the
/// preparation ended.
spec fn step_rank(step: StepView) -> int {
    match step {
        StepView::Ask(state) => managed_worktree::rank(state.stage),
        StepView::Finish(_) => 46,
    }
}

proof fn lemma_step(answers: Answers, step: StepView)
    requires
        all_fit(answers),
        sound(step),
    ensures
        sound(one_step(answers, step)),
        step is Finish ==> one_step(answers, step) == step,
        step is Ask ==> step_rank(one_step(answers, step)) > step_rank(step),
{
    reveal(one_step);
    if let StepView::Ask(state) = step {
        managed_worktree::law_steps_keep_what_is_known(state, (answers.at)(state.stage));
    }
}

proof fn lemma_sound(answers: Answers, begun: StepView, steps: nat)
    requires
        all_fit(answers),
        sound(begun),
    ensures
        sound(after(answers, begun, steps)),
    decreases steps,
{
    if steps > 0 {
        lemma_sound(answers, begun, (steps - 1) as nat);
        lemma_step(answers, after(answers, begun, (steps - 1) as nat));
    }
}

proof fn lemma_finished(answers: Answers, begun: StepView, steps: nat, more: nat)
    requires
        after(answers, begun, steps) is Finish,
        more >= steps,
    ensures
        after(answers, begun, more) == after(answers, begun, steps),
    decreases more,
{
    if more > steps {
        lemma_finished(answers, begun, steps, (more - 1) as nat);
        reveal(one_step);
    }
}

/// Earlier states of a preparation are at earlier stages.
proof fn lemma_ranks(answers: Answers, begun: StepView, steps: nat, more: nat)
    requires
        all_fit(answers),
        sound(begun),
        steps <= more,
    ensures
        step_rank(after(answers, begun, steps)) <= step_rank(after(answers, begun, more)),
    decreases more,
{
    if steps < more {
        lemma_sound(answers, begun, (more - 1) as nat);
        lemma_step(answers, after(answers, begun, (more - 1) as nat));
        lemma_ranks(answers, begun, steps, (more - 1) as nat);
    }
}

/// Whether a preparation has passed the stage that makes the worktree, or ended,
/// without having made it.
spec fn unmade(step: StepView) -> bool {
    match step {
        StepView::Ask(state) => !state.created && managed_worktree::rank(state.stage)
            > managed_worktree::rank(Stage::Add),
        StepView::Finish(_) => !made(step),
    }
}

proof fn lemma_unmade_step(answers: Answers, step: StepView)
    requires
        all_fit(answers),
        sound(step),
        unmade(step),
    ensures
        unmade(one_step(answers, step)),
{
    lemma_step(answers, step);
    reveal(one_step);
    if let StepView::Ask(state) = step {
        let answer = (answers.at)(state.stage);
        if managed_worktree::rank(state.stage) <= managed_worktree::rank(Stage::Listed) {
            assert(managed_worktree::next(state, answer) == managed_worktree::next_worktree(
                state,
                answer,
            ));
        } else {
            assert(managed_worktree::next(state, answer) == managed_worktree::next_record(
                state,
                answer,
            ));
        }
    }
}

/// A worktree that was not made when its stage was passed is not reported as made.
proof fn lemma_unmade(answers: Answers, begun: StepView, steps: nat, more: nat)
    requires
        all_fit(answers),
        sound(begun),
        steps <= more,
        unmade(after(answers, begun, steps)),
    ensures
        unmade(after(answers, begun, more)),
    decreases more,
{
    if steps < more {
        lemma_unmade(answers, begun, steps, (more - 1) as nat);
        lemma_sound(answers, begun, (more - 1) as nat);
        lemma_unmade_step(answers, after(answers, begun, (more - 1) as nat));
    }
}

/// The stage that follows one on the way to the place of a new worktree.
spec fn following(stage: Stage) -> Stage {
    match stage {
        Stage::RawRoot => Stage::Ingress,
        Stage::Ingress => Stage::Source,
        Stage::Source => Stage::SourcePolicy,
        Stage::SourcePolicy => Stage::TopLevel,
        Stage::TopLevel => Stage::SameRoot,
        Stage::SameRoot => Stage::Status,
        Stage::Status => Stage::Lineage,
        Stage::Lineage => Stage::Base,
        Stage::Base => Stage::Roots,
        Stage::Roots => Stage::MakeRoot,
        Stage::MakeRoot => Stage::RootPolicy,
        Stage::RootPolicy => Stage::Basename,
        Stage::Basename => Stage::Destination,
        _ => Stage::Exists,
    }
}

/// Whether a preparation without resumption is at a stage and has made nothing, or
/// has failed.
spec fn at_or_failed(step: StepView, stage: Stage) -> bool {
    match step {
        StepView::Ask(state) => state.stage == stage && !state.created
            && state.request.resume_project_id is None,
        StepView::Finish(outcome) => outcome is Failed,
    }
}

proof fn lemma_source_step(state: PrepareView, answer: Answer)
    requires
        managed_worktree::fits(state.stage, answer),
        managed_worktree::rank(state.stage) <= managed_worktree::rank(Stage::Status),
        !state.created,
        state.request.resume_project_id is None,
    ensures
        at_or_failed(managed_worktree::next_source(state, answer), following(state.stage)),
{
}

proof fn lemma_place_step(state: PrepareView, answer: Answer)
    requires
        managed_worktree::fits(state.stage, answer),
        managed_worktree::rank(Stage::Lineage) <= managed_worktree::rank(state.stage)
            <= managed_worktree::rank(Stage::Destination),
        !state.created,
        state.request.resume_project_id is None,
    ensures
        at_or_failed(managed_worktree::next_place(state, answer), following(state.stage)),
{
}

proof fn lemma_on_the_way(answers: Answers, begun: StepView, steps: nat, stage: Stage)
    requires
        all_fit(answers),
        at_or_failed(after(answers, begun, steps), stage),
        managed_worktree::rank(stage) <= managed_worktree::rank(Stage::Destination),
        !managed_worktree::is_resume(stage),
    ensures
        at_or_failed(after(answers, begun, steps + 1), following(stage)),
{
    let step = after(answers, begun, steps);
    assert(after(answers, begun, steps + 1) == one_step(answers, step));
    if let StepView::Ask(state) = step {
        let answer = (answers.at)(stage);
        assert(managed_worktree::fits(stage, answer));
        assert(one_step(answers, step) == managed_worktree::next(state, answer)) by {
            reveal(one_step);
        }
        if managed_worktree::rank(stage) <= managed_worktree::rank(Stage::Status) {
            lemma_source_step(state, answer);
            assert(managed_worktree::next(state, answer) == managed_worktree::next_source(
                state,
                answer,
            ));
        } else {
            lemma_place_step(state, answer);
            assert(managed_worktree::next(state, answer) == managed_worktree::next_place(
                state,
                answer,
            ));
        }
    } else {
        assert(one_step(answers, step) == step) by {
            reveal(one_step);
        }
    }
}

/// A preparation without resumption reaches the place of its worktree after
/// fourteen steps, or ends before it.
proof fn lemma_to_the_place(answers: Answers, begun: StepView)
    requires
        all_fit(answers),
        at_or_failed(begun, Stage::RawRoot),
    ensures
        at_or_failed(after(answers, begun, 14), Stage::Exists),
{
    assert(after(answers, begun, 0) == begun);
    lemma_on_the_way(answers, begun, 0, Stage::RawRoot);
    lemma_on_the_way(answers, begun, 1, Stage::Ingress);
    lemma_on_the_way(answers, begun, 2, Stage::Source);
    lemma_on_the_way(answers, begun, 3, Stage::SourcePolicy);
    lemma_on_the_way(answers, begun, 4, Stage::TopLevel);
    lemma_on_the_way(answers, begun, 5, Stage::SameRoot);
    lemma_on_the_way(answers, begun, 6, Stage::Status);
    lemma_on_the_way(answers, begun, 7, Stage::Lineage);
    lemma_on_the_way(answers, begun, 8, Stage::Base);
    lemma_on_the_way(answers, begun, 9, Stage::Roots);
    lemma_on_the_way(answers, begun, 10, Stage::MakeRoot);
    lemma_on_the_way(answers, begun, 11, Stage::RootPolicy);
    lemma_on_the_way(answers, begun, 12, Stage::Basename);
    lemma_on_the_way(answers, begun, 13, Stage::Destination);
}

/// Two preparations that are answered alike up to the place are alike up to it.
proof fn lemma_alike(first: Answers, second: Answers, begun: StepView, steps: nat)
    requires
        all_fit(first),
        unchanged_since(first, second),
        sound(begun),
        step_rank(after(first, begun, steps)) <= managed_worktree::rank(Stage::Exists),
    ensures
        after(second, begun, steps) == after(first, begun, steps),
    decreases steps,
{
    if steps > 0 {
        let before = after(first, begun, (steps - 1) as nat);
        lemma_sound(first, begun, (steps - 1) as nat);
        lemma_step(first, before);
        lemma_alike(first, second, begun, (steps - 1) as nat);
        lemma_same_answer(first, second, before);
    }
}

proof fn lemma_same_answer(first: Answers, second: Answers, step: StepView)
    requires
        unchanged_since(first, second),
        step_rank(step) <= managed_worktree::rank(Stage::Destination),
    ensures
        one_step(first, step) == one_step(second, step),
{
    reveal(one_step);
    let stage = step->Ask_0.stage;
    assert((second.at)(stage) == (first.at)(stage));
}

/// Where an open step of a preparation leads.
proof fn lemma_goes_on(answers: Answers, begun: StepView, steps: nat)
    ensures
        after(answers, begun, steps + 1) == match after(answers, begun, steps) {
            StepView::Ask(state) => managed_worktree::next(state, (answers.at)(state.stage)),
            StepView::Finish(outcome) => StepView::Finish(outcome),
        },
{
    assert(after(answers, begun, steps + 1) == one_step(answers, after(answers, begun, steps)));
    reveal(one_step);
}

/// The head and the listing that a driver reports of a worktree.
spec fn text_at(answers: Answers, stage: Stage) -> Option<Seq<char>> {
    managed_worktree::text_from((answers.at)(stage)->Git_0)
}

/// Whether a worktree at a path is listed, is at the base commit and may be there.
spec fn stands(state: PrepareView, path: Answer, answers: Answers) -> bool {
    &&& path->Path_0 is Some
    &&& text_at(answers, Stage::Head) is Some
    &&& text_at(answers, Stage::Listing) is Some
    &&& state.base_sha == text_at(answers, Stage::Head)
    &&& (answers.at)(Stage::Listed) == Answer::Holds(true)
    &&& (answers.at)(Stage::WorktreePolicy) == Answer::Holds(true)
}

/// A state that knows its worktree and asks for the records there.
spec fn with_worktree(state: PrepareView, path: Answer, answers: Answers) -> PrepareView {
    PrepareView {
        stage: Stage::Matches,
        worktree: path->Path_0->Some_0@,
        head: text_at(answers, Stage::Head)->Some_0,
        listed: crate::git::listed_of(text_at(answers, Stage::Listing)->Some_0),
        ..state
    }
}

proof fn lemma_next_worktree(state: PrepareView, answer: Answer)
    requires
        managed_worktree::rank(Stage::FoundPath) <= managed_worktree::rank(state.stage)
            <= managed_worktree::rank(Stage::Listed),
    ensures
        managed_worktree::next(state, answer) == managed_worktree::next_worktree(state, answer),
{
}

proof fn lemma_next_record(state: PrepareView, answer: Answer)
    requires
        managed_worktree::rank(state.stage) >= managed_worktree::rank(Stage::WorktreePolicy),
    ensures
        managed_worktree::next(state, answer) == managed_worktree::next_record(state, answer),
{
}

/// From the path of a worktree to the records there: five steps.
proof fn lemma_to_the_records(answers: Answers, begun: StepView, steps: nat)
    requires
        all_fit(answers),
        after(answers, begun, steps) matches StepView::Ask(state) && (state.stage
            == Stage::FoundPath || state.stage == Stage::NewPath),
    ensures
        ({
            let state = after(answers, begun, steps)->Ask_0;
            let path = (answers.at)(state.stage);
            if stands(state, path, answers) {
                after(answers, begun, steps + 5) == StepView::Ask(
                    with_worktree(state, path, answers),
                )
            } else {
                after(answers, begun, steps + 5) matches StepView::Finish(outcome)
                    && outcome is Failed
            }
        }),
{
    let state = after(answers, begun, steps)->Ask_0;
    let path = (answers.at)(state.stage);
    assert(managed_worktree::fits(state.stage, path));
    assert(managed_worktree::fits(Stage::Head, (answers.at)(Stage::Head)));
    assert(managed_worktree::fits(Stage::Listing, (answers.at)(Stage::Listing)));
    assert(managed_worktree::fits(Stage::Listed, (answers.at)(Stage::Listed)));
    assert(managed_worktree::fits(Stage::WorktreePolicy, (answers.at)(Stage::WorktreePolicy)));
    lemma_goes_on(answers, begun, steps);
    lemma_goes_on(answers, begun, steps + 1);
    lemma_goes_on(answers, begun, steps + 2);
    lemma_goes_on(answers, begun, steps + 3);
    lemma_goes_on(answers, begun, steps + 4);
    lemma_next_worktree(state, path);
    if let StepView::Ask(s1) = after(answers, begun, steps + 1) {
        lemma_next_worktree(s1, (answers.at)(Stage::Head));
        if let StepView::Ask(s2) = after(answers, begun, steps + 2) {
            lemma_next_worktree(s2, (answers.at)(Stage::Listing));
            if let StepView::Ask(s3) = after(answers, begun, steps + 3) {
                lemma_next_worktree(s3, (answers.at)(Stage::Listed));
                if let StepView::Ask(s4) = after(answers, begun, steps + 4) {
                    lemma_next_record(s4, (answers.at)(Stage::WorktreePolicy));
                }
            }
        }
    }
}

/// In a preparation that made its worktree no step is one that did not.
proof fn lemma_made_throughout(answers: Answers, begun: StepView, last: nat, steps: nat)
    requires
        all_fit(answers),
        sound(begun),
        made(after(answers, begun, last)),
    ensures
        !unmade(after(answers, begun, steps)),
{
    let most = if steps >= last {
        steps
    } else {
        last
    };
    lemma_finished(answers, begun, last, most);
    if unmade(after(answers, begun, steps)) {
        lemma_unmade(answers, begun, steps, most);
    }
}

/// A preparation that made its worktree found none, and asks for its path after
/// four more steps.
proof fn lemma_to_the_new_worktree(answers: Answers, begun: StepView, last: nat)
    requires
        all_fit(answers),
        sound(begun),
        made(after(answers, begun, last)),
        at_or_failed(after(answers, begun, 14), Stage::Exists),
    ensures
        after(answers, begun, 14) is Ask,
        after(answers, begun, 18) matches StepView::Ask(reached) && reached == (PrepareView {
            stage: Stage::NewPath,
            created: true,
            listed: reached.listed,
            ..after(answers, begun, 14)->Ask_0
        }),
{
    lemma_made_throughout(answers, begun, last, 14);
    let place = after(answers, begun, 14)->Ask_0;
    assert(managed_worktree::fits(Stage::Exists, (answers.at)(Stage::Exists)));
    assert(managed_worktree::fits(Stage::FoundPath, (answers.at)(Stage::FoundPath)));
    assert(managed_worktree::fits(Stage::FreshListing, (answers.at)(Stage::FreshListing)));
    assert(managed_worktree::fits(Stage::FreshListed, (answers.at)(Stage::FreshListed)));
    assert(managed_worktree::fits(Stage::Add, (answers.at)(Stage::Add)));
    lemma_goes_on(answers, begun, 14);
    lemma_goes_on(answers, begun, 15);
    lemma_goes_on(answers, begun, 16);
    lemma_goes_on(answers, begun, 17);
    lemma_made_throughout(answers, begun, last, 16);
    lemma_made_throughout(answers, begun, last, 17);
    lemma_made_throughout(answers, begun, last, 18);
    assert(managed_worktree::next(place, (answers.at)(Stage::Exists))
        == managed_worktree::next_place(place, (answers.at)(Stage::Exists)));
    let s1 = after(answers, begun, 15)->Ask_0;
    lemma_next_worktree(s1, (answers.at)(s1.stage));
    assert(s1.stage == Stage::FreshListing);
    let s2 = after(answers, begun, 16)->Ask_0;
    lemma_next_worktree(s2, (answers.at)(Stage::FreshListed));
    let s3 = after(answers, begun, 17)->Ask_0;
    lemma_next_worktree(s3, (answers.at)(Stage::Add));
}

/// From the records at a new worktree to the end: six steps, and the record that was
/// read back is the one that is reported.
proof fn lemma_to_the_end(answers: Answers, begun: StepView, last: nat, steps: nat)
    requires
        all_fit(answers),
        sound(begun),
        made(after(answers, begun, last)),
        after(answers, begun, steps) matches StepView::Ask(state) && state.stage
            == Stage::Matches,
    ensures
        ({
            let state = after(answers, begun, steps)->Ask_0;
            &&& (answers.at)(Stage::Parse) matches Answer::Parsed(Some(project))
                && after(answers, begun, steps + 6) == managed_worktree::ready(
                state,
                project,
                true,
            )
            &&& after(answers, begun, steps + 5) matches StepView::Ask(reading) && reading
                == (PrepareView {
                stage: Stage::Parse,
                project_id: reading.project_id,
                content: reading.content,
                ..state
            })
        }),
{
    let s0 = after(answers, begun, steps)->Ask_0;
    assert(managed_worktree::fits(Stage::Matches, (answers.at)(Stage::Matches)));
    assert(managed_worktree::fits(Stage::ProjectId, (answers.at)(Stage::ProjectId)));
    assert(managed_worktree::fits(Stage::Unicode, (answers.at)(Stage::Unicode)));
    assert(managed_worktree::fits(Stage::BaseRecord, (answers.at)(Stage::BaseRecord)));
    assert(managed_worktree::fits(Stage::Write, (answers.at)(Stage::Write)));
    assert(managed_worktree::fits(Stage::Parse, (answers.at)(Stage::Parse)));
    lemma_goes_on(answers, begun, steps);
    lemma_goes_on(answers, begun, steps + 1);
    lemma_goes_on(answers, begun, steps + 2);
    lemma_goes_on(answers, begun, steps + 3);
    lemma_goes_on(answers, begun, steps + 4);
    lemma_goes_on(answers, begun, steps + 5);
    lemma_made_throughout(answers, begun, last, steps + 1);
    lemma_made_throughout(answers, begun, last, steps + 2);
    lemma_made_throughout(answers, begun, last, steps + 3);
    lemma_made_throughout(answers, begun, last, steps + 4);
    lemma_made_throughout(answers, begun, last, steps + 5);
    lemma_made_throughout(answers, begun, last, steps + 6);
    lemma_next_record(s0, (answers.at)(Stage::Matches));
    let s1 = after(answers, begun, steps + 1)->Ask_0;
    assert(s1 == (PrepareView { stage: Stage::ProjectId, ..s0 }));
    lemma_next_record(s1, (answers.at)(Stage::ProjectId));
    let s2 = after(answers, begun, steps + 2)->Ask_0;
    lemma_next_record(s2, (answers.at)(Stage::Unicode));
    let s3 = after(answers, begun, steps + 3)->Ask_0;
    lemma_next_record(s3, (answers.at)(Stage::BaseRecord));
    let s4 = after(answers, begun, steps + 4)->Ask_0;
    lemma_next_record(s4, (answers.at)(Stage::Write));
    let s5 = after(answers, begun, steps + 5)->Ask_0;
    lemma_next_record(s5, (answers.at)(Stage::Parse));
}

// ---- Laws ------------------------------------------------------------------------

/// A preparation that made its worktree, repeated with the same request while
/// nothing changed, ends with the same project, path and base commit: as one that
/// was found again, not made and not registered. It asks for no second worktree and
/// writes no record. That the record which is read back holds what was written is
/// a matter of the driver that reads and writes it.
pub proof fn law_repeated_preparation_finds_its_worktree(
    request: worktree_request::RequestView,
    windows: bool,
    first: Answers,
    second: Answers,
    last: nat,
    steps: nat,
)
    requires
        request.resume_project_id is None,
        all_fit(first),
        all_fit(second),
        ({
            let begun = StepView::Ask(managed_worktree::first_state(request, windows));
            made(after(first, begun, last)) && reads_back(first, begun)
        }),
        unchanged_since(first, second),
    ensures
        ({
            let begun = StepView::Ask(managed_worktree::first_state(request, windows));
            let outcome = after(first, begun, last)->Finish_0;
            &&& after(second, begun, 21) == StepView::Finish(found_again(outcome))
            &&& !makes_or_writes(after(second, begun, steps))
        }),
{
    let begun = StepView::Ask(managed_worktree::first_state(request, windows));
    assert(managed_worktree::well_formed(begun->Ask_0));
    lemma_to_the_place(first, begun);
    lemma_to_the_new_worktree(first, begun, last);
    let place = after(first, begun, 14)->Ask_0;
    lemma_to_the_records(first, begun, 18);
    lemma_made_throughout(first, begun, last, 23);
    let path = (first.at)(Stage::NewPath);
    let fresh = after(first, begun, 18)->Ask_0;
    assert(stands(fresh, path, first));
    lemma_to_the_end(first, begun, last, 23);
    lemma_same_end(first, begun, last, 29);
    assert(after(first, begun, 28)->Ask_0.stage == Stage::Parse);
    let project = (first.at)(Stage::Parse)->Parsed_0->Some_0;
    lemma_alike(first, second, begun, 14);
    lemma_goes_on(second, begun, 14);
    assert(managed_worktree::next(place, Answer::Holds(true)) == managed_worktree::next_place(
        place,
        Answer::Holds(true),
    ));
    let found = after(second, begun, 15)->Ask_0;
    assert(found == (PrepareView { stage: Stage::FoundPath, ..place }));
    assert(stands(found, path, second));
    lemma_to_the_records(second, begun, 15);
    let stood = with_worktree(found, path, second);
    assert(after(second, begun, 20) == StepView::Ask(stood));
    lemma_goes_on(second, begun, 20);
    lemma_next_record(stood, (second.at)(Stage::Matches));
    assert(managed_worktree::same_operation(stood, project));
    lemma_quiet(second, begun, steps);
}

/// Two ends of one preparation are the same.
proof fn lemma_same_end(answers: Answers, begun: StepView, first: nat, second: nat)
    requires
        after(answers, begun, first) is Finish,
        after(answers, begun, second) is Finish,
    ensures
        after(answers, begun, first) == after(answers, begun, second),
{
    if first <= second {
        lemma_finished(answers, begun, first, second);
    } else {
        lemma_finished(answers, begun, second, first);
    }
}

/// A preparation that ends behind the records without leaving them neither makes a
/// worktree nor writes a record.
proof fn lemma_quiet(answers: Answers, begun: StepView, steps: nat)
    requires
        all_fit(answers),
        sound(begun),
        after(answers, begun, 15) matches StepView::Ask(state) && state.stage
            == Stage::FoundPath,
        after(answers, begun, 20) matches StepView::Ask(state) && state.stage == Stage::Matches,
        after(answers, begun, 21) is Finish,
    ensures
        !makes_or_writes(after(answers, begun, steps)),
{
    if steps <= 15 {
        lemma_ranks(answers, begun, steps, 15);
    } else if steps >= 21 {
        lemma_finished(answers, begun, 21, steps);
    } else {
        lemma_ranks(answers, begun, steps, 20);
        lemma_ranks(answers, begun, 16, steps);
        assert(managed_worktree::fits(Stage::FoundPath, (answers.at)(Stage::FoundPath)));
        lemma_goes_on(answers, begun, 15);
        lemma_next_worktree(after(answers, begun, 15)->Ask_0, (answers.at)(Stage::FoundPath));
        lemma_ranks(answers, begun, 16, 20);
    }
}

} // verus!
