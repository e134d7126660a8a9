//! Failures of Browser operations, and how certain it is whether an effect took
//! place.
use crate::text;
use vstd::prelude::*;
use vstd::string::*;

verus! {

/// How certain it is whether an operation took place.
#[derive(Debug, Clone, Copy, PartialEq, Eq, Structural)]
pub enum ExecutionState {
    /// It did not begin.
    NotStarted,
    /// Nothing was to be changed: the failure was observed.
    Observed,
    /// It may have taken place.
    OutcomeUnknown,
}

/// Why a Browser operation failed.
#[derive(Debug)]
pub struct BrowserError {
    pub kind: &'static str,
    pub message: String,
    pub execution_state: ExecutionState,
    /// What shows the state after the failure.
    pub recovery_action: Option<&'static str>,
}

/// What a [`BrowserError`] stands for.
pub struct BrowserErrorView {
    pub kind: Seq<char>,
    pub message: Seq<char>,
    pub execution_state: ExecutionState,
    pub recovery_action: Option<Seq<char>>,
}

impl View for BrowserError {
    type V = BrowserErrorView;

    open spec fn view(&self) -> BrowserErrorView {
        BrowserErrorView {
            kind: self.kind@,
            message: self.message@,
            execution_state: self.execution_state,
            recovery_action: text::str_of(self.recovery_action),
        }
    }
}

/// A failure before anything began.
pub open spec fn not_started_error(kind: Seq<char>, message: Seq<char>) -> BrowserErrorView {
    BrowserErrorView {
        kind,
        message,
        execution_state: ExecutionState::NotStarted,
        recovery_action: None,
    }
}

/// A failure of an observation.
pub open spec fn observed_error(
    kind: Seq<char>,
    message: Seq<char>,
    recovery_action: Option<Seq<char>>,
) -> BrowserErrorView {
    BrowserErrorView {
        kind,
        message,
        execution_state: ExecutionState::Observed,
        recovery_action,
    }
}

/// A failure that leaves open whether an effect took place.
pub open spec fn uncertain_error(
    kind: Seq<char>,
    message: Seq<char>,
    recovery_action: Seq<char>,
) -> BrowserErrorView {
    BrowserErrorView {
        kind,
        message,
        execution_state: ExecutionState::OutcomeUnknown,
        recovery_action: Some(recovery_action),
    }
}

impl BrowserError {
    /// A failure before anything began.
    pub fn not_started(kind: &'static str, message: &str) -> (error: BrowserError)
        ensures
            error@ == not_started_error(kind@, message@),
    {
        BrowserError {
            kind,
            message: message.to_owned(),
            execution_state: ExecutionState::NotStarted,
            recovery_action: None,
        }
    }

    /// A failure of an observation.
    pub fn observed(
        kind: &'static str,
        message: &str,
        recovery_action: Option<&'static str>,
    ) -> (error: BrowserError)
        ensures
            error@ == observed_error(kind@, message@, text::str_of(recovery_action)),
    {
        BrowserError {
            kind,
            message: message.to_owned(),
            execution_state: ExecutionState::Observed,
            recovery_action,
        }
    }

    /// A failure that leaves open whether an effect took place.
    pub fn uncertain(kind: &'static str, message: &str, recovery_action: &'static str) -> (error:
        BrowserError)
        ensures
            error@ == uncertain_error(kind@, message@, recovery_action@),
    {
        BrowserError {
            kind,
            message: message.to_owned(),
            execution_state: ExecutionState::OutcomeUnknown,
            recovery_action: Some(recovery_action),
        }
    }
}

/// A failure while an effect was only being prepared.
pub open spec fn before_dispatch(error: BrowserErrorView) -> BrowserErrorView {
    BrowserErrorView {
        execution_state: ExecutionState::NotStarted,
        recovery_action: None,
        ..error
    }
}

/// A failure after the first part of an effect took place: whatever it was, the
/// outcome of the whole is unknown.
pub open spec fn after_effect(error: BrowserErrorView, recovery_action: Seq<char>) -> BrowserErrorView {
    if error.execution_state == ExecutionState::OutcomeUnknown {
        error
    } else {
        uncertain_error(
            "partial_effect_outcome_unknown"@,
            "Browser effect partially completed before a later step failed: "@ + error.message,
            recovery_action,
        )
    }
}

/// A failure while an effect was only being prepared.
pub fn pre_dispatch_error(error: BrowserError) -> (result: BrowserError)
    ensures
        result@ == before_dispatch(error@),
{
    let mut result = error;
    result.execution_state = ExecutionState::NotStarted;
    result.recovery_action = None;
    result
}

/// A failure after the first part of an effect took place.
pub fn post_effect_error(error: BrowserError, recovery_action: &'static str) -> (result:
    BrowserError)
    ensures
        result@ == after_effect(error@, recovery_action@),
{
    if error.execution_state == ExecutionState::OutcomeUnknown {
        error
    } else {
        let mut message =
            "Browser effect partially completed before a later step failed: ".to_owned();
        message.append(error.message.as_str());
        BrowserError::uncertain("partial_effect_outcome_unknown", message.as_str(), recovery_action)
    }
}

/// The part of an operation in which a call failed.
#[derive(Debug, Clone, Copy, PartialEq, Eq, Structural)]
pub enum EffectStage {
    /// A look at the page before the effect.
    Probe,
    /// The first call that changes something.
    First,
    /// A later call that changes something.
    Later,
}

/// The failure of an operation one of whose calls failed.
pub fn staged_error(stage: EffectStage, error: BrowserError, recovery_action: &'static str) -> (result:
    BrowserError)
    ensures
        result@ == match stage {
            EffectStage::Probe => before_dispatch(error@),
            EffectStage::First => error@,
            EffectStage::Later => after_effect(error@, recovery_action@),
        },
{
    match stage {
        EffectStage::Probe => pre_dispatch_error(error),
        EffectStage::First => error,
        EffectStage::Later => post_effect_error(error, recovery_action),
    }
}

/// Once a part of an effect took place, no failure claims that nothing did: the
/// outcome is unknown.
pub proof fn law_partial_effect_is_never_certain(
    error: BrowserErrorView,
    recovery_action: Seq<char>,
)
    ensures
        after_effect(error, recovery_action).execution_state == ExecutionState::OutcomeUnknown,
        after_effect(after_effect(error, recovery_action), recovery_action) == after_effect(
            error,
            recovery_action,
        ),
{
}

/// A failed look before an effect leaves no doubt: nothing began, and nothing has
/// to be looked at again. Its kind and message are kept.
pub proof fn law_failed_probe_started_nothing(error: BrowserErrorView)
    ensures
        before_dispatch(error).execution_state == ExecutionState::NotStarted,
        before_dispatch(error).recovery_action is None,
        before_dispatch(error).kind == error.kind,
        before_dispatch(error).message == error.message,
{
}

/// The three ways in which something can go wrong are told apart by how far it
/// had gone: nothing begun, nothing changed, or not known; only the last always
/// says what to look at again.
pub proof fn law_errors_say_how_far_it_went(
    kind: Seq<char>,
    message: Seq<char>,
    action: Seq<char>,
    recovery_action: Option<Seq<char>>,
)
    ensures
        not_started_error(kind, message).execution_state == ExecutionState::NotStarted,
        not_started_error(kind, message).recovery_action is None,
        not_started_error(kind, message).kind == kind && not_started_error(kind, message).message
            == message,
        observed_error(kind, message, recovery_action).execution_state == ExecutionState::Observed,
        observed_error(kind, message, recovery_action).recovery_action == recovery_action,
        observed_error(kind, message, recovery_action).kind == kind && observed_error(
            kind,
            message,
            recovery_action,
        ).message == message,
        uncertain_error(kind, message, action).execution_state == ExecutionState::OutcomeUnknown,
        uncertain_error(kind, message, action).recovery_action == Some(action),
        uncertain_error(kind, message, action).kind == kind && uncertain_error(
            kind,
            message,
            action,
        ).message == message,
{
}

/// A step that fails behind an effect keeps its own error where that is already
/// uncertain; otherwise the effect is what is uncertain, what failed is still told,
/// and what to look at is the effect's.
pub proof fn law_failure_behind_an_effect_tells_what_failed(
    error: BrowserErrorView,
    recovery_action: Seq<char>,
)
    ensures
        error.execution_state == ExecutionState::OutcomeUnknown ==> after_effect(
            error,
            recovery_action,
        ) == error,
        error.execution_state != ExecutionState::OutcomeUnknown ==> {
            &&& after_effect(error, recovery_action).kind == "partial_effect_outcome_unknown"@
            &&& after_effect(error, recovery_action).recovery_action == Some(recovery_action)
            &&& crate::text::finishes_with(
                after_effect(error, recovery_action).message,
                error.message,
            )
        },
{
    crate::text::law_prefix_and_suffix(
        error.message,
        error.message,
        "Browser effect partially completed before a later step failed: "@,
    );
}

/// What an error means depends on when it came: before an effect nothing has begun,
/// at the effect itself it is as it was said, and behind it the effect is uncertain.
pub proof fn law_stage_decides_what_an_error_means(
    stage: EffectStage,
    error: BrowserError,
    recovery_action: &'static str,
    result: BrowserError,
)
    requires
        call_ensures(staged_error, (stage, error, recovery_action), result),
    ensures
        stage is Probe ==> result.execution_state == ExecutionState::NotStarted
            && result.recovery_action is None && result.kind@ == error.kind@ && result.message@
            == error.message@,
        stage is First ==> result@ == error@,
        stage is Later ==> result.execution_state == ExecutionState::OutcomeUnknown,
        stage is Later && error.execution_state != ExecutionState::OutcomeUnknown ==> (
        result.recovery_action matches Some(action) && action@ == recovery_action@),
        stage is Later && error.execution_state == ExecutionState::OutcomeUnknown ==> result@
            == error@,
{
}

} // verus!
