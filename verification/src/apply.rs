//! Applying a plan, one decision at a time: the caller executes what it is told and reports
//! how it went.
use crate::checker::{
    blocking_finding, first_blocking, spec_may_apply, DestructiveChangeDiagnostic,
};
use crate::error::ConnectorError;
use vstd::prelude::*;

verus! {

/// What an application rests on.
#[derive(Clone, Copy, Debug, PartialEq, Eq, Structural)]
pub struct ApplyContext {
    /// The number of steps in the plan.
    pub steps: usize,
    /// Whether the backend runs schema changes inside transactions.
    pub transactional: bool,
    /// The finding that forbids the plan; none where the plan may be applied, because no
    /// finding is `Unexecutable` or the caller forces the plan.
    pub blocked: Option<DestructiveChangeDiagnostic>,
}

/// How an application ended.
#[derive(Clone, Copy, Debug, PartialEq, Eq, Structural)]
pub enum ApplyOutcome {
    /// The plan was not started: `finding` names a step that loses data and why, and the
    /// caller did not force the plan.
    Refused { finding: DestructiveChangeDiagnostic },
    /// All `count` steps went through.
    Applied { count: usize },
    /// The transaction was rolled back: nothing of the plan stays. `failed_step` is the step
    /// that failed; none where the transaction itself could not begin or commit.
    RolledBack { failed_step: Option<usize> },
    /// A step failed outside a transaction. The steps up to `last_successful_step` stay
    /// applied: none of them where it is `None`.
    PartiallyApplied { last_successful_step: Option<usize> },
}

/// Where an application stands.
#[derive(Clone, Copy, Debug, PartialEq, Eq, Structural)]
pub enum ApplyState {
    Ready,
    Beginning,
    Running { step: usize },
    Committing,
    RollingBack { failed_step: usize },
    Done(ApplyOutcome),
}

/// What the caller is to do next.
#[derive(Clone, Copy, Debug, PartialEq, Eq, Structural)]
pub enum ApplyAction {
    Begin,
    Execute { step: usize },
    Commit,
    Rollback,
    Finish(ApplyOutcome),
}

/// A state and the action that leads on from it.
#[derive(Clone, Copy, Debug, PartialEq, Eq, Structural)]
pub struct ApplyMove {
    pub state: ApplyState,
    pub action: ApplyAction,
}

/// The move that ends an application with `outcome`.
pub open spec fn spec_finish(outcome: ApplyOutcome) -> ApplyMove {
    ApplyMove { state: ApplyState::Done(outcome), action: ApplyAction::Finish(outcome) }
}

/// The move that starts the steps: the first step, or the end where there is none.
pub open spec fn spec_enter_steps(context: ApplyContext) -> ApplyMove {
    if context.steps > 0 {
        ApplyMove { state: ApplyState::Running { step: 0 }, action: ApplyAction::Execute { step: 0 } }
    } else if context.transactional {
        ApplyMove { state: ApplyState::Committing, action: ApplyAction::Commit }
    } else {
        spec_finish(ApplyOutcome::Applied { count: 0 })
    }
}

/// The first move. A plan that a finding blocks is refused before anything is executed, and
/// the refusal carries the finding.
pub open spec fn spec_start(context: ApplyContext) -> ApplyMove {
    if let Some(finding) = context.blocked {
        spec_finish(ApplyOutcome::Refused { finding })
    } else if context.transactional {
        ApplyMove { state: ApplyState::Beginning, action: ApplyAction::Begin }
    } else {
        spec_enter_steps(context)
    }
}

/// The step before `step`, if there is one.
pub open spec fn spec_step_before(step: usize) -> Option<usize> {
    if step == 0 {
        None
    } else {
        Some((step - 1) as usize)
    }
}

/// The move after the caller reports whether the last action succeeded.
pub open spec fn spec_advance(context: ApplyContext, state: ApplyState, succeeded: bool) -> ApplyMove {
    match state {
        ApplyState::Ready => spec_start(context),
        ApplyState::Beginning => if succeeded {
            spec_enter_steps(context)
        } else {
            spec_finish(ApplyOutcome::RolledBack { failed_step: None })
        },
        ApplyState::Running { step } => if succeeded {
            if step + 1 < context.steps {
                ApplyMove {
                    state: ApplyState::Running { step: (step + 1) as usize },
                    action: ApplyAction::Execute { step: (step + 1) as usize },
                }
            } else if context.transactional {
                ApplyMove { state: ApplyState::Committing, action: ApplyAction::Commit }
            } else {
                spec_finish(ApplyOutcome::Applied { count: context.steps })
            }
        } else if context.transactional {
            ApplyMove {
                state: ApplyState::RollingBack { failed_step: step },
                action: ApplyAction::Rollback,
            }
        } else {
            spec_finish(
                ApplyOutcome::PartiallyApplied { last_successful_step: spec_step_before(step) },
            )
        },
        ApplyState::Committing => if succeeded {
            spec_finish(ApplyOutcome::Applied { count: context.steps })
        } else {
            spec_finish(ApplyOutcome::RolledBack { failed_step: None })
        },
        ApplyState::RollingBack { failed_step } => spec_finish(
            ApplyOutcome::RolledBack { failed_step: Some(failed_step) },
        ),
        ApplyState::Done(outcome) => spec_finish(outcome),
    }
}

fn finish(outcome: ApplyOutcome) -> (next: ApplyMove)
    ensures
        next == spec_finish(outcome),
{
    ApplyMove { state: ApplyState::Done(outcome), action: ApplyAction::Finish(outcome) }
}

fn enter_steps(context: ApplyContext) -> (next: ApplyMove)
    ensures
        next == spec_enter_steps(context),
{
    if context.steps > 0 {
        ApplyMove { state: ApplyState::Running { step: 0 }, action: ApplyAction::Execute { step: 0 } }
    } else if context.transactional {
        ApplyMove { state: ApplyState::Committing, action: ApplyAction::Commit }
    } else {
        finish(ApplyOutcome::Applied { count: 0 })
    }
}

/// The first move of an application.
pub fn start(context: ApplyContext) -> (next: ApplyMove)
    ensures
        next == spec_start(context),
{
    if let Some(finding) = context.blocked {
        finish(ApplyOutcome::Refused { finding })
    } else if context.transactional {
        ApplyMove { state: ApplyState::Beginning, action: ApplyAction::Begin }
    } else {
        enter_steps(context)
    }
}

/// The next move of an application, once the caller has done what the last move asked and
/// reports whether it succeeded.
pub fn advance(context: ApplyContext, state: ApplyState, succeeded: bool) -> (next: ApplyMove)
    ensures
        next == spec_advance(context, state, succeeded),
{
    match state {
        ApplyState::Ready => start(context),
        ApplyState::Beginning => if succeeded {
            enter_steps(context)
        } else {
            finish(ApplyOutcome::RolledBack { failed_step: None })
        },
        ApplyState::Running { step } => if succeeded {
            if context.steps > 0 && step < context.steps - 1 {
                ApplyMove {
                    state: ApplyState::Running { step: step + 1 },
                    action: ApplyAction::Execute { step: step + 1 },
                }
            } else if context.transactional {
                ApplyMove { state: ApplyState::Committing, action: ApplyAction::Commit }
            } else {
                finish(ApplyOutcome::Applied { count: context.steps })
            }
        } else if context.transactional {
            ApplyMove {
                state: ApplyState::RollingBack { failed_step: step },
                action: ApplyAction::Rollback,
            }
        } else {
            let before = if step == 0 {
                None
            } else {
                Some(step - 1)
            };
            finish(ApplyOutcome::PartiallyApplied { last_successful_step: before })
        },
        ApplyState::Committing => if succeeded {
            finish(ApplyOutcome::Applied { count: context.steps })
        } else {
            finish(ApplyOutcome::RolledBack { failed_step: None })
        },
        ApplyState::RollingBack { failed_step } => finish(
            ApplyOutcome::RolledBack { failed_step: Some(failed_step) },
        ),
        ApplyState::Done(outcome) => finish(outcome),
    }
}

/// The moves of an application whose actions went as `reports` say, in order: the first move,
/// then one move for each report.
pub open spec fn moves(context: ApplyContext, reports: Seq<bool>) -> Seq<ApplyMove>
    decreases reports.len(),
{
    if reports.len() == 0 {
        seq![spec_start(context)]
    } else {
        let before = moves(context, reports.drop_last());
        before.push(spec_advance(context, before.last().state, reports.last()))
    }
}

/// The number of reports that come before the first step's report: one for the beginning of
/// the transaction where there is one.
pub open spec fn lead(context: ApplyContext) -> int {
    if context.transactional {
        1
    } else {
        0
    }
}

/// Whether the first `n` of `reports` are all successes.
pub open spec fn all_succeeded(reports: Seq<bool>, n: int) -> bool {
    forall|k: int| 0 <= k < n && k < reports.len() ==> #[trigger] reports[k]
}

/// What the state that an application has reached says of the reports that led to it.
pub open spec fn explains(context: ApplyContext, reports: Seq<bool>, state: ApplyState) -> bool {
    match state {
        ApplyState::Ready => false,
        ApplyState::Beginning => context.blocked is None && context.transactional && reports.len() == 0,
        ApplyState::Running { step } => {
            &&& context.blocked is None
            &&& step < context.steps
            &&& reports.len() == lead(context) + step
            &&& all_succeeded(reports, reports.len() as int)
        },
        ApplyState::Committing => {
            &&& context.blocked is None
            &&& context.transactional
            &&& reports.len() == 1 + context.steps
            &&& all_succeeded(reports, reports.len() as int)
        },
        ApplyState::RollingBack { failed_step } => {
            &&& context.blocked is None
            &&& context.transactional
            &&& failed_step < context.steps
            &&& reports.len() == 2 + failed_step
            &&& all_succeeded(reports, 1 + failed_step)
            &&& !reports[1 + failed_step]
        },
        ApplyState::Done(ApplyOutcome::Refused { finding }) => context.blocked == Some(finding),
        ApplyState::Done(ApplyOutcome::Applied { count }) => {
            &&& context.blocked is None
            &&& count == context.steps
            &&& reports.len() >= lead(context) + context.steps
            &&& all_succeeded(reports, lead(context) + context.steps)
        },
        ApplyState::Done(ApplyOutcome::RolledBack { failed_step }) => {
            &&& context.blocked is None
            &&& context.transactional
            &&& match failed_step {
                Some(step) => {
                    &&& step < context.steps
                    &&& reports.len() > 1 + step
                    &&& all_succeeded(reports, 1 + step)
                    &&& !reports[1 + step]
                },
                None => true,
            }
        },
        ApplyState::Done(ApplyOutcome::PartiallyApplied { last_successful_step }) => {
            let applied = match last_successful_step {
                Some(step) => step + 1,
                None => 0,
            };
            &&& context.blocked is None
            &&& !context.transactional
            &&& applied < context.steps
            &&& reports.len() > applied
            &&& all_succeeded(reports, applied)
            &&& !reports[applied]
        },
    }
}

/// Every state that an application reaches is explained by the reports that led to it. So a
/// plan that is reported as partially applied was applied exactly up to the step named; a
/// plan on a backend with transactions is applied in full or not at all; and a plan reported
/// as applied had every one of its steps succeed.
pub proof fn lemma_states_are_explained(context: ApplyContext, reports: Seq<bool>)
    ensures
        moves(context, reports).len() == reports.len() + 1,
        explains(context, reports, moves(context, reports).last().state),
    decreases reports.len(),
{
    if reports.len() > 0 {
        let earlier = reports.drop_last();
        lemma_states_are_explained(context, earlier);
        let before = moves(context, earlier).last().state;
        let after = spec_advance(context, before, reports.last());
        assert(moves(context, reports).last() == after);
        assert forall|k: int| 0 <= k < earlier.len() implies earlier[k] == reports[k] by {}
        assert(reports[reports.len() - 1] == reports.last());
        match before {
            ApplyState::Running { step } => {
                assert(all_succeeded(earlier, earlier.len() as int));
                if reports.last() {
                    assert(all_succeeded(reports, reports.len() as int));
                }
            },
            ApplyState::Beginning => {
                if reports.last() {
                    assert(all_succeeded(reports, reports.len() as int));
                }
            },
            ApplyState::Committing => {
                assert(all_succeeded(earlier, earlier.len() as int));
            },
            _ => {},
        }
    }
}

/// Whether a move has the caller touch the database.
pub open spec fn touches_database(action: ApplyAction) -> bool {
    !(action is Finish)
}

/// A plan that a finding blocks is refused, whatever the caller reports: no move of its
/// application touches the database.
pub proof fn lemma_refused_plan_executes_nothing(context: ApplyContext, reports: Seq<bool>, k: int)
    requires
        context.blocked is Some,
        0 <= k < moves(context, reports).len(),
    ensures
        moves(context, reports)[k] == spec_finish(
            ApplyOutcome::Refused { finding: context.blocked.unwrap() },
        ),
        !touches_database(moves(context, reports)[k].action),
    decreases reports.len(),
{
    if reports.len() > 0 {
        let before = moves(context, reports.drop_last());
        lemma_states_are_explained(context, reports.drop_last());
        lemma_refused_plan_executes_nothing(context, reports.drop_last(), before.len() - 1);
        if k < before.len() {
            lemma_refused_plan_executes_nothing(context, reports.drop_last(), k);
        }
    }
}

/// What an application of a plan of `steps` steps rests on. The plan is blocked by its first
/// `Unexecutable` finding, unless the caller forces it.
pub fn prepare(
    steps: usize,
    findings: &Vec<DestructiveChangeDiagnostic>,
    transactional: bool,
    force: bool,
) -> (context: ApplyContext)
    ensures
        context == (ApplyContext {
            steps,
            transactional,
            blocked: if force {
                None
            } else {
                first_blocking(findings@, findings@.len())
            },
        }),
        context.blocked is None == spec_may_apply(findings@, force),
{
    let blocked = if force {
        None
    } else {
        blocking_finding(findings)
    };
    ApplyContext { steps, transactional, blocked }
}

/// What the caller is told of an outcome: the number of steps applied; or the step that
/// blocks the plan and the reason; or how far the application came before it failed, which
/// is nowhere where the transaction was rolled back.
pub open spec fn spec_result(outcome: ApplyOutcome) -> Result<usize, ConnectorError> {
    match outcome {
        ApplyOutcome::Applied { count } => Ok(count),
        ApplyOutcome::Refused { finding } => Err(
            ConnectorError::Unexecutable { step: finding.step, reason: finding.reason },
        ),
        ApplyOutcome::RolledBack { .. } => Err(
            ConnectorError::PartiallyApplied { last_successful_step: None },
        ),
        ApplyOutcome::PartiallyApplied { last_successful_step } => Err(
            ConnectorError::PartiallyApplied { last_successful_step },
        ),
    }
}

/// What the caller is told of an outcome.
pub fn result(outcome: ApplyOutcome) -> (told: Result<usize, ConnectorError>)
    ensures
        told == spec_result(outcome),
{
    match outcome {
        ApplyOutcome::Applied { count } => Ok(count),
        ApplyOutcome::Refused { finding } => Err(
            ConnectorError::Unexecutable { step: finding.step, reason: finding.reason },
        ),
        ApplyOutcome::RolledBack { .. } => Err(
            ConnectorError::PartiallyApplied { last_successful_step: None },
        ),
        ApplyOutcome::PartiallyApplied { last_successful_step } => Err(
            ConnectorError::PartiallyApplied { last_successful_step },
        ),
    }
}

} // verus!
