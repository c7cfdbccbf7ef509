//! The connector's facade: one logical operation at a time, under the advisory lock.
use crate::error::ConnectorError;
use vstd::prelude::*;

verus! {

/// What a caller asks of the connector.
#[derive(Clone, Copy, Debug, PartialEq, Eq, Structural)]
pub enum Command {
    /// Compute the plan from the database's schema to the target schema.
    Diff,
    /// Compute the plan and apply it.
    Apply,
    /// Drop the database and recreate it empty. Nothing is more destructive, so the caller
    /// has to confirm.
    Reset { confirmed: bool },
}

/// The operation that the connector is carrying out.
#[derive(Clone, Copy, Debug, PartialEq, Eq, Structural)]
pub enum Operation {
    Diff,
    Apply,
    Reset,
}

/// Where the connector stands. But for `Idle`, each state is named after what has been
/// achieved, and the action that was handed out on entering it is under way.
#[derive(Clone, Copy, Debug, PartialEq, Eq)]
pub enum ConnectorState {
    Idle,
    /// The lock is being acquired.
    Acquiring(Operation),
    LockAcquired(Operation),
    BookkeepingEnsured(Operation),
    SchemaResolved(Operation),
    Diffed(Operation),
    Applied,
    DatabaseDropped,
    DatabaseCreated,
    /// The lock is being released, and the operation ends with this result.
    Releasing(Result<(), ConnectorError>),
}

/// What the caller is to do next.
#[derive(Clone, Copy, Debug, PartialEq, Eq)]
pub enum ConnectorAction {
    AcquireLock,
    EnsureMigrationsTable,
    ResolveSchema,
    ComputeDiff,
    ApplyPlan,
    DropDatabase,
    CreateDatabase,
    CreateMigrationsTable,
    ReleaseLock,
    /// The operation is over: hand this result to whoever asked.
    Report(Result<(), ConnectorError>),
}

/// A state and the action that leads on from it.
#[derive(Clone, Copy, Debug, PartialEq, Eq)]
pub struct ConnectorMove {
    pub state: ConnectorState,
    pub action: ConnectorAction,
}

/// The move that releases the lock and keeps `result` for the end.
pub open spec fn spec_release(result: Result<(), ConnectorError>) -> ConnectorMove {
    ConnectorMove { state: ConnectorState::Releasing(result), action: ConnectorAction::ReleaseLock }
}

/// The move that ends the operation with `result`.
pub open spec fn spec_report(result: Result<(), ConnectorError>) -> ConnectorMove {
    ConnectorMove { state: ConnectorState::Idle, action: ConnectorAction::Report(result) }
}

/// The move that takes up a command. A reset that the caller did not confirm is turned down
/// on the spot.
pub open spec fn spec_begin(command: Command) -> ConnectorMove {
    match command {
        Command::Diff => ConnectorMove {
            state: ConnectorState::Acquiring(Operation::Diff),
            action: ConnectorAction::AcquireLock,
        },
        Command::Apply => ConnectorMove {
            state: ConnectorState::Acquiring(Operation::Apply),
            action: ConnectorAction::AcquireLock,
        },
        Command::Reset { confirmed } => if confirmed {
            ConnectorMove {
                state: ConnectorState::Acquiring(Operation::Reset),
                action: ConnectorAction::AcquireLock,
            }
        } else {
            spec_report(Err(ConnectorError::ConfirmationRequired))
        },
    }
}

/// The move after the caller reports how the last action went. A failure to acquire the lock
/// ends the operation with the error as it was reported, since there is nothing to release;
/// any other failure releases the lock and then ends the operation with the error.
pub open spec fn spec_advance(state: ConnectorState, report: Result<(), ConnectorError>) -> ConnectorMove {
    match state {
        ConnectorState::Idle => spec_report(report),
        ConnectorState::Acquiring(operation) => match report {
            Err(_) => spec_report(report),
            Ok(_) => ConnectorMove {
                state: ConnectorState::LockAcquired(operation),
                action: if operation == Operation::Reset {
                    ConnectorAction::DropDatabase
                } else {
                    ConnectorAction::EnsureMigrationsTable
                },
            },
        },
        ConnectorState::LockAcquired(operation) => match report {
            Err(_) => spec_release(report),
            Ok(_) => if operation == Operation::Reset {
                ConnectorMove {
                    state: ConnectorState::DatabaseDropped,
                    action: ConnectorAction::CreateDatabase,
                }
            } else {
                ConnectorMove {
                    state: ConnectorState::BookkeepingEnsured(operation),
                    action: ConnectorAction::ResolveSchema,
                }
            },
        },
        ConnectorState::BookkeepingEnsured(operation) => match report {
            Err(_) => spec_release(report),
            Ok(_) => ConnectorMove {
                state: ConnectorState::SchemaResolved(operation),
                action: ConnectorAction::ComputeDiff,
            },
        },
        ConnectorState::SchemaResolved(operation) => match report {
            Err(_) => spec_release(report),
            Ok(_) => ConnectorMove {
                state: ConnectorState::Diffed(operation),
                action: if operation == Operation::Apply {
                    ConnectorAction::ApplyPlan
                } else {
                    ConnectorAction::ReleaseLock
                },
            },
        },
        ConnectorState::Diffed(operation) => if operation == Operation::Apply {
            match report {
                Err(_) => spec_release(report),
                Ok(_) => ConnectorMove {
                    state: ConnectorState::Applied,
                    action: ConnectorAction::ReleaseLock,
                },
            }
        } else {
            spec_report(Ok(()))
        },
        ConnectorState::Applied => spec_report(Ok(())),
        ConnectorState::DatabaseDropped => match report {
            Err(_) => spec_release(report),
            Ok(_) => ConnectorMove {
                state: ConnectorState::DatabaseCreated,
                action: ConnectorAction::CreateMigrationsTable,
            },
        },
        ConnectorState::DatabaseCreated => spec_release(report),
        ConnectorState::Releasing(result) => spec_report(result),
    }
}

fn release(result: Result<(), ConnectorError>) -> (next: ConnectorMove)
    ensures
        next == spec_release(result),
{
    ConnectorMove { state: ConnectorState::Releasing(result), action: ConnectorAction::ReleaseLock }
}

fn report(result: Result<(), ConnectorError>) -> (next: ConnectorMove)
    ensures
        next == spec_report(result),
{
    ConnectorMove { state: ConnectorState::Idle, action: ConnectorAction::Report(result) }
}

/// Takes up a command while the connector is idle.
pub fn begin(command: Command) -> (next: ConnectorMove)
    ensures
        next == spec_begin(command),
{
    match command {
        Command::Diff => ConnectorMove {
            state: ConnectorState::Acquiring(Operation::Diff),
            action: ConnectorAction::AcquireLock,
        },
        Command::Apply => ConnectorMove {
            state: ConnectorState::Acquiring(Operation::Apply),
            action: ConnectorAction::AcquireLock,
        },
        Command::Reset { confirmed } => if confirmed {
            ConnectorMove {
                state: ConnectorState::Acquiring(Operation::Reset),
                action: ConnectorAction::AcquireLock,
            }
        } else {
            report(Err(ConnectorError::ConfirmationRequired))
        },
    }
}

/// The next move, once the caller has done what the last move asked and reports how it went.
pub fn advance(state: ConnectorState, outcome: Result<(), ConnectorError>) -> (next: ConnectorMove)
    ensures
        next == spec_advance(state, outcome),
{
    let failed = outcome.is_err();
    match state {
        ConnectorState::Idle => report(outcome),
        ConnectorState::Acquiring(operation) => if failed {
            report(outcome)
        } else {
            ConnectorMove {
                state: ConnectorState::LockAcquired(operation),
                action: if operation == Operation::Reset {
                    ConnectorAction::DropDatabase
                } else {
                    ConnectorAction::EnsureMigrationsTable
                },
            }
        },
        ConnectorState::LockAcquired(operation) => if failed {
            release(outcome)
        } else if operation == Operation::Reset {
            ConnectorMove {
                state: ConnectorState::DatabaseDropped,
                action: ConnectorAction::CreateDatabase,
            }
        } else {
            ConnectorMove {
                state: ConnectorState::BookkeepingEnsured(operation),
                action: ConnectorAction::ResolveSchema,
            }
        },
        ConnectorState::BookkeepingEnsured(operation) => if failed {
            release(outcome)
        } else {
            ConnectorMove {
                state: ConnectorState::SchemaResolved(operation),
                action: ConnectorAction::ComputeDiff,
            }
        },
        ConnectorState::SchemaResolved(operation) => if failed {
            release(outcome)
        } else {
            ConnectorMove {
                state: ConnectorState::Diffed(operation),
                action: if operation == Operation::Apply {
                    ConnectorAction::ApplyPlan
                } else {
                    ConnectorAction::ReleaseLock
                },
            }
        },
        ConnectorState::Diffed(operation) => if operation == Operation::Apply {
            if failed {
                release(outcome)
            } else {
                ConnectorMove {
                    state: ConnectorState::Applied,
                    action: ConnectorAction::ReleaseLock,
                }
            }
        } else {
            report(Ok(()))
        },
        ConnectorState::Applied => report(Ok(())),
        ConnectorState::DatabaseDropped => if failed {
            release(outcome)
        } else {
            ConnectorMove {
                state: ConnectorState::DatabaseCreated,
                action: ConnectorAction::CreateMigrationsTable,
            }
        },
        ConnectorState::DatabaseCreated => release(outcome),
        ConnectorState::Releasing(result) => report(result),
    }
}

/// Whether the connector holds the advisory lock while it is in `state`.
pub open spec fn holds_lock(state: ConnectorState) -> bool {
    match state {
        ConnectorState::Idle => false,
        ConnectorState::Acquiring(_) => false,
        _ => true,
    }
}

/// Whether the release of the lock is the action under way in `state`.
pub open spec fn is_releasing(state: ConnectorState) -> bool {
    match state {
        ConnectorState::Releasing(_) => true,
        ConnectorState::Applied => true,
        ConnectorState::Diffed(operation) => operation != Operation::Apply,
        _ => false,
    }
}

/// The state that a command followed by `reports` leads to, and the action handed out last.
pub open spec fn run(command: Command, reports: Seq<Result<(), ConnectorError>>) -> ConnectorMove
    decreases reports.len(),
{
    if reports.len() == 0 {
        spec_begin(command)
    } else {
        spec_advance(run(command, reports.drop_last()).state, reports.last())
    }
}

/// What holds of a state that an operation has reached: the operation in it is the one that
/// was asked for; a state in which the lock is being released was entered by the action that
/// releases it; and a reset is under way only where the caller confirmed it.
pub open spec fn consistent(command: Command, next: ConnectorMove) -> bool {
    &&& is_releasing(next.state) ==> next.action == ConnectorAction::ReleaseLock
    &&& next.state is Idle ==> next.action is Report
    &&& next.action == ConnectorAction::DropDatabase ==> command == (Command::Reset {
        confirmed: true,
    })
    &&& match next.state {
        ConnectorState::Acquiring(operation) => started_as(command, operation),
        ConnectorState::LockAcquired(operation) => started_as(command, operation),
        ConnectorState::BookkeepingEnsured(operation) => started_as(command, operation)
            && operation != Operation::Reset,
        ConnectorState::SchemaResolved(operation) => started_as(command, operation) && operation
            != Operation::Reset,
        ConnectorState::Diffed(operation) => started_as(command, operation) && operation
            != Operation::Reset,
        ConnectorState::DatabaseDropped => command == (Command::Reset { confirmed: true }),
        ConnectorState::DatabaseCreated => command == (Command::Reset { confirmed: true }),
        _ => true,
    }
}

/// Whether `command` starts `operation`.
pub open spec fn started_as(command: Command, operation: Operation) -> bool {
    match operation {
        Operation::Diff => command == Command::Diff,
        Operation::Apply => command == Command::Apply,
        Operation::Reset => command == (Command::Reset { confirmed: true }),
    }
}

/// The lock is released on every path. Whatever the caller reports, the connector gives up
/// the lock only by going idle, and it goes idle from a state that holds the lock only once
/// the release of the lock was handed out. The database is dropped only in a reset that the
/// caller confirmed.
pub proof fn lemma_lock_is_released(command: Command, reports: Seq<Result<(), ConnectorError>>)
    ensures
        consistent(command, run(command, reports)),
        reports.len() > 0 ==> ({
            let before = run(command, reports.drop_last()).state;
            let after = run(command, reports).state;
            &&& holds_lock(before) && !holds_lock(after) ==> after is Idle && is_releasing(before)
            &&& is_releasing(before) ==> run(command, reports.drop_last()).action
                == ConnectorAction::ReleaseLock
        }),
    decreases reports.len(),
{
    if reports.len() > 0 {
        lemma_lock_is_released(command, reports.drop_last());
    }
}

/// A reset that the caller did not confirm does nothing: the connector stays idle and hands
/// out no action but the report of the refusal.
pub proof fn lemma_unconfirmed_reset_does_nothing(reports: Seq<Result<(), ConnectorError>>)
    ensures
        run(Command::Reset { confirmed: false }, reports).state is Idle,
        run(Command::Reset { confirmed: false }, reports).action is Report,
    decreases reports.len(),
{
    if reports.len() > 0 {
        lemma_unconfirmed_reset_does_nothing(reports.drop_last());
    }
}

} // verus!
