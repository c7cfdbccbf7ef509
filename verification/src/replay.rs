//! Replaying the migration history on a shadow database, one decision at a time: the caller
//! executes what it is told and reports how it went.
use crate::error::ConnectorError;
use crate::history::{
    check_history, first_drift, MigrationDirectory, MigrationDirectoryView, MigrationRecord,
};
use crate::schema::seq_view;
use crate::statements::{spec_statements, split_statements};
use vstd::prelude::*;

verus! {

/// How a replay ended.
#[derive(Clone, Copy, Debug, PartialEq, Eq, Structural)]
pub enum ReplayOutcome {
    /// Every statement went through and the shadow database's schema was read.
    Described,
    /// The replay failed with this error.
    Failed(ConnectorError),
}

/// Where a replay stands.
#[derive(Clone, Copy, Debug, PartialEq, Eq, Structural)]
pub enum ReplayState {
    Ready,
    Creating,
    Beginning { directory: usize },
    Running { directory: usize, statement: usize },
    Committing { directory: usize },
    RollingBack { directory: usize, statement: usize },
    Describing,
    TearingDown(ReplayOutcome),
    Done(ReplayOutcome),
}

/// What the caller is to do next.
#[derive(Clone, Copy, Debug, PartialEq, Eq, Structural)]
pub enum ReplayAction {
    CreateShadowDatabase,
    Begin { directory: usize },
    Execute { directory: usize, statement: usize },
    Commit { directory: usize },
    Rollback { directory: usize },
    DescribeSchema,
    DropShadowDatabase,
    Finish(ReplayOutcome),
}

/// A state and the action that leads on from it.
#[derive(Clone, Copy, Debug, PartialEq, Eq, Structural)]
pub struct ReplayMove {
    pub state: ReplayState,
    pub action: ReplayAction,
}

/// The first directory from `directory` on that has a statement; the number of directories
/// where none has.
pub open spec fn next_with_statements(counts: Seq<usize>, directory: int) -> int
    decreases counts.len() - directory,
{
    if directory < 0 || directory >= counts.len() {
        counts.len() as int
    } else if counts[directory] > 0 {
        directory
    } else {
        next_with_statements(counts, directory + 1)
    }
}

/// The move that tears the shadow database down and keeps `outcome` for the end.
pub open spec fn spec_tear_down(outcome: ReplayOutcome) -> ReplayMove {
    ReplayMove { state: ReplayState::TearingDown(outcome), action: ReplayAction::DropShadowDatabase }
}

/// The move that ends a replay with `outcome`.
pub open spec fn spec_finish(outcome: ReplayOutcome) -> ReplayMove {
    ReplayMove { state: ReplayState::Done(outcome), action: ReplayAction::Finish(outcome) }
}

/// The failure of statement `statement` of the directory at `directory`.
pub open spec fn spec_failure(directory: usize, statement: usize) -> ReplayOutcome {
    ReplayOutcome::Failed(ConnectorError::HistoryReplayFailed { directory, statement })
}

/// The move that takes up the directories from `directory` on: the first directory with a
/// statement is begun, in a transaction where the backend has them; where no directory is
/// left, the schema is read.
pub open spec fn spec_enter(counts: Seq<usize>, transactional: bool, directory: int) -> ReplayMove {
    let next = next_with_statements(counts, directory);
    if next >= counts.len() {
        ReplayMove { state: ReplayState::Describing, action: ReplayAction::DescribeSchema }
    } else if transactional {
        ReplayMove {
            state: ReplayState::Beginning { directory: next as usize },
            action: ReplayAction::Begin { directory: next as usize },
        }
    } else {
        ReplayMove {
            state: ReplayState::Running { directory: next as usize, statement: 0 },
            action: ReplayAction::Execute { directory: next as usize, statement: 0 },
        }
    }
}

/// The move after the caller reports whether the last action succeeded. `counts` holds the
/// number of statements of each directory.
pub open spec fn spec_advance(
    counts: Seq<usize>,
    transactional: bool,
    state: ReplayState,
    succeeded: bool,
) -> ReplayMove {
    match state {
        ReplayState::Ready => ReplayMove {
            state: ReplayState::Creating,
            action: ReplayAction::CreateShadowDatabase,
        },
        ReplayState::Creating => if succeeded {
            spec_enter(counts, transactional, 0)
        } else {
            spec_finish(ReplayOutcome::Failed(ConnectorError::ConnectionUnusable))
        },
        ReplayState::Beginning { directory } => if succeeded {
            ReplayMove {
                state: ReplayState::Running { directory, statement: 0 },
                action: ReplayAction::Execute { directory, statement: 0 },
            }
        } else {
            spec_tear_down(spec_failure(directory, 0))
        },
        ReplayState::Running { directory, statement } => if succeeded {
            if directory < counts.len() && statement + 1 < counts[directory as int] {
                ReplayMove {
                    state: ReplayState::Running { directory, statement: (statement + 1) as usize },
                    action: ReplayAction::Execute {
                        directory,
                        statement: (statement + 1) as usize,
                    },
                }
            } else if transactional {
                ReplayMove {
                    state: ReplayState::Committing { directory },
                    action: ReplayAction::Commit { directory },
                }
            } else {
                spec_enter(counts, transactional, directory + 1)
            }
        } else if transactional {
            ReplayMove {
                state: ReplayState::RollingBack { directory, statement },
                action: ReplayAction::Rollback { directory },
            }
        } else {
            spec_tear_down(spec_failure(directory, statement))
        },
        ReplayState::Committing { directory } => if succeeded {
            spec_enter(counts, transactional, directory + 1)
        } else {
            spec_tear_down(
                spec_failure(
                    directory,
                    if directory < counts.len() {
                        counts[directory as int]
                    } else {
                        0
                    },
                ),
            )
        },
        ReplayState::RollingBack { directory, statement } => spec_tear_down(
            spec_failure(directory, statement),
        ),
        ReplayState::Describing => if succeeded {
            spec_tear_down(ReplayOutcome::Described)
        } else {
            spec_tear_down(ReplayOutcome::Failed(ConnectorError::ConnectionUnusable))
        },
        ReplayState::TearingDown(outcome) => spec_finish(outcome),
        ReplayState::Done(outcome) => spec_finish(outcome),
    }
}

fn tear_down(outcome: ReplayOutcome) -> (next: ReplayMove)
    ensures
        next == spec_tear_down(outcome),
{
    ReplayMove { state: ReplayState::TearingDown(outcome), action: ReplayAction::DropShadowDatabase }
}

fn finish(outcome: ReplayOutcome) -> (next: ReplayMove)
    ensures
        next == spec_finish(outcome),
{
    ReplayMove { state: ReplayState::Done(outcome), action: ReplayAction::Finish(outcome) }
}

fn failure(directory: usize, statement: usize) -> (outcome: ReplayOutcome)
    ensures
        outcome == spec_failure(directory, statement),
{
    ReplayOutcome::Failed(ConnectorError::HistoryReplayFailed { directory, statement })
}

fn enter(counts: &Vec<usize>, transactional: bool, directory: usize) -> (next: ReplayMove)
    ensures
        next == spec_enter(counts@, transactional, directory as int),
{
    let mut d: usize = directory;
    while d < counts.len() && counts[d] == 0
        invariant
            directory <= d,
            next_with_statements(counts@, d as int) == next_with_statements(
                counts@,
                directory as int,
            ),
        decreases counts.len() - d,
    {
        d += 1;
    }
    if d >= counts.len() {
        ReplayMove { state: ReplayState::Describing, action: ReplayAction::DescribeSchema }
    } else if transactional {
        ReplayMove {
            state: ReplayState::Beginning { directory: d },
            action: ReplayAction::Begin { directory: d },
        }
    } else {
        ReplayMove {
            state: ReplayState::Running { directory: d, statement: 0 },
            action: ReplayAction::Execute { directory: d, statement: 0 },
        }
    }
}

/// The first move of a replay: the shadow database is created.
pub fn start() -> (next: ReplayMove)
    ensures
        next == (ReplayMove {
            state: ReplayState::Creating,
            action: ReplayAction::CreateShadowDatabase,
        }),
{
    ReplayMove { state: ReplayState::Creating, action: ReplayAction::CreateShadowDatabase }
}

/// The next move of a replay, once the caller has done what the last move asked and reports
/// whether it succeeded. `counts` holds the number of statements of each directory.
pub fn advance(counts: &Vec<usize>, transactional: bool, state: ReplayState, succeeded: bool) -> (next:
    ReplayMove)
    ensures
        next == spec_advance(counts@, transactional, state, succeeded),
{
    match state {
        ReplayState::Ready => start(),
        ReplayState::Creating => if succeeded {
            enter(counts, transactional, 0)
        } else {
            finish(ReplayOutcome::Failed(ConnectorError::ConnectionUnusable))
        },
        ReplayState::Beginning { directory } => if succeeded {
            ReplayMove {
                state: ReplayState::Running { directory, statement: 0 },
                action: ReplayAction::Execute { directory, statement: 0 },
            }
        } else {
            tear_down(failure(directory, 0))
        },
        ReplayState::Running { directory, statement } => if succeeded {
            if directory < counts.len() && counts[directory] > 0 && statement < counts[directory]
                - 1 {
                ReplayMove {
                    state: ReplayState::Running { directory, statement: statement + 1 },
                    action: ReplayAction::Execute { directory, statement: statement + 1 },
                }
            } else if transactional {
                ReplayMove {
                    state: ReplayState::Committing { directory },
                    action: ReplayAction::Commit { directory },
                }
            } else if directory < counts.len() {
                enter(counts, transactional, directory + 1)
            } else {
                proof {
                    assert(next_with_statements(counts@, directory + 1) == counts@.len());
                }
                ReplayMove { state: ReplayState::Describing, action: ReplayAction::DescribeSchema }
            }
        } else if transactional {
            ReplayMove {
                state: ReplayState::RollingBack { directory, statement },
                action: ReplayAction::Rollback { directory },
            }
        } else {
            tear_down(failure(directory, statement))
        },
        ReplayState::Committing { directory } => if succeeded {
            if directory < counts.len() {
                enter(counts, transactional, directory + 1)
            } else {
                proof {
                    assert(next_with_statements(counts@, directory + 1) == counts@.len());
                }
                ReplayMove { state: ReplayState::Describing, action: ReplayAction::DescribeSchema }
            }
        } else {
            let statements = if directory < counts.len() {
                counts[directory]
            } else {
                0
            };
            tear_down(failure(directory, statements))
        },
        ReplayState::RollingBack { directory, statement } => tear_down(
            failure(directory, statement),
        ),
        ReplayState::Describing => if succeeded {
            tear_down(ReplayOutcome::Described)
        } else {
            tear_down(ReplayOutcome::Failed(ConnectorError::ConnectionUnusable))
        },
        ReplayState::TearingDown(outcome) => finish(outcome),
        ReplayState::Done(outcome) => finish(outcome),
    }
}

/// The statements of each directory, in order.
pub open spec fn spec_scripts(directories: Seq<MigrationDirectoryView>) -> Seq<Seq<Seq<u8>>> {
    Seq::new(
        directories.len(),
        |i: int| spec_statements(vstd::utf8::encode_utf8(directories[i].script)),
    )
}

/// The views of lists of statements.
pub open spec fn scripts_view(scripts: Seq<Vec<Vec<u8>>>) -> Seq<Seq<Seq<u8>>> {
    Seq::new(scripts.len(), |i: int| seq_view(scripts[i]@))
}

/// Prepares a replay: the history is held against the bookkeeping table, and each directory's
/// script is cut into its statements. A history that has drifted is not replayed.
pub fn plan_replay(directories: &Vec<MigrationDirectory>, records: &Vec<MigrationRecord>) -> (result:
    Result<Vec<Vec<Vec<u8>>>, ConnectorError>)
    ensures
        match first_drift(seq_view(directories@), seq_view(records@), directories@.len()) {
            Some(i) => result == Err::<Vec<Vec<Vec<u8>>>, ConnectorError>(
                ConnectorError::HistoryDrift { directory: i as usize },
            ),
            None => result is Ok && scripts_view(result.unwrap()@) == spec_scripts(
                seq_view(directories@),
            ),
        },
{
    match check_history(directories, records) {
        Err(error) => Err(error),
        Ok(_) => {
            let mut scripts: Vec<Vec<Vec<u8>>> = Vec::new();
            let mut i: usize = 0;
            while i < directories.len()
                invariant
                    0 <= i <= directories.len(),
                    scripts@.len() == i,
                    forall|k: int|
                        0 <= k < i ==> seq_view((#[trigger] scripts@[k])@) == spec_statements(
                            vstd::utf8::encode_utf8(directories@[k]@.script),
                        ),
                decreases directories.len() - i,
            {
                let statements = split_statements(directories[i].script.as_str().as_bytes());
                scripts.push(statements);
                i += 1;
            }
            assert(scripts_view(scripts@) =~= spec_scripts(seq_view(directories@)));
            Ok(scripts)
        },
    }
}

/// The number of statements of each directory.
pub fn statement_counts(scripts: &Vec<Vec<Vec<u8>>>) -> (counts: Vec<usize>)
    ensures
        counts@.len() == scripts@.len(),
        forall|i: int| 0 <= i < scripts@.len() ==> counts@[i] == (#[trigger] scripts@[i])@.len(),
{
    let mut counts: Vec<usize> = Vec::new();
    let mut i: usize = 0;
    while i < scripts.len()
        invariant
            0 <= i <= scripts.len(),
            counts@.len() == i,
            forall|k: int| 0 <= k < i ==> counts@[k] == (#[trigger] scripts@[k])@.len(),
        decreases scripts.len() - i,
    {
        counts.push(scripts[i].len());
        i += 1;
    }
    counts
}

/// Whether the shadow database exists while a replay is in `state`.
pub open spec fn shadow_exists(state: ReplayState) -> bool {
    match state {
        ReplayState::Ready => false,
        ReplayState::Creating => false,
        ReplayState::Done(_) => false,
        _ => true,
    }
}

/// The shadow database is torn down whatever happens: a replay ends only from the state in
/// which the database is dropped, or before the database exists.
pub proof fn lemma_shadow_is_torn_down(
    counts: Seq<usize>,
    transactional: bool,
    state: ReplayState,
    succeeded: bool,
)
    requires
        shadow_exists(state),
        spec_advance(counts, transactional, state, succeeded).state is Done,
    ensures
        state is TearingDown,
{
}

/// A statement that fails ends the replay at once, and the error names it: no further
/// statement is executed, and on a backend with transactions the directory's transaction is
/// rolled back first, so that nothing of the directory stays.
pub proof fn lemma_failure_aborts(
    counts: Seq<usize>,
    transactional: bool,
    directory: usize,
    statement: usize,
)
    ensures
        ({
            let failed = spec_advance(
                counts,
                transactional,
                ReplayState::Running { directory, statement },
                false,
            );
            let after = if transactional {
                spec_advance(counts, transactional, failed.state, true)
            } else {
                failed
            };
            &&& transactional ==> failed.action == ReplayAction::Rollback { directory }
            &&& after == spec_tear_down(spec_failure(directory, statement))
            &&& spec_advance(counts, transactional, after.state, true) == spec_finish(
                spec_failure(directory, statement),
            )
        }),
{
}

/// What the caller is told of an outcome: that the schema was read, or the error.
pub fn result(outcome: ReplayOutcome) -> (told: Result<(), ConnectorError>)
    ensures
        told == match outcome {
            ReplayOutcome::Described => Ok::<(), ConnectorError>(()),
            ReplayOutcome::Failed(error) => Err::<(), ConnectorError>(error),
        },
{
    match outcome {
        ReplayOutcome::Described => Ok(()),
        ReplayOutcome::Failed(error) => Err(error),
    }
}

} // verus!
