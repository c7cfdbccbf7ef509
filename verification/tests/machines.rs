use sql_migration_connector::apply::{
    advance as apply_advance, prepare, result as apply_result, start as apply_start, ApplyAction,
    ApplyContext, ApplyMove, ApplyOutcome, ApplyState,
};
use sql_migration_connector::checker::{blocking_finding, DestructiveChangeDiagnostic, Reason};
use sql_migration_connector::connector::{
    advance as connector_advance, begin, Command, ConnectorAction, ConnectorMove, ConnectorState,
    Operation,
};
use sql_migration_connector::error::ConnectorError;
use sql_migration_connector::history::{checksum, MigrationDirectory, MigrationRecord};
use sql_migration_connector::replay::{
    advance as replay_advance, plan_replay, result as replay_result, start as replay_start,
    statement_counts, ReplayAction, ReplayMove, ReplayOutcome, ReplayState,
};

/// Runs an application in which the actions succeed as `reports` say, and gives back the
/// actions handed out and the outcome.
fn run_apply(context: ApplyContext, reports: &[bool]) -> (Vec<ApplyAction>, ApplyOutcome) {
    let mut next = apply_start(context);
    let mut actions = vec![next.action];
    let mut i = 0;
    loop {
        if let ApplyState::Done(outcome) = next.state {
            return (actions, outcome);
        }
        next = apply_advance(context, next.state, reports[i]);
        actions.push(next.action);
        i += 1;
    }
}

#[test]
fn refused_plan_executes_nothing() {
    let finding = DestructiveChangeDiagnostic::new(1, Reason::TableDropped);
    let refused = ApplyOutcome::Refused { finding };
    for transactional in [false, true] {
        let context = ApplyContext { steps: 3, transactional, blocked: Some(finding) };
        let first = apply_start(context);
        assert_eq!(first, ApplyMove { state: ApplyState::Done(refused), action: ApplyAction::Finish(refused) });
        assert_eq!(apply_advance(context, first.state, true), first);
        assert_eq!(apply_advance(context, ApplyState::Ready, true), first);
    }
}

#[test]
fn plan_is_applied_step_by_step() {
    let context = ApplyContext { steps: 3, transactional: false, blocked: None };
    let (actions, outcome) = run_apply(context, &[true, true, true]);
    assert_eq!(
        actions,
        vec![
            ApplyAction::Execute { step: 0 },
            ApplyAction::Execute { step: 1 },
            ApplyAction::Execute { step: 2 },
            ApplyAction::Finish(ApplyOutcome::Applied { count: 3 }),
        ]
    );
    assert_eq!(outcome, ApplyOutcome::Applied { count: 3 });
}

#[test]
fn plan_is_applied_in_one_transaction() {
    let context = ApplyContext { steps: 2, transactional: true, blocked: None };
    let (actions, outcome) = run_apply(context, &[true, true, true, true]);
    assert_eq!(
        actions,
        vec![
            ApplyAction::Begin,
            ApplyAction::Execute { step: 0 },
            ApplyAction::Execute { step: 1 },
            ApplyAction::Commit,
            ApplyAction::Finish(ApplyOutcome::Applied { count: 2 }),
        ]
    );
    assert_eq!(outcome, ApplyOutcome::Applied { count: 2 });
}

#[test]
fn failure_outside_a_transaction_is_partial() {
    let context = ApplyContext { steps: 4, transactional: false, blocked: None };
    let (actions, outcome) = run_apply(context, &[true, true, false]);
    assert_eq!(outcome, ApplyOutcome::PartiallyApplied { last_successful_step: Some(1) });
    assert_eq!(actions.len(), 4);
    assert_eq!(actions[2], ApplyAction::Execute { step: 2 });
    let (_, outcome) = run_apply(context, &[false]);
    assert_eq!(outcome, ApplyOutcome::PartiallyApplied { last_successful_step: None });
    let (_, outcome) = run_apply(context, &[true, true, true, false]);
    assert_eq!(outcome, ApplyOutcome::PartiallyApplied { last_successful_step: Some(2) });
}

#[test]
fn failure_inside_a_transaction_rolls_back() {
    let context = ApplyContext { steps: 4, transactional: true, blocked: None };
    let (actions, outcome) = run_apply(context, &[true, true, false, true]);
    assert_eq!(
        actions,
        vec![
            ApplyAction::Begin,
            ApplyAction::Execute { step: 0 },
            ApplyAction::Execute { step: 1 },
            ApplyAction::Rollback,
            ApplyAction::Finish(ApplyOutcome::RolledBack { failed_step: Some(1) }),
        ]
    );
    assert_eq!(outcome, ApplyOutcome::RolledBack { failed_step: Some(1) });
    let (_, outcome) = run_apply(context, &[false]);
    assert_eq!(outcome, ApplyOutcome::RolledBack { failed_step: None });
    let (_, outcome) = run_apply(context, &[true, true, true, true, true, false]);
    assert_eq!(outcome, ApplyOutcome::RolledBack { failed_step: None });
}

#[test]
fn empty_plan_is_applied_at_once() {
    let context = ApplyContext { steps: 0, transactional: false, blocked: None };
    assert_eq!(run_apply(context, &[]).1, ApplyOutcome::Applied { count: 0 });
    let context = ApplyContext { steps: 0, transactional: true, blocked: None };
    let (actions, outcome) = run_apply(context, &[true, true]);
    assert_eq!(actions[..2], [ApplyAction::Begin, ApplyAction::Commit]);
    assert_eq!(outcome, ApplyOutcome::Applied { count: 0 });
}

/// Runs a replay in which the actions succeed as `reports` say.
fn run_replay(counts: &Vec<usize>, transactional: bool, reports: &[bool]) -> (Vec<ReplayAction>, ReplayOutcome) {
    let mut next = replay_start();
    let mut actions = vec![next.action];
    let mut i = 0;
    loop {
        if let ReplayState::Done(outcome) = next.state {
            return (actions, outcome);
        }
        let report = if i < reports.len() { reports[i] } else { true };
        next = replay_advance(counts, transactional, next.state, report);
        actions.push(next.action);
        i += 1;
    }
}

#[test]
fn history_is_replayed_directory_by_directory() {
    let counts = vec![2, 0, 1];
    let (actions, outcome) = run_replay(&counts, true, &[]);
    assert_eq!(
        actions,
        vec![
            ReplayAction::CreateShadowDatabase,
            ReplayAction::Begin { directory: 0 },
            ReplayAction::Execute { directory: 0, statement: 0 },
            ReplayAction::Execute { directory: 0, statement: 1 },
            ReplayAction::Commit { directory: 0 },
            ReplayAction::Begin { directory: 2 },
            ReplayAction::Execute { directory: 2, statement: 0 },
            ReplayAction::Commit { directory: 2 },
            ReplayAction::DescribeSchema,
            ReplayAction::DropShadowDatabase,
            ReplayAction::Finish(ReplayOutcome::Described),
        ]
    );
    assert_eq!(outcome, ReplayOutcome::Described);
    let (actions, outcome) = run_replay(&counts, false, &[]);
    assert_eq!(
        actions,
        vec![
            ReplayAction::CreateShadowDatabase,
            ReplayAction::Execute { directory: 0, statement: 0 },
            ReplayAction::Execute { directory: 0, statement: 1 },
            ReplayAction::Execute { directory: 2, statement: 0 },
            ReplayAction::DescribeSchema,
            ReplayAction::DropShadowDatabase,
            ReplayAction::Finish(ReplayOutcome::Described),
        ]
    );
    assert_eq!(outcome, ReplayOutcome::Described);
}

#[test]
fn failed_statement_aborts_the_replay() {
    let counts = vec![2, 3];
    let failed = ReplayOutcome::Failed(ConnectorError::HistoryReplayFailed { directory: 1, statement: 1 });
    let (actions, outcome) = run_replay(&counts, true, &[true, true, true, true, true, true, true, false]);
    assert_eq!(outcome, failed);
    assert_eq!(
        actions[7..],
        [
            ReplayAction::Execute { directory: 1, statement: 1 },
            ReplayAction::Rollback { directory: 1 },
            ReplayAction::DropShadowDatabase,
            ReplayAction::Finish(failed),
        ]
    );
    let (actions, outcome) = run_replay(&counts, false, &[true, true, true, true, false]);
    assert_eq!(outcome, failed);
    assert_eq!(
        actions[4..],
        [
            ReplayAction::Execute { directory: 1, statement: 1 },
            ReplayAction::DropShadowDatabase,
            ReplayAction::Finish(failed),
        ]
    );
}

#[test]
fn shadow_database_is_dropped_whatever_happens() {
    let counts = vec![1];
    let unusable = ReplayOutcome::Failed(ConnectorError::ConnectionUnusable);
    let (actions, outcome) = run_replay(&counts, false, &[false]);
    assert_eq!(actions, vec![ReplayAction::CreateShadowDatabase, ReplayAction::Finish(unusable)]);
    assert_eq!(outcome, unusable);
    let (actions, outcome) = run_replay(&counts, false, &[true, true, false]);
    assert_eq!(outcome, unusable);
    assert_eq!(actions[actions.len() - 2], ReplayAction::DropShadowDatabase);
    let (actions, outcome) = run_replay(&counts, true, &[true, false]);
    assert_eq!(outcome, ReplayOutcome::Failed(ConnectorError::HistoryReplayFailed { directory: 0, statement: 0 }));
    assert_eq!(actions[actions.len() - 2], ReplayAction::DropShadowDatabase);
    let (actions, outcome) = run_replay(&counts, true, &[true, true, true, false]);
    assert_eq!(outcome, ReplayOutcome::Failed(ConnectorError::HistoryReplayFailed { directory: 0, statement: 1 }));
    assert_eq!(actions[actions.len() - 2], ReplayAction::DropShadowDatabase);
    let (actions, _) = run_replay(&counts, true, &[true, true, true, true, true, false]);
    assert_eq!(actions[actions.len() - 2], ReplayAction::DropShadowDatabase);
}

#[test]
fn replay_of_no_history_describes_the_empty_database() {
    for counts in [vec![], vec![0, 0]] {
        let (actions, outcome) = run_replay(&counts, true, &[]);
        assert_eq!(
            actions,
            vec![
                ReplayAction::CreateShadowDatabase,
                ReplayAction::DescribeSchema,
                ReplayAction::DropShadowDatabase,
                ReplayAction::Finish(ReplayOutcome::Described),
            ]
        );
        assert_eq!(outcome, ReplayOutcome::Described);
    }
    assert_eq!(
        replay_advance(&vec![], false, ReplayState::Ready, false),
        ReplayMove { state: ReplayState::Creating, action: ReplayAction::CreateShadowDatabase }
    );
}

#[test]
fn edited_migration_is_history_drift() {
    let init = MigrationDirectory::new("0001_init".to_string(), "CREATE TABLE users (id INT);".to_string());
    let second = MigrationDirectory::new("0002_more".to_string(), "CREATE TABLE posts (id INT); ; DROP TABLE x".to_string());
    let mut record = MigrationRecord::start("r1".to_string(), &init, 100);
    assert!(record.finish(101, 1));
    let recorded = record.checksum;
    let records = vec![record];
    let scripts = plan_replay(&vec![init, second], &records).unwrap();
    assert_eq!(
        scripts,
        vec![
            vec![b"CREATE TABLE users (id INT)".to_vec()],
            vec![b"CREATE TABLE posts (id INT)".to_vec(), b" DROP TABLE x".to_vec()],
        ]
    );
    assert_eq!(statement_counts(&scripts), vec![1, 2]);
    let other = MigrationDirectory::new("0000_other".to_string(), "SELECT 1".to_string());
    let edited = MigrationDirectory::new("0001_init".to_string(), "CREATE TABLE users (id BIGINT);".to_string());
    assert_ne!(edited.checksum, recorded);
    assert_eq!(checksum("CREATE TABLE users (id INT);"), recorded);
    assert_eq!(
        plan_replay(&vec![other, edited], &records),
        Err(ConnectorError::HistoryDrift { directory: 1 })
    );
}

fn run_connector(command: Command, reports: &[Result<(), ConnectorError>]) -> Vec<ConnectorAction> {
    let mut next = begin(command);
    let mut actions = vec![next.action];
    for report in reports {
        if next.state == ConnectorState::Idle {
            break;
        }
        next = connector_advance(next.state, *report);
        actions.push(next.action);
    }
    assert_eq!(next.state, ConnectorState::Idle);
    actions
}

#[test]
fn diff_runs_under_the_lock() {
    let ok = Ok(());
    assert_eq!(
        run_connector(Command::Diff, &[ok, ok, ok, ok, ok]),
        vec![
            ConnectorAction::AcquireLock,
            ConnectorAction::EnsureMigrationsTable,
            ConnectorAction::ResolveSchema,
            ConnectorAction::ComputeDiff,
            ConnectorAction::ReleaseLock,
            ConnectorAction::Report(Ok(())),
        ]
    );
}

#[test]
fn apply_runs_under_the_lock() {
    let ok = Ok(());
    assert_eq!(
        run_connector(Command::Apply, &[ok, ok, ok, ok, ok, ok]),
        vec![
            ConnectorAction::AcquireLock,
            ConnectorAction::EnsureMigrationsTable,
            ConnectorAction::ResolveSchema,
            ConnectorAction::ComputeDiff,
            ConnectorAction::ApplyPlan,
            ConnectorAction::ReleaseLock,
            ConnectorAction::Report(Ok(())),
        ]
    );
    let partial = ConnectorError::PartiallyApplied { last_successful_step: Some(2) };
    assert_eq!(
        run_connector(Command::Apply, &[ok, ok, ok, ok, Err(partial), ok])[5..],
        [ConnectorAction::ReleaseLock, ConnectorAction::Report(Err(partial))]
    );
}

#[test]
fn failure_to_lock_ends_the_operation_with_its_error() {
    assert_eq!(
        run_connector(Command::Apply, &[Err(ConnectorError::LockTimeout)]),
        vec![ConnectorAction::AcquireLock, ConnectorAction::Report(Err(ConnectorError::LockTimeout))]
    );
    assert_eq!(
        run_connector(Command::Diff, &[Err(ConnectorError::ConnectionUnusable)]),
        vec![ConnectorAction::AcquireLock, ConnectorAction::Report(Err(ConnectorError::ConnectionUnusable))]
    );
    assert!(ConnectorError::LockTimeout.is_retryable());
    assert!(!ConnectorError::ConnectionUnusable.is_retryable());
    assert!(!ConnectorError::HistoryDrift { directory: 0 }.is_retryable());
    assert!(!ConnectorError::Unexecutable { step: 0, reason: Reason::ColumnDropped }.is_retryable());
}

#[test]
fn every_failure_releases_the_lock() {
    let ok = Ok(());
    let failure = Err(ConnectorError::ConnectionUnusable);
    for command in [Command::Diff, Command::Apply, Command::Reset { confirmed: true }] {
        for failing in 1..6 {
            let mut reports = vec![ok; failing];
            reports.push(failure);
            reports.push(ok);
            reports.push(ok);
            let actions = run_connector(command, &reports);
            let released = actions.iter().filter(|a| **a == ConnectorAction::ReleaseLock).count();
            assert_eq!(released, 1);
            assert_eq!(actions[actions.len() - 2], ConnectorAction::ReleaseLock);
            assert!(matches!(actions[actions.len() - 1], ConnectorAction::Report(_)));
        }
    }
}

#[test]
fn reset_needs_confirmation() {
    assert_eq!(
        begin(Command::Reset { confirmed: false }),
        ConnectorMove {
            state: ConnectorState::Idle,
            action: ConnectorAction::Report(Err(ConnectorError::ConfirmationRequired)),
        }
    );
    let ok = Ok(());
    assert_eq!(
        run_connector(Command::Reset { confirmed: true }, &[ok, ok, ok, ok, ok]),
        vec![
            ConnectorAction::AcquireLock,
            ConnectorAction::DropDatabase,
            ConnectorAction::CreateDatabase,
            ConnectorAction::CreateMigrationsTable,
            ConnectorAction::ReleaseLock,
            ConnectorAction::Report(Ok(())),
        ]
    );
    assert_eq!(
        connector_advance(ConnectorState::Acquiring(Operation::Reset), Ok(())).state,
        ConnectorState::LockAcquired(Operation::Reset)
    );
}

#[test]
fn outcomes_are_told_as_results() {
    let warning = DestructiveChangeDiagnostic::new(0, Reason::ColumnNarrowed);
    let blocker = DestructiveChangeDiagnostic::new(3, Reason::TableDropped);
    let later = DestructiveChangeDiagnostic::new(5, Reason::ColumnDropped);
    let findings = vec![warning, blocker, later];
    assert_eq!(blocking_finding(&findings), Some(blocker));
    assert_eq!(blocking_finding(&vec![warning]), None);
    assert_eq!(blocking_finding(&vec![]), None);
    assert_eq!(prepare(7, &findings, true, false), ApplyContext { steps: 7, transactional: true, blocked: Some(blocker) });
    assert_eq!(prepare(7, &findings, false, true), ApplyContext { steps: 7, transactional: false, blocked: None });
    assert_eq!(prepare(2, &vec![warning], false, false), ApplyContext { steps: 2, transactional: false, blocked: None });
    assert_eq!(apply_result(ApplyOutcome::Applied { count: 7 }), Ok(7));
    assert_eq!(
        apply_result(ApplyOutcome::Refused { finding: blocker }),
        Err(ConnectorError::Unexecutable { step: 3, reason: Reason::TableDropped })
    );
    match apply_start(prepare(7, &findings, true, false)).action {
        ApplyAction::Finish(outcome) => assert_eq!(
            apply_result(outcome),
            Err(ConnectorError::Unexecutable { step: 3, reason: Reason::TableDropped })
        ),
        other => panic!("unexpected action {:?}", other),
    }
    assert_eq!(
        apply_result(ApplyOutcome::RolledBack { failed_step: Some(4) }),
        Err(ConnectorError::PartiallyApplied { last_successful_step: None })
    );
    assert_eq!(
        apply_result(ApplyOutcome::PartiallyApplied { last_successful_step: Some(4) }),
        Err(ConnectorError::PartiallyApplied { last_successful_step: Some(4) })
    );
    assert_eq!(replay_result(ReplayOutcome::Described), Ok(()));
    let failed = ConnectorError::HistoryReplayFailed { directory: 1, statement: 2 };
    assert_eq!(replay_result(ReplayOutcome::Failed(failed)), Err(failed));
}
