//! What can go wrong, and what a caller can do about it.
use crate::checker::Reason;
use vstd::prelude::*;

verus! {

/// The errors of the connector.
#[derive(Clone, Copy, Debug, PartialEq, Eq, Structural)]
pub enum ConnectorError {
    /// The advisory lock is held elsewhere. The caller may try again later.
    LockTimeout,
    /// The connection cannot be used: connectivity or permissions have to be fixed.
    ConnectionUnusable,
    /// The backend lacks something the operation needs.
    UnsupportedFeature,
    /// The step at `step` of the plan loses data for `reason`, and the caller did not force
    /// it.
    Unexecutable { step: usize, reason: Reason },
    /// Replaying the history failed at statement `statement` of the directory at `directory`.
    HistoryReplayFailed { directory: usize, statement: usize },
    /// The directory at `directory` was edited after it was applied, or the live schema is not
    /// the one that the history gives.
    HistoryDrift { directory: usize },
    /// The plan was applied up to the step at `last_successful_step` (none where not even the
    /// first step went through) and no further.
    PartiallyApplied { last_successful_step: Option<usize> },
    /// A reset was asked for without the caller's confirmation.
    ConfirmationRequired,
}

impl ConnectorError {
    /// Whether trying again can help without anything being fixed first.
    pub open spec fn spec_is_retryable(self) -> bool {
        self is LockTimeout
    }

    /// Whether trying again can help without anything being fixed first: only a lock that
    /// timed out is worth another try.
    pub fn is_retryable(&self) -> (retryable: bool)
        ensures
            retryable == self.spec_is_retryable(),
    {
        match self {
            ConnectorError::LockTimeout => true,
            _ => false,
        }
    }
}

} // verus!
