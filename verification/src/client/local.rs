//! Normalization of the in-process ledger's raw execution reports.
//!
//! The local engine executes a one-transaction batch and reports either a
//! per-transaction execution record or a rejection.  The mapping into the
//! unified taxonomy lives here.

use vstd::prelude::*;
use super::{spec_logs_of, ClientError, TransactionDetails};
use solana_sdk::transaction::TransactionError;

verus! {

/// What the in-process ledger reports for one transaction of a batch:
/// either it executed (possibly reverting), with its logs and its metered
/// compute units, or it was rejected before execution.
#[derive(Debug)]
pub enum ExecutionOutcome {
    Executed {
        /// The failure the execution ended in, if it reverted.
        error: Option<TransactionError>,
        /// The log lines the execution produced, where collected.
        log_messages: Option<Vec<String>>,
        /// The compute units the execution consumed; local metering is
        /// intrinsic, so the count is always present.
        units_consumed: u64,
    },
    NotExecuted(TransactionError),
}

/// Maps the ledger's raw execution report into the unified outcome shape:
/// a rejection becomes `InvalidTransaction`, a reverted execution becomes
/// `FailedTransaction` still carrying the logs and metering of the failed
/// attempt, and a successful execution yields its details, with the
/// compute-unit count always present.
pub fn convert_tx_result<E>(outcome: ExecutionOutcome) -> (r: Result<
    TransactionDetails,
    ClientError<E>,
>)
    ensures
        match outcome {
            ExecutionOutcome::Executed { error: Option::None, log_messages, units_consumed } => r
                matches Ok(d) && d.log_messages@ == spec_logs_of(log_messages)
                && d.units_consumed == Some(units_consumed),
            ExecutionOutcome::Executed {
                error: Option::Some(e),
                log_messages,
                units_consumed,
            } => r matches Err(ClientError::FailedTransaction { error, details }) && error == e
                && details.log_messages@ == spec_logs_of(log_messages) && details.units_consumed
                == Some(units_consumed),
            ExecutionOutcome::NotExecuted(e) => r matches Err(ClientError::InvalidTransaction(x))
                && x == e,
        },
{
    match outcome {
        ExecutionOutcome::Executed { error, log_messages, units_consumed } => {
            let details = TransactionDetails {
                log_messages: match log_messages {
                    Some(v) => v,
                    None => Vec::new(),
                },
                units_consumed: Some(units_consumed),
            };
            match error {
                None => Ok(details),
                Some(error) => Err(ClientError::FailedTransaction { error, details }),
            }
        },
        ExecutionOutcome::NotExecuted(error) => Err(ClientError::InvalidTransaction(error)),
    }
}

} // verus!
