//! Normalization of a remote ledger's submission outcomes.
//!
//! A remote submission either confirms — after which the transaction's
//! status is fetched by signature — or fails in transport with a structured
//! error payload.  Exactly two server error codes are re-interpreted into
//! the unified taxonomy: a signature-verification failure becomes
//! `InvalidTransaction`, and a preflight-simulation failure is unpacked into
//! `FailedTransaction` with the simulated logs, units and reason.  Every
//! other transport failure passes through opaque.

use vstd::prelude::*;
use super::{spec_logs_of, ClientError, TransactionDetails};
use crate::solana::signature_failure_error;
use crate::EnvironmentGenesis;
use solana_sdk::transaction::TransactionError;

verus! {

/// Why a configuration cannot back a remote environment.
#[derive(Debug, PartialEq, Eq, Structural)]
pub enum RemoteGenesisDefect {
    /// A configured account does not exist on the remote ledger; holds its
    /// position in the configuration.
    MissingAccount(usize),
    /// No payer was supplied, and a remote build cannot generate one.
    MissingPayer,
}

/// Decides whether a configuration can back a remote environment, given
/// which configured accounts the remote ledger was found to hold
/// (`present[i]` answers for the `i`-th configured account).  Every
/// configured account must exist and a payer must be supplied; the first
/// missing account is reported, then a missing payer.  The caller performs
/// the per-address queries and aborts on a defect.
pub fn validate_remote_genesis(genesis: &EnvironmentGenesis, present: &[bool]) -> (r: Result<
    (),
    RemoteGenesisDefect,
>)
    requires
        present@.len() == genesis.accounts@.len(),
    ensures
        r is Ok <==> (genesis.payer is Some && (forall|i: int|
            0 <= i < present@.len() ==> present@[i])),
        r matches Err(RemoteGenesisDefect::MissingAccount(i)) ==> 0 <= i < present@.len()
            && !present@[i as int] && (forall|j: int| 0 <= j < i ==> present@[j]),
        r matches Err(RemoteGenesisDefect::MissingPayer) ==> genesis.payer is None && (forall|
        i: int|
            0 <= i < present@.len() ==> present@[i]),
{
    let mut i: usize = 0;
    while i < present.len()
        invariant
            i <= present@.len(),
            forall|j: int| 0 <= j < i ==> present@[j],
        decreases present@.len() - i,
    {
        if !present[i] {
            return Err(RemoteGenesisDefect::MissingAccount(i));
        }
        i += 1;
    }
    match genesis.payer {
        Some(_) => Ok(()),
        None => Err(RemoteGenesisDefect::MissingPayer),
    }
}

/// Server error code reported for a transaction whose signatures failed
/// verification.
pub const SIGNATURE_VERIFICATION_FAILURE_CODE: i64 = -32003;

/// Server error code reported for a transaction that failed preflight
/// simulation.
pub const PREFLIGHT_FAILURE_CODE: i64 = -32002;

/// What a preflight simulation reported about the failed transaction.
#[derive(Debug)]
pub struct PreflightFailure {
    pub error: Option<TransactionError>,
    pub logs: Option<Vec<String>>,
    pub units_consumed: Option<u64>,
}

/// The status a confirmed transaction was fetched with: its on-chain error,
/// if it reverted, and its log lines.  The status query exposes no
/// compute-unit metering.
#[derive(Debug)]
pub struct ConfirmedStatus {
    pub error: Option<TransactionError>,
    pub logs: Option<Vec<String>>,
}

/// One remote submission's raw outcome, over the transport error type `E`.
#[derive(Debug)]
pub enum RemoteSendOutcome<E> {
    /// The submission confirmed and the status was fetched back.
    Confirmed(ConfirmedStatus),
    /// The transport failed with a structured response error carrying a
    /// server code, and, for a preflight failure, the simulation report.
    ResponseError { code: i64, preflight: Option<PreflightFailure>, raw: E },
    /// The transport failed with no structured response.
    Other(E),
}

/// Whether a raw outcome is well-formed: a preflight-failure report always
/// names the failure it simulated.
pub open spec fn spec_outcome_wf<E>(outcome: RemoteSendOutcome<E>) -> bool {
    match outcome {
        RemoteSendOutcome::ResponseError { code, preflight: Option::Some(p), .. } => code
            == PREFLIGHT_FAILURE_CODE ==> p.error is Some,
        _ => true,
    }
}

/// Maps a remote submission's raw outcome into the unified shape: a
/// confirmed transaction yields its logs with no metering, an on-chain
/// error becomes `FailedTransaction`, the signature-verification code
/// becomes `InvalidTransaction`, the preflight-failure code is unpacked
/// into `FailedTransaction` with the simulated detail, and every other
/// transport failure passes through as `ChannelError`.
pub fn interpret_send_outcome<E>(outcome: RemoteSendOutcome<E>) -> (r: Result<
    TransactionDetails,
    ClientError<E>,
>)
    requires
        spec_outcome_wf(outcome),
    ensures
        match outcome {
            RemoteSendOutcome::Confirmed(
                ConfirmedStatus { error: Option::None, logs },
            ) => r matches Ok(d) && d.log_messages@ == spec_logs_of(logs) && d.units_consumed
                is None,
            RemoteSendOutcome::Confirmed(
                ConfirmedStatus { error: Option::Some(e), logs },
            ) => r matches Err(ClientError::FailedTransaction { error, details }) && error == e
                && details.log_messages@ == spec_logs_of(logs) && details.units_consumed is None,
            RemoteSendOutcome::ResponseError { code, preflight, raw } => {
                if code == SIGNATURE_VERIFICATION_FAILURE_CODE {
                    r matches Err(e) && e is InvalidTransaction
                } else if code == PREFLIGHT_FAILURE_CODE && preflight is Some {
                    preflight matches Option::Some(p) && p.error matches Option::Some(sim_error)
                        && r matches Err(ClientError::FailedTransaction { error, details })
                        && error == sim_error && details.log_messages@ == spec_logs_of(p.logs)
                        && details.units_consumed == p.units_consumed
                } else {
                    r matches Err(ClientError::ChannelError(e)) && e == raw
                }
            },
            RemoteSendOutcome::Other(e) => r matches Err(ClientError::ChannelError(x)) && x == e,
        },
{
    match outcome {
        RemoteSendOutcome::Confirmed(status) => {
            let details = TransactionDetails {
                log_messages: match status.logs {
                    Some(v) => v,
                    None => Vec::new(),
                },
                units_consumed: None,
            };
            match status.error {
                None => Ok(details),
                Some(error) => Err(ClientError::FailedTransaction { error, details }),
            }
        },
        RemoteSendOutcome::ResponseError { code, preflight, raw } => {
            if code == SIGNATURE_VERIFICATION_FAILURE_CODE {
                Err(ClientError::InvalidTransaction(signature_failure_error()))
            } else if code == PREFLIGHT_FAILURE_CODE {
                match preflight {
                    Some(p) => {
                        let error = match p.error {
                            Some(e) => e,
                            // a preflight report without a failure is ruled
                            // out by the well-formedness precondition
                            None => vstd::pervasive::unreached(),
                        };
                        let details = TransactionDetails {
                            log_messages: match p.logs {
                                Some(v) => v,
                                None => Vec::new(),
                            },
                            units_consumed: p.units_consumed,
                        };
                        Err(ClientError::FailedTransaction { error, details })
                    },
                    None => Err(ClientError::ChannelError(raw)),
                }
            } else {
                Err(ClientError::ChannelError(raw))
            }
        },
        RemoteSendOutcome::Other(e) => Err(ClientError::ChannelError(e)),
    }
}

} // verus!
