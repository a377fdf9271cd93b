use poc_framework::client::local::{convert_tx_result, ExecutionOutcome};
use poc_framework::client::remote::{
    interpret_send_outcome, ConfirmedStatus, PreflightFailure, RemoteSendOutcome,
    PREFLIGHT_FAILURE_CODE, SIGNATURE_VERIFICATION_FAILURE_CODE,
};
use poc_framework::client::{ClientError, DynClientError, NoTransport, TransactionDetails};
use poc_framework::types::Address;
use solana_sdk::transaction::TransactionError;

fn details(logs: &[&str], units: Option<u64>) -> TransactionDetails {
    TransactionDetails {
        log_messages: logs.iter().map(|s| s.to_string()).collect(),
        units_consumed: units,
    }
}

#[test]
fn convert_successful_execution() {
    let outcome = ExecutionOutcome::Executed {
        error: None,
        log_messages: Some(vec!["one".to_string(), "two".to_string()]),
        units_consumed: 1500,
    };
    let r = convert_tx_result::<NoTransport>(outcome).unwrap();
    assert_eq!(r.log_messages, vec!["one".to_string(), "two".to_string()]);
    assert_eq!(r.units_consumed, Some(1500));
}

#[test]
fn convert_execution_without_logs() {
    let outcome = ExecutionOutcome::Executed {
        error: None,
        log_messages: None,
        units_consumed: 0,
    };
    let r = convert_tx_result::<NoTransport>(outcome).unwrap();
    assert!(r.log_messages.is_empty());
    assert_eq!(r.units_consumed, Some(0));
}

#[test]
fn convert_reverted_execution() {
    let outcome = ExecutionOutcome::Executed {
        error: Some(TransactionError::InstructionError(
            0,
            solana_sdk::instruction::InstructionError::Custom(42),
        )),
        log_messages: Some(vec!["program log".to_string()]),
        units_consumed: 777,
    };
    match convert_tx_result::<NoTransport>(outcome) {
        Err(ClientError::FailedTransaction { error, details }) => {
            assert!(matches!(
                error,
                TransactionError::InstructionError(
                    0,
                    solana_sdk::instruction::InstructionError::Custom(42)
                )
            ));
            assert!(!details.log_messages.is_empty());
            assert_eq!(details.log_messages[0], "program log");
            assert_eq!(details.units_consumed, Some(777));
        }
        other => panic!("expected FailedTransaction, got {:?}", other),
    }
}

#[test]
fn convert_rejected_transaction() {
    let outcome = ExecutionOutcome::NotExecuted(TransactionError::BlockhashNotFound);
    match convert_tx_result::<NoTransport>(outcome) {
        Err(ClientError::InvalidTransaction(e)) => {
            assert!(matches!(e, TransactionError::BlockhashNotFound));
        }
        other => panic!("expected InvalidTransaction, got {:?}", other),
    }
}

#[test]
fn convert_rejection_for_duplicate_signer() {
    let outcome = ExecutionOutcome::NotExecuted(TransactionError::AccountLoadedTwice);
    match convert_tx_result::<NoTransport>(outcome) {
        Err(ClientError::InvalidTransaction(e)) => {
            assert!(matches!(e, TransactionError::AccountLoadedTwice));
        }
        other => panic!("expected InvalidTransaction, got {:?}", other),
    }
}

#[test]
fn interpret_confirmed_success_has_no_units() {
    let outcome: RemoteSendOutcome<String> =
        RemoteSendOutcome::Confirmed(ConfirmedStatus {
            error: None,
            logs: Some(vec!["remote log".to_string()]),
        });
    let r = interpret_send_outcome(outcome).unwrap();
    assert_eq!(r.log_messages, vec!["remote log".to_string()]);
    assert_eq!(r.units_consumed, None);
}

#[test]
fn interpret_confirmed_onchain_failure() {
    let outcome: RemoteSendOutcome<String> =
        RemoteSendOutcome::Confirmed(ConfirmedStatus {
            error: Some(TransactionError::AccountInUse),
            logs: None,
        });
    match interpret_send_outcome(outcome) {
        Err(ClientError::FailedTransaction { error, details }) => {
            assert!(matches!(error, TransactionError::AccountInUse));
            assert!(details.log_messages.is_empty());
            assert_eq!(details.units_consumed, None);
        }
        other => panic!("expected FailedTransaction, got {:?}", other),
    }
}

#[test]
fn interpret_signature_verification_code() {
    let outcome = RemoteSendOutcome::ResponseError {
        code: SIGNATURE_VERIFICATION_FAILURE_CODE,
        preflight: None,
        raw: "sig".to_string(),
    };
    match interpret_send_outcome(outcome) {
        Err(ClientError::InvalidTransaction(e)) => {
            assert!(matches!(e, TransactionError::SignatureFailure));
        }
        other => panic!("expected InvalidTransaction, got {:?}", other),
    }
}

#[test]
fn interpret_preflight_failure_code() {
    let outcome = RemoteSendOutcome::ResponseError {
        code: PREFLIGHT_FAILURE_CODE,
        preflight: Some(PreflightFailure {
            error: Some(TransactionError::InsufficientFundsForFee),
            logs: Some(vec!["simulated".to_string()]),
            units_consumed: Some(99),
        }),
        raw: "preflight".to_string(),
    };
    match interpret_send_outcome(outcome) {
        Err(ClientError::FailedTransaction { error, details }) => {
            assert!(matches!(error, TransactionError::InsufficientFundsForFee));
            assert_eq!(details.log_messages, vec!["simulated".to_string()]);
            assert_eq!(details.units_consumed, Some(99));
        }
        other => panic!("expected FailedTransaction, got {:?}", other),
    }
}

#[test]
fn interpret_other_codes_pass_through() {
    let outcome = RemoteSendOutcome::ResponseError {
        code: -32005,
        preflight: None,
        raw: "node unhealthy".to_string(),
    };
    match interpret_send_outcome(outcome) {
        Err(ClientError::ChannelError(e)) => assert_eq!(e, "node unhealthy"),
        other => panic!("expected ChannelError, got {:?}", other),
    }
}

#[test]
fn interpret_unstructured_failure_passes_through() {
    let outcome = RemoteSendOutcome::Other("timeout".to_string());
    match interpret_send_outcome(outcome) {
        Err(ClientError::ChannelError(e)) => assert_eq!(e, "timeout"),
        other => panic!("expected ChannelError, got {:?}", other),
    }
}

#[test]
fn erase_preserves_channel_error_text() {
    let e: ClientError<String> =
        ClientError::ChannelError("socket closed".to_string());
    match e.erase() {
        DynClientError::ChannelError(text) => assert_eq!(text, "socket closed"),
        other => panic!("expected ChannelError, got {:?}", other),
    }
}

#[test]
fn erase_preserves_invalid_transaction() {
    let e: ClientError<String> =
        ClientError::InvalidTransaction(TransactionError::BlockhashNotFound);
    match e.erase() {
        DynClientError::InvalidTransaction(t) => {
            assert!(matches!(t, TransactionError::BlockhashNotFound));
        }
        other => panic!("expected InvalidTransaction, got {:?}", other),
    }
}

#[test]
fn erase_preserves_failed_transaction() {
    let e: ClientError<String> = ClientError::FailedTransaction {
        error: TransactionError::AccountInUse,
        details: details(&["a", "b"], Some(5)),
    };
    match e.erase() {
        DynClientError::FailedTransaction { error, details } => {
            assert!(matches!(error, TransactionError::AccountInUse));
            assert_eq!(details.log_messages, vec!["a".to_string(), "b".to_string()]);
            assert_eq!(details.units_consumed, Some(5));
        }
        other => panic!("expected FailedTransaction, got {:?}", other),
    }
}

#[test]
fn erase_preserves_account_errors() {
    let address = Address::new([9u8; 32]);
    let missing: ClientError<String> = ClientError::AccountNotFound(address);
    match missing.erase() {
        DynClientError::AccountNotFound(a) => assert_eq!(a.bytes, [9u8; 32]),
        other => panic!("expected AccountNotFound, got {:?}", other),
    }
    let invalid: ClientError<String> = ClientError::InvalidAccountData(address);
    match invalid.erase() {
        DynClientError::InvalidAccountData(a) => assert_eq!(a.bytes, [9u8; 32]),
        other => panic!("expected InvalidAccountData, got {:?}", other),
    }
}
