//! The unified outcome and error shape shared by every backend.
//!
//! Both backends report execution through one taxonomy: transport failures,
//! transactions rejected before execution, transactions that executed and
//! reverted, missing accounts, and accounts whose bytes fail a decode.  An
//! erased form lets call sites handle either backend without being generic
//! over the transport error type.

pub mod local;
pub mod remote;

use vstd::prelude::*;
use crate::ids::{rent_sysvar_id, spec_rent_sysvar_id};
use crate::solana::{decode_rent, spec_decoded_rent};
use crate::types::{AccountState, Address, BlockHash, Instruction, RentSchedule};
use solana_sdk::signature::Keypair;
use solana_sdk::transaction::TransactionError;

verus! {

/// The observable outcome of one executed transaction: its ordered log
/// lines, and the metered compute-unit count where the backend exposes one.
/// Local execution always meters; a remote status query never does.
#[derive(Clone, Debug, PartialEq)]
pub struct TransactionDetails {
    pub log_messages: Vec<String>,
    pub units_consumed: Option<u64>,
}

/// What one submission hands a backend: the instructions to execute as one
/// atomic transaction, the fee payer, the further signing identities, and
/// the blockhash bounding the transaction's validity.
pub struct TransactionPlan<'a> {
    pub instructions: Vec<Instruction>,
    pub payer: &'a Keypair,
    pub signers: Vec<&'a Keypair>,
    pub blockhash: BlockHash,
}

/// A submission as a backend received it; the abstract image of a
/// `TransactionPlan`.
pub struct SubmissionRecord {
    pub instructions: Seq<Instruction>,
    pub payer: Keypair,
    pub signers: Seq<Keypair>,
    pub blockhash: BlockHash,
}

/// The signing identities behind a run of references.
pub open spec fn spec_deref_signers(signers: Seq<&Keypair>) -> Seq<Keypair> {
    signers.map_values(|k: &Keypair| *k)
}

impl View for TransactionPlan<'_> {
    type V = SubmissionRecord;

    open spec fn view(&self) -> SubmissionRecord {
        SubmissionRecord {
            instructions: self.instructions@,
            payer: *self.payer,
            signers: spec_deref_signers(self.signers@),
            blockhash: self.blockhash,
        }
    }
}

/// The log lines a raw backend record carries, with absence read as none.
pub open spec fn spec_logs_of(logs: Option<Vec<String>>) -> Seq<String> {
    match logs {
        Option::Some(v) => v@,
        Option::None => Seq::empty(),
    }
}

/// Everything a backend operation can fail with, over a backend-specific
/// transport error `E`.
#[derive(Debug)]
pub enum ClientError<E> {
    /// The backend's transport itself failed.
    ChannelError(E),
    /// The transaction was rejected before execution; no state changed.
    InvalidTransaction(TransactionError),
    /// The transaction executed and reverted; the details still carry the
    /// logs and metering of the failed attempt.
    FailedTransaction { error: TransactionError, details: TransactionDetails },
    /// The backend reported that no account exists at the address.
    AccountNotFound(Address),
    /// The account's bytes are present but fail the expected decode.
    InvalidAccountData(Address),
}

/// The erased form of `ClientError`: the transport error is reduced to its
/// message text, so code handling either backend needs no type parameter.
#[derive(Debug)]
pub enum DynClientError {
    /// The backend's transport itself failed; holds the message text of the
    /// erased transport error.
    ChannelError(String),
    /// The transaction was rejected before execution; no state changed.
    InvalidTransaction(TransactionError),
    /// The transaction executed and reverted.
    FailedTransaction { error: TransactionError, details: TransactionDetails },
    /// The backend reported that no account exists at the address.
    AccountNotFound(Address),
    /// The account's bytes are present but fail the expected decode.
    InvalidAccountData(Address),
}

/// A transport error that can render itself as text, so that erasing it
/// keeps its message.
pub trait ErrorMessage {
    spec fn spec_message(&self) -> Seq<char>;

    fn message(&self) -> (r: String)
        ensures
            r@ == self.spec_message(),
    ;
}

/// A textual transport error is its own message.  Backends whose transport
/// error is not verified code can hand its rendered text through this.
impl ErrorMessage for String {
    open spec fn spec_message(&self) -> Seq<char> {
        self@
    }

    fn message(&self) -> (r: String) {
        String::from_str(self.as_str())
    }
}

/// The transport error of a backend that cannot fail in transport.  No
/// operation of the library ever produces a value of it.
#[derive(Debug)]
pub struct NoTransport;

impl ErrorMessage for NoTransport {
    open spec fn spec_message(&self) -> Seq<char> {
        Seq::empty()
    }

    fn message(&self) -> (r: String) {
        let r = String::from_str("");
        proof {
            reveal_strlit("");
            assert(r@ =~= Seq::<char>::empty());
        }
        r
    }
}

/// How an error and its erased form correspond: the variant is kept, every
/// payload is kept, and a transport error is replaced by its message text.
pub open spec fn spec_erases_to<E: ErrorMessage>(e: ClientError<E>, d: DynClientError) -> bool {
    match e {
        ClientError::ChannelError(x) => d matches DynClientError::ChannelError(t) && t@
            == x.spec_message(),
        ClientError::InvalidTransaction(x) => d matches DynClientError::InvalidTransaction(y) && y
            == x,
        ClientError::FailedTransaction { error, details } => d
            matches DynClientError::FailedTransaction { error: e2, details: d2 } && e2 == error
            && d2 == details,
        ClientError::AccountNotFound(a) => d matches DynClientError::AccountNotFound(b) && b == a,
        ClientError::InvalidAccountData(a) => d matches DynClientError::InvalidAccountData(b) && b
            == a,
    }
}

impl<E: ErrorMessage> ClientError<E> {
    /// Erases the transport error type: every variant and payload is
    /// preserved, and the transport error keeps its message text.
    pub fn erase(self) -> (r: DynClientError)
        ensures
            spec_erases_to(self, r),
    {
        match self {
            ClientError::ChannelError(x) => DynClientError::ChannelError(x.message()),
            ClientError::InvalidTransaction(x) => DynClientError::InvalidTransaction(x),
            ClientError::FailedTransaction { error, details } => DynClientError::FailedTransaction {
                error,
                details,
            },
            ClientError::AccountNotFound(a) => DynClientError::AccountNotFound(a),
            ClientError::InvalidAccountData(a) => DynClientError::InvalidAccountData(a),
        }
    }
}

/// The schedule a rent sysvar account's bytes decode to, if they decode.
pub fn rent_schedule_of(account: &AccountState) -> (r: Option<RentSchedule>)
    ensures
        r == spec_decoded_rent(account.data@),
{
    decode_rent(account.data.as_slice())
}

/// The capability every backend offers: submit a transaction plan, read the
/// current blockhash, advance past a blockhash, and read accounts.  The two
/// query operations may fail only with a transport error or the error their
/// contract names; execution failures are reported only by submission.
/// Each backend keeps an abstract log of every plan it was handed, so that
/// callers can state exactly what they submitted; the query operations
/// leave it untouched.
pub trait ClientSync: Sized {
    type ChannelError;

    /// The submissions this backend has been handed so far, oldest first.
    open spec fn submissions(&self) -> Seq<SubmissionRecord> {
        Seq::empty()
    }

    /// Signs the plan's instructions as one transaction and executes it
    /// against the ledger, reporting the unified outcome.  The plan is
    /// logged as handed, whatever the outcome.
    fn send_transaction(&mut self, plan: TransactionPlan<'_>) -> (r: Result<
        TransactionDetails,
        ClientError<Self::ChannelError>,
    >)
        ensures
            final(self).submissions() == old(self).submissions().push(plan@),
            r matches Err(e) ==> !(e is AccountNotFound) && !(e is InvalidAccountData),
    ;

    /// Reads the ledger's current blockhash; submits nothing.
    fn latest_blockhash(&mut self) -> (r: Result<BlockHash, Self::ChannelError>)
        ensures
            final(self).submissions() == old(self).submissions(),
    ;

    /// Advances the ledger until its blockhash differs from the given one,
    /// and returns the new blockhash; submits nothing.
    fn tick_beyond(&mut self, blockhash: BlockHash) -> (r: Result<BlockHash, Self::ChannelError>)
        ensures
            final(self).submissions() == old(self).submissions(),
            r matches Ok(h) ==> h@ != blockhash@,
    ;

    /// Reads the account at the address; fails with `AccountNotFound` for
    /// that address exactly when the backend reports no account there;
    /// submits nothing.
    fn get_account(&mut self, address: Address) -> (r: Result<
        AccountState,
        ClientError<Self::ChannelError>,
    >)
        ensures
            final(self).submissions() == old(self).submissions(),
            r matches Err(e) ==> e is ChannelError || e == ClientError::<
                Self::ChannelError,
            >::AccountNotFound(address),
    ;

    /// Reads the rent sysvar account and decodes the schedule it holds: a
    /// success is `rent_schedule_of` some account the backend returned for
    /// the sysvar address, and the invalid-data error, at that address,
    /// arises exactly when the fetched bytes do not decode; submits
    /// nothing.
    fn get_sysvar(&mut self) -> (r: Result<RentSchedule, ClientError<Self::ChannelError>>)
        ensures
            final(self).submissions() == old(self).submissions(),
            r matches Ok(s) ==> exists|data: Seq<u8>| #[trigger] spec_decoded_rent(data) == Some(
                s,
            ),
            r matches Err(e) ==> (e is ChannelError || (e matches ClientError::AccountNotFound(a)
                && a@ == spec_rent_sysvar_id()) || (e matches ClientError::InvalidAccountData(a)
                && a@ == spec_rent_sysvar_id())),
    {
        let sysvar_address = rent_sysvar_id();
        match self.get_account(sysvar_address) {
            Ok(account) => match rent_schedule_of(&account) {
                Some(schedule) => {
                    proof {
                        assert(spec_decoded_rent(account.data@) == Some(schedule));
                    }
                    Ok(schedule)
                },
                None => Err(ClientError::InvalidAccountData(sysvar_address)),
            },
            Err(e) => Err(e),
        }
    }
}

} // verus!
