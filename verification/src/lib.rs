//! A synchronous harness for building, funding and executing transactions
//! against a ledger backend.
//!
//! A genesis builder assembles the initial account set and payer identity;
//! an environment wraps one backend behind the shared `ClientSync`
//! capability, composes and signs transactions, answers account and token
//! queries, and deploys programs by uploading their payload in bounded
//! chunks.

use vstd::prelude::*;

pub mod chunk;
pub mod client;
pub mod ids;
pub mod solana;
pub mod types;

use crate::chunk::{chunk_payload, spec_chunk_at, spec_chunk_count, CHUNK_SIZE};
use crate::client::{
    spec_deref_signers, ClientError, ClientSync, SubmissionRecord, TransactionPlan,
};
use vstd::slice::slice_to_vec;
use crate::ids::{
    bpf_loader_id, memo_v1_id, memo_v3_id, native_loader_id, spl_token_id, system_program_id,
    associated_token_program_id, bpf_loader_upgradeable_id, spec_bpf_loader_id,
    spec_system_program_id,
};
use crate::solana::{
    associated_token_address, create_associated_token_account_instruction,
    create_buffer_instructions, default_rent_minimum_balance, deploy_instructions,
    derive_program_data_address, generate_keypair, initialize_mint_instruction, keypair_address,
    loader_finalize_instruction, loader_write_instruction, mint_to_instruction, build_message,
    new_unsigned_transaction, sign_transaction, spec_associated_token_address,
    spec_loader_write_data, spec_program_data_address, spec_upgradeable_write_data,
    system_create_account_instruction, unpack_token_amount, upgradeable_write_instruction,
};
use crate::types::{
    lemma_named_addresses_bound, spec_address_reference_count, spec_default_rent_schedule,
    spec_named_addresses, spec_rent_exempt_minimum, AccountMeta, AccountState, Address, BlockHash,
    Instruction, RentSchedule, default_rent_schedule, BUFFER_METADATA_SIZE,
    MAX_ACCOUNT_DATA_LEN, PROGRAMDATA_METADATA_SIZE, PROGRAM_ACCOUNT_SIZE,
};
use crate::ids::{
    spec_associated_token_program_id, spec_bpf_loader_upgradeable_id, spec_rent_sysvar_id,
    spec_spl_token_id,
};
use crate::solana::{
    spec_deploy_data, spec_initialize_mint_data, spec_is_loader_write, spec_is_upgradeable_write,
    spec_mint_to_data, spec_system_create_account_data, spec_unpacked_token_amount,
};
use solana_sdk::signature::Keypair;
use solana_sdk::transaction::Transaction;

verus! {

/// Genesis-only description of one account: its data, owner and
/// executable flag, and the balance to fund it with — the rent-exempt
/// minimum for the data when no balance is given.
#[derive(Debug)]
pub struct AccountConfig {
    /// Lamports to store in this account; the rent-exempt minimum for the
    /// data if omitted.
    pub lamports: Option<u64>,
    pub data: Vec<u8>,
    pub owner: Address,
    pub executable: bool,
}

impl Default for AccountConfig {
    /// An empty, non-executable account owned by the system program, funded
    /// at the rent-exempt minimum.
    fn default() -> (r: AccountConfig)
        ensures
            r.lamports is None,
            r.data@ == Seq::<u8>::empty(),
            r.owner@ == spec_system_program_id(),
            r.executable == false,
    {
        AccountConfig {
            lamports: None,
            data: Vec::new(),
            owner: system_program_id(),
            executable: false,
        }
    }
}

/// The balance a configuration funds its account with: what it names, or
/// the rent-exempt minimum of its data.
pub open spec fn spec_config_lamports(c: AccountConfig) -> int {
    match c.lamports {
        Option::Some(l) => l as int,
        Option::None => spec_rent_exempt_minimum(c.data@.len() as int),
    }
}

/// Whether the account image is exactly what the configuration describes.
pub open spec fn spec_materializes(c: AccountConfig, a: AccountState) -> bool {
    &&& a.lamports as int == spec_config_lamports(c)
    &&& a.data@ == c.data@
    &&& a.owner@ == c.owner@
    &&& a.executable == c.executable
    &&& a.rent_epoch == 0
}

impl AccountConfig {
    /// Materializes the configured account image under the default rent
    /// schedule: exactly the configured bytes, owner and flag, funded at
    /// the configured balance or the computed rent-exempt minimum.
    pub fn to_account(self, rent: &RentSchedule) -> (r: AccountState)
        requires
            self.data@.len() <= MAX_ACCOUNT_DATA_LEN,
            *rent == spec_default_rent_schedule(),
        ensures
            spec_materializes(self, r),
    {
        let lamports = match self.lamports {
            Some(l) => l,
            None => default_rent_minimum_balance(self.data.len()),
        };
        AccountState {
            lamports,
            data: self.data,
            owner: self.owner,
            executable: self.executable,
            rent_epoch: 0,
        }
    }
}

/// The initial account set, payer identity and diagnostic address labels
/// assembled before a backend is built.  Each address holds at most one
/// account: a duplicate insertion is a caller error and is ruled out before
/// any environment is produced.
pub struct EnvironmentGenesis {
    pub accounts: Vec<(Address, AccountConfig)>,
    pub address_labels: Vec<(Address, String)>,
    pub payer: Option<Keypair>,
}

impl EnvironmentGenesis {
    /// Each configured address holds exactly one account, and every
    /// configured data blob fits in a ledger account.
    pub open spec fn wf(self) -> bool {
        &&& forall|i: int, j: int|
            0 <= i < j < self.accounts@.len() ==> (#[trigger] self.accounts@[i]).0@ != (
            #[trigger] self.accounts@[j]).0@
        &&& forall|i: int|
            0 <= i < self.accounts@.len() ==> (#[trigger] self.accounts@[i]).1.data@.len()
                <= MAX_ACCOUNT_DATA_LEN
    }

    /// Whether some account is already configured at the address.
    pub open spec fn spec_has_account(self, address: Address) -> bool {
        exists|i: int|
            0 <= i < self.accounts@.len() && (#[trigger] self.accounts@[i]).0@ == address@
    }

    /// Creates a configuration with the builtin address labels and no
    /// accounts.
    pub fn new() -> (r: EnvironmentGenesis)
        ensures
            r.accounts@.len() == 0,
            r.payer is None,
            r.wf(),
    {
        Self::default()
    }

    /// Sets the payer key pair that will pay for every transaction.  For a
    /// local build the payer is seeded with a large balance; a payer may be
    /// set at most once.
    pub fn add_payer(self, keypair: Keypair) -> (r: EnvironmentGenesis)
        requires
            self.payer is None,
        ensures
            r.accounts@ == self.accounts@,
            r.payer matches Some(k) && k == keypair,
            r.wf() == self.wf(),
    {
        let address = keypair_address(&keypair);
        let mut g = self;
        g.payer = Some(keypair);
        g.add_address_label("Payer", address)
    }

    /// Configures an account at the address.  The address must be free:
    /// configuring two accounts at one address is a caller error, ruled out
    /// here, before any environment is produced.
    pub fn add_account(self, address: Address, config: AccountConfig) -> (r: EnvironmentGenesis)
        requires
            !self.spec_has_account(address),
            config.data@.len() <= MAX_ACCOUNT_DATA_LEN,
        ensures
            r.accounts@ == self.accounts@.push((address, config)),
            r.payer == self.payer,
            self.wf() ==> r.wf(),
    {
        let ghost old_g = self;
        let mut g = self;
        g.accounts.push((address, config));
        proof {
            if old_g.wf() {
                assert forall|i: int, j: int|
                    0 <= i < j < g.accounts@.len() implies (#[trigger] g.accounts@[i]).0@ != (
                #[trigger] g.accounts@[j]).0@ by {
                    if j < g.accounts@.len() - 1 {
                        assert(g.accounts@[i] == old_g.accounts@[i]);
                        assert(g.accounts@[j] == old_g.accounts@[j]);
                    } else {
                        assert(g.accounts@[i] == old_g.accounts@[i]);
                        assert(!old_g.spec_has_account(address));
                    }
                }
                assert forall|i: int|
                    0 <= i < g.accounts@.len() implies (#[trigger] g.accounts@[i]).1.data@.len()
                    <= MAX_ACCOUNT_DATA_LEN by {
                    if i < g.accounts@.len() - 1 {
                        assert(g.accounts@[i] == old_g.accounts@[i]);
                    }
                }
            }
        }
        g
    }

    /// Configures an executable program account at the address, owned by
    /// the legacy loader and holding the program's bytes.
    pub fn add_program(self, address: Address, data: Vec<u8>) -> (r: EnvironmentGenesis)
        requires
            !self.spec_has_account(address),
            data@.len() <= MAX_ACCOUNT_DATA_LEN,
        ensures
            r.accounts@.len() == self.accounts@.len() + 1,
            r.accounts@.subrange(0, self.accounts@.len() as int) == self.accounts@,
            r.accounts@[self.accounts@.len() as int].0 == address,
            r.accounts@[self.accounts@.len() as int].1.lamports is None,
            r.accounts@[self.accounts@.len() as int].1.data@ == data@,
            r.accounts@[self.accounts@.len() as int].1.owner@ == spec_bpf_loader_id(),
            r.accounts@[self.accounts@.len() as int].1.executable == true,
            r.payer == self.payer,
            self.wf() ==> r.wf(),
    {
        let ghost old_g = self;
        let config = AccountConfig {
            lamports: None,
            data,
            owner: bpf_loader_id(),
            executable: true,
        };
        let r = self.add_account(address, config);
        proof {
            assert(r.accounts@.subrange(0, old_g.accounts@.len() as int) =~= old_g.accounts@);
        }
        r
    }

    /// Records a diagnostic label for the address.  Labels are not part of
    /// the behavioral contract; the account set and payer are unchanged.
    pub fn add_address_label(self, label: &str, address: Address) -> (r: EnvironmentGenesis)
        ensures
            r.accounts@ == self.accounts@,
            r.payer == self.payer,
            r.wf() == self.wf(),
    {
        let mut g = self;
        g.address_labels.push((address, String::from_str(label)));
        g
    }

    /// Whether some account is already configured at the address.
    pub fn has_account(&self, address: Address) -> (r: bool)
        ensures
            r == self.spec_has_account(address),
    {
        let mut i: usize = 0;
        while i < self.accounts.len()
            invariant
                i <= self.accounts@.len(),
                forall|j: int| 0 <= j < i ==> (#[trigger] self.accounts@[j]).0@ != address@,
            decreases self.accounts@.len() - i,
        {
            if self.accounts[i].0 == address {
                return true;
            }
            i += 1;
        }
        false
    }
}

impl Default for EnvironmentGenesis {
    /// An empty configuration carrying the builtin address labels.
    fn default() -> (r: EnvironmentGenesis)
        ensures
            r.accounts@.len() == 0,
            r.payer is None,
            r.wf(),
    {
        let g = EnvironmentGenesis {
            accounts: Vec::new(),
            address_labels: Vec::new(),
            payer: None,
        };
        g.add_address_label("System Program", system_program_id())
            .add_address_label("Native Loader", native_loader_id())
            .add_address_label("BPF Loader", bpf_loader_id())
            .add_address_label("BPF Upgradeable Loader", bpf_loader_upgradeable_id())
            .add_address_label("SPL Token", spl_token_id())
            .add_address_label("SPL Memo 1.0", memo_v1_id())
            .add_address_label("SPL Memo 3.0", memo_v3_id())
            .add_address_label("SPL Associated Token", associated_token_program_id())
    }
}

/// Balance granted to the payer of a locally seeded ledger.
pub const PAYER_FUNDING_LAMPORTS: u64 = 1_000_000_000_000_000_000;

/// The account image a local build grants its payer: a large balance and
/// nothing else.
pub open spec fn spec_payer_account(a: AccountState) -> bool {
    &&& a.lamports == PAYER_FUNDING_LAMPORTS
    &&& a.data@ == Seq::<u8>::empty()
    &&& a.owner@ == spec_system_program_id()
    &&& a.executable == false
    &&& a.rent_epoch == 0
}

/// Everything a fresh in-process ledger is seeded with: the payer identity
/// and the full initial account set, each configured account materialized
/// and the payer funded last.
pub struct LocalLedgerSeed {
    pub payer: Keypair,
    pub payer_address: Address,
    pub accounts: Vec<(Address, AccountState)>,
    pub address_labels: Vec<(Address, String)>,
}

impl EnvironmentGenesis {
    /// Materializes the configuration into the seed of a fresh local
    /// ledger: every configured account at its configured-or-minimum
    /// rent-exempt balance, plus the supplied or freshly generated payer
    /// funded with a large balance.
    pub fn build_local_sync(self) -> (r: LocalLedgerSeed)
        requires
            self.wf(),
        ensures
            r.accounts@.len() == self.accounts@.len() + 1,
            forall|i: int|
                0 <= i < self.accounts@.len() ==> (#[trigger] r.accounts@[i]).0
                    == self.accounts@[i].0 && spec_materializes(
                    self.accounts@[i].1,
                    r.accounts@[i].1,
                ),
            r.accounts@[self.accounts@.len() as int].0 == r.payer_address,
            spec_payer_account(r.accounts@[self.accounts@.len() as int].1),
            self.payer matches Some(k) ==> r.payer == k,
    {
        let EnvironmentGenesis { accounts, address_labels, payer } = self;
        let payer = match payer {
            Some(k) => k,
            None => generate_keypair(),
        };
        let payer_address = keypair_address(&payer);
        let schedule = default_rent_schedule();
        let ghost orig = accounts@;
        let mut rest = accounts;
        let mut out: Vec<(Address, AccountState)> = Vec::new();
        while rest.len() > 0
            invariant
                out@.len() + rest@.len() == orig.len(),
                rest@ == orig.subrange(out@.len() as int, orig.len() as int),
                forall|i: int|
                    0 <= i < out@.len() ==> (#[trigger] out@[i]).0 == orig[i].0
                        && spec_materializes(orig[i].1, out@[i].1),
                forall|i: int|
                    0 <= i < orig.len() ==> (#[trigger] orig[i]).1.data@.len()
                        <= MAX_ACCOUNT_DATA_LEN,
                schedule == spec_default_rent_schedule(),
            decreases rest@.len(),
        {
            let ghost n = out@.len() as int;
            let ghost prev = out@;
            let ghost rest_prev = rest@;
            let (address, config) = rest.remove(0);
            proof {
                assert(rest_prev[0] == orig[n]);
                assert(rest@ =~= orig.subrange(n + 1, orig.len() as int));
            }
            let account = config.to_account(&schedule);
            out.push((address, account));
            proof {
                assert forall|i: int|
                    0 <= i < out@.len() implies (#[trigger] out@[i]).0 == orig[i].0
                    && spec_materializes(orig[i].1, out@[i].1) by {
                    if i < n {
                        assert(out@[i] == prev[i]);
                    }
                }
            }
        }
        proof {
            assert(out@.len() == orig.len());
        }
        let ghost before_payer = out@;
        out.push(
            (
                payer_address,
                AccountState {
                    lamports: PAYER_FUNDING_LAMPORTS,
                    data: Vec::new(),
                    owner: system_program_id(),
                    executable: false,
                    rent_epoch: 0,
                },
            ),
        );
        proof {
            assert forall|i: int|
                0 <= i < orig.len() implies (#[trigger] out@[i]).0 == orig[i].0
                && spec_materializes(orig[i].1, out@[i].1) by {
                assert(out@[i] == before_payer[i]);
            }
        }
        LocalLedgerSeed { payer, payer_address, accounts: out, address_labels }
    }
}

/// A backend wrapped with the payer identity, the cached rent schedule and
/// the diagnostic address labels.  Exactly one logical caller drives it at
/// a time.
pub struct Environment<C> {
    pub client: C,
    pub address_labels: Vec<(Address, String)>,
    pub payer: Keypair,
    pub payer_address: Address,
    pub rent: RentSchedule,
}

impl LocalLedgerSeed {
    /// Wraps a backend that was primed with this seed into an environment
    /// driven by the seed's payer.
    pub fn into_environment<C: ClientSync>(self, client: C) -> (r: Environment<C>)
        ensures
            r.wf(),
            r.payer == self.payer,
            r.payer_address == self.payer_address,
    {
        Environment {
            client,
            address_labels: self.address_labels,
            payer: self.payer,
            payer_address: self.payer_address,
            rent: default_rent_schedule(),
        }
    }
}

/// Balance below which an account of `len` data bytes owes rent, and at
/// least one lamport.
pub open spec fn spec_rent_exemption_amount(len: int) -> int {
    if spec_rent_exempt_minimum(len) >= 1 {
        spec_rent_exempt_minimum(len)
    } else {
        1
    }
}

impl<C> Environment<C> {
    /// The cached rent schedule never changes after construction.
    pub open spec fn wf(self) -> bool {
        self.rent == spec_default_rent_schedule()
    }

    /// Whether an operation left the environment's identity — payer, rent
    /// schedule and labels — untouched.
    pub open spec fn spec_same_identity(self, other: Environment<C>) -> bool {
        &&& self.payer == other.payer
        &&& self.payer_address == other.payer_address
        &&& self.rent == other.rent
        &&& self.address_labels == other.address_labels
    }

    /// The key pair that pays for and signs every transaction.
    pub fn payer(&self) -> (r: &Keypair)
        ensures
            *r == self.payer,
    {
        &self.payer
    }

    /// The cached rent schedule, computed once when the environment was
    /// built.
    pub fn rent(&self) -> (r: RentSchedule)
        ensures
            r == self.rent,
    {
        self.rent
    }

    /// The balance an account of `data_len` bytes needs to persist: the
    /// rent-exempt minimum under the environment's cached schedule, and at
    /// least one lamport.
    pub fn rent_exemption_amount(&self, data_len: usize) -> (r: u64)
        requires
            self.wf(),
            data_len <= MAX_ACCOUNT_DATA_LEN,
        ensures
            r as int == spec_rent_exemption_amount(data_len as int),
    {
        let m = default_rent_minimum_balance(data_len);
        if m >= 1 {
            m
        } else {
            1
        }
    }
}

/// Largest number of distinct addresses one submission may name: a message
/// indexes its account keys with one byte, with room kept for the payer.
pub const MAX_NAMED_ADDRESSES: usize = 254;

/// The record a single submission of `instructions` makes: the payer pays,
/// the signers co-sign, under the given blockhash.
pub open spec fn spec_submission(
    instructions: Seq<Instruction>,
    payer: Keypair,
    signers: Seq<&Keypair>,
    blockhash: BlockHash,
) -> SubmissionRecord {
    SubmissionRecord {
        instructions,
        payer,
        signers: spec_deref_signers(signers),
        blockhash,
    }
}

/// Whether the submission log grew by exactly one record.
pub open spec fn spec_grew_by_one(pre: Seq<SubmissionRecord>, post: Seq<SubmissionRecord>) -> bool {
    post.len() == pre.len() + 1 && post.drop_last() == pre
}

/// A log that grew by one push ends in the pushed record, over the old log.
proof fn lemma_pushed_submission(
    old_subs: Seq<SubmissionRecord>,
    new_subs: Seq<SubmissionRecord>,
    rec: SubmissionRecord,
)
    requires
        new_subs == old_subs.push(rec),
    ensures
        new_subs.len() == old_subs.len() + 1,
        new_subs.drop_last() == old_subs,
        new_subs.last() == rec,
{
    assert(new_subs.drop_last() =~= old_subs);
}

/// The named addresses of an instruction run stay within a message's
/// indexing bound whenever the per-instruction references are bounded.
proof fn lemma_reference_count_bound(instructions: Seq<Instruction>, k: int)
    requires
        k >= 0,
        forall|i: int| 0 <= i < instructions.len() ==> (#[trigger] instructions[i]).accounts@.len()
            <= k,
    ensures
        spec_address_reference_count(instructions) <= instructions.len() * (k + 1),
    decreases instructions.len(),
{
    if instructions.len() > 0 {
        let prefix = instructions.drop_last();
        assert(forall|i: int|
            0 <= i < prefix.len() ==> (#[trigger] prefix[i]).accounts@.len() <= k);
        lemma_reference_count_bound(prefix, k);
        assert((instructions.len() - 1) * (k + 1) + (k + 1) == instructions.len() * (k + 1))
            by (nonlinear_arith);
    }
}

/// A run of instructions that each touch at most `k` accounts, short enough
/// that `len * (k + 1)` stays within the message bound, names few enough
/// addresses to submit.
proof fn lemma_submission_bound(instructions: Seq<Instruction>, k: int)
    requires
        k >= 0,
        forall|i: int| 0 <= i < instructions.len() ==> (#[trigger] instructions[i]).accounts@.len()
            <= k,
        instructions.len() * (k + 1) <= MAX_NAMED_ADDRESSES,
    ensures
        spec_named_addresses(instructions).len() <= MAX_NAMED_ADDRESSES,
{
    lemma_named_addresses_bound(instructions);
    lemma_reference_count_bound(instructions, k);
}

/// The submission that creates and initializes a token mint: a system
/// create-account sized and funded for a mint record and owned by the token
/// program, then an initialize targeting the same new account, signed by
/// the mint's key pair.  Which address the mint record gets is the mint key
/// pair's, fixed only by the signature check.
pub open spec fn spec_is_create_token_mint_submission(
    rec: SubmissionRecord,
    payer: Keypair,
    payer_address: Address,
    mint: Keypair,
    authority: Address,
    freeze_authority: Option<Address>,
    decimals: u8,
) -> bool {
    &&& rec.payer == payer
    &&& rec.signers == seq![mint]
    &&& rec.instructions.len() == 2
    &&& rec.instructions[0].program@ == spec_system_program_id()
    &&& rec.instructions[0].accounts@.len() == 2
    &&& rec.instructions[0].accounts@[0] == (AccountMeta {
        address: payer_address,
        is_signer: true,
        is_writable: true,
    })
    &&& rec.instructions[0].accounts@[1].is_signer && rec.instructions[0].accounts@[1].is_writable
    &&& rec.instructions[0].data@ == spec_system_create_account_data(
        spec_rent_exempt_minimum(TOKEN_MINT_RECORD_SIZE as int) as u64,
        TOKEN_MINT_RECORD_SIZE as u64,
        spec_spl_token_id(),
    )
    &&& rec.instructions[1].program@ == spec_spl_token_id()
    &&& rec.instructions[1].accounts@.len() == 2
    &&& rec.instructions[1].accounts@[0].address
        == rec.instructions[0].accounts@[1].address
    &&& !rec.instructions[1].accounts@[0].is_signer && rec.instructions[1].accounts@[0].is_writable
    &&& rec.instructions[1].accounts@[1].address@ == spec_rent_sysvar_id()
    &&& rec.instructions[1].data@ == spec_initialize_mint_data(
        authority@,
        freeze_authority,
        decimals,
    )
}

/// The submission that mints tokens: one mint-to instruction over the mint
/// and recipient for the amount, authorized by the authority key pair's
/// signature.
pub open spec fn spec_is_mint_tokens_submission(
    rec: SubmissionRecord,
    payer: Keypair,
    mint: Address,
    authority: Keypair,
    recipient: Address,
    amount: u64,
) -> bool {
    &&& rec.payer == payer
    &&& rec.signers == seq![authority]
    &&& rec.instructions.len() == 1
    &&& rec.instructions[0].program@ == spec_spl_token_id()
    &&& rec.instructions[0].accounts@.len() == 3
    &&& rec.instructions[0].accounts@[0] == (AccountMeta {
        address: mint,
        is_signer: false,
        is_writable: true,
    })
    &&& rec.instructions[0].accounts@[1] == (AccountMeta {
        address: recipient,
        is_signer: false,
        is_writable: true,
    })
    &&& rec.instructions[0].accounts@[2].is_signer
        && !rec.instructions[0].accounts@[2].is_writable
    &&& rec.instructions[0].data@ == spec_mint_to_data(amount)
}

/// The submission that creates an associated token account: the one
/// creation instruction for the derived address, funded by the payer, with
/// no further signers.
pub open spec fn spec_is_create_ata_submission(
    rec: SubmissionRecord,
    payer: Keypair,
    payer_address: Address,
    owner: Address,
    mint: Address,
) -> bool {
    &&& rec.payer == payer
    &&& rec.signers == Seq::<Keypair>::empty()
    &&& rec.instructions.len() == 1
    &&& rec.instructions[0].program@ == spec_associated_token_program_id()
    &&& rec.instructions[0].accounts@.len() == 7
    &&& rec.instructions[0].accounts@[0] == (AccountMeta {
        address: payer_address,
        is_signer: true,
        is_writable: true,
    })
    &&& rec.instructions[0].accounts@[1].address@ == spec_associated_token_address(owner@, mint@)
    &&& rec.instructions[0].accounts@[2].address == owner
    &&& rec.instructions[0].accounts@[3].address == mint
    &&& rec.instructions[0].data@ == Seq::<u8>::empty()
}

/// Signs a plan into a ledger transaction: the plan's instructions become
/// the message, its payer the fee payer and first signer, its further
/// signers co-sign, under its blockhash.  Backends use this to carry a
/// received plan onto the wire.
pub fn instructions_to_tx(plan: &TransactionPlan) -> Transaction
    requires
        spec_named_addresses(plan.instructions@).len() <= MAX_NAMED_ADDRESSES,
{
    let message = build_message(plan.instructions.as_slice(), keypair_address(plan.payer));
    sign_transaction(
        new_unsigned_transaction(message),
        plan.payer,
        plan.signers.as_slice(),
        plan.blockhash,
    )
}

impl<C: ClientSync> Environment<C> {
    /// Executes the instructions as one transaction signed by the payer and
    /// the supplied signers: the backend is handed exactly `instructions`,
    /// with the payer as fee payer, to be signed by the payer and `signers`
    /// under a blockhash the backend reported.  Success is signal-only — the
    /// outcome's payload is discarded.  A blockhash failure is returned as a
    /// transport error with nothing submitted; a submission error is
    /// returned unchanged; a query error never arises.
    pub fn run_instructions(&mut self, instructions: Vec<Instruction>, signers: &[&Keypair]) -> (r:
        Result<(), ClientError<C::ChannelError>>)
        requires
            spec_named_addresses(instructions@).len() <= MAX_NAMED_ADDRESSES,
        ensures
            final(self).spec_same_identity(*old(self)),
            r matches Err(e) ==> !(e is AccountNotFound) && !(e is InvalidAccountData),
            r is Ok ==> exists|h: BlockHash|
                final(self).client.submissions() == old(self).client.submissions().push(
                    #[trigger] spec_submission(instructions@, old(self).payer, signers@, h),
                ),
            r is Err ==> (final(self).client.submissions() == old(self).client.submissions() && r
                matches Err(ClientError::ChannelError(_))) || (exists|h: BlockHash|
                final(self).client.submissions() == old(self).client.submissions().push(
                    #[trigger] spec_submission(instructions@, old(self).payer, signers@, h),
                )),
    {
        let blockhash = match self.client.latest_blockhash() {
            Ok(h) => h,
            Err(e) => {
                return Err(ClientError::ChannelError(e));
            },
        };
        let ghost instructions_view = instructions@;
        let plan = TransactionPlan {
            instructions,
            payer: &self.payer,
            signers: slice_to_vec(signers),
            blockhash,
        };
        proof {
            assert(plan@ == spec_submission(instructions_view, self.payer, signers@, blockhash));
        }
        match self.client.send_transaction(plan) {
            Ok(_) => Ok(()),
            Err(e) => Err(e),
        }
    }

    /// Executes a single instruction as a transaction, handing the backend
    /// exactly that instruction under the payer and `signers`.
    pub fn run_instruction(&mut self, instruction: Instruction, signers: &[&Keypair]) -> (r: Result<
        (),
        ClientError<C::ChannelError>,
    >)
        requires
            spec_named_addresses(seq![instruction]).len() <= MAX_NAMED_ADDRESSES,
        ensures
            final(self).spec_same_identity(*old(self)),
            r matches Err(e) ==> !(e is AccountNotFound) && !(e is InvalidAccountData),
            r is Ok ==> exists|h: BlockHash|
                final(self).client.submissions() == old(self).client.submissions().push(
                    #[trigger] spec_submission(seq![instruction], old(self).payer, signers@, h),
                ),
            r is Err ==> (final(self).client.submissions() == old(self).client.submissions() && r
                matches Err(ClientError::ChannelError(_))) || (exists|h: BlockHash|
                final(self).client.submissions() == old(self).client.submissions().push(
                    #[trigger] spec_submission(seq![instruction], old(self).payer, signers@, h),
                )),
    {
        let ghost single = instruction;
        let instructions = vec![instruction];
        proof {
            assert(instructions@ =~= seq![single]);
        }
        self.run_instructions(instructions, signers)
    }

    /// Reads the account at the address, straight from the backend.
    pub fn get_account(&mut self, address: Address) -> (r: Result<
        AccountState,
        ClientError<C::ChannelError>,
    >)
        ensures
            final(self).spec_same_identity(*old(self)),
            r matches Err(e) ==> e is ChannelError || e == ClientError::<
                C::ChannelError,
            >::AccountNotFound(address),
    {
        self.client.get_account(address)
    }

    /// Reads how much token the account at the address holds: the fetched
    /// account is decoded by `token_amount_of`, failing with
    /// `InvalidAccountData` at that address exactly when the bytes do not
    /// decode; a success is the decoded amount of some account the backend
    /// returned for the address.
    pub fn token_balance(&mut self, token_account: Address) -> (r: Result<
        u64,
        ClientError<C::ChannelError>,
    >)
        ensures
            final(self).spec_same_identity(*old(self)),
            final(self).client.submissions() == old(self).client.submissions(),
            r matches Ok(n) ==> exists|data: Seq<u8>| #[trigger] spec_unpacked_token_amount(data)
                == Some(n),
            r matches Err(e) ==> e is ChannelError || e == ClientError::<
                C::ChannelError,
            >::AccountNotFound(token_account) || e == ClientError::<
                C::ChannelError,
            >::InvalidAccountData(token_account),
    {
        let account = match self.client.get_account(token_account) {
            Ok(a) => a,
            Err(e) => {
                return Err(e);
            },
        };
        match token_amount_of(&account) {
            Some(amount) => {
                proof {
                    assert(spec_unpacked_token_amount(account.data@) == Some(amount));
                }
                Ok(amount)
            },
            None => Err(ClientError::InvalidAccountData(token_account)),
        }
    }

    /// Creates a new token mint under the provided key pair: hands the
    /// backend one transaction that creates an account sized and funded for
    /// a mint record and owned by the token program, then initializes it
    /// with the authority and decimals, signed by the payer and the mint.
    pub fn create_token_mint(
        &mut self,
        mint: &Keypair,
        authority: Address,
        freeze_authority: Option<Address>,
        decimals: u8,
    ) -> (r: Result<(), ClientError<C::ChannelError>>)
        ensures
            final(self).spec_same_identity(*old(self)),
            r matches Err(e) ==> !(e is AccountNotFound) && !(e is InvalidAccountData),
            r is Ok ==> spec_grew_by_one(
                old(self).client.submissions(),
                final(self).client.submissions(),
            ) && spec_is_create_token_mint_submission(
                final(self).client.submissions().last(),
                old(self).payer,
                old(self).payer_address,
                *mint,
                authority,
                freeze_authority,
                decimals,
            ),
            r is Err ==> (final(self).client.submissions() == old(self).client.submissions() && r
                matches Err(ClientError::ChannelError(_))) || (spec_grew_by_one(
                old(self).client.submissions(),
                final(self).client.submissions(),
            ) && spec_is_create_token_mint_submission(
                final(self).client.submissions().last(),
                old(self).payer,
                old(self).payer_address,
                *mint,
                authority,
                freeze_authority,
                decimals,
            )),
    {
        let mint_address = keypair_address(mint);
        let lamports = default_rent_minimum_balance(TOKEN_MINT_RECORD_SIZE);
        let create = system_create_account_instruction(
            self.payer_address,
            mint_address,
            lamports,
            TOKEN_MINT_RECORD_SIZE as u64,
            spl_token_id(),
        );
        let init = initialize_mint_instruction(mint_address, authority, freeze_authority, decimals);
        let ghost gc = create;
        let ghost gi = init;
        let instructions = vec![create, init];
        let ghost iview = instructions@;
        proof {
            assert(iview =~= seq![gc, gi]);
            lemma_submission_bound(iview, 2);
        }
        let signer_refs: Vec<&Keypair> = vec![mint];
        proof {
            assert(signer_refs@ =~= seq![mint]);
        }
        let r = self.run_instructions(instructions, signer_refs.as_slice());
        proof {
            let old_subs = old(self).client.submissions();
            let new_subs = self.client.submissions();
            if new_subs != old_subs {
                let h = choose|h: BlockHash|
                    new_subs == old_subs.push(
                        spec_submission(iview, old(self).payer, seq![mint], h),
                    );
                let rec = spec_submission(iview, old(self).payer, seq![mint], h);
                lemma_pushed_submission(old_subs, new_subs, rec);
                assert(rec.signers =~= seq![*mint]);
                assert(spec_is_create_token_mint_submission(
                    rec,
                    old(self).payer,
                    old(self).payer_address,
                    *mint,
                    authority,
                    freeze_authority,
                    decimals,
                ));
            }
        }
        r
    }

    /// Mints tokens to the recipient token account: hands the backend one
    /// transaction holding the single mint-to instruction for the amount,
    /// signed by the payer and the mint authority.
    pub fn mint_tokens(
        &mut self,
        mint: Address,
        authority: &Keypair,
        recipient: Address,
        amount: u64,
    ) -> (r: Result<(), ClientError<C::ChannelError>>)
        ensures
            final(self).spec_same_identity(*old(self)),
            r matches Err(e) ==> !(e is AccountNotFound) && !(e is InvalidAccountData),
            r is Ok ==> spec_grew_by_one(
                old(self).client.submissions(),
                final(self).client.submissions(),
            ) && spec_is_mint_tokens_submission(
                final(self).client.submissions().last(),
                old(self).payer,
                mint,
                *authority,
                recipient,
                amount,
            ),
            r is Err ==> (final(self).client.submissions() == old(self).client.submissions() && r
                matches Err(ClientError::ChannelError(_))) || (spec_grew_by_one(
                old(self).client.submissions(),
                final(self).client.submissions(),
            ) && spec_is_mint_tokens_submission(
                final(self).client.submissions().last(),
                old(self).payer,
                mint,
                *authority,
                recipient,
                amount,
            )),
    {
        let ix = mint_to_instruction(mint, recipient, keypair_address(authority), amount);
        let ghost gix = ix;
        proof {
            lemma_submission_bound(seq![gix], 3);
        }
        let signer_refs: Vec<&Keypair> = vec![authority];
        proof {
            assert(signer_refs@ =~= seq![authority]);
        }
        let r = self.run_instruction(ix, signer_refs.as_slice());
        proof {
            let old_subs = old(self).client.submissions();
            let new_subs = self.client.submissions();
            if new_subs != old_subs {
                let h = choose|h: BlockHash|
                    new_subs == old_subs.push(
                        spec_submission(seq![gix], old(self).payer, seq![authority], h),
                    );
                let rec = spec_submission(seq![gix], old(self).payer, seq![authority], h);
                lemma_pushed_submission(old_subs, new_subs, rec);
                assert(rec.signers =~= seq![*authority]);
                assert(spec_is_mint_tokens_submission(
                    rec,
                    old(self).payer,
                    mint,
                    *authority,
                    recipient,
                    amount,
                ));
            }
        }
        r
    }

    /// Creates a token account under the associated token account scheme:
    /// hands the backend the one creation instruction, funded by the payer
    /// with no further signers, and returns the deterministically derived
    /// address with no follow-up read.
    pub fn create_associated_token_account(&mut self, owner: Address, mint: Address) -> (r: Result<
        Address,
        ClientError<C::ChannelError>,
    >)
        ensures
            final(self).spec_same_identity(*old(self)),
            r matches Ok(a) ==> a@ == spec_associated_token_address(owner@, mint@),
            r matches Err(e) ==> !(e is AccountNotFound) && !(e is InvalidAccountData),
            r is Ok ==> spec_grew_by_one(
                old(self).client.submissions(),
                final(self).client.submissions(),
            ) && spec_is_create_ata_submission(
                final(self).client.submissions().last(),
                old(self).payer,
                old(self).payer_address,
                owner,
                mint,
            ),
            r is Err ==> (final(self).client.submissions() == old(self).client.submissions() && r
                matches Err(ClientError::ChannelError(_))) || (spec_grew_by_one(
                old(self).client.submissions(),
                final(self).client.submissions(),
            ) && spec_is_create_ata_submission(
                final(self).client.submissions().last(),
                old(self).payer,
                old(self).payer_address,
                owner,
                mint,
            )),
    {
        let ix = create_associated_token_account_instruction(self.payer_address, owner, mint);
        let ghost gix = ix;
        proof {
            lemma_submission_bound(seq![gix], 7);
        }
        let signer_refs: Vec<&Keypair> = Vec::new();
        let r = match self.run_instruction(ix, signer_refs.as_slice()) {
            Ok(_) => Ok(associated_token_address(owner, mint)),
            Err(e) => Err(e),
        };
        proof {
            let old_subs = old(self).client.submissions();
            let new_subs = self.client.submissions();
            if new_subs != old_subs {
                let ghost empty_signers: Seq<&Keypair> = Seq::empty();
                let h = choose|h: BlockHash|
                    new_subs == old_subs.push(
                        spec_submission(seq![gix], old(self).payer, empty_signers, h),
                    );
                let rec = spec_submission(seq![gix], old(self).payer, empty_signers, h);
                lemma_pushed_submission(old_subs, new_subs, rec);
                assert(rec.signers =~= Seq::<Keypair>::empty());
                assert(spec_is_create_ata_submission(
                    rec,
                    old(self).payer,
                    old(self).payer_address,
                    owner,
                    mint,
                ));
            }
        }
        r
    }
}

/// The token amount a fetched account's bytes decode to, if they decode as
/// a token-account record.
pub fn token_amount_of(account: &AccountState) -> (r: Option<u64>)
    ensures
        r == spec_unpacked_token_amount(account.data@),
{
    unpack_token_amount(account.data.as_slice())
}

/// Serialized size of a token mint record.
pub const TOKEN_MINT_RECORD_SIZE: usize = 82;

/// The associated token account address for a wallet and a mint, derived
/// with no ledger interaction.
pub fn associated_token_account_address(owner: Address, mint: Address) -> (r: Address)
    ensures
        r@ == spec_associated_token_address(owner@, mint@),
{
    associated_token_address(owner, mint)
}

/// The program-data address the upgradeable loader will use for a program,
/// derived with no ledger interaction; it exists for all but a vanishing
/// fraction of addresses.
pub fn program_data_address(program: Address) -> (r: Option<Address>)
    ensures
        match r {
            Option::Some(a) => Some(a@) == spec_program_data_address(program@),
            Option::None => spec_program_data_address(program@) is None,
        },
{
    derive_program_data_address(program)
}

/// The sequence of legacy-loader write instructions that uploads the
/// payload into the account: chunk `i` of the payload, written at offset
/// `CHUNK_SIZE * i`.
pub fn legacy_write_instructions(account: Address, data: &[u8]) -> (r: Vec<Instruction>)
    requires
        data@.len() <= MAX_ACCOUNT_DATA_LEN,
    ensures
        r@.len() == spec_chunk_count(data@.len()),
        forall|i: int|
            0 <= i < r@.len() ==> spec_is_loader_write(
                #[trigger] r@[i],
                account,
                (CHUNK_SIZE * i) as u32,
                spec_chunk_at(data@, i),
            ),
{
    let mut chunks = chunk_payload(data);
    let ghost orig = chunks@;
    let mut r: Vec<Instruction> = Vec::new();
    while chunks.len() > 0
        invariant
            r@.len() + chunks@.len() == orig.len(),
            chunks@ == orig.subrange(r@.len() as int, orig.len() as int),
            orig.len() == spec_chunk_count(data@.len()),
            forall|i: int|
                0 <= i < orig.len() ==> (#[trigger] orig[i]).0 as int == CHUNK_SIZE * i
                    && orig[i].1@ == spec_chunk_at(data@, i),
            forall|i: int|
                0 <= i < r@.len() ==> spec_is_loader_write(
                    #[trigger] r@[i],
                    account,
                    (CHUNK_SIZE * i) as u32,
                    spec_chunk_at(data@, i),
                ),
        decreases chunks@.len(),
    {
        let ghost n = r@.len() as int;
        let ghost prev = r@;
        let ghost chunks_prev = chunks@;
        let (offset, bytes) = chunks.remove(0);
        proof {
            assert(chunks_prev[0] == orig[n]);
            assert(chunks@ =~= orig.subrange(n + 1, orig.len() as int));
            assert(offset as int == CHUNK_SIZE * n);
            assert((CHUNK_SIZE * n) as u32 == offset);
        }
        let ix = loader_write_instruction(account, offset, bytes);
        r.push(ix);
        proof {
            assert forall|i: int|
                0 <= i < r@.len() implies spec_is_loader_write(
                #[trigger] r@[i],
                account,
                (CHUNK_SIZE * i) as u32,
                spec_chunk_at(data@, i),
            ) by {
                if i < n {
                    assert(r@[i] == prev[i]);
                }
            }
        }
    }
    r
}

/// The sequence of upgradeable-loader write instructions that uploads the
/// payload into the buffer under the authority: chunk `i` of the payload,
/// written at offset `CHUNK_SIZE * i`.
pub fn upgradeable_write_instructions(buffer: Address, authority: Address, data: &[u8]) -> (r: Vec<
    Instruction,
>)
    requires
        data@.len() <= MAX_ACCOUNT_DATA_LEN,
    ensures
        r@.len() == spec_chunk_count(data@.len()),
        forall|i: int|
            0 <= i < r@.len() ==> spec_is_upgradeable_write(
                #[trigger] r@[i],
                buffer,
                authority,
                (CHUNK_SIZE * i) as u32,
                spec_chunk_at(data@, i),
            ),
{
    let mut chunks = chunk_payload(data);
    let ghost orig = chunks@;
    let mut r: Vec<Instruction> = Vec::new();
    while chunks.len() > 0
        invariant
            r@.len() + chunks@.len() == orig.len(),
            chunks@ == orig.subrange(r@.len() as int, orig.len() as int),
            orig.len() == spec_chunk_count(data@.len()),
            forall|i: int|
                0 <= i < orig.len() ==> (#[trigger] orig[i]).0 as int == CHUNK_SIZE * i
                    && orig[i].1@ == spec_chunk_at(data@, i),
            forall|i: int|
                0 <= i < r@.len() ==> spec_is_upgradeable_write(
                    #[trigger] r@[i],
                    buffer,
                    authority,
                    (CHUNK_SIZE * i) as u32,
                    spec_chunk_at(data@, i),
                ),
        decreases chunks@.len(),
    {
        let ghost n = r@.len() as int;
        let ghost prev = r@;
        let ghost chunks_prev = chunks@;
        let (offset, bytes) = chunks.remove(0);
        proof {
            assert(chunks_prev[0] == orig[n]);
            assert(chunks@ =~= orig.subrange(n + 1, orig.len() as int));
            assert(offset as int == CHUNK_SIZE * n);
            assert((CHUNK_SIZE * n) as u32 == offset);
        }
        let ix = upgradeable_write_instruction(buffer, authority, offset, bytes);
        r.push(ix);
        proof {
            assert forall|i: int|
                0 <= i < r@.len() implies spec_is_upgradeable_write(
                #[trigger] r@[i],
                buffer,
                authority,
                (CHUNK_SIZE * i) as u32,
                spec_chunk_at(data@, i),
            ) by {
                if i < n {
                    assert(r@[i] == prev[i]);
                }
            }
        }
    }
    r
}

/// The payload bytes the first `n` upload instructions carry behind their
/// fixed sixteen-byte write headers — variant tag, offset and chunk
/// length — in order.
pub open spec fn spec_uploaded_bytes(instructions: Seq<Instruction>, n: int) -> Seq<u8>
    decreases n,
{
    if n <= 0 {
        Seq::empty()
    } else {
        spec_uploaded_bytes(instructions, n - 1) + instructions[n - 1].data@.skip(
            16,
        )
    }
}

/// A write instruction's payload carries exactly its chunk behind the fixed
/// header, for both loaders.
pub proof fn lemma_write_data_carries_chunk(offset: u32, chunk: Seq<u8>)
    ensures
        spec_loader_write_data(offset, chunk).skip(16) == chunk,
        spec_upgradeable_write_data(offset, chunk).skip(16) == chunk,
{
    assert(spec_loader_write_data(offset, chunk).skip(16) =~= chunk);
    assert(spec_upgradeable_write_data(offset, chunk).skip(16) =~= chunk);
}

/// Chunk coverage through an upload: where instruction `i` carries chunk
/// `i` of the payload behind its fixed write header — as the sequences
/// built by `legacy_write_instructions` and `upgradeable_write_instructions`
/// do — the instructions carry exactly the payload, so the account ends up
/// holding the original bytes.
pub proof fn lemma_upload_reconstructs_payload(instructions: Seq<Instruction>, data: Seq<u8>)
    requires
        instructions.len() == spec_chunk_count(data.len()),
        forall|i: int|
            0 <= i < instructions.len() ==> (#[trigger] instructions[i]).data@.skip(
                16,
            ) == spec_chunk_at(data, i),
    ensures
        spec_uploaded_bytes(instructions, instructions.len() as int) == data,
{
    assert forall|n: int|
        0 <= n <= instructions.len() implies spec_uploaded_bytes(instructions, n)
        == crate::chunk::spec_chunks_concat(data, n) by {
        lemma_uploaded_bytes_align(instructions, data, n);
    }
    crate::chunk::lemma_chunks_reconstruct(data);
}

/// The first `n` upload payloads agree with the first `n` chunks.
proof fn lemma_uploaded_bytes_align(instructions: Seq<Instruction>, data: Seq<u8>, n: int)
    requires
        instructions.len() == spec_chunk_count(data.len()),
        0 <= n <= instructions.len(),
        forall|i: int|
            0 <= i < instructions.len() ==> (#[trigger] instructions[i]).data@.skip(
                16,
            ) == spec_chunk_at(data, i),
    ensures
        spec_uploaded_bytes(instructions, n) == crate::chunk::spec_chunks_concat(data, n),
    decreases n,
{
    if n > 0 {
        lemma_uploaded_bytes_align(instructions, data, n - 1);
    }
}


/// The submission that creates an upload target: a system create-account
/// for `account_address`, sized exactly to the payload and funded at its
/// rent-exempt minimum, owned by the legacy loader, signed by the payer and
/// the account's key pair.
pub open spec fn spec_is_create_upload_account_submission(
    rec: SubmissionRecord,
    payer: Keypair,
    payer_address: Address,
    account_address: Address,
    account: Keypair,
    data_len: int,
) -> bool {
    &&& rec.payer == payer
    &&& rec.signers == seq![account]
    &&& rec.instructions.len() == 1
    &&& rec.instructions[0].program@ == spec_system_program_id()
    &&& rec.instructions[0].accounts@.len() == 2
    &&& rec.instructions[0].accounts@[0] == (AccountMeta {
        address: payer_address,
        is_signer: true,
        is_writable: true,
    })
    &&& rec.instructions[0].accounts@[1] == (AccountMeta {
        address: account_address,
        is_signer: true,
        is_writable: true,
    })
    &&& rec.instructions[0].data@ == spec_system_create_account_data(
        spec_rent_exempt_minimum(data_len) as u64,
        data_len as u64,
        spec_bpf_loader_id(),
    )
}

/// Submission `i` of a chunked legacy upload: the single write of chunk `i`
/// at its offset, signed by the account's key pair.
pub open spec fn spec_is_legacy_write_submission(
    rec: SubmissionRecord,
    payer: Keypair,
    account_address: Address,
    account: Keypair,
    data: Seq<u8>,
    i: int,
) -> bool {
    &&& rec.payer == payer
    &&& rec.signers == seq![account]
    &&& rec.instructions.len() == 1
    &&& spec_is_loader_write(
        rec.instructions[0],
        account_address,
        (CHUNK_SIZE * i) as u32,
        spec_chunk_at(data, i),
    )
}

/// The submissions of a full chunked upload into `account_address`: the
/// creation, then one write per chunk, in offset order, appended to the
/// earlier log.
pub open spec fn spec_is_upload_submissions(
    pre: Seq<SubmissionRecord>,
    post: Seq<SubmissionRecord>,
    payer: Keypair,
    payer_address: Address,
    account_address: Address,
    account: Keypair,
    data: Seq<u8>,
) -> bool {
    &&& post.len() == pre.len() + 1 + spec_chunk_count(data.len())
    &&& post.subrange(0, pre.len() as int) == pre
    &&& spec_is_create_upload_account_submission(
        post[pre.len() as int],
        payer,
        payer_address,
        account_address,
        account,
        data.len() as int,
    )
    &&& forall|i: int|
        0 <= i < spec_chunk_count(data.len()) ==> spec_is_legacy_write_submission(
            #[trigger] post[pre.len() + 1 + i],
            payer,
            account_address,
            account,
            data,
            i,
        )
}

/// The submission that finalizes a legacy upload, marking the account
/// executable: the single finalize instruction, signed by the account's
/// key pair.
pub open spec fn spec_is_finalize_submission(
    rec: SubmissionRecord,
    payer: Keypair,
    account_address: Address,
    account: Keypair,
) -> bool {
    &&& rec.payer == payer
    &&& rec.signers == seq![account]
    &&& rec.instructions.len() == 1
    &&& rec.instructions[0].program@ == spec_bpf_loader_id()
    &&& rec.instructions[0].accounts@.len() == 2
    &&& rec.instructions[0].accounts@[0] == (AccountMeta {
        address: account_address,
        is_signer: true,
        is_writable: true,
    })
    &&& rec.instructions[0].accounts@[1].address@ == spec_rent_sysvar_id()
    &&& rec.instructions[0].data@ == seq![1u8, 0u8, 0u8, 0u8]
}

/// The submissions of a full legacy deployment: the chunked upload, then
/// the finalize.
pub open spec fn spec_is_legacy_deploy_submissions(
    pre: Seq<SubmissionRecord>,
    post: Seq<SubmissionRecord>,
    payer: Keypair,
    payer_address: Address,
    program_address: Address,
    program_account: Keypair,
    data: Seq<u8>,
) -> bool {
    &&& post.len() >= 1
    &&& spec_is_upload_submissions(
        pre,
        post.drop_last(),
        payer,
        payer_address,
        program_address,
        program_account,
        data,
    )
    &&& spec_is_finalize_submission(post.last(), payer, program_address, program_account)
}

/// The submission that creates and funds an upgradeable-loader buffer: a
/// system create-account for the buffer, sized to its metadata plus `max`
/// payload bytes and funded at the rent-exempt minimum of the program-data
/// record it will back, then the buffer initialization under the authority,
/// signed by the payer and the buffer's key pair.
pub open spec fn spec_is_create_buffer_submission(
    rec: SubmissionRecord,
    payer: Keypair,
    payer_address: Address,
    buffer: Address,
    buffer_account: Keypair,
    authority: Address,
    max: int,
) -> bool {
    &&& rec.payer == payer
    &&& rec.signers == seq![buffer_account]
    &&& rec.instructions.len() == 2
    &&& rec.instructions[0].program@ == spec_system_program_id()
    &&& rec.instructions[0].accounts@.len() == 2
    &&& rec.instructions[0].accounts@[0] == (AccountMeta {
        address: payer_address,
        is_signer: true,
        is_writable: true,
    })
    &&& rec.instructions[0].accounts@[1] == (AccountMeta {
        address: buffer,
        is_signer: true,
        is_writable: true,
    })
    &&& rec.instructions[0].data@ == spec_system_create_account_data(
        spec_rent_exempt_minimum(PROGRAMDATA_METADATA_SIZE + max) as u64,
        (BUFFER_METADATA_SIZE + max) as u64,
        spec_bpf_loader_upgradeable_id(),
    )
    &&& rec.instructions[1].program@ == spec_bpf_loader_upgradeable_id()
    &&& rec.instructions[1].accounts@.len() == 2
    &&& rec.instructions[1].accounts@[0] == (AccountMeta {
        address: buffer,
        is_signer: false,
        is_writable: true,
    })
    &&& rec.instructions[1].accounts@[1] == (AccountMeta {
        address: authority,
        is_signer: false,
        is_writable: false,
    })
    &&& rec.instructions[1].data@ == seq![0u8, 0u8, 0u8, 0u8]
}

/// Submission `i` of a chunked buffer upload: the single write of chunk `i`
/// at its offset, signed by the authority's key pair.
pub open spec fn spec_is_buffer_write_submission(
    rec: SubmissionRecord,
    payer: Keypair,
    buffer: Address,
    authority: Address,
    authority_account: Keypair,
    data: Seq<u8>,
    i: int,
) -> bool {
    &&& rec.payer == payer
    &&& rec.signers == seq![authority_account]
    &&& rec.instructions.len() == 1
    &&& spec_is_upgradeable_write(
        rec.instructions[0],
        buffer,
        authority,
        (CHUNK_SIZE * i) as u32,
        spec_chunk_at(data, i),
    )
}

/// The submission that finishes an upgradeable deployment: a system
/// create-account for the program record, then the deploy naming the
/// derived program-data account, program, buffer, sysvars, system program
/// and signing authority, signed by the payer, the program's key pair and
/// the authority.
pub open spec fn spec_is_deploy_finish_submission(
    rec: SubmissionRecord,
    payer: Keypair,
    payer_address: Address,
    program: Address,
    program_account: Keypair,
    buffer: Address,
    authority: Address,
    authority_account: Keypair,
    max: int,
) -> bool {
    &&& rec.payer == payer
    &&& rec.signers == seq![program_account, authority_account]
    &&& rec.instructions.len() == 2
    &&& rec.instructions[0].program@ == spec_system_program_id()
    &&& rec.instructions[0].accounts@.len() == 2
    &&& rec.instructions[0].accounts@[0] == (AccountMeta {
        address: payer_address,
        is_signer: true,
        is_writable: true,
    })
    &&& rec.instructions[0].accounts@[1] == (AccountMeta {
        address: program,
        is_signer: true,
        is_writable: true,
    })
    &&& rec.instructions[0].data@ == spec_system_create_account_data(
        spec_rent_exempt_minimum(PROGRAM_ACCOUNT_SIZE as int) as u64,
        PROGRAM_ACCOUNT_SIZE as u64,
        spec_bpf_loader_upgradeable_id(),
    )
    &&& rec.instructions[1].program@ == spec_bpf_loader_upgradeable_id()
    &&& rec.instructions[1].accounts@.len() == 8
    &&& rec.instructions[1].accounts@[0] == (AccountMeta {
        address: payer_address,
        is_signer: true,
        is_writable: true,
    })
    &&& Some(rec.instructions[1].accounts@[1].address@) == spec_program_data_address(program@)
    &&& rec.instructions[1].accounts@[2] == (AccountMeta {
        address: program,
        is_signer: false,
        is_writable: true,
    })
    &&& rec.instructions[1].accounts@[3] == (AccountMeta {
        address: buffer,
        is_signer: false,
        is_writable: true,
    })
    &&& rec.instructions[1].accounts@[7] == (AccountMeta {
        address: authority,
        is_signer: true,
        is_writable: false,
    })
    &&& rec.instructions[1].data@ == spec_deploy_data(max as u64)
}

/// The submissions of a full upgradeable deployment: the buffer creation,
/// one write per chunk in offset order, then the deploy.
pub open spec fn spec_is_upgradeable_deploy_submissions(
    pre: Seq<SubmissionRecord>,
    post: Seq<SubmissionRecord>,
    payer: Keypair,
    payer_address: Address,
    program: Address,
    program_account: Keypair,
    buffer: Address,
    buffer_account: Keypair,
    authority: Address,
    authority_account: Keypair,
    data: Seq<u8>,
    max: int,
) -> bool {
    &&& post.len() == pre.len() + 2 + spec_chunk_count(data.len())
    &&& post.subrange(0, pre.len() as int) == pre
    &&& spec_is_create_buffer_submission(
        post[pre.len() as int],
        payer,
        payer_address,
        buffer,
        buffer_account,
        authority,
        max,
    )
    &&& forall|i: int|
        0 <= i < spec_chunk_count(data.len()) ==> spec_is_buffer_write_submission(
            #[trigger] post[pre.len() + 1 + i],
            payer,
            buffer,
            authority,
            authority_account,
            data,
            i,
        )
    &&& spec_is_deploy_finish_submission(
        post.last(),
        payer,
        payer_address,
        program,
        program_account,
        buffer,
        authority,
        authority_account,
        max,
    )
}

impl<C: ClientSync> Environment<C> {
    /// Creates an empty account at the known address, sized exactly to the
    /// payload, funded at the rent-exempt minimum and owned by the legacy
    /// loader, then uploads the payload in bounded chunks via sequential
    /// offset-indexed writes — a single transaction cannot carry an
    /// arbitrarily large payload.  Each phase is its own transaction; a
    /// failure is surfaced as it is, with no rollback of earlier phases.
    /// The key pair signs for the address; a mismatched pair is the
    /// ledger's to reject.
    pub fn create_account_with_data_at(
        &mut self,
        account_address: Address,
        account: &Keypair,
        data: &[u8],
    ) -> (r: Result<(), ClientError<C::ChannelError>>)
        requires
            data@.len() <= MAX_ACCOUNT_DATA_LEN,
        ensures
            final(self).spec_same_identity(*old(self)),
            final(self).client.submissions().len() >= old(self).client.submissions().len(),
            final(self).client.submissions().subrange(
                0,
                old(self).client.submissions().len() as int,
            ) == old(self).client.submissions(),
            r matches Err(e) ==> !(e is AccountNotFound) && !(e is InvalidAccountData),
            r matches Err(e) && !(e is ChannelError) ==> final(self).client.submissions().len()
                > old(self).client.submissions().len(),
            r is Ok ==> spec_is_upload_submissions(
                old(self).client.submissions(),
                final(self).client.submissions(),
                old(self).payer,
                old(self).payer_address,
                account_address,
                *account,
                data@,
            ),
    {
        let ghost pre = self.client.submissions();
        let lamports = default_rent_minimum_balance(data.len());
        let create = system_create_account_instruction(
            self.payer_address,
            account_address,
            lamports,
            data.len() as u64,
            bpf_loader_id(),
        );
        let ghost gc = create;
        let signer_refs: Vec<&Keypair> = vec![account];
        proof {
            assert(signer_refs@ =~= seq![account]);
            lemma_submission_bound(seq![gc], 2);
        }
        match self.run_instruction(create, signer_refs.as_slice()) {
            Ok(_) => {},
            Err(e) => {
                proof {
                    lemma_prefix_after_step(pre, self.client.submissions());
                }
                return Err(e);
            },
        }
        proof {
            let h = choose|h: BlockHash|
                self.client.submissions() == pre.push(
                    spec_submission(seq![gc], old(self).payer, seq![account], h),
                );
            let rec = spec_submission(seq![gc], old(self).payer, seq![account], h);
            lemma_pushed_submission(pre, self.client.submissions(), rec);
            assert(rec.signers =~= seq![*account]);
            assert(self.client.submissions()[pre.len() as int] == rec);
            assert(self.client.submissions().subrange(0, pre.len() as int) =~= pre);
        }
        let mut writes = legacy_write_instructions(account_address, data);
        let ghost total = writes@.len() as int;
        let mut done: usize = 0;
        while writes.len() > 0
            invariant
                self.spec_same_identity(*old(self)),
                pre == old(self).client.submissions(),
                data@.len() <= MAX_ACCOUNT_DATA_LEN,
                total == spec_chunk_count(data@.len()),
                done + writes@.len() == total,
                forall|j: int|
                    0 <= j < writes@.len() ==> spec_is_loader_write(
                        #[trigger] writes@[j],
                        account_address,
                        (CHUNK_SIZE * (done + j)) as u32,
                        spec_chunk_at(data@, done + j),
                    ),
                signer_refs@ =~= seq![account],
                self.client.submissions().len() == pre.len() + 1 + done,
                self.client.submissions().subrange(0, pre.len() as int) == pre,
                spec_is_create_upload_account_submission(
                    self.client.submissions()[pre.len() as int],
                    old(self).payer,
                    old(self).payer_address,
                    account_address,
                    *account,
                    data@.len() as int,
                ),
                forall|j: int|
                    0 <= j < done ==> spec_is_legacy_write_submission(
                        #[trigger] self.client.submissions()[pre.len() + 1 + j],
                        old(self).payer,
                        account_address,
                        *account,
                        data@,
                        j,
                    ),
            decreases writes@.len(),
        {
            let ghost mid = self.client.submissions();
            let ghost k = done as int;
            let ghost before = writes@;
            let ix = writes.remove(0);
            let ghost gix = ix;
            proof {
                assert(gix == before[0]);
                assert(spec_is_loader_write(
                    gix,
                    account_address,
                    (CHUNK_SIZE * k) as u32,
                    spec_chunk_at(data@, k),
                ));
                assert(writes@ == before.remove(0));
                assert forall|j: int|
                    0 <= j < writes@.len() implies spec_is_loader_write(
                    #[trigger] writes@[j],
                    account_address,
                    (CHUNK_SIZE * (k + 1 + j)) as u32,
                    spec_chunk_at(data@, k + 1 + j),
                ) by {
                    assert(writes@[j] == before[j + 1]);
                }
                lemma_submission_bound(seq![gix], 1);
            }
            match self.run_instruction(ix, signer_refs.as_slice()) {
                Ok(_) => {},
                Err(e) => {
                    proof {
                        lemma_prefix_after_step(mid, self.client.submissions());
                        assert(self.client.submissions().subrange(0, pre.len() as int) =~= pre);
                    }
                    return Err(e);
                },
            }
            proof {
                let h = choose|h: BlockHash|
                    self.client.submissions() == mid.push(
                        spec_submission(seq![gix], old(self).payer, seq![account], h),
                    );
                let rec = spec_submission(seq![gix], old(self).payer, seq![account], h);
                lemma_pushed_submission(mid, self.client.submissions(), rec);
                assert(rec.signers =~= seq![*account]);
                assert(self.client.submissions()[pre.len() + 1 + k] == rec);
                assert(self.client.submissions().subrange(0, pre.len() as int) =~= pre);
                assert(self.client.submissions()[pre.len() as int] == mid[pre.len() as int]);
                assert forall|j: int|
                    0 <= j < k + 1 implies spec_is_legacy_write_submission(
                    #[trigger] self.client.submissions()[pre.len() + 1 + j],
                    old(self).payer,
                    account_address,
                    *account,
                    data@,
                    j,
                ) by {
                    if j < k {
                        assert(self.client.submissions()[pre.len() + 1 + j] == mid[pre.len() + 1
                            + j]);
                    }
                }
            }
            done += 1;
        }
        Ok(())
    }

    /// Creates an account holding the payload at the key pair's own
    /// address: the chunked upload of `create_account_with_data_at`, with
    /// the address derived from the key pair.
    pub fn create_account_with_data(&mut self, account: &Keypair, data: &[u8]) -> (r: Result<
        (),
        ClientError<C::ChannelError>,
    >)
        requires
            data@.len() <= MAX_ACCOUNT_DATA_LEN,
        ensures
            final(self).spec_same_identity(*old(self)),
            final(self).client.submissions().len() >= old(self).client.submissions().len(),
            final(self).client.submissions().subrange(
                0,
                old(self).client.submissions().len() as int,
            ) == old(self).client.submissions(),
            r matches Err(e) ==> !(e is AccountNotFound) && !(e is InvalidAccountData),
            r matches Err(e) && !(e is ChannelError) ==> final(self).client.submissions().len()
                > old(self).client.submissions().len(),
            r is Ok ==> exists|account_address: Address|
                #[trigger] spec_is_upload_submissions(
                    old(self).client.submissions(),
                    final(self).client.submissions(),
                    old(self).payer,
                    old(self).payer_address,
                    account_address,
                    *account,
                    data@,
                ),
    {
        let account_address = keypair_address(account);
        self.create_account_with_data_at(account_address, account, data)
    }

    /// Deploys a program through the legacy loader at the known address:
    /// the chunked upload of `create_account_with_data_at`, then one
    /// finalize instruction marking the account executable.
    pub fn deploy_program_at(
        &mut self,
        program_address: Address,
        program_account: &Keypair,
        data: &[u8],
    ) -> (r: Result<(), ClientError<C::ChannelError>>)
        requires
            data@.len() <= MAX_ACCOUNT_DATA_LEN,
        ensures
            final(self).spec_same_identity(*old(self)),
            final(self).client.submissions().len() >= old(self).client.submissions().len(),
            final(self).client.submissions().subrange(
                0,
                old(self).client.submissions().len() as int,
            ) == old(self).client.submissions(),
            r matches Err(e) ==> !(e is AccountNotFound) && !(e is InvalidAccountData),
            r matches Err(e) && !(e is ChannelError) ==> final(self).client.submissions().len()
                > old(self).client.submissions().len(),
            r is Ok ==> spec_is_legacy_deploy_submissions(
                old(self).client.submissions(),
                final(self).client.submissions(),
                old(self).payer,
                old(self).payer_address,
                program_address,
                *program_account,
                data@,
            ),
    {
        let ghost pre = self.client.submissions();
        match self.create_account_with_data_at(program_address, program_account, data) {
            Ok(_) => {},
            Err(e) => {
                return Err(e);
            },
        }
        let ghost uploaded = self.client.submissions();
        let finalize = loader_finalize_instruction(program_address);
        let ghost gfin = finalize;
        let signer_refs: Vec<&Keypair> = vec![program_account];
        proof {
            assert(signer_refs@ =~= seq![program_account]);
            lemma_submission_bound(seq![gfin], 2);
        }
        let r = self.run_instruction(finalize, signer_refs.as_slice());
        proof {
            if self.client.submissions() != uploaded {
                let h = choose|h: BlockHash|
                    self.client.submissions() == uploaded.push(
                        spec_submission(seq![gfin], old(self).payer, seq![program_account], h),
                    );
                let rec = spec_submission(seq![gfin], old(self).payer, seq![program_account], h);
                lemma_pushed_submission(uploaded, self.client.submissions(), rec);
                assert(rec.signers =~= seq![*program_account]);
            }
            lemma_prefix_after_step(uploaded, self.client.submissions());
            assert(self.client.submissions().subrange(0, pre.len() as int) =~= pre);
        }
        r
    }

    /// Deploys a program through the legacy loader at the key pair's own
    /// address.
    pub fn deploy_program(&mut self, program_account: &Keypair, data: &[u8]) -> (r: Result<
        (),
        ClientError<C::ChannelError>,
    >)
        requires
            data@.len() <= MAX_ACCOUNT_DATA_LEN,
        ensures
            final(self).spec_same_identity(*old(self)),
            final(self).client.submissions().len() >= old(self).client.submissions().len(),
            final(self).client.submissions().subrange(
                0,
                old(self).client.submissions().len() as int,
            ) == old(self).client.submissions(),
            r matches Err(e) ==> !(e is AccountNotFound) && !(e is InvalidAccountData),
            r matches Err(e) && !(e is ChannelError) ==> final(self).client.submissions().len()
                > old(self).client.submissions().len(),
            r is Ok ==> exists|program_address: Address|
                #[trigger] spec_is_legacy_deploy_submissions(
                    old(self).client.submissions(),
                    final(self).client.submissions(),
                    old(self).payer,
                    old(self).payer_address,
                    program_address,
                    *program_account,
                    data@,
                ),
    {
        let program_address = keypair_address(program_account);
        self.deploy_program_at(program_address, program_account, data)
    }

    /// Deploys an upgradeable program at known addresses, in three phases,
    /// each its own transaction with no rollback across them: fund and
    /// create the buffer sized to the payload (doubled unless compact) and
    /// funded at the rent-exempt minimum of the program-data record it will
    /// back, upload the payload into it in bounded chunks, then issue the
    /// deploy that moves the buffer into the program and program-data
    /// accounts under the upgrade authority.  Returns the program-data
    /// address the loader derives from the program address alone.  A
    /// failure after the upload but before the deploy leaves an orphaned,
    /// funded buffer account behind.
    pub fn deploy_upgradeable_program_at(
        &mut self,
        program: Address,
        program_account: &Keypair,
        buffer: Address,
        buffer_account: &Keypair,
        authority: Address,
        authority_account: &Keypair,
        data: &[u8],
        compact: bool,
    ) -> (r: Result<Address, ClientError<C::ChannelError>>)
        requires
            spec_program_data_address(program@) is Some,
            data@.len() * 2 + PROGRAMDATA_METADATA_SIZE <= MAX_ACCOUNT_DATA_LEN,
        ensures
            final(self).spec_same_identity(*old(self)),
            final(self).client.submissions().len() >= old(self).client.submissions().len(),
            final(self).client.submissions().subrange(
                0,
                old(self).client.submissions().len() as int,
            ) == old(self).client.submissions(),
            r matches Ok(a) ==> Some(a@) == spec_program_data_address(program@),
            r matches Err(e) ==> !(e is AccountNotFound) && !(e is InvalidAccountData),
            r matches Err(e) && !(e is ChannelError) ==> final(self).client.submissions().len()
                > old(self).client.submissions().len(),
            r is Ok ==> spec_is_upgradeable_deploy_submissions(
                old(self).client.submissions(),
                final(self).client.submissions(),
                old(self).payer,
                old(self).payer_address,
                program,
                *program_account,
                buffer,
                *buffer_account,
                authority,
                *authority_account,
                data@,
                if compact {
                    data@.len() as int
                } else {
                    2 * (data@.len() as int)
                },
            ),
    {
        let ghost pre = self.client.submissions();
        let program_data = match derive_program_data_address(program) {
            Some(a) => a,
            None => {
                return vstd::pervasive::unreached();
            },
        };
        let program_max_size = if compact {
            data.len()
        } else {
            data.len() * 2
        };
        let buffer_lamports = default_rent_minimum_balance(
            PROGRAMDATA_METADATA_SIZE + program_max_size,
        );
        let create_buffer = create_buffer_instructions(
            self.payer_address,
            buffer,
            authority,
            buffer_lamports,
            program_max_size,
        );
        let ghost buffer_view = create_buffer@;
        let buffer_signers: Vec<&Keypair> = vec![buffer_account];
        proof {
            assert(buffer_signers@ =~= seq![buffer_account]);
            lemma_submission_bound(buffer_view, 2);
        }
        match self.run_instructions(create_buffer, buffer_signers.as_slice()) {
            Ok(_) => {},
            Err(e) => {
                proof {
                    lemma_prefix_after_step(pre, self.client.submissions());
                }
                return Err(e);
            },
        }
        proof {
            let h = choose|h: BlockHash|
                self.client.submissions() == pre.push(
                    spec_submission(buffer_view, old(self).payer, seq![buffer_account], h),
                );
            let rec = spec_submission(buffer_view, old(self).payer, seq![buffer_account], h);
            lemma_pushed_submission(pre, self.client.submissions(), rec);
            assert(rec.signers =~= seq![*buffer_account]);
            assert(self.client.submissions()[pre.len() as int] == rec);
            assert(self.client.submissions().subrange(0, pre.len() as int) =~= pre);
        }
        let mut writes = upgradeable_write_instructions(buffer, authority, data);
        let ghost total = writes@.len() as int;
        let authority_signers: Vec<&Keypair> = vec![authority_account];
        proof {
            assert(authority_signers@ =~= seq![authority_account]);
        }
        let mut done: usize = 0;
        while writes.len() > 0
            invariant
                self.spec_same_identity(*old(self)),
                pre == old(self).client.submissions(),
                data@.len() <= MAX_ACCOUNT_DATA_LEN,
                total == spec_chunk_count(data@.len()),
                done + writes@.len() == total,
                forall|j: int|
                    0 <= j < writes@.len() ==> spec_is_upgradeable_write(
                        #[trigger] writes@[j],
                        buffer,
                        authority,
                        (CHUNK_SIZE * (done + j)) as u32,
                        spec_chunk_at(data@, done + j),
                    ),
                authority_signers@ =~= seq![authority_account],
                self.client.submissions().len() == pre.len() + 1 + done,
                self.client.submissions().subrange(0, pre.len() as int) == pre,
                spec_is_create_buffer_submission(
                    self.client.submissions()[pre.len() as int],
                    old(self).payer,
                    old(self).payer_address,
                    buffer,
                    *buffer_account,
                    authority,
                    if compact {
                        data@.len() as int
                    } else {
                        2 * (data@.len() as int)
                    },
                ),
                forall|j: int|
                    0 <= j < done ==> spec_is_buffer_write_submission(
                        #[trigger] self.client.submissions()[pre.len() + 1 + j],
                        old(self).payer,
                        buffer,
                        authority,
                        *authority_account,
                        data@,
                        j,
                    ),
            decreases writes@.len(),
        {
            let ghost mid = self.client.submissions();
            let ghost k = done as int;
            let ghost before = writes@;
            let ix = writes.remove(0);
            let ghost gix = ix;
            proof {
                assert(gix == before[0]);
                assert(spec_is_upgradeable_write(
                    gix,
                    buffer,
                    authority,
                    (CHUNK_SIZE * k) as u32,
                    spec_chunk_at(data@, k),
                ));
                assert(writes@ == before.remove(0));
                assert forall|j: int|
                    0 <= j < writes@.len() implies spec_is_upgradeable_write(
                    #[trigger] writes@[j],
                    buffer,
                    authority,
                    (CHUNK_SIZE * (k + 1 + j)) as u32,
                    spec_chunk_at(data@, k + 1 + j),
                ) by {
                    assert(writes@[j] == before[j + 1]);
                }
                lemma_submission_bound(seq![gix], 2);
            }
            match self.run_instruction(ix, authority_signers.as_slice()) {
                Ok(_) => {},
                Err(e) => {
                    proof {
                        lemma_prefix_after_step(mid, self.client.submissions());
                        assert(self.client.submissions().subrange(0, pre.len() as int) =~= pre);
                    }
                    return Err(e);
                },
            }
            proof {
                let h = choose|h: BlockHash|
                    self.client.submissions() == mid.push(
                        spec_submission(seq![gix], old(self).payer, seq![authority_account], h),
                    );
                let rec = spec_submission(seq![gix], old(self).payer, seq![authority_account], h);
                lemma_pushed_submission(mid, self.client.submissions(), rec);
                assert(rec.signers =~= seq![*authority_account]);
                assert(self.client.submissions()[pre.len() + 1 + k] == rec);
                assert(self.client.submissions().subrange(0, pre.len() as int) =~= pre);
                assert(self.client.submissions()[pre.len() as int] == mid[pre.len() as int]);
                assert forall|j: int|
                    0 <= j < k + 1 implies spec_is_buffer_write_submission(
                    #[trigger] self.client.submissions()[pre.len() + 1 + j],
                    old(self).payer,
                    buffer,
                    authority,
                    *authority_account,
                    data@,
                    j,
                ) by {
                    if j < k {
                        assert(self.client.submissions()[pre.len() + 1 + j] == mid[pre.len() + 1
                            + j]);
                    }
                }
            }
            done += 1;
        }
        let ghost uploaded = self.client.submissions();
        let program_lamports = default_rent_minimum_balance(PROGRAM_ACCOUNT_SIZE);
        let deploy = deploy_instructions(
            self.payer_address,
            program,
            buffer,
            authority,
            program_lamports,
            program_max_size,
        );
        let ghost deploy_view = deploy@;
        let finish_signers: Vec<&Keypair> = vec![program_account, authority_account];
        proof {
            assert(finish_signers@ =~= seq![program_account, authority_account]);
            lemma_submission_bound(deploy_view, 8);
        }
        let r = match self.run_instructions(deploy, finish_signers.as_slice()) {
            Ok(_) => Ok(program_data),
            Err(e) => Err(e),
        };
        proof {
            if self.client.submissions() != uploaded {
                let h = choose|h: BlockHash|
                    self.client.submissions() == uploaded.push(
                        spec_submission(
                            deploy_view,
                            old(self).payer,
                            seq![program_account, authority_account],
                            h,
                        ),
                    );
                let rec = spec_submission(
                    deploy_view,
                    old(self).payer,
                    seq![program_account, authority_account],
                    h,
                );
                lemma_pushed_submission(uploaded, self.client.submissions(), rec);
                assert(rec.signers =~= seq![*program_account, *authority_account]);
                assert forall|j: int|
                    0 <= j < spec_chunk_count(data@.len()) implies spec_is_buffer_write_submission(
                    #[trigger] self.client.submissions()[pre.len() + 1 + j],
                    old(self).payer,
                    buffer,
                    authority,
                    *authority_account,
                    data@,
                    j,
                ) by {
                    assert(self.client.submissions()[pre.len() + 1 + j] == uploaded[pre.len() + 1
                        + j]);
                }
                assert(self.client.submissions()[pre.len() as int] == uploaded[pre.len() as int]);
            }
            lemma_prefix_after_step(uploaded, self.client.submissions());
            assert(self.client.submissions().subrange(0, pre.len() as int) =~= pre);
        }
        r
    }

    /// Deploys an upgradeable program under the given key pairs, deriving
    /// every address from them.  Yields `None`, before any ledger work,
    /// in the statistically improbable case that no program-data address
    /// exists for the program's address; otherwise the three-phase outcome.
    pub fn deploy_upgradeable_program(
        &mut self,
        program_account: &Keypair,
        buffer_account: &Keypair,
        authority_account: &Keypair,
        data: &[u8],
        compact: bool,
    ) -> (r: Option<Result<Address, ClientError<C::ChannelError>>>)
        requires
            data@.len() * 2 + PROGRAMDATA_METADATA_SIZE <= MAX_ACCOUNT_DATA_LEN,
        ensures
            final(self).spec_same_identity(*old(self)),
            r is None ==> *final(self) == *old(self),
            final(self).client.submissions().len() >= old(self).client.submissions().len(),
            final(self).client.submissions().subrange(
                0,
                old(self).client.submissions().len() as int,
            ) == old(self).client.submissions(),
            r matches Some(Err(e)) ==> !(e is AccountNotFound) && !(e is InvalidAccountData),
            r matches Some(Ok(a)) ==> exists|program: Address|
                Some(a@) == #[trigger] spec_program_data_address(program@),
    {
        let program = keypair_address(program_account);
        match derive_program_data_address(program) {
            Some(_) => {},
            None => {
                proof {
                    assert(self.client.submissions().subrange(
                        0,
                        old(self).client.submissions().len() as int,
                    ) =~= old(self).client.submissions());
                }
                return None;
            },
        }
        let buffer = keypair_address(buffer_account);
        let authority = keypair_address(authority_account);
        Some(
            self.deploy_upgradeable_program_at(
                program,
                program_account,
                buffer,
                buffer_account,
                authority,
                authority_account,
                data,
                compact,
            ),
        )
    }
}

/// A log reached from `pre` by backend steps is never shorter, and keeps
/// `pre` as its prefix where each step only pushed.
proof fn lemma_prefix_after_step(pre: Seq<SubmissionRecord>, post: Seq<SubmissionRecord>)
    requires
        post == pre || (exists|rec: SubmissionRecord| post == pre.push(rec)),
    ensures
        post.len() >= pre.len(),
        post.subrange(0, pre.len() as int) == pre,
{
    if post != pre {
        let rec = choose|rec: SubmissionRecord| post == pre.push(rec);
        assert(post.subrange(0, pre.len() as int) =~= pre);
    } else {
        assert(post.subrange(0, pre.len() as int) =~= pre);
    }
}

} // verus!
