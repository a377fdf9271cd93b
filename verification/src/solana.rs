//! Trusted bindings to the ledger SDK.
//!
//! Everything the library takes on faith about the outside world is gathered
//! here: opaque type declarations, names for results that are functions of
//! their arguments alone, and thin wrappers whose contracts state what the
//! SDK's sources show.  Nothing else in the crate is trusted.

use vstd::prelude::*;
use crate::ids::{
    spec_associated_token_program_id, spec_bpf_loader_id, spec_bpf_loader_upgradeable_id,
    spec_clock_sysvar_id, spec_rent_sysvar_id, spec_spl_token_id, spec_system_program_id,
};
use crate::types::{
    AccountMeta, Address, BlockHash, Instruction, RentSchedule, spec_rent_exempt_minimum,
    spec_u32_le, spec_u64_le, BUFFER_METADATA_SIZE, MAX_ACCOUNT_DATA_LEN, PROGRAM_ACCOUNT_SIZE,
};
use solana_sdk::pubkey::Pubkey;
use solana_sdk::instruction::Instruction as SolInstruction;
use solana_sdk::instruction::AccountMeta as SolAccountMeta;
use solana_sdk::message::Message;
use solana_sdk::signature::Keypair;
use solana_sdk::signer::Signer;
use solana_sdk::transaction::Transaction;
use solana_sdk::transaction::TransactionError;
use solana_sdk::program_pack::Pack;

verus! {

#[verifier::external_type_specification]
#[verifier::external_body]
pub struct ExTransactionError(TransactionError);

#[verifier::external_type_specification]
#[verifier::external_body]
pub struct ExKeypair(Keypair);

#[verifier::external_type_specification]
#[verifier::external_body]
pub struct ExTransaction(Transaction);

#[verifier::external_type_specification]
#[verifier::external_body]
pub struct ExMessage(Message);

#[verifier::external_type_specification]
#[verifier::external_body]
pub struct ExSolInstruction(SolInstruction);

/// Carries a model instruction into the SDK's form, field for field.
#[verifier::external_body]
fn to_solana_instruction(i: &Instruction) -> SolInstruction {
    SolInstruction {
        program_id: Pubkey::new_from_array(i.program.bytes),
        accounts: i.accounts.iter().map(|a| SolAccountMeta {
            pubkey: Pubkey::new_from_array(a.address.bytes),
            is_signer: a.is_signer,
            is_writable: a.is_writable,
        }).collect(),
        data: i.data.clone(),
    }
}

/// Carries an SDK instruction into the model's form, field for field.
#[verifier::external_body]
fn from_solana_instruction(i: SolInstruction) -> Instruction {
    Instruction {
        program: Address { bytes: i.program_id.to_bytes() },
        accounts: i.accounts.iter().map(|a| AccountMeta {
            address: Address { bytes: a.pubkey.to_bytes() },
            is_signer: a.is_signer,
            is_writable: a.is_writable,
        }).collect(),
        data: i.data,
    }
}

/// A fresh signing identity.
///
/// Relies on `Keypair::new`, which draws the secret from the system's
/// randomness; nothing can be promised about the value.
#[verifier::external_body]
pub(crate) fn generate_keypair() -> Keypair {
    Keypair::new()
}

/// The address a key pair signs for.
///
/// Relies on `Signer::pubkey` for `Keypair`, which derives the public key
/// from the held secret.
#[verifier::external_body]
pub(crate) fn keypair_address(keypair: &Keypair) -> Address {
    Address { bytes: keypair.pubkey().to_bytes() }
}

/// A `SignatureFailure` transaction error value.
///
/// Relies on `TransactionError::SignatureFailure` being the variant the
/// ledger reports for a transaction whose signatures do not verify.
#[verifier::external_body]
pub(crate) fn signature_failure_error() -> TransactionError {
    TransactionError::SignatureFailure
}

/// Relies on `Rent::default().minimum_balance`: for the default schedule it
/// charges two years of rent on the data length plus the fixed overhead.
/// The bound on `data_len` keeps the computation exact.
#[verifier::external_body]
pub(crate) fn default_rent_minimum_balance(data_len: usize) -> (r: u64)
    requires
        data_len <= MAX_ACCOUNT_DATA_LEN,
    ensures
        r == spec_rent_exempt_minimum(data_len as int),
{
    solana_sdk::rent::Rent::default().minimum_balance(data_len)
}

/// The program-data address the upgradeable loader derives for a program, if
/// a viable bump seed exists for it.
pub uninterp spec fn spec_program_data_address(program: Seq<u8>) -> Option<Seq<u8>>;

/// Relies on `Pubkey::try_find_program_address` over the program address and
/// the upgradeable loader: the result depends on those bytes alone.
#[verifier::external_body]
pub(crate) fn derive_program_data_address(program: Address) -> (r: Option<Address>)
    ensures
        match r {
            Option::Some(a) => spec_program_data_address(program@) == Some(a@),
            Option::None => spec_program_data_address(program@) is None,
        },
{
    Pubkey::try_find_program_address(
        &[&program.bytes],
        &solana_sdk::bpf_loader_upgradeable::ID,
    ).map(|(pk, _)| Address { bytes: pk.to_bytes() })
}

/// The token account address the associated-token scheme derives for a
/// wallet and a mint.
pub uninterp spec fn spec_associated_token_address(wallet: Seq<u8>, mint: Seq<u8>) -> Seq<u8>;

/// Relies on `get_associated_token_address`: the result depends on the two
/// addresses alone.
#[verifier::external_body]
pub(crate) fn associated_token_address(wallet: Address, mint: Address) -> (r: Address)
    ensures
        r@ == spec_associated_token_address(wallet@, mint@),
{
    let pk = spl_associated_token_account::get_associated_token_address(
        &Pubkey::new_from_array(wallet.bytes),
        &Pubkey::new_from_array(mint.bytes),
    );
    Address { bytes: pk.to_bytes() }
}

/// The payload of a system-program create-account instruction: the variant
/// tag followed by the little-endian fields.
pub open spec fn spec_system_create_account_data(lamports: u64, space: u64, owner: Seq<u8>) -> Seq<u8> {
    seq![0u8, 0u8, 0u8, 0u8] + spec_u64_le(lamports) + spec_u64_le(space) + owner
}

/// Shape of a system-program create-account instruction: funder and new
/// account both sign, both writable.
pub open spec fn spec_is_system_create_account(
    i: Instruction,
    from: Address,
    to: Address,
    lamports: u64,
    space: u64,
    owner: Address,
) -> bool {
    &&& i.program@ == spec_system_program_id()
    &&& i.accounts@.len() == 2
    &&& i.accounts@[0] == (AccountMeta { address: from, is_signer: true, is_writable: true })
    &&& i.accounts@[1] == (AccountMeta { address: to, is_signer: true, is_writable: true })
    &&& i.data@ == spec_system_create_account_data(lamports, space, owner@)
}

/// Relies on `system_instruction::create_account`: two signing writable
/// account references and the bincode-encoded `CreateAccount` payload.
#[verifier::external_body]
pub(crate) fn system_create_account_instruction(
    from: Address,
    to: Address,
    lamports: u64,
    space: u64,
    owner: Address,
) -> (r: Instruction)
    ensures
        spec_is_system_create_account(r, from, to, lamports, space, owner),
{
    from_solana_instruction(solana_sdk::system_instruction::create_account(
        &Pubkey::new_from_array(from.bytes),
        &Pubkey::new_from_array(to.bytes),
        lamports,
        space,
        &Pubkey::new_from_array(owner.bytes),
    ))
}

/// The payload of a legacy-loader write: the variant tag, the offset, then
/// the chunk behind its length.
pub open spec fn spec_loader_write_data(offset: u32, chunk: Seq<u8>) -> Seq<u8> {
    seq![0u8, 0u8, 0u8, 0u8] + spec_u32_le(offset) + spec_u64_le(chunk.len() as u64) + chunk
}

/// Shape of a legacy-loader write: one signing writable account reference
/// and the encoded `Write` payload.
pub open spec fn spec_is_loader_write(
    i: Instruction,
    account: Address,
    offset: u32,
    chunk: Seq<u8>,
) -> bool {
    &&& i.program@ == spec_bpf_loader_id()
    &&& i.accounts@.len() == 1
    &&& i.accounts@[0] == (AccountMeta { address: account, is_signer: true, is_writable: true })
    &&& i.data@ == spec_loader_write_data(offset, chunk)
}

/// Relies on `loader_instruction::write`: one signing writable account
/// reference and the bincode-encoded `Write` payload.
#[verifier::external_body]
pub(crate) fn loader_write_instruction(account: Address, offset: u32, chunk: Vec<u8>) -> (r: Instruction)
    ensures
        spec_is_loader_write(r, account, offset, chunk@),
{
    from_solana_instruction(solana_sdk::loader_instruction::write(
        &Pubkey::new_from_array(account.bytes),
        &solana_sdk::bpf_loader::ID,
        offset,
        chunk,
    ))
}

/// Relies on `loader_instruction::finalize`: the signing writable account
/// and the rent sysvar, with the bare `Finalize` tag as payload.
#[verifier::external_body]
pub(crate) fn loader_finalize_instruction(account: Address) -> (r: Instruction)
    ensures
        r.program@ == spec_bpf_loader_id(),
        r.accounts@.len() == 2,
        r.accounts@[0] == (AccountMeta { address: account, is_signer: true, is_writable: true }),
        r.accounts@[1].address@ == spec_rent_sysvar_id(),
        r.accounts@[1].is_signer == false,
        r.accounts@[1].is_writable == false,
        r.data@ == seq![1u8, 0u8, 0u8, 0u8],
{
    from_solana_instruction(solana_sdk::loader_instruction::finalize(
        &Pubkey::new_from_array(account.bytes),
        &solana_sdk::bpf_loader::ID,
    ))
}

/// The payload of an upgradeable-loader write: the variant tag, the offset,
/// then the chunk behind its length.
pub open spec fn spec_upgradeable_write_data(offset: u32, chunk: Seq<u8>) -> Seq<u8> {
    seq![1u8, 0u8, 0u8, 0u8] + spec_u32_le(offset) + spec_u64_le(chunk.len() as u64) + chunk
}

/// Shape of an upgradeable-loader write: the writable buffer, the signing
/// authority, and the encoded `Write` payload.
pub open spec fn spec_is_upgradeable_write(
    i: Instruction,
    buffer: Address,
    authority: Address,
    offset: u32,
    chunk: Seq<u8>,
) -> bool {
    &&& i.program@ == spec_bpf_loader_upgradeable_id()
    &&& i.accounts@.len() == 2
    &&& i.accounts@[0] == (AccountMeta { address: buffer, is_signer: false, is_writable: true })
    &&& i.accounts@[1] == (AccountMeta { address: authority, is_signer: true, is_writable: false })
    &&& i.data@ == spec_upgradeable_write_data(offset, chunk)
}

/// Relies on `bpf_loader_upgradeable::write`: the writable buffer, the
/// signing authority, and the bincode-encoded `Write` payload.
#[verifier::external_body]
pub(crate) fn upgradeable_write_instruction(
    buffer: Address,
    authority: Address,
    offset: u32,
    chunk: Vec<u8>,
) -> (r: Instruction)
    ensures
        spec_is_upgradeable_write(r, buffer, authority, offset, chunk@),
{
    from_solana_instruction(solana_sdk::bpf_loader_upgradeable::write(
        &Pubkey::new_from_array(buffer.bytes),
        &Pubkey::new_from_array(authority.bytes),
        offset,
        chunk,
    ))
}

/// Relies on `bpf_loader_upgradeable::create_buffer`: a system
/// create-account for the buffer sized to its metadata plus the payload,
/// then an `InitializeBuffer` naming buffer and authority.
#[verifier::external_body]
pub(crate) fn create_buffer_instructions(
    payer: Address,
    buffer: Address,
    authority: Address,
    lamports: u64,
    program_len: usize,
) -> (r: Vec<Instruction>)
    requires
        program_len <= MAX_ACCOUNT_DATA_LEN,
    ensures
        r@.len() == 2,
        r@[0].program@ == spec_system_program_id(),
        r@[0].accounts@.len() == 2,
        r@[0].accounts@[0] == (AccountMeta { address: payer, is_signer: true, is_writable: true }),
        r@[0].accounts@[1] == (AccountMeta { address: buffer, is_signer: true, is_writable: true }),
        r@[0].data@ == spec_system_create_account_data(
            lamports,
            (BUFFER_METADATA_SIZE + program_len) as u64,
            spec_bpf_loader_upgradeable_id(),
        ),
        r@[1].program@ == spec_bpf_loader_upgradeable_id(),
        r@[1].accounts@.len() == 2,
        r@[1].accounts@[0] == (AccountMeta { address: buffer, is_signer: false, is_writable: true }),
        r@[1].accounts@[1] == (AccountMeta { address: authority, is_signer: false, is_writable: false }),
        r@[1].data@ == seq![0u8, 0u8, 0u8, 0u8],
{
    let out = solana_sdk::bpf_loader_upgradeable::create_buffer(
        &Pubkey::new_from_array(payer.bytes),
        &Pubkey::new_from_array(buffer.bytes),
        &Pubkey::new_from_array(authority.bytes),
        lamports,
        program_len,
    ).unwrap();
    out.into_iter().map(from_solana_instruction).collect()
}

/// The payload of a deploy-with-maximum-length instruction.
pub open spec fn spec_deploy_data(max_data_len: u64) -> Seq<u8> {
    seq![2u8, 0u8, 0u8, 0u8] + spec_u64_le(max_data_len)
}

/// Relies on `bpf_loader_upgradeable::deploy_with_max_program_len`: a system
/// create-account for the program record, then a `DeployWithMaxDataLen`
/// naming payer, derived program-data account, program, buffer, the rent and
/// clock sysvars, the system program, and the signing authority.
#[verifier::external_body]
pub(crate) fn deploy_instructions(
    payer: Address,
    program: Address,
    buffer: Address,
    authority: Address,
    program_lamports: u64,
    max_data_len: usize,
) -> (r: Vec<Instruction>)
    requires
        spec_program_data_address(program@) is Some,
    ensures
        r@.len() == 2,
        r@[0].program@ == spec_system_program_id(),
        r@[0].accounts@.len() == 2,
        r@[0].accounts@[0] == (AccountMeta { address: payer, is_signer: true, is_writable: true }),
        r@[0].accounts@[1] == (AccountMeta { address: program, is_signer: true, is_writable: true }),
        r@[0].data@ == spec_system_create_account_data(
            program_lamports,
            PROGRAM_ACCOUNT_SIZE as u64,
            spec_bpf_loader_upgradeable_id(),
        ),
        r@[1].program@ == spec_bpf_loader_upgradeable_id(),
        r@[1].accounts@.len() == 8,
        r@[1].accounts@[0] == (AccountMeta { address: payer, is_signer: true, is_writable: true }),
        Some(r@[1].accounts@[1].address@) == spec_program_data_address(program@),
        r@[1].accounts@[1].is_signer == false && r@[1].accounts@[1].is_writable == true,
        r@[1].accounts@[2] == (AccountMeta { address: program, is_signer: false, is_writable: true }),
        r@[1].accounts@[3] == (AccountMeta { address: buffer, is_signer: false, is_writable: true }),
        r@[1].accounts@[4].address@ == spec_rent_sysvar_id(),
        r@[1].accounts@[5].address@ == spec_clock_sysvar_id(),
        r@[1].accounts@[6].address@ == spec_system_program_id(),
        r@[1].accounts@[7] == (AccountMeta { address: authority, is_signer: true, is_writable: false }),
        r@[1].data@ == spec_deploy_data(max_data_len as u64),
{
    let out = solana_sdk::bpf_loader_upgradeable::deploy_with_max_program_len(
        &Pubkey::new_from_array(payer.bytes),
        &Pubkey::new_from_array(program.bytes),
        &Pubkey::new_from_array(buffer.bytes),
        &Pubkey::new_from_array(authority.bytes),
        program_lamports,
        max_data_len,
    ).unwrap();
    out.into_iter().map(from_solana_instruction).collect()
}

/// The payload of a token-program initialize-mint instruction.
pub open spec fn spec_initialize_mint_data(
    authority: Seq<u8>,
    freeze_authority: Option<Address>,
    decimals: u8,
) -> Seq<u8> {
    seq![0u8, decimals] + authority + match freeze_authority {
        Option::Some(a) => seq![1u8] + a@,
        Option::None => seq![0u8],
    }
}

/// Relies on `spl_token::instruction::initialize_mint`: the writable mint,
/// the rent sysvar, and the packed `InitializeMint` payload.
#[verifier::external_body]
pub(crate) fn initialize_mint_instruction(
    mint: Address,
    authority: Address,
    freeze_authority: Option<Address>,
    decimals: u8,
) -> (r: Instruction)
    ensures
        r.program@ == spec_spl_token_id(),
        r.accounts@.len() == 2,
        r.accounts@[0] == (AccountMeta { address: mint, is_signer: false, is_writable: true }),
        r.accounts@[1].address@ == spec_rent_sysvar_id(),
        r.accounts@[1].is_signer == false && r.accounts@[1].is_writable == false,
        r.data@ == spec_initialize_mint_data(authority@, freeze_authority, decimals),
{
    let freeze = freeze_authority.map(|a| Pubkey::new_from_array(a.bytes));
    from_solana_instruction(spl_token::instruction::initialize_mint(
        &spl_token::ID,
        &Pubkey::new_from_array(mint.bytes),
        &Pubkey::new_from_array(authority.bytes),
        freeze.as_ref(),
        decimals,
    ).unwrap())
}

/// The payload of a token-program mint-to instruction.
pub open spec fn spec_mint_to_data(amount: u64) -> Seq<u8> {
    seq![7u8] + spec_u64_le(amount)
}

/// Relies on `spl_token::instruction::mint_to` with no multisignature
/// signers: writable mint and recipient, the signing authority, and the
/// packed `MintTo` payload.
#[verifier::external_body]
pub(crate) fn mint_to_instruction(
    mint: Address,
    recipient: Address,
    authority: Address,
    amount: u64,
) -> (r: Instruction)
    ensures
        r.program@ == spec_spl_token_id(),
        r.accounts@.len() == 3,
        r.accounts@[0] == (AccountMeta { address: mint, is_signer: false, is_writable: true }),
        r.accounts@[1] == (AccountMeta { address: recipient, is_signer: false, is_writable: true }),
        r.accounts@[2] == (AccountMeta { address: authority, is_signer: true, is_writable: false }),
        r.data@ == spec_mint_to_data(amount),
{
    from_solana_instruction(spl_token::instruction::mint_to(
        &spl_token::ID,
        &Pubkey::new_from_array(mint.bytes),
        &Pubkey::new_from_array(recipient.bytes),
        &Pubkey::new_from_array(authority.bytes),
        &[],
        amount,
    ).unwrap())
}

/// Relies on `spl_associated_token_account::create_associated_token_account`:
/// the signing funder, the derived associated account, wallet, mint, the
/// system, token and rent references, and an empty payload.
#[verifier::external_body]
pub(crate) fn create_associated_token_account_instruction(
    funding: Address,
    wallet: Address,
    mint: Address,
) -> (r: Instruction)
    ensures
        r.program@ == spec_associated_token_program_id(),
        r.accounts@.len() == 7,
        r.accounts@[0] == (AccountMeta { address: funding, is_signer: true, is_writable: true }),
        r.accounts@[1].address@ == spec_associated_token_address(wallet@, mint@),
        r.accounts@[1].is_signer == false && r.accounts@[1].is_writable == true,
        r.accounts@[2] == (AccountMeta { address: wallet, is_signer: false, is_writable: false }),
        r.accounts@[3] == (AccountMeta { address: mint, is_signer: false, is_writable: false }),
        r.accounts@[4].address@ == spec_system_program_id(),
        r.accounts@[5].address@ == spec_spl_token_id(),
        r.accounts@[6].address@ == spec_rent_sysvar_id(),
        r.data@ == Seq::<u8>::empty(),
{
    #[allow(deprecated)]
    from_solana_instruction(spl_associated_token_account::create_associated_token_account(
        &Pubkey::new_from_array(funding.bytes),
        &Pubkey::new_from_array(wallet.bytes),
        &Pubkey::new_from_array(mint.bytes),
    ))
}

/// The token amount a packed token-account record holds, if the bytes
/// decode as one.
pub uninterp spec fn spec_unpacked_token_amount(data: Seq<u8>) -> Option<u64>;

/// Relies on `spl_token::state::Account::unpack_unchecked`: the decode is a
/// function of the bytes alone, and only byte strings of the packed record
/// length can decode.
#[verifier::external_body]
pub(crate) fn unpack_token_amount(data: &[u8]) -> (r: Option<u64>)
    ensures
        r == spec_unpacked_token_amount(data@),
        data@.len() != 165 ==> r is None,
{
    spl_token::state::Account::unpack_unchecked(data).ok().map(|a| a.amount)
}

/// The rent parameters a rent sysvar account's bytes decode to.
pub uninterp spec fn spec_decoded_rent(data: Seq<u8>) -> Option<RentSchedule>;

/// Relies on `from_account::<Rent, _>`: the decode is a function of the
/// account bytes alone.
#[verifier::external_body]
pub(crate) fn decode_rent(data: &[u8]) -> (r: Option<RentSchedule>)
    ensures
        r == spec_decoded_rent(data@),
{
    let account = solana_sdk::account::Account {
        lamports: 1,
        data: data.to_vec(),
        owner: Pubkey::new_from_array([0u8; 32]),
        executable: false,
        rent_epoch: 0,
    };
    solana_sdk::account::from_account::<solana_sdk::rent::Rent, _>(&account).map(|r| RentSchedule {
        lamports_per_byte_year: r.lamports_per_byte_year,
        exemption_threshold_bits: r.exemption_threshold.to_bits(),
        burn_percent: r.burn_percent,
    })
}

/// Relies on `Message::new`: compiles the instructions into a message whose
/// fee payer is the given address.  The compilation indexes the message's
/// distinct account keys with one byte and panics past that bound, so the
/// instructions may name at most `MAX_NAMED_ADDRESSES` distinct addresses,
/// leaving room for the payer's own.
#[verifier::external_body]
pub(crate) fn build_message(instructions: &[Instruction], payer: Address) -> Message
    requires
        crate::types::spec_named_addresses(instructions@).len() <= crate::MAX_NAMED_ADDRESSES,
{
    let converted: Vec<SolInstruction> = instructions.iter().map(to_solana_instruction).collect();
    Message::new(&converted, Some(&Pubkey::new_from_array(payer.bytes)))
}

/// Relies on `Transaction::new_unsigned`: wraps a message with empty
/// signature slots.
#[verifier::external_body]
pub(crate) fn new_unsigned_transaction(message: Message) -> Transaction {
    Transaction::new_unsigned(message)
}

/// Relies on `Transaction::try_sign`: applies the signatures of the payer
/// and the other signers under the given blockhash.  Where a signer does not
/// match the message the transaction is left for the ledger to reject.
#[verifier::external_body]
pub(crate) fn sign_transaction(
    transaction: Transaction,
    payer: &Keypair,
    signers: &[&Keypair],
    blockhash: BlockHash,
) -> Transaction {
    let mut transaction = transaction;
    let mut keys: Vec<&Keypair> = vec![payer];
    keys.extend_from_slice(signers);
    let hash = solana_sdk::hash::Hash::new_from_array(blockhash.bytes);
    let _ = transaction.try_sign(&keys, hash);
    transaction
}

} // verus!
