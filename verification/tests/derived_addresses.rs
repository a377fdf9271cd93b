use poc_framework::ids::{
    associated_token_program_id, bpf_loader_id, bpf_loader_upgradeable_id, clock_sysvar_id,
    memo_v1_id, memo_v3_id, native_loader_id, rent_sysvar_id, spl_token_id, system_program_id,
};
use poc_framework::types::Address;
use poc_framework::{associated_token_account_address, program_data_address};
use solana_sdk::pubkey::Pubkey;

#[test]
fn well_known_ids_match_ledger_constants() {
    assert_eq!(
        system_program_id().bytes,
        solana_sdk::system_program::ID.to_bytes()
    );
    assert_eq!(bpf_loader_id().bytes, solana_sdk::bpf_loader::ID.to_bytes());
    assert_eq!(
        bpf_loader_upgradeable_id().bytes,
        solana_sdk::bpf_loader_upgradeable::ID.to_bytes()
    );
    assert_eq!(
        native_loader_id().bytes,
        solana_sdk::native_loader::ID.to_bytes()
    );
    assert_eq!(spl_token_id().bytes, spl_token::ID.to_bytes());
    assert_eq!(
        associated_token_program_id().bytes,
        spl_associated_token_account::ID.to_bytes()
    );
    assert_eq!(
        rent_sysvar_id().bytes,
        solana_sdk::sysvar::rent::ID.to_bytes()
    );
    assert_eq!(
        clock_sysvar_id().bytes,
        solana_sdk::sysvar::clock::ID.to_bytes()
    );
    assert_eq!(
        memo_v1_id().bytes,
        Pubkey::from_str_const("Memo1UhkJRfHyvLMcVucJwxXeuD728EqVDDwQDxFMNo").to_bytes()
    );
    assert_eq!(
        memo_v3_id().bytes,
        Pubkey::from_str_const("MemoSq4gqABAXKb96qnH8TysNcWxMyWCqXgDLGmfcHr").to_bytes()
    );
}

#[test]
fn program_data_address_matches_loader_derivation() {
    let program = Pubkey::new_unique();
    let expected = Pubkey::find_program_address(
        &[&program.to_bytes()],
        &solana_sdk::bpf_loader_upgradeable::ID,
    )
    .0;
    let derived = program_data_address(Address::new(program.to_bytes()))
        .expect("program data address should exist");
    assert_eq!(derived.bytes, expected.to_bytes());
}

#[test]
fn program_data_address_is_deterministic_and_distinct() {
    let program = Pubkey::new_unique();
    let address = Address::new(program.to_bytes());
    let first = program_data_address(address).expect("should derive");
    let second = program_data_address(address).expect("should derive");
    assert_eq!(first.bytes, second.bytes);
    assert_ne!(first.bytes, address.bytes);
}

#[test]
fn associated_token_address_matches_spl_derivation() {
    let owner = Pubkey::new_unique();
    let mint = Pubkey::new_unique();
    let expected = spl_associated_token_account::get_associated_token_address(&owner, &mint);
    let derived = associated_token_account_address(
        Address::new(owner.to_bytes()),
        Address::new(mint.to_bytes()),
    );
    assert_eq!(derived.bytes, expected.to_bytes());
}
