use poc_framework::client::remote::{validate_remote_genesis, RemoteGenesisDefect};
use poc_framework::types::{AccountState, Address, MAX_ACCOUNT_DATA_LEN};
use poc_framework::{AccountConfig, EnvironmentGenesis, PAYER_FUNDING_LAMPORTS};
use solana_sdk::rent::Rent;
use solana_sdk::signature::Keypair;
use solana_sdk::signer::Signer;

fn find<'a>(seed: &'a [(Address, AccountState)], address: &Address) -> &'a AccountState {
    &seed
        .iter()
        .find(|(a, _)| a.bytes == address.bytes)
        .expect("address missing from seed")
        .1
}

#[test]
fn seed_holds_configured_account_exactly() {
    let address = Address::new([1u8; 32]);
    let owner = Address::new([2u8; 32]);
    let config = AccountConfig {
        lamports: Some(123_456),
        data: vec![7, 8, 9],
        owner,
        executable: true,
    };
    let seed = EnvironmentGenesis::new()
        .add_account(address, config)
        .build_local_sync();
    let account = find(&seed.accounts, &address);
    assert_eq!(account.lamports, 123_456);
    assert_eq!(account.data, vec![7, 8, 9]);
    assert_eq!(account.owner.bytes, [2u8; 32]);
    assert!(account.executable);
    assert_eq!(account.rent_epoch, 0);
}

#[test]
fn seed_defaults_to_rent_exempt_minimum() {
    let address = Address::new([3u8; 32]);
    let config = AccountConfig {
        lamports: None,
        data: vec![0u8; 250],
        ..Default::default()
    };
    let seed = EnvironmentGenesis::new()
        .add_account(address, config)
        .build_local_sync();
    let account = find(&seed.accounts, &address);
    assert_eq!(account.lamports, Rent::default().minimum_balance(250));
    assert!(!account.executable);
}

#[test]
fn seed_funds_payer_last() {
    let payer = Keypair::new();
    let payer_pubkey = payer.pubkey();
    let seed = EnvironmentGenesis::new().add_payer(payer).build_local_sync();
    assert_eq!(seed.payer_address.bytes, payer_pubkey.to_bytes());
    assert_eq!(seed.payer.pubkey(), payer_pubkey);
    let last = seed.accounts.last().expect("payer entry missing");
    assert_eq!(last.0.bytes, payer_pubkey.to_bytes());
    assert_eq!(last.1.lamports, PAYER_FUNDING_LAMPORTS);
    assert!(last.1.data.is_empty());
    assert_eq!(last.1.owner.bytes, [0u8; 32]);
}

#[test]
fn duplicate_address_is_detected_before_building() {
    let address = Address::new([4u8; 32]);
    let genesis = EnvironmentGenesis::new().add_account(address, AccountConfig::default());
    assert!(genesis.has_account(address));
    assert!(!genesis.has_account(Address::new([5u8; 32])));
}

#[test]
fn add_program_configures_executable_loader_account() {
    let address = Address::new([6u8; 32]);
    let genesis = EnvironmentGenesis::new().add_program(address, vec![1, 2, 3, 4]);
    let (_, config) = genesis
        .accounts
        .iter()
        .find(|(a, _)| a.bytes == address.bytes)
        .expect("program account missing");
    assert_eq!(config.data, vec![1, 2, 3, 4]);
    assert!(config.executable);
    assert_eq!(config.lamports, None);
    assert_eq!(
        config.owner.bytes,
        solana_sdk::bpf_loader::ID.to_bytes()
    );
}

#[test]
fn default_config_is_empty_system_account() {
    let config = AccountConfig::default();
    assert_eq!(config.lamports, None);
    assert!(config.data.is_empty());
    assert_eq!(config.owner.bytes, [0u8; 32]);
    assert!(!config.executable);
    assert!(config.data.len() <= MAX_ACCOUNT_DATA_LEN);
}

#[test]
fn remote_validation_requires_presence_and_payer() {
    let a = Address::new([41u8; 32]);
    let b = Address::new([42u8; 32]);
    let without_payer = EnvironmentGenesis::new()
        .add_account(a, AccountConfig::default())
        .add_account(b, AccountConfig::default());
    assert_eq!(
        validate_remote_genesis(&without_payer, &[true, false]),
        Err(RemoteGenesisDefect::MissingAccount(1))
    );
    assert_eq!(
        validate_remote_genesis(&without_payer, &[true, true]),
        Err(RemoteGenesisDefect::MissingPayer)
    );
    let with_payer = EnvironmentGenesis::new()
        .add_account(a, AccountConfig::default())
        .add_payer(Keypair::new());
    assert_eq!(validate_remote_genesis(&with_payer, &[true]), Ok(()));
}
