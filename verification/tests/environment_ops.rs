use poc_framework::client::{ClientError, ClientSync, TransactionDetails, TransactionPlan};
use poc_framework::types::{AccountState, Address, BlockHash};
use poc_framework::{instructions_to_tx, AccountConfig, Environment, EnvironmentGenesis};
use solana_sdk::pubkey::Pubkey;
use solana_sdk::rent::Rent;
use solana_sdk::signature::Keypair;
use solana_sdk::signer::Signer;
use solana_sdk::transaction::{Transaction, TransactionError};

struct FakeClient {
    accounts: Vec<(Address, AccountState)>,
    sent: Vec<Transaction>,
    blockhash: [u8; 32],
    fail_blockhash: bool,
    fail_send: Option<ClientError<String>>,
}

impl FakeClient {
    fn new(accounts: Vec<(Address, AccountState)>) -> FakeClient {
        FakeClient {
            accounts,
            sent: Vec::new(),
            blockhash: [7u8; 32],
            fail_blockhash: false,
            fail_send: None,
        }
    }
}

impl ClientSync for FakeClient {
    type ChannelError = String;

    fn send_transaction(
        &mut self,
        plan: TransactionPlan<'_>,
    ) -> Result<TransactionDetails, ClientError<String>> {
        if let Some(e) = self.fail_send.take() {
            return Err(e);
        }
        self.sent.push(instructions_to_tx(&plan));
        Ok(TransactionDetails {
            log_messages: Vec::new(),
            units_consumed: Some(0),
        })
    }

    fn latest_blockhash(&mut self) -> Result<BlockHash, String> {
        if self.fail_blockhash {
            Err("no blockhash".to_string())
        } else {
            Ok(BlockHash {
                bytes: self.blockhash,
            })
        }
    }

    fn tick_beyond(&mut self, blockhash: BlockHash) -> Result<BlockHash, String> {
        let mut b = blockhash.bytes;
        b[0] = b[0].wrapping_add(1);
        self.blockhash = b;
        Ok(BlockHash { bytes: b })
    }

    fn get_account(&mut self, address: Address) -> Result<AccountState, ClientError<String>> {
        match self
            .accounts
            .iter()
            .find(|(a, _)| a.bytes == address.bytes)
        {
            Some((_, state)) => Ok(state.clone()),
            None => Err(ClientError::AccountNotFound(address)),
        }
    }
}

fn build_env(genesis: EnvironmentGenesis) -> Environment<FakeClient> {
    let seed = genesis.build_local_sync();
    let accounts = seed.accounts.clone();
    seed.into_environment(FakeClient::new(accounts))
}

/// The (program, account addresses, data) triple of one compiled
/// instruction of a sent transaction.
fn decoded(tx: &Transaction, index: usize) -> (Pubkey, Vec<Pubkey>, Vec<u8>) {
    let message = &tx.message;
    let ci = &message.instructions[index];
    (
        message.account_keys[ci.program_id_index as usize],
        ci.accounts
            .iter()
            .map(|&i| message.account_keys[i as usize])
            .collect(),
        ci.data.clone(),
    )
}

fn assert_ix_eq(tx: &Transaction, index: usize, expected: &solana_sdk::instruction::Instruction) {
    let (program, accounts, data) = decoded(tx, index);
    assert_eq!(program, expected.program_id);
    let expected_accounts: Vec<Pubkey> = expected.accounts.iter().map(|m| m.pubkey).collect();
    assert_eq!(accounts, expected_accounts);
    assert_eq!(data, expected.data);
}

#[test]
fn environment_reads_back_seeded_account() {
    let address = Address::new([11u8; 32]);
    let config = AccountConfig {
        lamports: None,
        data: vec![1, 2, 3],
        owner: Address::new([12u8; 32]),
        executable: false,
    };
    let mut env = build_env(EnvironmentGenesis::new().add_account(address, config));
    let account = env.get_account(address).unwrap();
    assert_eq!(account.lamports, Rent::default().minimum_balance(3));
    assert_eq!(account.data, vec![1, 2, 3]);
    assert_eq!(account.owner.bytes, [12u8; 32]);
    assert!(!account.executable);
    match env.get_account(Address::new([13u8; 32])) {
        Err(ClientError::AccountNotFound(a)) => assert_eq!(a.bytes, [13u8; 32]),
        other => panic!("expected AccountNotFound, got {:?}", other),
    }
}

#[test]
fn blockhash_failure_becomes_channel_error() {
    let mut env = build_env(EnvironmentGenesis::new());
    env.client.fail_blockhash = true;
    match env.run_instructions(Vec::new(), &[]) {
        Err(ClientError::ChannelError(e)) => assert_eq!(e, "no blockhash"),
        other => panic!("expected ChannelError, got {:?}", other),
    }
    assert!(env.client.sent.is_empty());
}

#[test]
fn send_failure_passes_through_unchanged() {
    let mut env = build_env(EnvironmentGenesis::new());
    env.client.fail_send = Some(ClientError::InvalidTransaction(
        TransactionError::BlockhashNotFound,
    ));
    match env.run_instructions(Vec::new(), &[]) {
        Err(ClientError::InvalidTransaction(e)) => {
            assert!(matches!(e, TransactionError::BlockhashNotFound));
        }
        other => panic!("expected InvalidTransaction, got {:?}", other),
    }
}

#[test]
fn create_token_mint_sends_the_two_expected_instructions() {
    let mut env = build_env(EnvironmentGenesis::new());
    let payer = env.payer().pubkey();
    let mint = Keypair::new();
    let mint_pubkey = mint.pubkey();
    let authority = Pubkey::new_unique();
    let freeze = Pubkey::new_unique();
    env.create_token_mint(
        &mint,
        Address::new(authority.to_bytes()),
        Some(Address::new(freeze.to_bytes())),
        9,
    )
    .unwrap();

    assert_eq!(env.client.sent.len(), 1);
    let tx = &env.client.sent[0];
    assert_eq!(tx.message.instructions.len(), 2);
    assert_eq!(tx.message.recent_blockhash, solana_sdk::hash::Hash::new_from_array([7u8; 32]));
    tx.verify().expect("transaction should be fully signed");

    let expected_create = solana_sdk::system_instruction::create_account(
        &payer,
        &mint_pubkey,
        Rent::default().minimum_balance(82),
        82,
        &spl_token::ID,
    );
    assert_ix_eq(tx, 0, &expected_create);

    let expected_init = spl_token::instruction::initialize_mint(
        &spl_token::ID,
        &mint_pubkey,
        &authority,
        Some(&freeze),
        9,
    )
    .unwrap();
    assert_ix_eq(tx, 1, &expected_init);
}

#[test]
fn mint_tokens_sends_the_expected_instruction() {
    let mut env = build_env(EnvironmentGenesis::new());
    let mint = Pubkey::new_unique();
    let recipient = Pubkey::new_unique();
    let authority = Keypair::new();
    env.mint_tokens(
        Address::new(mint.to_bytes()),
        &authority,
        Address::new(recipient.to_bytes()),
        1_000,
    )
    .unwrap();

    assert_eq!(env.client.sent.len(), 1);
    let expected = spl_token::instruction::mint_to(
        &spl_token::ID,
        &mint,
        &recipient,
        &authority.pubkey(),
        &[],
        1_000,
    )
    .unwrap();
    assert_ix_eq(&env.client.sent[0], 0, &expected);
}

#[test]
#[allow(deprecated)]
fn create_associated_token_account_returns_derived_address() {
    let mut env = build_env(EnvironmentGenesis::new());
    let payer = env.payer().pubkey();
    let owner = Pubkey::new_unique();
    let mint = Pubkey::new_unique();
    let returned = env
        .create_associated_token_account(
            Address::new(owner.to_bytes()),
            Address::new(mint.to_bytes()),
        )
        .unwrap();

    let expected_address = spl_associated_token_account::get_associated_token_address(&owner, &mint);
    assert_eq!(returned.bytes, expected_address.to_bytes());

    assert_eq!(env.client.sent.len(), 1);
    let expected_ix =
        spl_associated_token_account::create_associated_token_account(&payer, &owner, &mint);
    assert_ix_eq(&env.client.sent[0], 0, &expected_ix);
}

#[test]
#[allow(deprecated)]
fn deploy_program_uploads_payload_in_chunks_and_finalizes() {
    let mut env = build_env(EnvironmentGenesis::new());
    let payer = env.payer().pubkey();
    let program = Keypair::new();
    let program_pubkey = program.pubkey();
    let data: Vec<u8> = (0..2048u32).map(|i| (i % 239) as u8).collect();
    env.deploy_program(&program, &data).unwrap();

    // one create, three chunk writes, one finalize
    assert_eq!(env.client.sent.len(), 5);

    let expected_create = solana_sdk::system_instruction::create_account(
        &payer,
        &program_pubkey,
        Rent::default().minimum_balance(2048),
        2048,
        &solana_sdk::bpf_loader::ID,
    );
    assert_ix_eq(&env.client.sent[0], 0, &expected_create);

    let mut reassembled: Vec<u8> = Vec::new();
    for (i, chunk) in data.chunks(900).enumerate() {
        let expected_write = solana_sdk::loader_instruction::write(
            &program_pubkey,
            &solana_sdk::bpf_loader::ID,
            (i * 900) as u32,
            chunk.to_vec(),
        );
        assert_ix_eq(&env.client.sent[1 + i], 0, &expected_write);
        let (_, _, sent_data) = decoded(&env.client.sent[1 + i], 0);
        reassembled.extend_from_slice(&sent_data[16..]);
    }
    assert_eq!(reassembled, data);

    let expected_finalize = solana_sdk::loader_instruction::finalize(
        &program_pubkey,
        &solana_sdk::bpf_loader::ID,
    );
    assert_ix_eq(&env.client.sent[4], 0, &expected_finalize);
}

#[test]
#[allow(deprecated)]
fn deploy_upgradeable_program_runs_three_phases() {
    let mut env = build_env(EnvironmentGenesis::new());
    let payer = env.payer().pubkey();
    let program = Keypair::new();
    let buffer = Keypair::new();
    let authority = Keypair::new();
    let data: Vec<u8> = (0..1000u32).map(|i| (i % 233) as u8).collect();

    let returned = env
        .deploy_upgradeable_program(&program, &buffer, &authority, &data, false)
        .expect("program data address should exist")
        .expect("deploy should succeed");

    let expected_programdata = Pubkey::find_program_address(
        &[&program.pubkey().to_bytes()],
        &solana_sdk::bpf_loader_upgradeable::ID,
    )
    .0;
    assert_eq!(returned.bytes, expected_programdata.to_bytes());
    assert_ne!(returned.bytes, program.pubkey().to_bytes());

    // buffer creation, two chunk writes, deploy
    assert_eq!(env.client.sent.len(), 4);

    let max_size = data.len() * 2;
    let expected_buffer = solana_sdk::bpf_loader_upgradeable::create_buffer(
        &payer,
        &buffer.pubkey(),
        &authority.pubkey(),
        Rent::default().minimum_balance(45 + max_size),
        max_size,
    )
    .unwrap();
    assert_eq!(env.client.sent[0].message.instructions.len(), 2);
    assert_ix_eq(&env.client.sent[0], 0, &expected_buffer[0]);
    assert_ix_eq(&env.client.sent[0], 1, &expected_buffer[1]);

    for (i, chunk) in data.chunks(900).enumerate() {
        let expected_write = solana_sdk::bpf_loader_upgradeable::write(
            &buffer.pubkey(),
            &authority.pubkey(),
            (i * 900) as u32,
            chunk.to_vec(),
        );
        assert_ix_eq(&env.client.sent[1 + i], 0, &expected_write);
    }

    let expected_deploy = solana_sdk::bpf_loader_upgradeable::deploy_with_max_program_len(
        &payer,
        &program.pubkey(),
        &buffer.pubkey(),
        &authority.pubkey(),
        Rent::default().minimum_balance(36),
        max_size,
    )
    .unwrap();
    let deploy_tx = &env.client.sent[3];
    assert_eq!(deploy_tx.message.instructions.len(), 2);
    assert_ix_eq(deploy_tx, 0, &expected_deploy[0]);
    assert_ix_eq(deploy_tx, 1, &expected_deploy[1]);
    deploy_tx.verify().expect("deploy should be fully signed");
}

#[test]
fn token_balance_decodes_the_amount_field() {
    let token_account = Address::new([21u8; 32]);
    let mut packed = vec![0u8; 165];
    let record = spl_token::state::Account {
        mint: Pubkey::new_unique(),
        owner: Pubkey::new_unique(),
        amount: 555,
        delegate: solana_sdk::program_option::COption::None,
        state: spl_token::state::AccountState::Initialized,
        is_native: solana_sdk::program_option::COption::None,
        delegated_amount: 0,
        close_authority: solana_sdk::program_option::COption::None,
    };
    solana_sdk::program_pack::Pack::pack(record, &mut packed).unwrap();
    let config = AccountConfig {
        lamports: Some(1),
        data: packed,
        ..Default::default()
    };
    let bad_account = Address::new([22u8; 32]);
    let bad_config = AccountConfig {
        lamports: Some(1),
        data: vec![1, 2, 3],
        ..Default::default()
    };
    let mut env = build_env(
        EnvironmentGenesis::new()
            .add_account(token_account, config)
            .add_account(bad_account, bad_config),
    );
    assert_eq!(env.token_balance(token_account).unwrap(), 555);
    match env.token_balance(bad_account) {
        Err(ClientError::InvalidAccountData(a)) => assert_eq!(a.bytes, [22u8; 32]),
        other => panic!("expected InvalidAccountData, got {:?}", other),
    }
}

#[test]
fn rent_queries_match_the_ledger_schedule() {
    let env = build_env(EnvironmentGenesis::new());
    assert_eq!(
        env.rent_exemption_amount(0),
        Rent::default().minimum_balance(0).max(1)
    );
    assert_eq!(
        env.rent_exemption_amount(2048),
        Rent::default().minimum_balance(2048).max(1)
    );
    let schedule = env.rent();
    assert_eq!(
        schedule.lamports_per_byte_year,
        solana_sdk::rent::DEFAULT_LAMPORTS_PER_BYTE_YEAR
    );
    assert_eq!(
        f64::from_bits(schedule.exemption_threshold_bits),
        solana_sdk::rent::DEFAULT_EXEMPTION_THRESHOLD
    );
    assert_eq!(schedule.burn_percent, solana_sdk::rent::DEFAULT_BURN_PERCENT);
}

#[test]
fn tick_beyond_changes_the_blockhash() {
    let mut client = FakeClient::new(Vec::new());
    let start = client.latest_blockhash().unwrap();
    let next = client.tick_beyond(start).unwrap();
    assert_ne!(start.bytes, next.bytes);
}

#[test]
fn get_sysvar_decodes_the_rent_schedule() {
    let rent_account = solana_sdk::account::create_account_for_test(&Rent::default());
    let rent_address = Address::new(solana_sdk::sysvar::rent::ID.to_bytes());
    let mut client = FakeClient::new(vec![(
        rent_address,
        AccountState {
            lamports: rent_account.lamports,
            data: rent_account.data,
            owner: Address::new(rent_account.owner.to_bytes()),
            executable: false,
            rent_epoch: 0,
        },
    )]);
    let schedule = client.get_sysvar().unwrap();
    assert_eq!(
        schedule.lamports_per_byte_year,
        solana_sdk::rent::DEFAULT_LAMPORTS_PER_BYTE_YEAR
    );
    assert_eq!(schedule.burn_percent, solana_sdk::rent::DEFAULT_BURN_PERCENT);
}

#[test]
fn get_sysvar_rejects_undecodable_bytes() {
    let rent_address = Address::new(solana_sdk::sysvar::rent::ID.to_bytes());
    let mut client = FakeClient::new(vec![(
        rent_address,
        AccountState {
            lamports: 1,
            data: vec![1, 2],
            owner: Address::new([0u8; 32]),
            executable: false,
            rent_epoch: 0,
        },
    )]);
    match client.get_sysvar() {
        Err(ClientError::InvalidAccountData(a)) => {
            assert_eq!(a.bytes, solana_sdk::sysvar::rent::ID.to_bytes());
        }
        other => panic!("expected InvalidAccountData, got {:?}", other),
    }
}

#[test]
fn seed_materializes_every_configured_account_in_order() {
    let first = Address::new([31u8; 32]);
    let second = Address::new([32u8; 32]);
    let third = Address::new([33u8; 32]);
    let seed = EnvironmentGenesis::new()
        .add_account(
            first,
            AccountConfig {
                lamports: Some(10),
                data: vec![1],
                ..Default::default()
            },
        )
        .add_account(
            second,
            AccountConfig {
                lamports: None,
                data: vec![2, 2],
                ..Default::default()
            },
        )
        .add_program(third, vec![3, 3, 3])
        .build_local_sync();
    assert_eq!(seed.accounts.len(), 4);
    assert_eq!(seed.accounts[0].0.bytes, first.bytes);
    assert_eq!(seed.accounts[0].1.lamports, 10);
    assert_eq!(seed.accounts[1].0.bytes, second.bytes);
    assert_eq!(seed.accounts[1].1.lamports, Rent::default().minimum_balance(2));
    assert_eq!(seed.accounts[2].0.bytes, third.bytes);
    assert_eq!(
        seed.accounts[2].1.lamports,
        Rent::default().minimum_balance(3)
    );
    assert!(seed.accounts[2].1.executable);
    assert_eq!(
        seed.accounts[2].1.owner.bytes,
        solana_sdk::bpf_loader::ID.to_bytes()
    );
    assert_eq!(seed.accounts[3].0.bytes, seed.payer_address.bytes);
}

#[test]
fn rent_exemption_matches_the_ledger_across_sizes() {
    let env = build_env(EnvironmentGenesis::new());
    for len in [0usize, 1, 899, 900, 901, 12_345, 1_048_576, 10_485_760] {
        assert_eq!(
            env.rent_exemption_amount(len),
            Rent::default().minimum_balance(len).max(1),
            "length {}",
            len
        );
    }
}
