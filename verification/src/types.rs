//! Plain data model for the ledger objects the library reasons about.
//!
//! Addresses, blockhashes, accounts and instructions are held as plain bytes
//! and integers so that every rule about them can be stated and proved.
//! Opaque ledger types (key pairs, signed transactions) stay behind the
//! bindings in `solana`.

use vstd::prelude::*;

verus! {

/// A 32-byte account or program address.
#[derive(Clone, Copy, Debug)]
pub struct Address {
    pub bytes: [u8; 32],
}

impl View for Address {
    type V = Seq<u8>;

    open spec fn view(&self) -> Seq<u8> {
        self.bytes@
    }
}

impl PartialEq for Address {
    fn eq(&self, other: &Address) -> (r: bool) {
        let mut i: usize = 0;
        while i < 32
            invariant
                i <= 32,
                forall|j: int| 0 <= j < i ==> self.bytes@[j] == other.bytes@[j],
            decreases 32 - i,
        {
            if self.bytes[i] != other.bytes[i] {
                return false;
            }
            i += 1;
        }
        proof {
            assert(self.bytes@ =~= other.bytes@);
        }
        true
    }
}

impl vstd::std_specs::cmp::PartialEqSpecImpl for Address {
    open spec fn obeys_eq_spec() -> bool {
        true
    }

    open spec fn eq_spec(&self, other: &Address) -> bool {
        self.bytes@ == other.bytes@
    }
}

impl Address {
    pub fn new(bytes: [u8; 32]) -> (r: Address)
        ensures
            r.bytes == bytes,
    {
        Address { bytes }
    }
}

/// A recent ledger state fingerprint, bounding a transaction's validity.
#[derive(Clone, Copy, Debug)]
pub struct BlockHash {
    pub bytes: [u8; 32],
}

impl View for BlockHash {
    type V = Seq<u8>;

    open spec fn view(&self) -> Seq<u8> {
        self.bytes@
    }
}

/// One account reference inside an instruction.
#[derive(Clone, Copy, Debug, PartialEq)]
pub struct AccountMeta {
    pub address: Address,
    pub is_signer: bool,
    pub is_writable: bool,
}

/// A single program invocation: the program to run, the accounts it may
/// touch, and an opaque data payload.
#[derive(Clone, Debug, PartialEq)]
pub struct Instruction {
    pub program: Address,
    pub accounts: Vec<AccountMeta>,
    pub data: Vec<u8>,
}

/// An account image: balance, raw data, owning program and executable flag.
#[derive(Clone, Debug, PartialEq)]
pub struct AccountState {
    pub lamports: u64,
    pub data: Vec<u8>,
    pub owner: Address,
    pub executable: bool,
    pub rent_epoch: u64,
}

/// The rent parameters an environment charges accounts by.  The exemption
/// threshold (a year count) is kept as the bit pattern of its binary64
/// encoding so that the schedule is plain data.
#[derive(Clone, Copy, Debug, PartialEq, Eq, Structural)]
pub struct RentSchedule {
    pub lamports_per_byte_year: u64,
    pub exemption_threshold_bits: u64,
    pub burn_percent: u8,
}

/// Rental rate of the default schedule, in lamports per byte-year.
pub const DEFAULT_LAMPORTS_PER_BYTE_YEAR: u64 = 3480;

/// Binary64 bit pattern of the default exemption threshold of two years.
pub const DEFAULT_EXEMPTION_THRESHOLD_BITS: u64 = 0x4000_0000_0000_0000;

/// Share of collected rent that the default schedule burns.
pub const DEFAULT_BURN_PERCENT: u8 = 50;

/// Bytes charged for an account's fixed storage overhead.
pub const ACCOUNT_STORAGE_OVERHEAD: u64 = 128;

/// Largest data size an account of the ledger may hold.
pub const MAX_ACCOUNT_DATA_LEN: usize = 10485760;

/// Serialized size of an upgradeable-loader buffer account's metadata.
pub const BUFFER_METADATA_SIZE: usize = 37;

/// Serialized size of an upgradeable-loader program-data account's metadata.
pub const PROGRAMDATA_METADATA_SIZE: usize = 45;

/// Serialized size of an upgradeable-loader program account.
pub const PROGRAM_ACCOUNT_SIZE: usize = 36;

/// The addresses a run of account references names.
pub open spec fn spec_meta_addresses(metas: Seq<AccountMeta>) -> Set<Seq<u8>>
    decreases metas.len(),
{
    if metas.len() == 0 {
        Set::empty()
    } else {
        spec_meta_addresses(metas.drop_last()).insert(metas.last().address@)
    }
}

/// Every address an instruction sequence names: each instruction's program
/// and each of its account references.  A message indexes its distinct
/// addresses with one byte, so a submission may name only boundedly many.
pub open spec fn spec_named_addresses(instructions: Seq<Instruction>) -> Set<Seq<u8>>
    decreases instructions.len(),
{
    if instructions.len() == 0 {
        Set::empty()
    } else {
        spec_named_addresses(instructions.drop_last()).union(
            spec_meta_addresses(instructions.last().accounts@),
        ).insert(instructions.last().program@)
    }
}

/// Total account references an instruction sequence makes, programs
/// included; an upper bound on the distinct addresses it names.
pub open spec fn spec_address_reference_count(instructions: Seq<Instruction>) -> int
    decreases instructions.len(),
{
    if instructions.len() == 0 {
        0
    } else {
        spec_address_reference_count(instructions.drop_last())
            + instructions.last().accounts@.len() + 1
    }
}

/// The named addresses are finite, and no more numerous than the account
/// references made.
pub proof fn lemma_named_addresses_bound(instructions: Seq<Instruction>)
    ensures
        spec_named_addresses(instructions).finite(),
        spec_named_addresses(instructions).len() <= spec_address_reference_count(instructions),
    decreases instructions.len(),
{
    if instructions.len() > 0 {
        lemma_named_addresses_bound(instructions.drop_last());
        lemma_meta_addresses_bound(instructions.last().accounts@);
        vstd::set_lib::lemma_len_union(
            spec_named_addresses(instructions.drop_last()),
            spec_meta_addresses(instructions.last().accounts@),
        );
    }
}

proof fn lemma_meta_addresses_bound(metas: Seq<AccountMeta>)
    ensures
        spec_meta_addresses(metas).finite(),
        spec_meta_addresses(metas).len() <= metas.len(),
    decreases metas.len(),
{
    if metas.len() > 0 {
        lemma_meta_addresses_bound(metas.drop_last());
    }
}

/// The four bytes of a 32-bit integer, least significant first.
pub open spec fn spec_u32_le(n: u32) -> Seq<u8> {
    seq![
        (n & 0xff) as u8,
        ((n >> 8) & 0xff) as u8,
        ((n >> 16) & 0xff) as u8,
        ((n >> 24) & 0xff) as u8,
    ]
}

/// The eight bytes of a 64-bit integer, least significant first.
pub open spec fn spec_u64_le(n: u64) -> Seq<u8> {
    seq![
        (n & 0xff) as u8,
        ((n >> 8) & 0xff) as u8,
        ((n >> 16) & 0xff) as u8,
        ((n >> 24) & 0xff) as u8,
        ((n >> 32) & 0xff) as u8,
        ((n >> 40) & 0xff) as u8,
        ((n >> 48) & 0xff) as u8,
        ((n >> 56) & 0xff) as u8,
    ]
}

pub open spec fn spec_default_rent_schedule() -> RentSchedule {
    RentSchedule {
        lamports_per_byte_year: DEFAULT_LAMPORTS_PER_BYTE_YEAR,
        exemption_threshold_bits: DEFAULT_EXEMPTION_THRESHOLD_BITS,
        burn_percent: DEFAULT_BURN_PERCENT,
    }
}

/// The rent schedule every locally built environment charges by.
pub fn default_rent_schedule() -> (r: RentSchedule)
    ensures
        r == spec_default_rent_schedule(),
{
    RentSchedule {
        lamports_per_byte_year: DEFAULT_LAMPORTS_PER_BYTE_YEAR,
        exemption_threshold_bits: DEFAULT_EXEMPTION_THRESHOLD_BITS,
        burn_percent: DEFAULT_BURN_PERCENT,
    }
}

/// Balance below which an account of `len` data bytes owes rent, under the
/// default schedule: two years of rent on the data plus the fixed overhead.
pub open spec fn spec_rent_exempt_minimum(len: int) -> int {
    (ACCOUNT_STORAGE_OVERHEAD + len) * DEFAULT_LAMPORTS_PER_BYTE_YEAR * 2
}

} // verus!
