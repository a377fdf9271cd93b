//! Well-known program and sysvar addresses.

use vstd::prelude::*;
use crate::types::Address;

verus! {

pub open spec fn spec_system_program_id() -> Seq<u8> {
    Seq::new(32, |i: int| 0u8)
}

/// Address of the system program, which creates and funds accounts.
pub fn system_program_id() -> (r: Address)
    ensures
        r@ == spec_system_program_id(),
{
    let r = Address { bytes: [0u8; 32] };
    proof {
        assert(r@ =~= spec_system_program_id());
    }
    r
}

pub open spec fn spec_bpf_loader_id() -> Seq<u8> {
    [2u8, 168, 246, 145, 78, 136, 161, 110, 57, 90, 225, 40, 148, 143, 250, 105, 86, 147, 55, 104,
        24, 221, 71, 67, 82, 33, 243, 198, 0, 0, 0, 0]@
}

/// Address of the legacy program loader, owner of directly deployed programs.
pub fn bpf_loader_id() -> (r: Address)
    ensures
        r@ == spec_bpf_loader_id(),
{
    let r = Address {
        bytes: [2u8, 168, 246, 145, 78, 136, 161, 110, 57, 90, 225, 40, 148, 143, 250, 105, 86,
            147, 55, 104, 24, 221, 71, 67, 82, 33, 243, 198, 0, 0, 0, 0],
    };
    proof {
        assert(r@ =~= spec_bpf_loader_id());
    }
    r
}

pub open spec fn spec_bpf_loader_upgradeable_id() -> Seq<u8> {
    [2u8, 168, 246, 145, 78, 136, 161, 176, 226, 16, 21, 62, 247, 99, 174, 43, 0, 194, 185, 61, 22, 193, 36, 210, 192, 83, 122, 16, 4, 128, 0, 0]@
}

/// Address of the upgradeable program loader.
pub fn bpf_loader_upgradeable_id() -> (r: Address)
    ensures
        r@ == spec_bpf_loader_upgradeable_id(),
{
    let r = Address {
        bytes: [2u8, 168, 246, 145, 78, 136, 161, 176, 226, 16, 21, 62, 247, 99, 174, 43, 0, 194, 185, 61, 22, 193, 36, 210, 192, 83, 122, 16, 4, 128, 0, 0],
    };
    proof {
        assert(r@ =~= spec_bpf_loader_upgradeable_id());
    }
    r
}

pub open spec fn spec_native_loader_id() -> Seq<u8> {
    [5u8, 135, 132, 191, 20, 139, 164, 40, 47, 176, 18, 87, 72, 136, 169, 241, 83, 160, 125, 173, 247, 101, 192, 69, 92, 154, 151, 3, 128, 0, 0, 0]@
}

/// Address of the native loader, owner of builtin programs.
pub fn native_loader_id() -> (r: Address)
    ensures
        r@ == spec_native_loader_id(),
{
    let r = Address {
        bytes: [5u8, 135, 132, 191, 20, 139, 164, 40, 47, 176, 18, 87, 72, 136, 169, 241, 83, 160, 125, 173, 247, 101, 192, 69, 92, 154, 151, 3, 128, 0, 0, 0],
    };
    proof {
        assert(r@ =~= spec_native_loader_id());
    }
    r
}

pub open spec fn spec_spl_token_id() -> Seq<u8> {
    [6u8, 221, 246, 225, 215, 101, 161, 147, 217, 203, 225, 70, 206, 235, 121, 172, 28, 180, 133, 237, 95, 91, 55, 145, 58, 140, 245, 133, 126, 255, 0, 169]@
}

/// Address of the token program.
pub fn spl_token_id() -> (r: Address)
    ensures
        r@ == spec_spl_token_id(),
{
    let r = Address {
        bytes: [6u8, 221, 246, 225, 215, 101, 161, 147, 217, 203, 225, 70, 206, 235, 121, 172, 28, 180, 133, 237, 95, 91, 55, 145, 58, 140, 245, 133, 126, 255, 0, 169],
    };
    proof {
        assert(r@ =~= spec_spl_token_id());
    }
    r
}

pub open spec fn spec_associated_token_program_id() -> Seq<u8> {
    [140u8, 151, 37, 143, 78, 36, 137, 241, 187, 61, 16, 41, 20, 142, 13, 131, 11, 90, 19, 153, 218, 255, 16, 132, 4, 142, 123, 216, 219, 233, 248, 89]@
}

/// Address of the associated token account program.
pub fn associated_token_program_id() -> (r: Address)
    ensures
        r@ == spec_associated_token_program_id(),
{
    let r = Address {
        bytes: [140u8, 151, 37, 143, 78, 36, 137, 241, 187, 61, 16, 41, 20, 142, 13, 131, 11, 90, 19, 153, 218, 255, 16, 132, 4, 142, 123, 216, 219, 233, 248, 89],
    };
    proof {
        assert(r@ =~= spec_associated_token_program_id());
    }
    r
}

pub open spec fn spec_memo_v1_id() -> Seq<u8> {
    [5u8, 74, 83, 80, 248, 93, 200, 130, 214, 20, 165, 86, 114, 120, 138, 41, 109, 223, 30, 171, 171, 208, 166, 6, 120, 136, 73, 50, 244, 238, 246, 160]@
}

/// Address of the first memo program.
pub fn memo_v1_id() -> (r: Address)
    ensures
        r@ == spec_memo_v1_id(),
{
    let r = Address {
        bytes: [5u8, 74, 83, 80, 248, 93, 200, 130, 214, 20, 165, 86, 114, 120, 138, 41, 109, 223, 30, 171, 171, 208, 166, 6, 120, 136, 73, 50, 244, 238, 246, 160],
    };
    proof {
        assert(r@ =~= spec_memo_v1_id());
    }
    r
}

pub open spec fn spec_memo_v3_id() -> Seq<u8> {
    [5u8, 74, 83, 90, 153, 41, 33, 6, 77, 36, 232, 113, 96, 218, 56, 124, 124, 53, 181, 221, 188, 146, 187, 129, 228, 31, 168, 64, 65, 5, 68, 141]@
}

/// Address of the third memo program.
pub fn memo_v3_id() -> (r: Address)
    ensures
        r@ == spec_memo_v3_id(),
{
    let r = Address {
        bytes: [5u8, 74, 83, 90, 153, 41, 33, 6, 77, 36, 232, 113, 96, 218, 56, 124, 124, 53, 181, 221, 188, 146, 187, 129, 228, 31, 168, 64, 65, 5, 68, 141],
    };
    proof {
        assert(r@ =~= spec_memo_v3_id());
    }
    r
}

pub open spec fn spec_rent_sysvar_id() -> Seq<u8> {
    [6u8, 167, 213, 23, 25, 44, 92, 81, 33, 140, 201, 76, 61, 74, 241, 127, 88, 218, 238, 8, 155, 161, 253, 68, 227, 219, 217, 138, 0, 0, 0, 0]@
}

/// Address of the rent sysvar account.
pub fn rent_sysvar_id() -> (r: Address)
    ensures
        r@ == spec_rent_sysvar_id(),
{
    let r = Address {
        bytes: [6u8, 167, 213, 23, 25, 44, 92, 81, 33, 140, 201, 76, 61, 74, 241, 127, 88, 218, 238, 8, 155, 161, 253, 68, 227, 219, 217, 138, 0, 0, 0, 0],
    };
    proof {
        assert(r@ =~= spec_rent_sysvar_id());
    }
    r
}

pub open spec fn spec_clock_sysvar_id() -> Seq<u8> {
    [6u8, 167, 213, 23, 24, 199, 116, 201, 40, 86, 99, 152, 105, 29, 94, 182, 139, 94, 184, 163, 155, 75, 109, 92, 115, 85, 91, 33, 0, 0, 0, 0]@
}

/// Address of the clock sysvar account.
pub fn clock_sysvar_id() -> (r: Address)
    ensures
        r@ == spec_clock_sysvar_id(),
{
    let r = Address {
        bytes: [6u8, 167, 213, 23, 24, 199, 116, 201, 40, 86, 99, 152, 105, 29, 94, 182, 139, 94, 184, 163, 155, 75, 109, 92, 115, 85, 91, 33, 0, 0, 0, 0],
    };
    proof {
        assert(r@ =~= spec_clock_sysvar_id());
    }
    r
}

} // verus!
