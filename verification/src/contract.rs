//! A deployed contract: an immutable address and code payload, a
//! key/value storage map, and an unsigned balance.

use vstd::prelude::*;
use crate::storage::Storage;

verus! {

/// The mathematical value of a deployed contract.
#[verifier::ext_equal]
pub ghost struct ContractView {
    pub address: Seq<char>,
    pub code: Seq<u8>,
    pub storage: Map<Seq<char>, Seq<char>>,
    pub balance: nat,
}

/// One deployed program instance.
#[derive(Clone, Debug)]
pub struct WasmContract {
    pub address: String,
    pub code: Vec<u8>,
    pub storage: Storage,
    pub balance: u64,
}

impl View for WasmContract {
    type V = ContractView;

    open spec fn view(&self) -> ContractView {
        ContractView {
            address: self.address@,
            code: self.code@,
            storage: self.storage@,
            balance: self.balance as nat,
        }
    }
}

impl WasmContract {
    /// The internal invariant: the storage map is well formed.
    pub open spec fn wf(&self) -> bool {
        self.storage.wf()
    }
}

/// Whether a code payload starts with the fixed 4-byte magic header
/// `00 61 73 6D` (`\0asm`).
pub open spec fn magic_valid(code: Seq<u8>) -> bool {
    code.len() >= 4 && code[0] == 0x00u8 && code[1] == 0x61u8 && code[2] == 0x73u8 && code[3]
        == 0x6du8
}

/// Checks the 4-byte magic header of a code payload.
pub fn validate_code(code: &Vec<u8>) -> (r: bool)
    ensures
        r == magic_valid(code@),
{
    code.len() >= 4 && code[0] == 0x00 && code[1] == 0x61 && code[2] == 0x73 && code[3] == 0x6d
}

} // verus!
