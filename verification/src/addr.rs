//! Blockchain addresses and call contexts.
//!
//! An address is a one-byte kind tag followed by a 20-byte identifier. The
//! identifier is held as three little-endian machine words so that equality
//! is structural and addresses can be members of mathematical sets.

use vstd::prelude::*;
use vstd::bytes::{
    spec_u32_from_le_bytes, spec_u64_from_le_bytes, u32_from_le_bytes, u64_from_le_bytes,
};
use vstd::slice::slice_subrange;

verus! {

/// The role of the contract or account an address points at.
#[derive(Clone, Copy, Debug, PartialEq, Eq, Structural)]
pub enum AddressKind {
    Account,
    SystemContract,
    PublicContract,
    ZkContract,
}

/// A 21-byte chain address: a kind tag and a 20-byte identifier, the
/// identifier split little-endian into an 8-byte, an 8-byte and a 4-byte word.
#[derive(Clone, Copy, Debug, PartialEq, Eq, Structural)]
pub struct Address {
    pub kind: AddressKind,
    pub id_a: u64,
    pub id_b: u64,
    pub id_c: u32,
}

/// Context of one incoming call: who sent it, which contract receives it,
/// the block time, and the identifying bytes of the enclosing transaction.
pub struct ContractContext {
    pub sender: Address,
    pub contract_address: Address,
    pub block_time: u64,
    pub tx_bytes: Vec<u8>,
}

/// Outcome of an asynchronous call delivered back to the requesting contract.
pub struct CallbackContext {
    pub success: bool,
}

/// The deterministic future address of a contract deployed by the current
/// transaction: its identifier is read from transaction bytes 12 to 32.
pub open spec fn spec_predicted_address(kind: AddressKind, tx: Seq<u8>) -> Address {
    Address {
        kind,
        id_a: spec_u64_from_le_bytes(tx.subrange(12, 20)),
        id_b: spec_u64_from_le_bytes(tx.subrange(20, 28)),
        id_c: spec_u32_from_le_bytes(tx.subrange(28, 32)),
    }
}

/// Computes the deterministic future address of a contract deployed by the
/// current transaction.
pub fn predicted_address(kind: AddressKind, tx: &Vec<u8>) -> (r: Address)
    requires
        tx@.len() >= 32,
    ensures
        r == spec_predicted_address(kind, tx@),
{
    let id_a = u64_from_le_bytes(slice_subrange(tx.as_slice(), 12, 20));
    let id_b = u64_from_le_bytes(slice_subrange(tx.as_slice(), 20, 28));
    let id_c = u32_from_le_bytes(slice_subrange(tx.as_slice(), 28, 32));
    Address { kind, id_a, id_b, id_c }
}

} // verus!
