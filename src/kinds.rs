//! Transaction types and syscall selectors known to the protocol.

use vstd::prelude::*;

verus! {

/// Number of transaction types.
pub const N_TX_TYPES: usize = 4;

/// Number of syscall selectors.
pub const N_SYSCALLS: usize = 31;

/// The kinds of transactions.
#[derive(Clone, Copy, Debug, PartialEq, Eq, Hash, Structural)]
pub enum TransactionType {
    Declare,
    DeployAccount,
    InvokeFunction,
    L1Handler,
}

impl TransactionType {
    pub open spec fn spec_index(self) -> nat {
        match self {
            TransactionType::Declare => 0,
            TransactionType::DeployAccount => 1,
            TransactionType::InvokeFunction => 2,
            TransactionType::L1Handler => 3,
        }
    }

    /// Position of this variant in the declaration order.
    pub fn index(&self) -> (r: usize)
        ensures
            r == self.spec_index(),
            r < N_TX_TYPES,
    {
        match self {
            TransactionType::Declare => 0,
            TransactionType::DeployAccount => 1,
            TransactionType::InvokeFunction => 2,
            TransactionType::L1Handler => 3,
        }
    }

    /// The variant at position `i` of the declaration order.
    pub fn from_index(i: usize) -> (r: TransactionType)
        requires
            i < N_TX_TYPES,
        ensures
            r.spec_index() == i,
    {
        if i == 0 {
            TransactionType::Declare
        } else if i == 1 {
            TransactionType::DeployAccount
        } else if i == 2 {
            TransactionType::InvokeFunction
        } else {
            TransactionType::L1Handler
        }
    }
}

/// The syscalls that a contract can invoke.
#[derive(Clone, Copy, Debug, PartialEq, Eq, Hash, Structural)]
pub enum SyscallSelector {
    CallContract,
    DelegateCall,
    DelegateL1Handler,
    Deploy,
    EmitEvent,
    GetBlockHash,
    GetBlockNumber,
    GetBlockTimestamp,
    GetCallerAddress,
    GetContractAddress,
    GetExecutionInfo,
    GetSequencerAddress,
    GetTxInfo,
    GetTxSignature,
    Keccak,
    LibraryCall,
    LibraryCallL1Handler,
    ReplaceClass,
    Secp256k1Add,
    Secp256k1GetPointFromX,
    Secp256k1GetXy,
    Secp256k1Mul,
    Secp256k1New,
    Secp256r1Add,
    Secp256r1GetPointFromX,
    Secp256r1GetXy,
    Secp256r1Mul,
    Secp256r1New,
    SendMessageToL1,
    StorageRead,
    StorageWrite,
}

impl SyscallSelector {
    pub open spec fn spec_index(self) -> nat {
        match self {
            SyscallSelector::CallContract => 0,
            SyscallSelector::DelegateCall => 1,
            SyscallSelector::DelegateL1Handler => 2,
            SyscallSelector::Deploy => 3,
            SyscallSelector::EmitEvent => 4,
            SyscallSelector::GetBlockHash => 5,
            SyscallSelector::GetBlockNumber => 6,
            SyscallSelector::GetBlockTimestamp => 7,
            SyscallSelector::GetCallerAddress => 8,
            SyscallSelector::GetContractAddress => 9,
            SyscallSelector::GetExecutionInfo => 10,
            SyscallSelector::GetSequencerAddress => 11,
            SyscallSelector::GetTxInfo => 12,
            SyscallSelector::GetTxSignature => 13,
            SyscallSelector::Keccak => 14,
            SyscallSelector::LibraryCall => 15,
            SyscallSelector::LibraryCallL1Handler => 16,
            SyscallSelector::ReplaceClass => 17,
            SyscallSelector::Secp256k1Add => 18,
            SyscallSelector::Secp256k1GetPointFromX => 19,
            SyscallSelector::Secp256k1GetXy => 20,
            SyscallSelector::Secp256k1Mul => 21,
            SyscallSelector::Secp256k1New => 22,
            SyscallSelector::Secp256r1Add => 23,
            SyscallSelector::Secp256r1GetPointFromX => 24,
            SyscallSelector::Secp256r1GetXy => 25,
            SyscallSelector::Secp256r1Mul => 26,
            SyscallSelector::Secp256r1New => 27,
            SyscallSelector::SendMessageToL1 => 28,
            SyscallSelector::StorageRead => 29,
            SyscallSelector::StorageWrite => 30,
        }
    }

    /// Position of this variant in the declaration order.
    pub fn index(&self) -> (r: usize)
        ensures
            r == self.spec_index(),
            r < N_SYSCALLS,
    {
        match self {
            SyscallSelector::CallContract => 0,
            SyscallSelector::DelegateCall => 1,
            SyscallSelector::DelegateL1Handler => 2,
            SyscallSelector::Deploy => 3,
            SyscallSelector::EmitEvent => 4,
            SyscallSelector::GetBlockHash => 5,
            SyscallSelector::GetBlockNumber => 6,
            SyscallSelector::GetBlockTimestamp => 7,
            SyscallSelector::GetCallerAddress => 8,
            SyscallSelector::GetContractAddress => 9,
            SyscallSelector::GetExecutionInfo => 10,
            SyscallSelector::GetSequencerAddress => 11,
            SyscallSelector::GetTxInfo => 12,
            SyscallSelector::GetTxSignature => 13,
            SyscallSelector::Keccak => 14,
            SyscallSelector::LibraryCall => 15,
            SyscallSelector::LibraryCallL1Handler => 16,
            SyscallSelector::ReplaceClass => 17,
            SyscallSelector::Secp256k1Add => 18,
            SyscallSelector::Secp256k1GetPointFromX => 19,
            SyscallSelector::Secp256k1GetXy => 20,
            SyscallSelector::Secp256k1Mul => 21,
            SyscallSelector::Secp256k1New => 22,
            SyscallSelector::Secp256r1Add => 23,
            SyscallSelector::Secp256r1GetPointFromX => 24,
            SyscallSelector::Secp256r1GetXy => 25,
            SyscallSelector::Secp256r1Mul => 26,
            SyscallSelector::Secp256r1New => 27,
            SyscallSelector::SendMessageToL1 => 28,
            SyscallSelector::StorageRead => 29,
            SyscallSelector::StorageWrite => 30,
        }
    }

    /// The variant at position `i` of the declaration order.
    pub fn from_index(i: usize) -> (r: SyscallSelector)
        requires
            i < N_SYSCALLS,
        ensures
            r.spec_index() == i,
    {
        if i == 0 {
            SyscallSelector::CallContract
        } else if i == 1 {
            SyscallSelector::DelegateCall
        } else if i == 2 {
            SyscallSelector::DelegateL1Handler
        } else if i == 3 {
            SyscallSelector::Deploy
        } else if i == 4 {
            SyscallSelector::EmitEvent
        } else if i == 5 {
            SyscallSelector::GetBlockHash
        } else if i == 6 {
            SyscallSelector::GetBlockNumber
        } else if i == 7 {
            SyscallSelector::GetBlockTimestamp
        } else if i == 8 {
            SyscallSelector::GetCallerAddress
        } else if i == 9 {
            SyscallSelector::GetContractAddress
        } else if i == 10 {
            SyscallSelector::GetExecutionInfo
        } else if i == 11 {
            SyscallSelector::GetSequencerAddress
        } else if i == 12 {
            SyscallSelector::GetTxInfo
        } else if i == 13 {
            SyscallSelector::GetTxSignature
        } else if i == 14 {
            SyscallSelector::Keccak
        } else if i == 15 {
            SyscallSelector::LibraryCall
        } else if i == 16 {
            SyscallSelector::LibraryCallL1Handler
        } else if i == 17 {
            SyscallSelector::ReplaceClass
        } else if i == 18 {
            SyscallSelector::Secp256k1Add
        } else if i == 19 {
            SyscallSelector::Secp256k1GetPointFromX
        } else if i == 20 {
            SyscallSelector::Secp256k1GetXy
        } else if i == 21 {
            SyscallSelector::Secp256k1Mul
        } else if i == 22 {
            SyscallSelector::Secp256k1New
        } else if i == 23 {
            SyscallSelector::Secp256r1Add
        } else if i == 24 {
            SyscallSelector::Secp256r1GetPointFromX
        } else if i == 25 {
            SyscallSelector::Secp256r1GetXy
        } else if i == 26 {
            SyscallSelector::Secp256r1Mul
        } else if i == 27 {
            SyscallSelector::Secp256r1New
        } else if i == 28 {
            SyscallSelector::SendMessageToL1
        } else if i == 29 {
            SyscallSelector::StorageRead
        } else {
            SyscallSelector::StorageWrite
        }
    }
}

} // verus!
