use vstd::prelude::*;

verus! {

/// Why a candidate fungible ledger was refused.
#[derive(Debug, PartialEq, Eq)]
pub enum LedgerFault {
    /// The minter query failed; the collaborator's message.
    QueryFailed(String),
    /// The ledger reported another minting authority.
    MinterMismatch { minter: String },
}

/// Every way an operation of the vault can fail. Each failure aborts the
/// whole operation and leaves the state as it was.
#[derive(Debug, PartialEq, Eq)]
pub enum ContractError {
    /// A collaborator's query or a message payload failed; its message.
    Std(String),
    /// The contract was never created.
    NotInitialized,
    /// The contract was created already.
    AlreadyInitialized,
    /// No fungible ledger is bound yet.
    Cw20AddressNotSet,
    /// A fungible ledger is bound already.
    Cw20AddressAlreadySet,
    /// The candidate fungible ledger does not let this contract mint.
    InvalidFungibleLedger(LedgerFault),
    /// The asset registry does not report this contract as the owner.
    Cw721NotOwnedByContract,
    /// The asset is escrowed already.
    DuplicateAsset,
    /// The asset is not escrowed.
    AssetNotEscrowed,
    /// The presented claim-token amount is not the fixed unit.
    IncorrectTokenAmount,
}

} // verus!
