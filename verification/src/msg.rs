//! Request and response values exchanged with the dispatcher.
//!
//! These are plain values: the wire encoding of requests and responses
//! is the host's concern, not the engine's.

use vstd::prelude::*;

use crate::state::VaultStatus;

verus! {

/// A quantity of tokens in one denomination.
#[derive(Debug)]
pub struct Coin {
    pub denom: String,
    pub amount: u128,
}

/// An outbound fund-transfer instruction.  The engine never moves
/// funds itself; the host executes these against the token ledger.
#[derive(Debug)]
pub struct TransferInstruction {
    pub to: String,
    pub amount: u128,
    pub denom: String,
}

/// Instantiation request: the token denomination the contract accepts.
#[derive(Debug)]
pub struct InstantiateMsg {
    pub denom: String,
}

/// A state-mutating request.
#[derive(Debug)]
pub enum ExecuteMsg {
    CastBet { vault_id: u64, vote: String, weight: u128 },
    BetTokens {},
    WithdrawRewards { amount: Option<u128> },
    CreateVault { description: String, start_height: Option<u64>, end_height: Option<u64> },
    EndDeposits { vault_id: u64 },
}

/// A read-only request.
#[derive(Debug)]
pub enum QueryMsg {
    Config {},
    TokenBet { address: String },
    Vault { vault_id: u64 },
}

/// Vault summary returned by a vault query.
#[derive(Debug)]
pub struct VaultResponse {
    pub creator: String,
    pub status: VaultStatus,
    pub end_height: Option<u64>,
    pub start_height: Option<u64>,
    pub description: String,
}

/// The identifier assigned to a newly created vault.
#[derive(Debug)]
pub struct CreateVaultResponse {
    pub vault_id: u64,
}

/// The number of vaults created so far.
#[derive(Debug)]
pub struct VaultCountResponse {
    pub vault_count: u64,
}

/// An account's balance as returned by a token query.
#[derive(Debug)]
pub struct TokenBetResponse {
    pub token_balance: u128,
}

/// What a successful state-mutating request reports back.
#[derive(Debug)]
pub enum ExecuteResponse {
    /// The operation succeeded with nothing further to report.
    Default {},
    /// A vault was created under the returned identifier.
    VaultCreated { data: CreateVaultResponse },
    /// Funds were released: the host must execute this transfer.
    Transfer { instruction: TransferInstruction },
}

/// What a read-only request reports back.
#[derive(Debug)]
pub enum QueryResponse {
    /// The global configuration.
    Config { config: crate::state::State },
    /// An account's balance.
    TokenBet { balance: TokenBetResponse },
    /// A vault summary.
    Vault { vault: VaultResponse },
}

} // verus!
