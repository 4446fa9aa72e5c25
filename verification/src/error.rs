//! Typed failures returned by the engine's operations.
//!
//! Every failure is non-fatal and reported to the caller; a failed operation
//! never commits a partial state change.

use vstd::prelude::*;

verus! {

/// Why an operation was refused.
///
/// Accounting violations carry the computed permissible amount or the
/// offending height so the caller can retry with corrected arguments.
#[derive(Debug)]
pub enum ContractError {
    /// An amount would not fit in the accounting word size.
    OverflowError {},
    /// The attached funds do not meet the required minimum in the
    /// configured denomination.
    InsufficientFundsSent {},
    /// The requested withdrawal exceeds the unlocked balance; at most
    /// `max_amount` may be withdrawn right now.
    ExcessiveWithdraw { max_amount: u128 },
    /// The vault description is shorter than the allowed minimum.
    DescriptionTooShort { min_desc_length: u64 },
    /// The vault description is longer than the allowed maximum.
    DescriptionTooLong { max_desc_length: u64 },
    /// The caller has no account: nothing was ever deposited.
    VaultNoBet {},
    /// The vault identifier is zero or exceeds the number of vaults created.
    VaultDoesNotExist {},
    /// The requested end height is not in the future.
    VaultCannotEndInPast {},
    /// Only the vault's creator may close its deposit window.
    VaultNotCreator { sender: String, creator: String },
    /// The vault is not in progress.
    VaultNotInProgress {},
    /// The deposit window has not started yet; it opens at `start_height`.
    VaultDepositPeriodNotStarted { start_height: u64 },
    /// The deposit window is still open; it expires at `expire_height`.
    VaultDepositPeriodNotExpired { expire_height: u64 },
    /// The sender has already voted in this vault.
    VaultSenderVoted {},
    /// The vault is not open for deposits.
    VaultNotOpenForDeposits {},
    /// The vault is not open for withdrawals.
    VaultNotOpenForWithdrawals {},
    /// The vote is neither "yes" nor "no".
    InvalidBetEvent {},
    /// The sender's staked tokens are insufficient.
    VaultInsufficientStake {},
    /// The sender's balance is smaller than the weight to be staked.
    VaultInsufficientAmt {},
    /// The caller is not authorized for this action.
    Unauthorized {},
}

} // verus!
