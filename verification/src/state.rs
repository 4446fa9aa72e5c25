//! The persisted state of the engine and its mathematical model.
//!
//! Three logical tables make up the state: a single-row configuration,
//! an address-keyed account table (the bank), and an identifier-keyed
//! vault table.  Vault identifiers are assigned sequentially starting
//! at 1, so vault `id` lives at index `id - 1` of the vault table.

use vstd::prelude::*;

verus! {

/// Global configuration singleton: the accepted token denomination, the
/// instantiating owner, the running vault counter (source of new vault
/// identifiers) and the total of all tokens deposited net of withdrawals.
#[derive(Debug)]
pub struct State {
    pub denom: String,
    pub owner: String,
    pub vault_count: u64,
    pub bet_tokens: u128,
}

/// One account per participant address: the total balance held in the
/// contract and the stakes currently locking a portion of that balance,
/// as `(vault identifier, staked weight)` pairs with unique identifiers.
#[derive(Debug)]
pub struct TokenManager {
    pub token_balance: u128,
    pub bet_tokens: Vec<(u64, u128)>,
    pub participated_vaults: Vec<u64>,
}

/// A vote side.  A closed two-variant value: an invalid vote string is
/// rejected at the boundary and never stored.
#[derive(Clone, Copy, PartialEq, Eq, Structural, Debug)]
pub enum VoteOption {
    Yes,
    No,
}

/// One participant's vote in a vault: the side and the staked weight.
#[derive(Clone, Copy, PartialEq, Eq, Structural, Debug)]
pub struct Voter {
    pub vote: VoteOption,
    pub weight: u128,
}

/// Lifecycle of a vault.  `DepositsOpen` is the initial state; closing
/// the deposit window moves the vault to `Finished`.  `Closed` is
/// reserved for administrative cancellation; no core operation reaches
/// it or `InProgress` today.
#[derive(Clone, Copy, PartialEq, Eq, Structural, Debug)]
pub enum VaultStatus {
    Closed,
    DepositsOpen,
    InProgress,
    Finished,
}

/// One vault: creator, lifecycle status, description, deposit window,
/// the index-aligned participant and vote lists, and the aggregate
/// staked weight per side.
#[derive(Debug)]
pub struct Vault {
    pub creator: String,
    pub status: VaultStatus,
    pub yes_votes: u128,
    pub no_votes: u128,
    pub voters: Vec<String>,
    pub voter_info: Vec<Voter>,
    pub end_height: u64,
    pub start_height: Option<u64>,
    pub description: String,
}

/// The whole persisted state: configuration, bank and vault table.
#[derive(Debug)]
pub struct ContractState {
    pub config: State,
    pub bank: Vec<(String, TokenManager)>,
    pub vaults: Vec<Vault>,
}

// ---------------------------------------------------------------------
// Model of an account's stakes
// ---------------------------------------------------------------------

/// The largest single staked weight, 0 when nothing is staked.  This is
/// the withdrawal-blocking quantity: an account's withdrawable ceiling
/// is its balance minus its largest concurrent stake, not the sum.
pub open spec fn max_stake(s: Seq<(u64, u128)>) -> u128
    decreases s.len(),
{
    if s.len() == 0 {
        0
    } else {
        let m = max_stake(s.drop_last());
        if s.last().1 > m {
            s.last().1
        } else {
            m
        }
    }
}

/// The weight staked on `vault_id`, if any.
pub open spec fn stake_on(s: Seq<(u64, u128)>, vault_id: u64) -> Option<u128>
    decreases s.len(),
{
    if s.len() == 0 {
        None
    } else if s.last().0 == vault_id {
        Some(s.last().1)
    } else {
        stake_on(s.drop_last(), vault_id)
    }
}

/// Whether some stake is recorded for `vault_id`.
pub open spec fn has_stake(s: Seq<(u64, u128)>, vault_id: u64) -> bool {
    exists|i: int| 0 <= i < s.len() && s[i].0 == vault_id
}

impl TokenManager {
    /// Stake entries name distinct vaults: at most one active stake per
    /// vault and account.
    pub open spec fn stake_keys_unique(self) -> bool {
        forall|i: int, j: int|
            0 <= i < j < self.bet_tokens@.len() ==> self.bet_tokens@[i].0 != self.bet_tokens@[j].0
    }

    /// Account invariant: unique stake keys, and the balance covers the
    /// largest single stake.
    pub open spec fn wf(self) -> bool {
        self.stake_keys_unique() && self.token_balance >= max_stake(self.bet_tokens@)
    }
}

// ---------------------------------------------------------------------
// Model of a vault's tallies
// ---------------------------------------------------------------------

/// Total weight voted "yes".
pub open spec fn sum_yes(v: Seq<Voter>) -> int
    decreases v.len(),
{
    if v.len() == 0 {
        0
    } else {
        sum_yes(v.drop_last()) + if v.last().vote is Yes {
            v.last().weight as int
        } else {
            0
        }
    }
}

/// Total weight voted "no".
pub open spec fn sum_no(v: Seq<Voter>) -> int
    decreases v.len(),
{
    if v.len() == 0 {
        0
    } else {
        sum_no(v.drop_last()) + if v.last().vote is No {
            v.last().weight as int
        } else {
            0
        }
    }
}

/// Total staked weight over all votes, both sides.
pub open spec fn sum_weights(v: Seq<Voter>) -> int
    decreases v.len(),
{
    if v.len() == 0 {
        0
    } else {
        sum_weights(v.drop_last()) + v.last().weight as int
    }
}

impl Vault {
    /// Vault invariant: the incrementally maintained totals equal the
    /// per-side sums over the vote list, and the participant list is
    /// index-aligned with the vote list.
    pub open spec fn wf(self) -> bool {
        &&& self.yes_votes as int == sum_yes(self.voter_info@)
        &&& self.no_votes as int == sum_no(self.voter_info@)
        &&& self.voters@.len() == self.voter_info@.len()
    }
}

// ---------------------------------------------------------------------
// Model of the bank
// ---------------------------------------------------------------------

/// Each address owns at most one account row.
pub open spec fn bank_keys_unique(b: Seq<(String, TokenManager)>) -> bool {
    forall|i: int, j: int| 0 <= i < j < b.len() ==> b[i].0@ != b[j].0@
}

/// Whether `addr` owns an account row.
pub open spec fn has_account(b: Seq<(String, TokenManager)>, addr: Seq<char>) -> bool {
    exists|i: int| 0 <= i < b.len() && b[i].0@ == addr
}

/// The row index of `addr`'s account; meaningful only under
/// `has_account` and unique keys.
pub open spec fn account_index(b: Seq<(String, TokenManager)>, addr: Seq<char>) -> int {
    choose|i: int| 0 <= i < b.len() && b[i].0@ == addr
}

/// The account of `addr`; meaningful only under `has_account`.
pub open spec fn account_of(b: Seq<(String, TokenManager)>, addr: Seq<char>) -> TokenManager {
    b[account_index(b, addr)].1
}

/// The balance of `addr`, 0 for an address that never deposited.
pub open spec fn balance_of(b: Seq<(String, TokenManager)>, addr: Seq<char>) -> u128 {
    if has_account(b, addr) {
        account_of(b, addr).token_balance
    } else {
        0
    }
}

/// The stakes of `addr`, empty for an address that never deposited.
pub open spec fn stakes_of(b: Seq<(String, TokenManager)>, addr: Seq<char>) -> Seq<(u64, u128)> {
    if has_account(b, addr) {
        account_of(b, addr).bet_tokens@
    } else {
        Seq::empty()
    }
}

/// The vaults `addr` ever staked into, empty for an address that never
/// deposited.
pub open spec fn participated_of(b: Seq<(String, TokenManager)>, addr: Seq<char>) -> Seq<u64> {
    if has_account(b, addr) {
        account_of(b, addr).participated_vaults@
    } else {
        Seq::empty()
    }
}

/// Two bank tables read the same for `addr`: the address owns a row in
/// one exactly when it owns one in the other, and then the same row.
pub open spec fn accounts_agree(
    b1: Seq<(String, TokenManager)>,
    b2: Seq<(String, TokenManager)>,
    addr: Seq<char>,
) -> bool {
    &&& has_account(b1, addr) == has_account(b2, addr)
    &&& (has_account(b1, addr) ==> account_of(b1, addr) == account_of(b2, addr))
}

/// The sum of all account balances.
pub open spec fn sum_balances(b: Seq<(String, TokenManager)>) -> int
    decreases b.len(),
{
    if b.len() == 0 {
        0
    } else {
        sum_balances(b.drop_last()) + b.last().1.token_balance as int
    }
}

impl ContractState {
    /// Whole-state invariant: the vault counter matches the vault table,
    /// bank keys are unique, every account and vault satisfies its own
    /// invariant, and the configured total equals the sum of balances.
    pub open spec fn wf(self) -> bool {
        &&& self.config.vault_count == self.vaults@.len()
        &&& bank_keys_unique(self.bank@)
        &&& forall|i: int| 0 <= i < self.bank@.len() ==> (#[trigger] self.bank@[i].1).wf()
        &&& forall|i: int| 0 <= i < self.vaults@.len() ==> (#[trigger] self.vaults@[i]).wf()
        &&& self.config.bet_tokens as int == sum_balances(self.bank@)
    }

    /// The balance the model ascribes to `addr`.
    pub open spec fn spec_balance_of(self, addr: Seq<char>) -> u128 {
        balance_of(self.bank@, addr)
    }

    /// The stakes the model ascribes to `addr`.
    pub open spec fn spec_stakes_of(self, addr: Seq<char>) -> Seq<(u64, u128)> {
        stakes_of(self.bank@, addr)
    }
}

} // verus!
