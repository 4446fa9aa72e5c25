//! The engine's global guarantees, stated and proved once over the
//! state model.
//!
//! Every operation establishes or preserves [`ContractState::wf`], so
//! each of these laws holds of every reachable state and of every run
//! of operations, whatever their order.

use vstd::prelude::*;

use crate::contract::{cast_post, deposit_post, withdraw_spec};
use crate::error::ContractError;
use crate::lemmas::{
    lemma_balance_le_sum, lemma_max_stake_ge, lemma_stake_on_entry, lemma_sum_split,
};
use crate::msg::TransferInstruction;
use crate::state::{
    account_index, balance_of, has_account, max_stake, stake_on, stakes_of, sum_weights,
    ContractState, VoteOption,
};

verus! {

/// Law: in every well-formed state, an account's balance covers its
/// largest single stake.  Since every operation preserves
/// well-formedness, no sequence of operations can violate this.
pub proof fn lemma_balance_covers_largest_stake(st: ContractState, addr: Seq<char>)
    requires
        st.wf(),
    ensures
        balance_of(st.bank@, addr) >= max_stake(stakes_of(st.bank@, addr)),
{
    if has_account(st.bank@, addr) {
        let i = account_index(st.bank@, addr);
        assert(0 <= i < st.bank@.len() && st.bank@[i].0@ == addr);
        assert(st.bank@[i].1.wf());
    } else {
        assert(stakes_of(st.bank@, addr) =~= Seq::<(u64, u128)>::empty());
    }
}

/// Law: in every well-formed state, a vault's two side totals add up
/// to the total staked weight over its vote list, and its participant
/// list is index-aligned with its vote list.
pub proof fn lemma_vault_totals_consistent(st: ContractState, vault_id: u64)
    requires
        st.wf(),
        1 <= vault_id <= st.vaults@.len(),
    ensures
        st.vaults@[vault_id - 1].yes_votes + st.vaults@[vault_id - 1].no_votes == sum_weights(
            st.vaults@[vault_id - 1].voter_info@,
        ),
        st.vaults@[vault_id - 1].voters@.len() == st.vaults@[vault_id - 1].voter_info@.len(),
{
    assert(st.vaults@[vault_id - 1].wf());
    lemma_sum_split(st.vaults@[vault_id - 1].voter_info@);
}

/// Law: a deposit followed at once by a withdrawal of the same amount,
/// with no stake placed in between, must succeed, returns the balance
/// and the configured total to their prior values, and pays out a
/// transfer instruction over exactly the deposited amount.
pub proof fn lemma_deposit_withdraw_roundtrip(
    st0: ContractState,
    st1: ContractState,
    st2: ContractState,
    sender: Seq<char>,
    amount: u128,
    r: Result<TransferInstruction, ContractError>,
)
    requires
        st0.wf(),
        st1.wf(),
        deposit_post(st0, st1, sender, amount),
        withdraw_spec(st1, st2, sender, Some(amount), r),
    ensures
        r is Ok,
        match r {
            Ok(t) => t.amount == amount && t.to@ == sender && t.denom@ == st0.config.denom@,
            Err(_) => false,
        },
        balance_of(st2.bank@, sender) == balance_of(st0.bank@, sender),
        stakes_of(st2.bank@, sender) == stakes_of(st0.bank@, sender),
        st2.config.bet_tokens == st0.config.bet_tokens,
{
    lemma_balance_covers_largest_stake(st0, sender);
    let locked = max_stake(stakes_of(st1.bank@, sender));
    assert(stakes_of(st1.bank@, sender) == stakes_of(st0.bank@, sender));
    assert(locked <= balance_of(st0.bank@, sender));
    assert(locked + amount <= balance_of(st1.bank@, sender));
}

/// Law: after staking a weight equal to the whole balance, any
/// positive withdrawal fails with `ExcessiveWithdraw` reporting a
/// withdrawable ceiling of zero, and leaves the state untouched.
pub proof fn lemma_full_stake_blocks_withdraw(
    st0: ContractState,
    st1: ContractState,
    st2: ContractState,
    sender: Seq<char>,
    vault_id: u64,
    vote: VoteOption,
    requested: u128,
    r: Result<TransferInstruction, ContractError>,
)
    requires
        st0.wf(),
        st1.wf(),
        cast_post(st0, st1, sender, vault_id, vote, balance_of(st0.bank@, sender)),
        requested > 0,
        withdraw_spec(st1, st2, sender, Some(requested), r),
    ensures
        r == Err::<TransferInstruction, ContractError>(
            (ContractError::ExcessiveWithdraw { max_amount: 0 }),
        ),
        st2 == st1,
{
    let b = balance_of(st0.bank@, sender);
    assert(balance_of(st1.bank@, sender) == b);
    let s1 = stakes_of(st1.bank@, sender);
    assert(stake_on(s1, vault_id) == Some(b));
    lemma_stake_on_entry(s1, vault_id);
    let i = choose|i: int| 0 <= i < s1.len() && s1[i].0 == vault_id && Some(s1[i].1) == stake_on(
        s1,
        vault_id,
    );
    lemma_max_stake_ge(s1, i);
    lemma_balance_covers_largest_stake(st1, sender);
    assert(max_stake(s1) == b);
}

} // verus!
