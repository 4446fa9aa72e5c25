//! The five core operations and the read-only queries.
//!
//! Every operation is a pure state transition over [`ContractState`]:
//! it validates the request against the current state and either
//! returns an error, leaving the state exactly as it was, or commits
//! the new state.  Block height is supplied per call and never cached.

use vstd::prelude::*;
use vstd::string::StrSliceExecFns;

use crate::error::ContractError;
use crate::lemmas::{
    lemma_account_lookup, lemma_balance_le_sum, lemma_bank_push_frame, lemma_bank_update_frame,
    lemma_max_stake_push, lemma_max_stake_remove, lemma_max_stake_update, lemma_remove_insert,
    lemma_stake_absent, lemma_stakes_push_frame, lemma_stakes_remove_frame,
    lemma_stakes_update_frame, lemma_sum_balances_push, lemma_sum_balances_update,
    lemma_sums_push, lemma_tally_bound, lemma_tally_step,
};
use crate::msg::{
    Coin, CreateVaultResponse, ExecuteMsg, ExecuteResponse, InstantiateMsg, QueryMsg,
    QueryResponse, TokenBetResponse, TransferInstruction, VaultResponse,
};
use crate::state::{
    accounts_agree, balance_of, bank_keys_unique, has_account, max_stake, participated_of,
    stake_on, stakes_of, sum_balances, sum_no, sum_yes, ContractState, State, TokenManager, Vault,
    VaultStatus, VoteOption, Voter,
};

verus! {

/// The smallest deposit accepted, in the configured denomination.
pub const MIN_BET_AMOUNT: u128 = 1;

/// The shortest vault description accepted.
pub const MIN_DESC_LENGTH: u64 = 3;

/// The longest vault description accepted.
pub const MAX_DESC_LENGTH: u64 = 64;

/// The deposit window granted when a vault names no end height.
pub const DEFAULT_END_HEIGHT_BLOCKS: u64 = 100_800;

// ---------------------------------------------------------------------
// Attached funds
// ---------------------------------------------------------------------

/// Whether a coin is in the wanted denomination and carries at least
/// `min_amount`.
pub open spec fn coin_matches(c: Coin, denom: Seq<char>, min_amount: u128) -> bool {
    c.denom@ == denom && c.amount >= min_amount
}

/// Whether the attached funds hold some coin of `denom` worth at least
/// `min_amount`.
pub open spec fn sufficient_sent(sent: Seq<Coin>, denom: Seq<char>, min_amount: u128) -> bool {
    exists|i: int| 0 <= i < sent.len() && coin_matches(#[trigger] sent[i], denom, min_amount)
}

/// Whether `sent[i]` is the first coin of denomination `denom`.
pub open spec fn is_first_match(sent: Seq<Coin>, denom: Seq<char>, i: int) -> bool {
    &&& 0 <= i < sent.len()
    &&& sent[i].denom@ == denom
    &&& forall|j: int| 0 <= j < i ==> sent[j].denom@ != denom
}

/// Checks that the attached funds meet the required minimum: accepts
/// everything when nothing (or a zero amount) is required, otherwise
/// demands one attached coin of the required denomination worth at
/// least the required amount.
pub fn validate_sent_sufficient_coin(sent: &Vec<Coin>, required: Option<Coin>) -> (r: Result<
    (),
    ContractError,
>)
    ensures
        match r {
            Ok(()) => match required {
                Some(req) => req.amount == 0 || sufficient_sent(sent@, req.denom@, req.amount),
                None => true,
            },
            Err(e) => {
                &&& e is InsufficientFundsSent
                &&& match required {
                    Some(req) => req.amount > 0 && !sufficient_sent(sent@, req.denom@, req.amount),
                    None => false,
                }
            },
        },
{
    match required {
        Some(required_coin) => {
            if required_coin.amount > 0 {
                let mut i: usize = 0;
                let mut found = false;
                while i < sent.len()
                    invariant
                        i <= sent@.len(),
                        found <==> exists|j: int|
                            0 <= j < i && coin_matches(
                                #[trigger] sent@[j],
                                required_coin.denom@,
                                required_coin.amount,
                            ),
                    decreases sent@.len() - i,
                {
                    if sent[i].denom == required_coin.denom && sent[i].amount
                        >= required_coin.amount {
                        found = true;
                    }
                    i = i + 1;
                }
                if found {
                    Ok(())
                } else {
                    Err(ContractError::InsufficientFundsSent {})
                }
            } else {
                Ok(())
            }
        },
        None => Ok(()),
    }
}

// ---------------------------------------------------------------------
// Instantiation
// ---------------------------------------------------------------------

/// Creates the initial state: the configured denomination, the sender
/// as owner, no vaults, no accounts and nothing deposited.
pub fn instantiate(msg: InstantiateMsg, sender: String) -> (st: ContractState)
    ensures
        st.wf(),
        st.config.denom == msg.denom,
        st.config.owner == sender,
        st.config.vault_count == 0,
        st.config.bet_tokens == 0,
        st.bank@ =~= Seq::<(String, TokenManager)>::empty(),
        st.vaults@ =~= Seq::<Vault>::empty(),
{
    ContractState {
        config: State { denom: msg.denom, owner: sender, vault_count: 0, bet_tokens: 0 },
        bank: Vec::new(),
        vaults: Vec::new(),
    }
}

// ---------------------------------------------------------------------
// Bank lookup
// ---------------------------------------------------------------------

/// Finds the bank row of `addr`, if the address ever deposited.
fn find_account(bank: &Vec<(String, TokenManager)>, addr: &String) -> (r: Option<usize>)
    ensures
        match r {
            Some(i) => i < bank@.len() && bank@[i as int].0@ == addr@,
            None => forall|j: int| 0 <= j < bank@.len() ==> bank@[j].0@ != addr@,
        },
{
    let mut i: usize = 0;
    while i < bank.len()
        invariant
            i <= bank@.len(),
            forall|j: int| 0 <= j < i ==> bank@[j].0@ != addr@,
        decreases bank@.len() - i,
    {
        if bank[i].0 == *addr {
            return Some(i);
        }
        i = i + 1;
    }
    None
}

/// Finds the first attached coin of denomination `denom`, if any.
fn find_first_denom(funds: &Vec<Coin>, denom: &String) -> (r: Option<usize>)
    ensures
        match r {
            Some(i) => is_first_match(funds@, denom@, i as int),
            None => forall|j: int| 0 <= j < funds@.len() ==> funds@[j].denom@ != denom@,
        },
{
    let mut i: usize = 0;
    while i < funds.len()
        invariant
            i <= funds@.len(),
            forall|j: int| 0 <= j < i ==> funds@[j].denom@ != denom@,
        decreases funds@.len() - i,
    {
        if funds[i].denom == *denom {
            return Some(i);
        }
        i = i + 1;
    }
    None
}

// ---------------------------------------------------------------------
// Deposit
// ---------------------------------------------------------------------

/// What a successful deposit of `amount` by `sender` does: the amount
/// is added to the sender's balance and to the configured total, and
/// nothing else changes.
pub open spec fn deposit_post(
    pre: ContractState,
    post: ContractState,
    sender: Seq<char>,
    amount: u128,
) -> bool {
    &&& post.config.denom == pre.config.denom
    &&& post.config.owner == pre.config.owner
    &&& post.config.vault_count == pre.config.vault_count
    &&& post.config.bet_tokens == pre.config.bet_tokens + amount
    &&& post.vaults == pre.vaults
    &&& has_account(post.bank@, sender)
    &&& balance_of(post.bank@, sender) == balance_of(pre.bank@, sender) + amount
    &&& stakes_of(post.bank@, sender) == stakes_of(pre.bank@, sender)
    &&& participated_of(post.bank@, sender) == participated_of(pre.bank@, sender)
    &&& forall|a2: Seq<char>|
        a2 != sender ==> #[trigger] accounts_agree(pre.bank@, post.bank@, a2)
}

/// The whole behaviour of a deposit call, over the states before and
/// after: which error comes on which inputs, and what a success does.
pub open spec fn bet_tokens_spec(
    pre: ContractState,
    post: ContractState,
    sender: Seq<char>,
    funds: Seq<Coin>,
    r: Result<(), ContractError>,
) -> bool {
    &&& post.wf()
    &&& r is Err ==> post == pre
    &&& !sufficient_sent(funds, pre.config.denom@, MIN_BET_AMOUNT) ==> r == Err::<
        (),
        ContractError,
    >(ContractError::InsufficientFundsSent {})
    &&& sufficient_sent(funds, pre.config.denom@, MIN_BET_AMOUNT) ==> exists|i: int|
        {
            &&& #[trigger] is_first_match(funds, pre.config.denom@, i)
            &&& if funds[i].amount + pre.config.bet_tokens <= u128::MAX {
                r is Ok && deposit_post(pre, post, sender, funds[i].amount)
            } else {
                r == Err::<(), ContractError>(ContractError::OverflowError {})
            }
        }
}

/// Deposits the attached funds: requires at least [`MIN_BET_AMOUNT`]
/// attached in the configured denomination; the amount of the first
/// attached coin of that denomination is credited to the sender's
/// balance and to the configured total.
pub fn bet_tokens(st: &mut ContractState, sender: String, funds: Vec<Coin>) -> (r: Result<
    (),
    ContractError,
>)
    requires
        old(st).wf(),
    ensures
        bet_tokens_spec(*old(st), *final(st), sender@, funds@, r),
{
    let required = Coin { denom: st.config.denom.clone(), amount: MIN_BET_AMOUNT };
    match validate_sent_sufficient_coin(&funds, Some(required)) {
        Ok(()) => {},
        Err(e) => {
            return Err(e);
        },
    }
    // The attached funds hold a sufficient coin, so a first coin of the
    // configured denomination exists; its amount is what is deposited.
    let ghost denom_view = st.config.denom@;
    let idx = match find_first_denom(&funds, &st.config.denom) {
        Some(i) => i,
        None => {
            // Unreachable: a sufficient coin is a coin of the denomination.
            proof {
                let w = choose|i: int|
                    0 <= i < funds@.len() && coin_matches(funds@[i], denom_view, MIN_BET_AMOUNT);
                assert(funds@[w].denom@ == denom_view);
                assert(false);
            }
            return Err(ContractError::InsufficientFundsSent {});
        },
    };
    let amount = funds[idx].amount;
    assert(is_first_match(funds@, denom_view, idx as int));
    let new_total = match st.config.bet_tokens.checked_add(amount) {
        Some(t) => t,
        None => {
            return Err(ContractError::OverflowError {});
        },
    };
    match find_account(&st.bank, &sender) {
        Some(ai) => {
            proof {
                lemma_account_lookup(st.bank@, sender@, ai as int);
                lemma_balance_le_sum(st.bank@, ai as int);
            }
            let mut row = st.bank.remove(ai);
            row.1.token_balance = row.1.token_balance + amount;
            let ghost pre_bank = old(st).bank@;
            st.bank.insert(ai, row);
            proof {
                lemma_remove_insert(pre_bank, ai as int, st.bank@[ai as int]);
                lemma_sum_balances_update(pre_bank, ai as int, st.bank@[ai as int]);
                lemma_bank_update_frame(pre_bank, ai as int, st.bank@[ai as int]);
            }
        },
        None => {
            let row = (
                sender,
                TokenManager {
                    token_balance: amount,
                    bet_tokens: Vec::new(),
                    participated_vaults: Vec::new(),
                },
            );
            let ghost pre_bank = old(st).bank@;
            st.bank.push(row);
            proof {
                lemma_sum_balances_push(pre_bank, st.bank@.last());
                lemma_bank_push_frame(pre_bank, st.bank@.last());
            }
        },
    }
    st.config.bet_tokens = new_total;
    Ok(())
}

// ---------------------------------------------------------------------
// Withdrawal
// ---------------------------------------------------------------------

/// The largest single stake of an account: the withdrawal-blocking
/// quantity.
pub fn bet_amount(tm: &TokenManager) -> (r: u128)
    ensures
        r == max_stake(tm.bet_tokens@),
{
    let mut m: u128 = 0;
    let mut i: usize = 0;
    proof {
        assert(tm.bet_tokens@.subrange(0, 0) =~= Seq::<(u64, u128)>::empty());
    }
    while i < tm.bet_tokens.len()
        invariant
            i <= tm.bet_tokens@.len(),
            m == max_stake(tm.bet_tokens@.subrange(0, i as int)),
        decreases tm.bet_tokens@.len() - i,
    {
        proof {
            assert(tm.bet_tokens@.subrange(0, i + 1).drop_last() =~= tm.bet_tokens@.subrange(
                0,
                i as int,
            ));
            assert(tm.bet_tokens@.subrange(0, i + 1).last() == tm.bet_tokens@[i as int]);
        }
        if tm.bet_tokens[i].1 > m {
            m = tm.bet_tokens[i].1;
        }
        i = i + 1;
    }
    proof {
        assert(tm.bet_tokens@.subrange(0, tm.bet_tokens@.len() as int) =~= tm.bet_tokens@);
    }
    m
}

/// Builds the outbound transfer instruction for a released amount.
fn send_tokens(to_address: &String, amount: u128, denom: &String) -> (t: TransferInstruction)
    ensures
        t.to@ == to_address@,
        t.amount == amount,
        t.denom@ == denom@,
{
    TransferInstruction { to: to_address.clone(), amount, denom: denom.clone() }
}

/// What a successful withdrawal of `amount` by `sender` does: the
/// amount leaves the sender's balance and the configured total, and
/// nothing else changes.
pub open spec fn withdraw_post(
    pre: ContractState,
    post: ContractState,
    sender: Seq<char>,
    amount: u128,
) -> bool {
    &&& post.config.denom == pre.config.denom
    &&& post.config.owner == pre.config.owner
    &&& post.config.vault_count == pre.config.vault_count
    &&& post.config.bet_tokens == pre.config.bet_tokens - amount
    &&& post.vaults == pre.vaults
    &&& has_account(post.bank@, sender)
    &&& balance_of(post.bank@, sender) == balance_of(pre.bank@, sender) - amount
    &&& stakes_of(post.bank@, sender) == stakes_of(pre.bank@, sender)
    &&& participated_of(post.bank@, sender) == participated_of(pre.bank@, sender)
    &&& forall|a2: Seq<char>|
        a2 != sender ==> #[trigger] accounts_agree(pre.bank@, post.bank@, a2)
}

/// The whole behaviour of a withdrawal call, over the states before
/// and after: which error comes on which inputs, and what a success
/// does and returns.
pub open spec fn withdraw_spec(
    pre: ContractState,
    post: ContractState,
    sender: Seq<char>,
    amount: Option<u128>,
    r: Result<TransferInstruction, ContractError>,
) -> bool {
    &&& post.wf()
    &&& r is Err ==> post == pre
    &&& !has_account(pre.bank@, sender) ==> r == Err::<TransferInstruction, ContractError>(
        ContractError::VaultNoBet {},
    )
    &&& has_account(pre.bank@, sender) ==> ({
        let b = balance_of(pre.bank@, sender);
        let locked = max_stake(stakes_of(pre.bank@, sender));
        let w = match amount {
            Some(a) => a,
            None => b,
        };
        if locked + w > b {
            r == Err::<TransferInstruction, ContractError>(
                (ContractError::ExcessiveWithdraw { max_amount: (b - locked) as u128 }),
            )
        } else {
            match r {
                Ok(t) => {
                    &&& t.to@ == sender
                    &&& t.amount == w
                    &&& t.denom@ == pre.config.denom@
                    &&& withdraw_post(pre, post, sender, w)
                },
                Err(_) => false,
            }
        }
    })
}

/// Withdraws `amount` (the full balance when omitted) from the
/// sender's unlocked funds.  The unlocked ceiling is the balance minus
/// the largest single active stake; asking for more fails with
/// `ExcessiveWithdraw` reporting that ceiling.  On success the balance
/// and the configured total shrink by the amount and a transfer
/// instruction over exactly that amount is returned.
pub fn withdraw_bet_rewards(st: &mut ContractState, sender: String, amount: Option<u128>) -> (r:
    Result<TransferInstruction, ContractError>)
    requires
        old(st).wf(),
    ensures
        withdraw_spec(*old(st), *final(st), sender@, amount, r),
{
    let ai = match find_account(&st.bank, &sender) {
        Some(ai) => ai,
        None => {
            return Err(ContractError::VaultNoBet {});
        },
    };
    proof {
        lemma_account_lookup(st.bank@, sender@, ai as int);
    }
    let tm = &st.bank[ai].1;
    let largest_bet = bet_amount(tm);
    let balance = tm.token_balance;
    let withdraw_amount = match amount {
        Some(a) => a,
        None => balance,
    };
    let exceeds = match largest_bet.checked_add(withdraw_amount) {
        Some(s) => s > balance,
        None => true,
    };
    if exceeds {
        // The account invariant puts the largest stake within the
        // balance, so the reported ceiling never underflows.
        return Err(ContractError::ExcessiveWithdraw { max_amount: balance - largest_bet });
    }
    proof {
        lemma_balance_le_sum(st.bank@, ai as int);
    }
    let ghost pre_bank = old(st).bank@;
    let mut row = st.bank.remove(ai);
    row.1.token_balance = balance - withdraw_amount;
    st.bank.insert(ai, row);
    proof {
        lemma_remove_insert(pre_bank, ai as int, st.bank@[ai as int]);
        lemma_sum_balances_update(pre_bank, ai as int, st.bank@[ai as int]);
        lemma_bank_update_frame(pre_bank, ai as int, st.bank@[ai as int]);
    }
    st.config.bet_tokens = st.config.bet_tokens - withdraw_amount;
    Ok(send_tokens(&sender, withdraw_amount, &st.config.denom))
}

// ---------------------------------------------------------------------
// Vault creation
// ---------------------------------------------------------------------

/// Rejects a description shorter than [`MIN_DESC_LENGTH`] or longer
/// than [`MAX_DESC_LENGTH`] characters.
pub fn validate_description(description: &str) -> (r: Result<(), ContractError>)
    ensures
        match r {
            Ok(()) => MIN_DESC_LENGTH <= description@.len() && description@.len()
                <= MAX_DESC_LENGTH,
            Err(e) => {
                ||| description@.len() < MIN_DESC_LENGTH && e == (ContractError::DescriptionTooShort {
                    min_desc_length: MIN_DESC_LENGTH,
                })
                ||| description@.len() > MAX_DESC_LENGTH && e == (ContractError::DescriptionTooLong {
                    max_desc_length: MAX_DESC_LENGTH,
                })
            },
        },
{
    let n = description.unicode_len();
    if (n as u64) < MIN_DESC_LENGTH {
        Err(ContractError::DescriptionTooShort { min_desc_length: MIN_DESC_LENGTH })
    } else if (n as u64) > MAX_DESC_LENGTH {
        Err(ContractError::DescriptionTooLong { max_desc_length: MAX_DESC_LENGTH })
    } else {
        Ok(())
    }
}

/// Rejects an explicit end height that is not strictly in the future.
pub fn validate_end_height(end_height: Option<u64>, height: u64) -> (r: Result<(), ContractError>)
    ensures
        match r {
            Ok(()) => match end_height {
                Some(e) => height < e,
                None => true,
            },
            Err(e) => {
                &&& e == (ContractError::VaultCannotEndInPast {})
                &&& match end_height {
                    Some(e) => height >= e,
                    None => false,
                }
            },
        },
{
    match end_height {
        Some(e) => {
            if height >= e {
                Err(ContractError::VaultCannotEndInPast {})
            } else {
                Ok(())
            }
        },
        None => Ok(()),
    }
}

/// What a successful vault creation does: one vault is appended under
/// the next sequential identifier, in `DepositsOpen` with empty lists
/// and zero totals, and nothing else changes.
pub open spec fn create_vault_post(
    pre: ContractState,
    post: ContractState,
    sender: Seq<char>,
    description: Seq<char>,
    start_height: Option<u64>,
    end_height: Option<u64>,
    height: u64,
    vault_id: u64,
) -> bool {
    &&& vault_id == pre.config.vault_count + 1
    &&& post.config.vault_count == vault_id
    &&& post.config.denom == pre.config.denom
    &&& post.config.owner == pre.config.owner
    &&& post.config.bet_tokens == pre.config.bet_tokens
    &&& post.bank == pre.bank
    &&& post.vaults@ == pre.vaults@.push(post.vaults@.last())
    &&& ({
        let v = post.vaults@.last();
        &&& v.creator@ == sender
        &&& v.status == VaultStatus::DepositsOpen
        &&& v.yes_votes == 0
        &&& v.no_votes == 0
        &&& v.voters@.len() == 0
        &&& v.voter_info@.len() == 0
        &&& v.description@ == description
        &&& v.start_height == start_height
        &&& v.end_height == match end_height {
            Some(e) => e as int,
            None => height + DEFAULT_END_HEIGHT_BLOCKS,
        }
    })
}

/// The whole behaviour of a vault-creation call, over the states
/// before and after: which error comes on which inputs, and what a
/// success does and returns.
pub open spec fn create_vault_spec(
    pre: ContractState,
    post: ContractState,
    sender: Seq<char>,
    description: Seq<char>,
    start_height: Option<u64>,
    end_height: Option<u64>,
    height: u64,
    r: Result<CreateVaultResponse, ContractError>,
) -> bool {
    &&& post.wf()
    &&& r is Err ==> post == pre
    &&& ({
        let end_ok = match end_height {
            Some(e) => height < e,
            None => true,
        };
        let desc_ok = MIN_DESC_LENGTH <= description.len() && description.len() <= MAX_DESC_LENGTH;
        let no_overflow = pre.config.vault_count + 1 <= u64::MAX && (end_height is Some || height
            + DEFAULT_END_HEIGHT_BLOCKS <= u64::MAX);
        &&& !end_ok ==> r == Err::<CreateVaultResponse, ContractError>(
            ContractError::VaultCannotEndInPast {},
        )
        &&& end_ok && description.len() < MIN_DESC_LENGTH ==> r == Err::<
            CreateVaultResponse,
            ContractError,
        >((ContractError::DescriptionTooShort { min_desc_length: MIN_DESC_LENGTH }))
        &&& end_ok && description.len() > MAX_DESC_LENGTH ==> r == Err::<
            CreateVaultResponse,
            ContractError,
        >((ContractError::DescriptionTooLong { max_desc_length: MAX_DESC_LENGTH }))
        &&& end_ok && desc_ok && !no_overflow ==> r == Err::<CreateVaultResponse, ContractError>(
            ContractError::OverflowError {},
        )
        &&& end_ok && desc_ok && no_overflow ==> match r {
            Ok(resp) => create_vault_post(
                pre,
                post,
                sender,
                description,
                start_height,
                end_height,
                height,
                resp.vault_id,
            ),
            Err(_) => false,
        }
    })
}

/// Creates a new betting vault.  The end height must be absent or in
/// the future, the description within bounds; an absent end height
/// defaults to the current height plus
/// [`DEFAULT_END_HEIGHT_BLOCKS`].  Returns the assigned identifier.
pub fn create_vault(
    st: &mut ContractState,
    sender: String,
    description: String,
    start_height: Option<u64>,
    end_height: Option<u64>,
    height: u64,
) -> (r: Result<CreateVaultResponse, ContractError>)
    requires
        old(st).wf(),
    ensures
        create_vault_spec(
            *old(st),
            *final(st),
            sender@,
            description@,
            start_height,
            end_height,
            height,
            r,
        ),
{
    match validate_end_height(end_height, height) {
        Ok(()) => {},
        Err(e) => {
            return Err(e);
        },
    }
    match validate_description(description.as_str()) {
        Ok(()) => {},
        Err(e) => {
            return Err(e);
        },
    }
    let vault_id = match st.config.vault_count.checked_add(1) {
        Some(v) => v,
        None => {
            return Err(ContractError::OverflowError {});
        },
    };
    let end_h = match end_height {
        Some(e) => e,
        None => match height.checked_add(DEFAULT_END_HEIGHT_BLOCKS) {
            Some(h) => h,
            None => {
                return Err(ContractError::OverflowError {});
            },
        },
    };
    let new_vault = Vault {
        creator: sender,
        status: VaultStatus::DepositsOpen,
        yes_votes: 0,
        no_votes: 0,
        voters: Vec::new(),
        voter_info: Vec::new(),
        end_height: end_h,
        start_height,
        description,
    };
    st.vaults.push(new_vault);
    st.config.vault_count = vault_id;
    Ok(CreateVaultResponse { vault_id })
}

// ---------------------------------------------------------------------
// Stake placement
// ---------------------------------------------------------------------

/// Finds the entry staked on `vault_id`, if any.
fn find_stake(stakes: &Vec<(u64, u128)>, vault_id: u64) -> (r: Option<usize>)
    ensures
        match r {
            Some(k) => k < stakes@.len() && stakes@[k as int].0 == vault_id,
            None => forall|j: int| 0 <= j < stakes@.len() ==> stakes@[j].0 != vault_id,
        },
{
    let mut i: usize = 0;
    while i < stakes.len()
        invariant
            i <= stakes@.len(),
            forall|j: int| 0 <= j < i ==> stakes@[j].0 != vault_id,
        decreases stakes@.len() - i,
    {
        if stakes[i].0 == vault_id {
            return Some(i);
        }
        i = i + 1;
    }
    None
}

/// What a successful stake placement does: the sender and the vote are
/// appended to the vault's index-aligned lists, the side total grows by
/// the weight, the sender's stake on this vault becomes the weight
/// (replacing any prior stake on it), the vault is recorded among the
/// sender's participations, and nothing else changes.
pub open spec fn cast_post(
    pre: ContractState,
    post: ContractState,
    sender: Seq<char>,
    vault_id: u64,
    vote: VoteOption,
    weight: u128,
) -> bool {
    &&& post.config == pre.config
    &&& 1 <= vault_id <= pre.vaults@.len()
    &&& post.vaults@.len() == pre.vaults@.len()
    &&& forall|k: int|
        0 <= k < pre.vaults@.len() && k != vault_id - 1 ==> post.vaults@[k] == pre.vaults@[k]
    &&& ({
        let vp = pre.vaults@[vault_id - 1];
        let vq = post.vaults@[vault_id - 1];
        &&& vq.creator == vp.creator
        &&& vq.status == vp.status
        &&& vq.description == vp.description
        &&& vq.start_height == vp.start_height
        &&& vq.end_height == vp.end_height
        &&& vq.voters@ == vp.voters@.push(vq.voters@.last())
        &&& vq.voters@.last()@ == sender
        &&& vq.voter_info@ == vp.voter_info@.push(Voter { vote, weight })
        &&& vq.yes_votes == vp.yes_votes + if vote is Yes {
            weight as int
        } else {
            0
        }
        &&& vq.no_votes == vp.no_votes + if vote is No {
            weight as int
        } else {
            0
        }
    })
    &&& has_account(post.bank@, sender)
    &&& balance_of(post.bank@, sender) == balance_of(pre.bank@, sender)
    &&& stake_on(stakes_of(post.bank@, sender), vault_id) == Some(weight)
    &&& forall|id2: u64|
        id2 != vault_id ==> #[trigger] stake_on(stakes_of(post.bank@, sender), id2) == stake_on(
            stakes_of(pre.bank@, sender),
            id2,
        )
    &&& participated_of(post.bank@, sender) == participated_of(pre.bank@, sender).push(vault_id)
    &&& forall|a2: Seq<char>|
        a2 != sender ==> #[trigger] accounts_agree(pre.bank@, post.bank@, a2)
}

/// The whole behaviour of a stake-placement call, over the states
/// before and after: which error comes on which inputs, and what a
/// success does.
pub open spec fn cast_bet_spec(
    pre: ContractState,
    post: ContractState,
    sender: Seq<char>,
    vault_id: u64,
    vote: Seq<char>,
    weight: u128,
    r: Result<(), ContractError>,
) -> bool {
    &&& post.wf()
    &&& r is Err ==> post == pre
    &&& ({
        let exists_v = 1 <= vault_id <= pre.config.vault_count;
        let vote_ok = vote == "yes"@ || vote == "no"@;
        &&& !exists_v ==> r == Err::<(), ContractError>(ContractError::VaultDoesNotExist {})
        &&& exists_v && !vote_ok ==> r == Err::<(), ContractError>(
            ContractError::InvalidBetEvent {},
        )
        &&& exists_v && !(pre.vaults@[vault_id - 1].status is DepositsOpen) ==> r is Err
        &&& exists_v && vote_ok && !(pre.vaults@[vault_id - 1].status is DepositsOpen) ==> r
            == Err::<(), ContractError>(ContractError::VaultNotOpenForDeposits {})
        &&& exists_v && vote_ok && pre.vaults@[vault_id - 1].status is DepositsOpen && balance_of(
            pre.bank@,
            sender,
        ) < weight ==> r == Err::<(), ContractError>(ContractError::VaultInsufficientAmt {})
        &&& exists_v && vote_ok && pre.vaults@[vault_id - 1].status is DepositsOpen && balance_of(
            pre.bank@,
            sender,
        ) >= weight ==> ({
            let parsed = if vote == "yes"@ {
                VoteOption::Yes
            } else {
                VoteOption::No
            };
            let vp = pre.vaults@[vault_id - 1];
            if (parsed is Yes && vp.yes_votes + weight > u128::MAX) || (parsed is No && vp.no_votes
                + weight > u128::MAX) {
                r == Err::<(), ContractError>(ContractError::OverflowError {})
            } else {
                r is Ok && cast_post(pre, post, sender, vault_id, parsed, weight)
            }
        })
    })
}

/// Places a stake: `vote` must be `"yes"` or `"no"`, the vault must
/// exist and still be open for deposits, and the sender's balance must
/// cover the weight.  The stake locks `weight` of the sender's balance
/// on this vault, replacing any prior stake on the same vault.
pub fn cast_bet(
    st: &mut ContractState,
    sender: String,
    vault_id: u64,
    vote: String,
    weight: u128,
) -> (r: Result<(), ContractError>)
    requires
        old(st).wf(),
    ensures
        cast_bet_spec(*old(st), *final(st), sender@, vault_id, vote@, weight, r),
{
    if vault_id == 0 || vault_id > st.config.vault_count {
        return Err(ContractError::VaultDoesNotExist {});
    }
    let yes_str = "yes".to_owned();
    let parsed = if vote == yes_str {
        VoteOption::Yes
    } else {
        let no_str = "no".to_owned();
        if vote == no_str {
            VoteOption::No
        } else {
            return Err(ContractError::InvalidBetEvent {});
        }
    };
    let n = st.vaults.len();
    proof {
        assert(vault_id - 1 < n);
    }
    let vi = (vault_id - 1) as usize;
    let is_open = match st.vaults[vi].status {
        VaultStatus::DepositsOpen => true,
        _ => false,
    };
    if !is_open {
        return Err(ContractError::VaultNotOpenForDeposits {});
    }
    let found = find_account(&st.bank, &sender);
    if let Some(ai) = found {
        proof {
            lemma_account_lookup(st.bank@, sender@, ai as int);
        }
    }
    let balance = match found {
        Some(ai) => st.bank[ai].1.token_balance,
        None => 0,
    };
    if balance < weight {
        return Err(ContractError::VaultInsufficientAmt {});
    }
    let new_tot = match parsed {
        VoteOption::Yes => st.vaults[vi].yes_votes.checked_add(weight),
        VoteOption::No => st.vaults[vi].no_votes.checked_add(weight),
    };
    let new_tot = match new_tot {
        Some(t) => t,
        None => {
            return Err(ContractError::OverflowError {});
        },
    };
    let voter_name = sender.clone();
    // Record the stake and the participation in the sender's account.
    let ghost b0 = st.bank@;
    match found {
        Some(ai) => {
            let mut row = st.bank.remove(ai);
            let ghost s0 = row.1.bet_tokens@;
            match find_stake(&row.1.bet_tokens, vault_id) {
                Some(k) => {
                    row.1.bet_tokens[k] = (vault_id, weight);
                    proof {
                        lemma_stakes_update_frame(s0, k as int, (vault_id, weight));
                        lemma_max_stake_update(s0, k as int, (vault_id, weight));
                    }
                },
                None => {
                    proof {
                        lemma_stake_absent(s0, vault_id);
                    }
                    row.1.bet_tokens.push((vault_id, weight));
                    proof {
                        lemma_stakes_push_frame(s0, (vault_id, weight));
                        lemma_max_stake_push(s0, (vault_id, weight));
                    }
                },
            }
            row.1.participated_vaults.push(vault_id);
            st.bank.insert(ai, row);
            proof {
                lemma_remove_insert(b0, ai as int, st.bank@[ai as int]);
                lemma_sum_balances_update(b0, ai as int, st.bank@[ai as int]);
                lemma_bank_update_frame(b0, ai as int, st.bank@[ai as int]);
            }
        },
        None => {
            // A sender with no account has balance 0, so only a zero
            // weight reaches this point; the account is created lazily.
            let mut stakes: Vec<(u64, u128)> = Vec::new();
            stakes.push((vault_id, weight));
            let mut participated: Vec<u64> = Vec::new();
            participated.push(vault_id);
            let row = (
                sender,
                TokenManager {
                    token_balance: 0,
                    bet_tokens: stakes,
                    participated_vaults: participated,
                },
            );
            st.bank.push(row);
            proof {
                lemma_sum_balances_push(b0, st.bank@.last());
                lemma_bank_push_frame(b0, st.bank@.last());
                lemma_stakes_push_frame(Seq::<(u64, u128)>::empty(), (vault_id, weight));
                lemma_max_stake_push(Seq::<(u64, u128)>::empty(), (vault_id, weight));
            }
        },
    }
    // Record the vote in the vault and maintain the side totals.
    let ghost v0 = old(st).vaults@;
    let mut v = st.vaults.remove(vi);
    let ghost vpre = v0[vi as int];
    v.voters.push(voter_name);
    v.voter_info.push(Voter { vote: parsed, weight });
    match parsed {
        VoteOption::Yes => {
            v.yes_votes = new_tot;
        },
        VoteOption::No => {
            v.no_votes = new_tot;
        },
    }
    st.vaults.insert(vi, v);
    proof {
        lemma_remove_insert(v0, vi as int, st.vaults@[vi as int]);
        lemma_sums_push(vpre.voter_info@, Voter { vote: parsed, weight });
        assert forall|k: int| 0 <= k < st.vaults@.len() implies (#[trigger] st.vaults@[k]).wf() by {
            if k != vi as int {
                assert(st.vaults@[k] == v0[k]);
            }
        }
    }
    Ok(())
}

// ---------------------------------------------------------------------
// Deposit-window closure
// ---------------------------------------------------------------------

/// What releasing the stakes of one vault leaves of an account: row
/// existence, balance, participations and the stakes on every other
/// vault are untouched; the stake on this vault is untouched or gone.
pub open spec fn account_release_ok(
    b0: Seq<(String, TokenManager)>,
    b1: Seq<(String, TokenManager)>,
    vault_id: u64,
    addr: Seq<char>,
) -> bool {
    &&& has_account(b1, addr) == has_account(b0, addr)
    &&& balance_of(b1, addr) == balance_of(b0, addr)
    &&& participated_of(b1, addr) == participated_of(b0, addr)
    &&& forall|id2: u64|
        id2 != vault_id ==> #[trigger] stake_on(stakes_of(b1, addr), id2) == stake_on(
            stakes_of(b0, addr),
            id2,
        )
    &&& (stake_on(stakes_of(b1, addr), vault_id) == stake_on(stakes_of(b0, addr), vault_id)
        || stake_on(stakes_of(b1, addr), vault_id) is None)
}

/// Whether `addr` stands in the vault's participant list.
pub open spec fn vault_participant(v: Vault, addr: Seq<char>) -> bool {
    exists|j: int| 0 <= j < v.voters@.len() && v.voters@[j]@ == addr
}

/// Removes the `(vault_id, weight)` entry from the voter's stakes.
/// Idempotent: a missing entry, or a voter without an account, is a
/// no-op.  Balances are never touched: releasing a stake only lifts
/// the withdrawal ceiling.
fn allow_claim(bank: &mut Vec<(String, TokenManager)>, voter: &String, vault_id: u64)
    requires
        bank_keys_unique(old(bank)@),
        forall|i: int| 0 <= i < old(bank)@.len() ==> (#[trigger] old(bank)@[i].1).wf(),
    ensures
        bank_keys_unique(final(bank)@),
        forall|i: int| 0 <= i < final(bank)@.len() ==> (#[trigger] final(bank)@[i].1).wf(),
        sum_balances(final(bank)@) == sum_balances(old(bank)@),
        stake_on(stakes_of(final(bank)@, voter@), vault_id) is None,
        account_release_ok(old(bank)@, final(bank)@, vault_id, voter@),
        forall|a2: Seq<char>|
            a2 != voter@ ==> #[trigger] accounts_agree(old(bank)@, final(bank)@, a2),
{
    let ai = match find_account(bank, voter) {
        Some(ai) => ai,
        None => {
            return ;
        },
    };
    proof {
        lemma_account_lookup(bank@, voter@, ai as int);
    }
    let k = match find_stake(&bank[ai].1.bet_tokens, vault_id) {
        Some(k) => k,
        None => {
            proof {
                lemma_stake_absent(bank@[ai as int].1.bet_tokens@, vault_id);
            }
            return ;
        },
    };
    let ghost b0 = bank@;
    let mut row = bank.remove(ai);
    let ghost s0 = row.1.bet_tokens@;
    row.1.bet_tokens.remove(k);
    proof {
        lemma_stakes_remove_frame(s0, k as int);
        lemma_max_stake_remove(s0, k as int);
    }
    bank.insert(ai, row);
    proof {
        lemma_remove_insert(b0, ai as int, bank@[ai as int]);
        lemma_sum_balances_update(b0, ai as int, bank@[ai as int]);
        lemma_bank_update_frame(b0, ai as int, bank@[ai as int]);
    }
}

/// What a successful deposit-window closure does: the vault moves to
/// `Finished` with every other field untouched, every other vault is
/// untouched, every participant's stake on this vault is released, and
/// no account's balance, participations or other stakes change.
pub open spec fn end_deposits_post(pre: ContractState, post: ContractState, vault_id: u64) -> bool {
    &&& post.config == pre.config
    &&& 1 <= vault_id <= pre.vaults@.len()
    &&& post.vaults@.len() == pre.vaults@.len()
    &&& forall|k: int|
        0 <= k < pre.vaults@.len() && k != vault_id - 1 ==> post.vaults@[k] == pre.vaults@[k]
    &&& ({
        let vp = pre.vaults@[vault_id - 1];
        let vq = post.vaults@[vault_id - 1];
        &&& vq.status == VaultStatus::Finished
        &&& vq.creator == vp.creator
        &&& vq.description == vp.description
        &&& vq.start_height == vp.start_height
        &&& vq.end_height == vp.end_height
        &&& vq.voters == vp.voters
        &&& vq.voter_info == vp.voter_info
        &&& vq.yes_votes == vp.yes_votes
        &&& vq.no_votes == vp.no_votes
    })
    &&& forall|a2: Seq<char>| #[trigger] account_release_ok(pre.bank@, post.bank@, vault_id, a2)
    &&& forall|j: int|
        0 <= j < pre.vaults@[vault_id - 1].voters@.len() ==> stake_on(
            stakes_of(post.bank@, #[trigger] pre.vaults@[vault_id - 1].voters@[j]@),
            vault_id,
        ) is None
    &&& forall|a2: Seq<char>|
        !vault_participant(pre.vaults@[vault_id - 1], a2) ==> #[trigger] accounts_agree(
            pre.bank@,
            post.bank@,
            a2,
        )
}

/// The whole behaviour of a closure call, over the states before and
/// after: which error comes on which inputs, and what a success does.
/// The closing sender is part of the reported `VaultNotCreator` error,
/// so the spec takes the sender both as a value and as its view.
pub open spec fn end_deposits_spec(
    pre: ContractState,
    post: ContractState,
    sender: String,
    vault_id: u64,
    height: u64,
    r: Result<(), ContractError>,
) -> bool {
    &&& post.wf()
    &&& r is Err ==> post == pre
    &&& !(1 <= vault_id <= pre.config.vault_count) ==> r == Err::<(), ContractError>(
        ContractError::VaultDoesNotExist {},
    )
    &&& 1 <= vault_id <= pre.config.vault_count ==> ({
        let vp = pre.vaults@[vault_id - 1];
        let started = match vp.start_height {
            Some(s) => s <= height,
            None => true,
        };
        &&& vp.creator@ != sender@ ==> r == Err::<(), ContractError>(
            (ContractError::VaultNotCreator { sender: sender, creator: vp.creator }),
        )
        &&& vp.creator@ == sender@ && !(vp.status is DepositsOpen) ==> r == Err::<
            (),
            ContractError,
        >(ContractError::VaultNotOpenForDeposits {})
        &&& vp.creator@ == sender@ && vp.status is DepositsOpen && !started ==> r == Err::<
            (),
            ContractError,
        >((ContractError::VaultDepositPeriodNotStarted {
            start_height: match vp.start_height {
                Some(s) => s,
                None => 0,
            },
        }))
        &&& vp.creator@ == sender@ && vp.status is DepositsOpen && started && height
            < vp.end_height ==> r == Err::<(), ContractError>(
            (ContractError::VaultDepositPeriodNotExpired { expire_height: vp.end_height }),
        )
        &&& vp.creator@ == sender@ && vp.status is DepositsOpen && started && height
            >= vp.end_height ==> r is Ok && end_deposits_post(pre, post, vault_id)
    })
}

/// Closes a vault's deposit window.  Only the creator may close, only
/// while deposits are open, not before a configured start height and
/// not before the end height has been reached.  The side totals are
/// re-derived from the vote list as a consistency check against the
/// incrementally maintained ones, every participant's stake is
/// released, and the vault is finished.
#[verifier::loop_isolation(false)]
pub fn end_deposits(st: &mut ContractState, sender: String, vault_id: u64, height: u64) -> (r:
    Result<(), ContractError>)
    requires
        old(st).wf(),
    ensures
        end_deposits_spec(*old(st), *final(st), sender, vault_id, height, r),
{
    if vault_id == 0 || vault_id > st.config.vault_count {
        return Err(ContractError::VaultDoesNotExist {});
    }
    let n = st.vaults.len();
    proof {
        assert(vault_id - 1 < n);
    }
    let vi = (vault_id - 1) as usize;
    if !(st.vaults[vi].creator == sender) {
        let creator = st.vaults[vi].creator.clone();
        return Err(ContractError::VaultNotCreator { sender, creator });
    }
    let is_open = match st.vaults[vi].status {
        VaultStatus::DepositsOpen => true,
        _ => false,
    };
    if !is_open {
        return Err(ContractError::VaultNotOpenForDeposits {});
    }
    match st.vaults[vi].start_height {
        Some(start_height) => {
            if start_height > height {
                return Err(ContractError::VaultDepositPeriodNotStarted { start_height });
            }
        },
        None => {},
    }
    if st.vaults[vi].end_height > height {
        return Err(ContractError::VaultDepositPeriodNotExpired {
            expire_height: st.vaults[vi].end_height,
        });
    }
    let ghost v0 = old(st).vaults@;
    let ghost vpre = v0[vi as int];
    let mut v = st.vaults.remove(vi);
    // Re-derive the side totals from the vote list: a consistency
    // check against the incrementally maintained totals, which the
    // vault invariant proves to agree.
    let mut yes: u128 = 0;
    let mut no: u128 = 0;
    let mut i: usize = 0;
    proof {
        assert(v.voter_info@.subrange(0, 0) =~= Seq::<Voter>::empty());
    }
    while i < v.voter_info.len()
        invariant
            i <= v.voter_info@.len(),
            yes as int == sum_yes(v.voter_info@.subrange(0, i as int)),
            no as int == sum_no(v.voter_info@.subrange(0, i as int)),
        decreases v.voter_info@.len() - i,
    {
        proof {
            lemma_tally_step(v.voter_info@, i as int);
            lemma_tally_bound(v.voter_info@, i + 1);
        }
        match v.voter_info[i].vote {
            VoteOption::Yes => {
                yes = yes + v.voter_info[i].weight;
            },
            VoteOption::No => {
                no = no + v.voter_info[i].weight;
            },
        }
        i = i + 1;
    }
    proof {
        assert(v.voter_info@.subrange(0, v.voter_info@.len() as int) =~= v.voter_info@);
    }
    // The tallied totals agree with the maintained ones.
    assert(yes == v.yes_votes);
    assert(no == v.no_votes);
    // Release every participant's stake on this vault.
    let ghost b0 = old(st).bank@;
    let mut j: usize = 0;
    while j < v.voters.len()
        invariant
            j <= v.voters@.len(),
            st.config == old(st).config,
            st.vaults@ == v0.remove(vi as int),
            bank_keys_unique(st.bank@),
            forall|x: int| 0 <= x < st.bank@.len() ==> (#[trigger] st.bank@[x].1).wf(),
            sum_balances(st.bank@) == sum_balances(b0),
            forall|a2: Seq<char>| #[trigger] account_release_ok(b0, st.bank@, vault_id, a2),
            forall|x: int|
                0 <= x < j ==> stake_on(
                    stakes_of(st.bank@, #[trigger] v.voters@[x]@),
                    vault_id,
                ) is None,
            forall|a2: Seq<char>|
                !vault_participant(vpre, a2) ==> #[trigger] accounts_agree(b0, st.bank@, a2),
        decreases v.voters@.len() - j,
    {
        let ghost b_mid = st.bank@;
        allow_claim(&mut st.bank, &v.voters[j], vault_id);
        proof {
            let b_new = st.bank@;
            let w = v.voters@[j as int]@;
            assert forall|a2: Seq<char>| #[trigger] account_release_ok(
                b0,
                b_new,
                vault_id,
                a2,
            ) by {
                assert(account_release_ok(b0, b_mid, vault_id, a2));
                if a2 != w {
                    assert(accounts_agree(b_mid, b_new, a2));
                } else {
                    assert(account_release_ok(b_mid, b_new, vault_id, a2));
                }
            }
            assert forall|x: int| 0 <= x < j + 1 implies stake_on(
                stakes_of(b_new, #[trigger] v.voters@[x]@),
                vault_id,
            ) is None by {
                if v.voters@[x]@ != w {
                    assert(accounts_agree(b_mid, b_new, v.voters@[x]@));
                    assert(account_release_ok(b0, b_mid, vault_id, v.voters@[x]@));
                }
            }
            assert forall|a2: Seq<char>| !vault_participant(vpre, a2) implies #[trigger] accounts_agree(
                b0,
                b_new,
                a2,
            ) by {
                assert(vpre.voters@[j as int]@ == w);
                assert(vault_participant(vpre, w));
                assert(a2 != w);
                assert(accounts_agree(b0, b_mid, a2));
                assert(accounts_agree(b_mid, b_new, a2));
            }
        }
        j = j + 1;
    }
    v.status = VaultStatus::Finished;
    st.vaults.insert(vi, v);
    proof {
        lemma_remove_insert(v0, vi as int, st.vaults@[vi as int]);
        assert forall|k: int| 0 <= k < st.vaults@.len() implies (#[trigger] st.vaults@[k]).wf() by {
            if k != vi as int {
                assert(st.vaults@[k] == v0[k]);
            }
        }
    }
    Ok(())
}

// ---------------------------------------------------------------------
// Dispatch
// ---------------------------------------------------------------------

/// Routes a state-mutating request to its operation.  Each arm behaves
/// exactly as the operation it routes to; the operation's result is
/// wrapped in the matching response variant.
pub fn execute(
    st: &mut ContractState,
    height: u64,
    sender: String,
    funds: Vec<Coin>,
    msg: ExecuteMsg,
) -> (r: Result<ExecuteResponse, ContractError>)
    requires
        old(st).wf(),
    ensures
        match msg {
            ExecuteMsg::BetTokens {  } => match r {
                Ok(resp) => resp is Default && bet_tokens_spec(
                    *old(st),
                    *final(st),
                    sender@,
                    funds@,
                    Ok(()),
                ),
                Err(e) => bet_tokens_spec(*old(st), *final(st), sender@, funds@, Err(e)),
            },
            ExecuteMsg::WithdrawRewards { amount } => match r {
                Ok(resp) => match resp {
                    ExecuteResponse::Transfer { instruction } => withdraw_spec(
                        *old(st),
                        *final(st),
                        sender@,
                        amount,
                        Ok(instruction),
                    ),
                    _ => false,
                },
                Err(e) => withdraw_spec(*old(st), *final(st), sender@, amount, Err(e)),
            },
            ExecuteMsg::CastBet { vault_id, vote, weight } => match r {
                Ok(resp) => resp is Default && cast_bet_spec(
                    *old(st),
                    *final(st),
                    sender@,
                    vault_id,
                    vote@,
                    weight,
                    Ok(()),
                ),
                Err(e) => cast_bet_spec(
                    *old(st),
                    *final(st),
                    sender@,
                    vault_id,
                    vote@,
                    weight,
                    Err(e),
                ),
            },
            ExecuteMsg::CreateVault { description, start_height, end_height } => match r {
                Ok(resp) => match resp {
                    ExecuteResponse::VaultCreated { data } => create_vault_spec(
                        *old(st),
                        *final(st),
                        sender@,
                        description@,
                        start_height,
                        end_height,
                        height,
                        Ok(data),
                    ),
                    _ => false,
                },
                Err(e) => create_vault_spec(
                    *old(st),
                    *final(st),
                    sender@,
                    description@,
                    start_height,
                    end_height,
                    height,
                    Err(e),
                ),
            },
            ExecuteMsg::EndDeposits { vault_id } => match r {
                Ok(resp) => resp is Default && end_deposits_spec(
                    *old(st),
                    *final(st),
                    sender,
                    vault_id,
                    height,
                    Ok(()),
                ),
                Err(e) => end_deposits_spec(*old(st), *final(st), sender, vault_id, height, Err(e)),
            },
        },
{
    match msg {
        ExecuteMsg::BetTokens {  } => match bet_tokens(st, sender, funds) {
            Ok(()) => Ok(ExecuteResponse::Default {}),
            Err(e) => Err(e),
        },
        ExecuteMsg::WithdrawRewards { amount } => match withdraw_bet_rewards(st, sender, amount) {
            Ok(instruction) => Ok(ExecuteResponse::Transfer { instruction }),
            Err(e) => Err(e),
        },
        ExecuteMsg::CastBet { vault_id, vote, weight } => match cast_bet(
            st,
            sender,
            vault_id,
            vote,
            weight,
        ) {
            Ok(()) => Ok(ExecuteResponse::Default {}),
            Err(e) => Err(e),
        },
        ExecuteMsg::CreateVault { description, start_height, end_height } => match create_vault(
            st,
            sender,
            description,
            start_height,
            end_height,
            height,
        ) {
            Ok(data) => Ok(ExecuteResponse::VaultCreated { data }),
            Err(e) => Err(e),
        },
        ExecuteMsg::EndDeposits { vault_id } => match end_deposits(st, sender, vault_id, height) {
            Ok(()) => Ok(ExecuteResponse::Default {}),
            Err(e) => Err(e),
        },
    }
}

// ---------------------------------------------------------------------
// Queries
// ---------------------------------------------------------------------

/// The summary of one vault, or `VaultDoesNotExist` for an identifier
/// never assigned.
pub fn query_vault(st: &ContractState, vault_id: u64) -> (r: Result<VaultResponse, ContractError>)
    ensures
        match r {
            Ok(resp) => {
                &&& 1 <= vault_id <= st.vaults@.len()
                &&& ({
                    let v = st.vaults@[vault_id - 1];
                    &&& resp.creator@ == v.creator@
                    &&& resp.status == v.status
                    &&& resp.end_height == Some(v.end_height)
                    &&& resp.start_height == v.start_height
                    &&& resp.description@ == v.description@
                })
            },
            Err(e) => {
                &&& e == (ContractError::VaultDoesNotExist {})
                &&& !(1 <= vault_id <= st.vaults@.len())
            },
        },
{
    let n = st.vaults.len();
    if vault_id == 0 || vault_id > n as u64 {
        return Err(ContractError::VaultDoesNotExist {});
    }
    let vi = (vault_id - 1) as usize;
    let v = &st.vaults[vi];
    Ok(VaultResponse {
        creator: v.creator.clone(),
        status: v.status,
        end_height: Some(v.end_height),
        start_height: v.start_height,
        description: v.description.clone(),
    })
}

/// The balance held for `address`, zero for an address that never
/// deposited.
pub fn token_balance(st: &ContractState, address: &String) -> (r: TokenBetResponse)
    requires
        st.wf(),
    ensures
        r.token_balance == balance_of(st.bank@, address@),
{
    match find_account(&st.bank, address) {
        Some(ai) => {
            proof {
                lemma_account_lookup(st.bank@, address@, ai as int);
            }
            TokenBetResponse { token_balance: st.bank[ai].1.token_balance }
        },
        None => TokenBetResponse { token_balance: 0 },
    }
}

/// Routes a read-only request: the configuration, an account balance
/// or a vault summary.
pub fn query(st: &ContractState, msg: QueryMsg) -> (r: Result<QueryResponse, ContractError>)
    requires
        st.wf(),
    ensures
        match msg {
            QueryMsg::Config {  } => match r {
                Ok(resp) => resp matches QueryResponse::Config { config } && config == st.config,
                Err(_) => false,
            },
            QueryMsg::TokenBet { address } => match r {
                Ok(resp) => resp matches QueryResponse::TokenBet { balance }
                    && balance.token_balance == balance_of(st.bank@, address@),
                Err(_) => false,
            },
            QueryMsg::Vault { vault_id } => match r {
                Ok(resp) => resp matches QueryResponse::Vault { vault } && 1 <= vault_id
                    <= st.vaults@.len() && ({
                    let v = st.vaults@[vault_id - 1];
                    &&& vault.creator@ == v.creator@
                    &&& vault.status == v.status
                    &&& vault.end_height == Some(v.end_height)
                    &&& vault.start_height == v.start_height
                    &&& vault.description@ == v.description@
                }),
                Err(e) => e == (ContractError::VaultDoesNotExist {}) && !(1 <= vault_id
                    <= st.vaults@.len()),
            },
        },
{
    match msg {
        QueryMsg::Config {  } => Ok(
            QueryResponse::Config {
                config: State {
                    denom: st.config.denom.clone(),
                    owner: st.config.owner.clone(),
                    vault_count: st.config.vault_count,
                    bet_tokens: st.config.bet_tokens,
                },
            },
        ),
        QueryMsg::TokenBet { address } => Ok(
            QueryResponse::TokenBet { balance: token_balance(st, &address) },
        ),
        QueryMsg::Vault { vault_id } => match query_vault(st, vault_id) {
            Ok(vault) => Ok(QueryResponse::Vault { vault }),
            Err(e) => Err(e),
        },
    }
}

} // verus!
