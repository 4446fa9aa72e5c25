//! Proof support for the state model: how the spec-level readings of the
//! bank and of an account's stakes behave under row lookup, update,
//! insertion and removal, and how the recursive sums unfold.

use vstd::prelude::*;

use crate::state::{
    balance_of, bank_keys_unique, has_account, has_stake, max_stake, stake_on, stakes_of,
    sum_balances, sum_no, sum_weights, sum_yes, TokenManager, Voter,
};
use crate::state::account_index;
use crate::state::account_of;

verus! {

/// Removing and re-inserting at the same index is a pointwise update.
pub(crate) proof fn lemma_remove_insert<T>(s: Seq<T>, i: int, v: T)
    requires
        0 <= i < s.len(),
    ensures
        s.remove(i).insert(i, v) =~= s.update(i, v),
{
}

// ---------------------------------------------------------------------
// Bank rows
// ---------------------------------------------------------------------

/// Under unique keys, a row holding `addr` is the row the model reads.
pub(crate) proof fn lemma_account_lookup(b: Seq<(String, TokenManager)>, addr: Seq<char>, i: int)
    requires
        bank_keys_unique(b),
        0 <= i < b.len(),
        b[i].0@ == addr,
    ensures
        has_account(b, addr),
        account_index(b, addr) == i,
        account_of(b, addr) == b[i].1,
        balance_of(b, addr) == b[i].1.token_balance,
        stakes_of(b, addr) == b[i].1.bet_tokens@,
{
    assert(has_account(b, addr));
    let j = account_index(b, addr);
    assert(0 <= j < b.len() && b[j].0@ == addr);
    if i != j {
        assert(b[i].0@ != b[j].0@);
    }
}

/// Replacing row `i` with a row of the same key changes nothing the
/// model reads of any other address.
pub(crate) proof fn lemma_bank_update_frame(b: Seq<(String, TokenManager)>, i: int, p: (String, TokenManager))
    requires
        bank_keys_unique(b),
        0 <= i < b.len(),
        p.0@ == b[i].0@,
    ensures
        bank_keys_unique(b.update(i, p)),
        has_account(b.update(i, p), p.0@),
        account_index(b.update(i, p), p.0@) == i,
        account_of(b.update(i, p), p.0@) == p.1,
        forall|a2: Seq<char>|
            a2 != p.0@ ==> #[trigger] has_account(b.update(i, p), a2) == has_account(b, a2),
        forall|a2: Seq<char>|
            a2 != p.0@ && has_account(b, a2) ==> #[trigger] account_of(
                b.update(i, p),
                a2,
            ) == account_of(b, a2),
        forall|a2: Seq<char>|
            a2 != p.0@ ==> #[trigger] balance_of(b.update(i, p), a2) == balance_of(b, a2)
                && stakes_of(b.update(i, p), a2) == stakes_of(b, a2),
{
    let b2 = b.update(i, p);
    lemma_account_lookup(b2, p.0@, i);
    assert forall|a2: Seq<char>| a2 != p.0@ implies #[trigger] has_account(b2, a2) == has_account(
        b,
        a2,
    ) by {
        if has_account(b, a2) {
            let j = choose|j: int| 0 <= j < b.len() && b[j].0@ == a2;
            assert(j != i);
            assert(b2[j].0@ == a2);
        }
        if has_account(b2, a2) {
            let j = choose|j: int| 0 <= j < b2.len() && b2[j].0@ == a2;
            assert(j != i);
            assert(b[j].0@ == a2);
        }
    }
    assert forall|a2: Seq<char>| a2 != p.0@ && has_account(b, a2) implies #[trigger] account_of(
        b2,
        a2,
    ) == account_of(b, a2) by {
        let j = choose|j: int| 0 <= j < b.len() && b[j].0@ == a2;
        assert(j != i);
        assert(b2[j].0@ == a2);
        lemma_account_lookup(b, a2, j);
        lemma_account_lookup(b2, a2, j);
    }
}

/// Appending a row with a fresh key changes nothing the model reads of
/// any other address.
pub(crate) proof fn lemma_bank_push_frame(b: Seq<(String, TokenManager)>, p: (String, TokenManager))
    requires
        bank_keys_unique(b),
        !has_account(b, p.0@),
    ensures
        bank_keys_unique(b.push(p)),
        has_account(b.push(p), p.0@),
        account_index(b.push(p), p.0@) == b.len(),
        account_of(b.push(p), p.0@) == p.1,
        forall|a2: Seq<char>|
            a2 != p.0@ ==> #[trigger] has_account(b.push(p), a2) == has_account(b, a2),
        forall|a2: Seq<char>|
            a2 != p.0@ && has_account(b, a2) ==> #[trigger] account_of(b.push(p), a2)
                == account_of(b, a2),
        forall|a2: Seq<char>|
            a2 != p.0@ ==> #[trigger] balance_of(b.push(p), a2) == balance_of(b, a2)
                && stakes_of(b.push(p), a2) == stakes_of(b, a2),
{
    let b2 = b.push(p);
    assert forall|i: int, j: int| 0 <= i < j < b2.len() implies b2[i].0@ != b2[j].0@ by {
        if j == b.len() {
            assert(b2[i] == b[i]);
            if b2[i].0@ == p.0@ {
                assert(has_account(b, p.0@));
            }
        }
    }
    lemma_account_lookup(b2, p.0@, b.len() as int);
    assert forall|a2: Seq<char>| a2 != p.0@ implies #[trigger] has_account(b2, a2) == has_account(
        b,
        a2,
    ) by {
        if has_account(b, a2) {
            let j = choose|j: int| 0 <= j < b.len() && b[j].0@ == a2;
            assert(b2[j].0@ == a2);
        }
        if has_account(b2, a2) {
            let j = choose|j: int| 0 <= j < b2.len() && b2[j].0@ == a2;
            assert(j != b.len());
            assert(b[j].0@ == a2);
        }
    }
    assert forall|a2: Seq<char>| a2 != p.0@ && has_account(b, a2) implies #[trigger] account_of(
        b2,
        a2,
    ) == account_of(b, a2) by {
        let j = choose|j: int| 0 <= j < b.len() && b[j].0@ == a2;
        lemma_account_lookup(b, a2, j);
        lemma_account_lookup(b2, a2, j);
    }
}

// ---------------------------------------------------------------------
// Sum of balances
// ---------------------------------------------------------------------

/// Every single balance is bounded by the sum of balances.
pub(crate) proof fn lemma_balance_le_sum(b: Seq<(String, TokenManager)>, i: int)
    requires
        0 <= i < b.len(),
    ensures
        b[i].1.token_balance as int <= sum_balances(b),
    decreases b.len(),
{
    lemma_sum_balances_nonneg(b.drop_last());
    if i < b.len() - 1 {
        lemma_balance_le_sum(b.drop_last(), i);
    }
}

/// The sum of balances is never negative.
pub(crate) proof fn lemma_sum_balances_nonneg(b: Seq<(String, TokenManager)>)
    ensures
        sum_balances(b) >= 0,
    decreases b.len(),
{
    if b.len() > 0 {
        lemma_sum_balances_nonneg(b.drop_last());
    }
}

/// Replacing one row shifts the sum by the difference of that row's
/// balance.
pub(crate) proof fn lemma_sum_balances_update(
    b: Seq<(String, TokenManager)>,
    i: int,
    p: (String, TokenManager),
)
    requires
        0 <= i < b.len(),
    ensures
        sum_balances(b.update(i, p)) == sum_balances(b) - b[i].1.token_balance
            + p.1.token_balance,
    decreases b.len(),
{
    let b2 = b.update(i, p);
    if i == b.len() - 1 {
        assert(b2.drop_last() =~= b.drop_last());
    } else {
        assert(b2.drop_last() =~= b.drop_last().update(i, p));
        assert(b2.last() == b.last());
        lemma_sum_balances_update(b.drop_last(), i, p);
    }
}

/// Appending a row adds that row's balance to the sum.
pub(crate) proof fn lemma_sum_balances_push(b: Seq<(String, TokenManager)>, p: (String, TokenManager))
    ensures
        sum_balances(b.push(p)) == sum_balances(b) + p.1.token_balance,
{
    assert(b.push(p).drop_last() =~= b);
}

// ---------------------------------------------------------------------
// Stakes of one account
// ---------------------------------------------------------------------

/// Under unique keys, an entry holding `vault_id` is the stake the
/// model reads.
pub(crate) proof fn lemma_stake_lookup(s: Seq<(u64, u128)>, vault_id: u64, i: int)
    requires
        forall|x: int, y: int| 0 <= x < y < s.len() ==> s[x].0 != s[y].0,
        0 <= i < s.len(),
        s[i].0 == vault_id,
    ensures
        has_stake(s, vault_id),
        stake_on(s, vault_id) == Some(s[i].1),
    decreases s.len(),
{
    if i == s.len() - 1 {
        assert(stake_on(s, vault_id) == Some(s.last().1));
    } else {
        assert(s.last().0 != vault_id);
        assert(s.drop_last() =~= s.subrange(0, s.len() - 1));
        lemma_stake_lookup(s.drop_last(), vault_id, i);
    }
}

/// An identifier no entry holds has no stake.
pub(crate) proof fn lemma_stake_absent(s: Seq<(u64, u128)>, vault_id: u64)
    requires
        forall|x: int| 0 <= x < s.len() ==> s[x].0 != vault_id,
    ensures
        !has_stake(s, vault_id),
        stake_on(s, vault_id) is None,
    decreases s.len(),
{
    if s.len() > 0 {
        lemma_stake_absent(s.drop_last(), vault_id);
    }
}

/// Replacing the entry of one vault leaves every other vault's stake
/// as it was.
pub(crate) proof fn lemma_stakes_update_frame(s: Seq<(u64, u128)>, k: int, e: (u64, u128))
    requires
        forall|x: int, y: int| 0 <= x < y < s.len() ==> s[x].0 != s[y].0,
        0 <= k < s.len(),
        e.0 == s[k].0,
    ensures
        forall|x: int, y: int|
            0 <= x < y < s.update(k, e).len() ==> s.update(k, e)[x].0 != s.update(k, e)[y].0,
        stake_on(s.update(k, e), e.0) == Some(e.1),
        forall|id2: u64| id2 != e.0 ==> #[trigger] stake_on(s.update(k, e), id2) == stake_on(s, id2),
    decreases s.len(),
{
    let s2 = s.update(k, e);
    lemma_stake_lookup(s2, e.0, k);
    assert forall|id2: u64| id2 != e.0 implies #[trigger] stake_on(s2, id2) == stake_on(s, id2) by {
        lemma_stake_on_same_keys(s, s2, id2);
    }
}

/// Appending an entry for a fresh vault leaves every other vault's
/// stake as it was.
pub(crate) proof fn lemma_stakes_push_frame(s: Seq<(u64, u128)>, e: (u64, u128))
    requires
        forall|x: int, y: int| 0 <= x < y < s.len() ==> s[x].0 != s[y].0,
        !has_stake(s, e.0),
    ensures
        forall|x: int, y: int|
            0 <= x < y < s.push(e).len() ==> s.push(e)[x].0 != s.push(e)[y].0,
        stake_on(s.push(e), e.0) == Some(e.1),
        forall|id2: u64| id2 != e.0 ==> #[trigger] stake_on(s.push(e), id2) == stake_on(s, id2),
{
    let s2 = s.push(e);
    assert forall|x: int, y: int| 0 <= x < y < s2.len() implies s2[x].0 != s2[y].0 by {
        if y == s.len() {
            assert(s2[x] == s[x]);
        }
    }
    lemma_stake_lookup(s2, e.0, s.len() as int);
    assert(s2.drop_last() =~= s);
}

/// Two stake lists that agree pointwise on the entries of `id2` agree
/// on its stake; here: dropping the last entry, which is not `id2`.
pub(crate) proof fn lemma_stake_on_same_keys(s: Seq<(u64, u128)>, s2: Seq<(u64, u128)>, id2: u64)
    requires
        s.len() == s2.len(),
        forall|x: int| 0 <= x < s.len() && s[x].0 == id2 ==> s2[x] == s[x],
        forall|x: int| 0 <= x < s.len() && s2[x].0 == id2 ==> s2[x] == s[x],
    ensures
        stake_on(s, id2) == stake_on(s2, id2),
    decreases s.len(),
{
    if s.len() > 0 {
        if s.last().0 == id2 || s2.last().0 == id2 {
            assert(s2.last() == s.last());
        } else {
            lemma_stake_on_same_keys(s.drop_last(), s2.drop_last(), id2);
        }
    }
}

/// Removing one entry leaves that vault with no stake and every other
/// vault's stake as it was.
pub(crate) proof fn lemma_stakes_remove_frame(s: Seq<(u64, u128)>, k: int)
    requires
        forall|x: int, y: int| 0 <= x < y < s.len() ==> s[x].0 != s[y].0,
        0 <= k < s.len(),
    ensures
        forall|x: int, y: int|
            0 <= x < y < s.remove(k).len() ==> s.remove(k)[x].0 != s.remove(k)[y].0,
        stake_on(s.remove(k), s[k].0) is None,
        forall|id2: u64| id2 != s[k].0 ==> #[trigger] stake_on(s.remove(k), id2) == stake_on(s, id2),
    decreases s.len(),
{
    let s2 = s.remove(k);
    assert forall|x: int| 0 <= x < s2.len() implies s2[x].0 != s[k].0 by {
        if x < k {
            assert(s2[x] == s[x]);
        } else {
            assert(s2[x] == s[x + 1]);
        }
    }
    lemma_stake_absent(s2, s[k].0);
    assert forall|id2: u64| id2 != s[k].0 implies #[trigger] stake_on(s2, id2) == stake_on(
        s,
        id2,
    ) by {
        lemma_stake_on_remove(s, k, id2);
    }
}

/// Removing an entry of some other vault does not change which entry
/// the model reads for `id2`.
pub(crate) proof fn lemma_stake_on_remove(s: Seq<(u64, u128)>, k: int, id2: u64)
    requires
        0 <= k < s.len(),
        id2 != s[k].0,
    ensures
        stake_on(s.remove(k), id2) == stake_on(s, id2),
    decreases s.len(),
{
    let s2 = s.remove(k);
    if k == s.len() - 1 {
        assert(s2 =~= s.drop_last());
        assert(s.last().0 != id2);
    } else {
        assert(s2.last() == s.last());
        assert(s2.drop_last() =~= s.drop_last().remove(k));
        if s.last().0 != id2 {
            lemma_stake_on_remove(s.drop_last(), k, id2);
        }
    }
}

/// A recorded stake is backed by an entry of the list.
pub(crate) proof fn lemma_stake_on_entry(s: Seq<(u64, u128)>, vault_id: u64)
    requires
        stake_on(s, vault_id) is Some,
    ensures
        exists|i: int|
            0 <= i < s.len() && s[i].0 == vault_id && Some(s[i].1) == stake_on(s, vault_id),
    decreases s.len(),
{
    if s.len() > 0 {
        if s.last().0 == vault_id {
            assert(s[s.len() - 1].0 == vault_id && Some(s[s.len() - 1].1) == stake_on(
                s,
                vault_id,
            ));
        } else {
            lemma_stake_on_entry(s.drop_last(), vault_id);
            let i = choose|i: int|
                0 <= i < s.drop_last().len() && s.drop_last()[i].0 == vault_id && Some(
                    s.drop_last()[i].1,
                ) == stake_on(s.drop_last(), vault_id);
            assert(s[i].0 == vault_id && Some(s[i].1) == stake_on(s, vault_id));
        }
    }
}

// ---------------------------------------------------------------------
// Largest stake
// ---------------------------------------------------------------------

/// Every staked weight is bounded by the largest stake.
pub(crate) proof fn lemma_max_stake_ge(s: Seq<(u64, u128)>, i: int)
    requires
        0 <= i < s.len(),
    ensures
        s[i].1 <= max_stake(s),
    decreases s.len(),
{
    if i < s.len() - 1 {
        lemma_max_stake_ge(s.drop_last(), i);
    }
}

/// Appending an entry raises the largest stake to that entry's weight
/// at most.
pub(crate) proof fn lemma_max_stake_push(s: Seq<(u64, u128)>, e: (u64, u128))
    ensures
        max_stake(s.push(e)) == if e.1 > max_stake(s) {
            e.1
        } else {
            max_stake(s)
        },
{
    assert(s.push(e).drop_last() =~= s);
}

/// Replacing an entry keeps the largest stake bounded by the old
/// largest stake and the new weight.
pub(crate) proof fn lemma_max_stake_update(s: Seq<(u64, u128)>, k: int, e: (u64, u128))
    requires
        0 <= k < s.len(),
    ensures
        max_stake(s.update(k, e)) <= max_stake(s) || max_stake(s.update(k, e)) <= e.1,
    decreases s.len(),
{
    let s2 = s.update(k, e);
    if k == s.len() - 1 {
        assert(s2.drop_last() =~= s.drop_last());
    } else {
        assert(s2.drop_last() =~= s.drop_last().update(k, e));
        assert(s2.last() == s.last());
        lemma_max_stake_update(s.drop_last(), k, e);
    }
}

/// Removing an entry never raises the largest stake.
pub(crate) proof fn lemma_max_stake_remove(s: Seq<(u64, u128)>, k: int)
    requires
        0 <= k < s.len(),
    ensures
        max_stake(s.remove(k)) <= max_stake(s),
    decreases s.len(),
{
    let s2 = s.remove(k);
    if k == s.len() - 1 {
        assert(s2 =~= s.drop_last());
    } else {
        assert(s2.drop_last() =~= s.drop_last().remove(k));
        assert(s2.last() == s.last());
        lemma_max_stake_remove(s.drop_last(), k);
    }
}

// ---------------------------------------------------------------------
// Vote sums
// ---------------------------------------------------------------------

/// Appending a vote adds its weight to its own side and to the total,
/// and leaves the other side unchanged.
pub(crate) proof fn lemma_sums_push(v: Seq<Voter>, x: Voter)
    ensures
        sum_yes(v.push(x)) == sum_yes(v) + if x.vote is Yes {
            x.weight as int
        } else {
            0
        },
        sum_no(v.push(x)) == sum_no(v) + if x.vote is No {
            x.weight as int
        } else {
            0
        },
        sum_weights(v.push(x)) == sum_weights(v) + x.weight as int,
{
    assert(v.push(x).drop_last() =~= v);
}

/// The total staked weight splits into the two per-side sums.
pub(crate) proof fn lemma_sum_split(v: Seq<Voter>)
    ensures
        sum_weights(v) == sum_yes(v) + sum_no(v),
    decreases v.len(),
{
    if v.len() > 0 {
        lemma_sum_split(v.drop_last());
    }
}

/// One step of the tally: extending the prefix by one vote adds that
/// vote's weight to its side.
pub(crate) proof fn lemma_tally_step(v: Seq<Voter>, i: int)
    requires
        0 <= i < v.len(),
    ensures
        sum_yes(v.subrange(0, i + 1)) == sum_yes(v.subrange(0, i)) + if v[i].vote is Yes {
            v[i].weight as int
        } else {
            0
        },
        sum_no(v.subrange(0, i + 1)) == sum_no(v.subrange(0, i)) + if v[i].vote is No {
            v[i].weight as int
        } else {
            0
        },
{
    assert(v.subrange(0, i + 1).drop_last() =~= v.subrange(0, i));
    assert(v.subrange(0, i + 1).last() == v[i]);
}

/// A prefix of the tally never exceeds the full per-side sums.
pub(crate) proof fn lemma_tally_bound(v: Seq<Voter>, i: int)
    requires
        0 <= i <= v.len(),
    ensures
        sum_yes(v.subrange(0, i)) <= sum_yes(v),
        sum_no(v.subrange(0, i)) <= sum_no(v),
    decreases v.len() - i,
{
    if i == v.len() {
        assert(v.subrange(0, i) =~= v);
    } else {
        lemma_tally_step(v, i);
        lemma_tally_bound(v, i + 1);
    }
}

} // verus!
