//! The ledger's global laws, stated over the engine's contracts and proved
//! once for all states.

use vstd::prelude::*;
use crate::allowance::AllowanceTable;
use crate::errors::TransactionError;
use crate::gyro::{
    Gyro, lemma_no_funded_admin_iff, transfer_post, transfer_result, withdraw_result,
};
use crate::keyed::{Keyed, lemma_lookup_absent, lemma_lookup_none_absent};
use crate::registry::User;
use crate::storage_types::{Address, AssetType, Transaction};
use crate::txlog::contains_tx;

verus! {

/// For all registered (account, asset), the balance is non-negative at every
/// observation point: amounts are stored unsigned, so no reachable state can
/// hold a negative balance.
pub proof fn lemma_balance_nonnegative(g: Gyro, account: Address, asset: AssetType)
    ensures
        g.balance_of(account, asset) matches Some(b) ==> b >= 0,
{
}

/// A transfer A→B followed by a transfer B→A of the same amount restores
/// every balance to its original value — the inverse law, for any two
/// successful legs (their transaction ids are necessarily distinct, since
/// each leg records its id in both logs).
pub proof fn lemma_transfer_round_trip(
    s0: Gyro,
    s1: Gyro,
    s2: Gyro,
    a: Address,
    b: Address,
    asset: AssetType,
    amount: u32,
    d1: Seq<char>,
    d2: Seq<char>,
    id1: Seq<char>,
    id2: Seq<char>,
)
    requires
        a != b,
        transfer_post(s0, s1, a, b, asset, amount, d1, id1),
        transfer_post(s1, s2, b, a, asset, amount, d2, id2),
    ensures
        forall|x: Address, t: AssetType| s2.balance_of(x, t) == s0.balance_of(x, t),
{
    assert forall|x: Address, t: AssetType| s2.balance_of(x, t) == s0.balance_of(x, t) by {
        if x == a && t == asset {
            assert(s1.balance_of(a, asset) == Some(
                (s0.balance_of(a, asset).unwrap() - amount) as u32,
            ));
        } else if x == b && t == asset {
            assert(s1.balance_of(b, asset) == Some(
                (s0.balance_of(b, asset).unwrap() + amount) as u32,
            ));
        } else {
            assert(s1.balance_of(x, t) == s0.balance_of(x, t));
        }
    }
}

/// After a successful transfer A→B, the reverse transfer B→A of the same
/// amount under a distinct, fresh transaction id is accepted: the first leg
/// left B with at least the amount, and the fresh id collides with neither
/// log.
pub proof fn lemma_transfer_reverse_accepted(
    s0: Gyro,
    s1: Gyro,
    a: Address,
    b: Address,
    asset: AssetType,
    amount: u32,
    d1: Seq<char>,
    id1: Seq<char>,
    id2: Seq<char>,
)
    requires
        a != b,
        transfer_result(s0, a, b, asset, amount, id1) == Ok::<(), TransactionError>(()),
        transfer_post(s0, s1, a, b, asset, amount, d1, id1),
        id2 != id1,
        !contains_tx(s0.log_of(a), id2),
        !contains_tx(s0.log_of(b), id2),
    ensures
        transfer_result(s1, b, a, asset, amount, id2) == Ok::<(), TransactionError>(()),
{
    lemma_fresh_id_stays_absent(s0.log_of(a), s1.log_of(a), id1, id2);
    lemma_fresh_id_stays_absent(s0.log_of(b), s1.log_of(b), id1, id2);
}

/// An id absent from a log stays absent when one record with a different id
/// is appended.
proof fn lemma_fresh_id_stays_absent(
    pre: Seq<Transaction>,
    post: Seq<Transaction>,
    id1: Seq<char>,
    id2: Seq<char>,
)
    requires
        !contains_tx(pre, id2),
        id2 != id1,
        post.len() == pre.len() + 1,
        forall|i: int| 0 <= i < pre.len() ==> post[i] == pre[i],
        post.last().tx_id@ == id1,
    ensures
        !contains_tx(post, id2),
{
    lemma_lookup_none_absent(pre, id2);
    assert forall|i: int| 0 <= i < post.len() implies #[trigger] post[i].key() != id2 by {
        if i < pre.len() {
            assert(post[i] == pre[i]);
        } else {
            assert(post[i] == post.last());
        }
    }
    lemma_lookup_absent(post, id2);
}

/// With a registered account, a positive covered amount, and the primary
/// stable asset, a withdrawal fails with `InsufficientLiquidityFund` if and
/// only if no administrator's queried allowance meets the requested amount.
pub proof fn lemma_withdraw_liquidity_iff(
    pre: Gyro,
    registry: User,
    allowances: AllowanceTable,
    account: Address,
    amount: u32,
    id: Seq<char>,
)
    requires
        pre.balance_of(account, AssetType::USDC) matches Some(b) && 0 < amount <= b,
    ensures
        withdraw_result(pre, registry, allowances, account, AssetType::USDC, amount, id) == Err::<
            (),
            TransactionError,
        >(TransactionError::InsufficientLiquidityFund) <==> (forall|i: int|
            0 <= i < registry.admins_seq().len() ==> allowances.allowance_of(
                #[trigger] registry.admins_seq()[i],
            ) < amount),
{
    lemma_no_funded_admin_iff(registry.admins_seq(), allowances, amount);
}

} // verus!
