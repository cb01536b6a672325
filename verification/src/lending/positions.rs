//! Deposit and borrow positions of the lending pools.

use vstd::prelude::*;

use super::interest::{InterestStorage, PRECISION};
use super::{stored_names, LendingStore};
use crate::lists::{
    contains_name, copy_names, lemma_push_fresh, lemma_without_contains,
    lemma_without_no_duplicates, names, no_duplicates, without, without_name,
};
use crate::math::{
    div_trunc, fits_i128, lemma_tdiv_bounds, lemma_tdiv_cancel, lemma_tdiv_positive_divisor,
    lemma_tdiv_scale, tdiv,
};

verus! {

/// A user's deposit in a pool.
#[derive(Debug)]
pub struct DepositPosition {
    pub pool_id: String,
    pub depositor: String,
    /// Deposit amount in underlying tokens.
    pub amount: i128,
    /// Share of the pool.
    pub shares: i128,
    /// Interest index at deposit time.
    pub index_at_deposit: i128,
    pub deposited_at: u64,
}

impl Clone for DepositPosition {
    fn clone(&self) -> (r: Self)
        ensures
            r == *self,
    {
        DepositPosition {
            pool_id: self.pool_id.clone(),
            depositor: self.depositor.clone(),
            amount: self.amount,
            shares: self.shares,
            index_at_deposit: self.index_at_deposit,
            deposited_at: self.deposited_at,
        }
    }
}

/// A user's borrow from a pool.
#[derive(Debug)]
pub struct BorrowPosition {
    pub pool_id: String,
    pub borrower: String,
    /// Principal borrowed.
    pub principal: i128,
    /// Interest index at borrow time.
    pub index_at_borrow: i128,
    pub collateral_amount: i128,
    pub collateral_asset: String,
    pub borrowed_at: u64,
}

impl Clone for BorrowPosition {
    fn clone(&self) -> (r: Self)
        ensures
            r == *self,
    {
        BorrowPosition {
            pool_id: self.pool_id.clone(),
            borrower: self.borrower.clone(),
            principal: self.principal,
            index_at_borrow: self.index_at_borrow,
            collateral_amount: self.collateral_amount,
            collateral_asset: self.collateral_asset.clone(),
            borrowed_at: self.borrowed_at,
        }
    }
}

/// The list with `x` appended unless it is already present.
pub open spec fn with_added(s: Seq<Seq<char>>, x: Seq<char>) -> Seq<Seq<char>> {
    if s.contains(x) {
        s
    } else {
        s.push(x)
    }
}

/// Interest earned by a deposit at the pool's current interest index:
/// `amount * (current / at_deposit - 1)` in fixed point, zero when the index
/// at deposit is zero or the index has not grown.
pub open spec fn deposit_interest(current_index: int, position: DepositPosition) -> int {
    if position.index_at_deposit == 0 || current_index <= position.index_at_deposit {
        0
    } else {
        let ratio = tdiv(current_index * PRECISION, position.index_at_deposit as int);
        tdiv(position.amount * (ratio - PRECISION), PRECISION as int)
    }
}

/// Every step of the deposit-interest computation fits in an `i128`.
pub open spec fn deposit_interest_computable(current_index: int, position: DepositPosition) -> bool {
    !(position.index_at_deposit == 0 || current_index <= position.index_at_deposit) ==> {
        let ratio = tdiv(current_index * PRECISION, position.index_at_deposit as int);
        &&& fits_i128(current_index * PRECISION)
        &&& fits_i128(ratio)
        &&& fits_i128(ratio - PRECISION)
        &&& fits_i128(position.amount * (ratio - PRECISION))
    }
}

/// Current debt of a borrow: `principal * current / at_borrow`, or the
/// principal when the index at borrow is zero.
pub open spec fn current_debt(current_index: int, position: BorrowPosition) -> int {
    if position.index_at_borrow == 0 {
        position.principal as int
    } else {
        tdiv(position.principal * current_index, position.index_at_borrow as int)
    }
}

/// Every step of the debt computation fits in an `i128`.
pub open spec fn current_debt_computable(current_index: int, position: BorrowPosition) -> bool {
    position.index_at_borrow != 0 ==> {
        &&& fits_i128(position.principal * current_index)
        &&& fits_i128(tdiv(position.principal * current_index, position.index_at_borrow as int))
    }
}

/// Health factor: `collateral * liquidation_threshold / (debt * PRECISION)`,
/// or `i128::MAX` when there is no debt.
pub open spec fn health_factor(collateral_value: int, debt_value: int, liquidation_threshold: int) -> int {
    if debt_value == 0 {
        i128::MAX as int
    } else {
        tdiv(collateral_value * liquidation_threshold, debt_value * PRECISION)
    }
}

/// Every step of the health-factor computation fits in an `i128`.
pub open spec fn health_factor_computable(collateral_value: int, debt_value: int, liquidation_threshold: int) -> bool {
    debt_value != 0 ==> {
        &&& fits_i128(collateral_value * liquidation_threshold)
        &&& fits_i128(debt_value * PRECISION)
        &&& fits_i128(tdiv(collateral_value * liquidation_threshold, debt_value * PRECISION))
    }
}

/// Storage helpers for deposit and borrow positions.
pub struct PositionStorage;

impl PositionStorage {
    /// Stores a deposit position and records the pool in the depositor's list.
    pub fn set_deposit(store: &mut LendingStore, position: &DepositPosition)
        requires
            old(store).wf(),
        ensures
            final(store).wf(),
            final(store).deposits() == old(store).deposits().insert(
                (position.depositor@, position.pool_id@),
                *position,
            ),
            forall|u: Seq<char>| #[trigger]
                final(store).user_deposit_pools(u) == (if u == position.depositor@ {
                    with_added(old(store).user_deposit_pools(u), position.pool_id@)
                } else {
                    old(store).user_deposit_pools(u)
                }),
            final(store).borrows() == old(store).borrows(),
            forall|u: Seq<char>| #[trigger]
                final(store).user_borrow_pools(u) == old(store).user_borrow_pools(u),
            final(store).same_pools(*old(store)),
    {
        let key = (position.depositor.clone(), position.pool_id.clone());
        store.deposits.set(key, position.clone());
        Self::add_to_user_deposits(store, &position.depositor, &position.pool_id);
    }

    /// The deposit of a user in a pool, if any.
    pub fn get_deposit(store: &LendingStore, depositor: &String, pool_id: &String) -> (r: Option<DepositPosition>)
        requires
            store.wf(),
        ensures
            r == (if store.deposits().contains_key((depositor@, pool_id@)) {
                Some(store.deposits()[(depositor@, pool_id@)])
            } else {
                None::<DepositPosition>
            }),
    {
        match store.deposits.get(&(depositor.clone(), pool_id.clone())) {
            Some(p) => Some(p.clone()),
            None => None,
        }
    }

    /// Removes the deposit of a user in a pool and drops the pool from the user's list.
    pub fn remove_deposit(store: &mut LendingStore, depositor: &String, pool_id: &String)
        requires
            old(store).wf(),
        ensures
            final(store).wf(),
            final(store).deposits() == old(store).deposits().remove((depositor@, pool_id@)),
            forall|u: Seq<char>| #[trigger]
                final(store).user_deposit_pools(u) == (if u == depositor@ {
                    without(old(store).user_deposit_pools(u), pool_id@)
                } else {
                    old(store).user_deposit_pools(u)
                }),
            final(store).borrows() == old(store).borrows(),
            forall|u: Seq<char>| #[trigger]
                final(store).user_borrow_pools(u) == old(store).user_borrow_pools(u),
            final(store).same_pools(*old(store)),
    {
        store.deposits.remove(&(depositor.clone(), pool_id.clone()));
        Self::remove_from_user_deposits(store, depositor, pool_id);
    }

    /// The pools in which a user holds a deposit.
    pub fn get_user_deposits(store: &LendingStore, user: &String) -> (r: Vec<String>)
        requires
            store.wf(),
        ensures
            names(r@) == store.user_deposit_pools(user@),
    {
        match store.user_deposits.get(user) {
            Some(list) => copy_names(list),
            None => {
                let v: Vec<String> = Vec::new();
                assert(names(v@) =~= Seq::<Seq<char>>::empty());
                v
            },
        }
    }

    fn add_to_user_deposits(store: &mut LendingStore, user: &String, pool_id: &String)
        requires
            old(store).wf(),
        ensures
            final(store).wf(),
            forall|u: Seq<char>| #[trigger]
                final(store).user_deposit_pools(u) == (if u == user@ {
                    with_added(old(store).user_deposit_pools(u), pool_id@)
                } else {
                    old(store).user_deposit_pools(u)
                }),
            final(store).deposits() == old(store).deposits(),
            final(store).borrows() == old(store).borrows(),
            forall|u: Seq<char>| #[trigger]
                final(store).user_borrow_pools(u) == old(store).user_borrow_pools(u),
            final(store).same_pools(*old(store)),
    {
        let mut list = Self::get_user_deposits(store, user);
        if !contains_name(&list, pool_id) {
            let ghost before = names(list@);
            list.push(pool_id.clone());
            proof {
                assert(names(list@) =~= before.push(pool_id@));
                lemma_push_fresh(before, pool_id@);
            }
            let ghost old_store = *store;
            store.user_deposits.set(user.clone(), list);
            proof {
                assert forall|u: Seq<char>| #[trigger]
                    store.user_deposit_pools(u) == (if u == user@ {
                        with_added(old_store.user_deposit_pools(u), pool_id@)
                    } else {
                        old_store.user_deposit_pools(u)
                    }) by {}
                assert forall|u: Seq<char>|
                    #[trigger] no_duplicates(stored_names(store.user_deposits.map(), u)) by {
                    assert(no_duplicates(stored_names(old_store.user_deposits.map(), u)));
                }
            }
        }
    }

    fn remove_from_user_deposits(store: &mut LendingStore, user: &String, pool_id: &String)
        requires
            old(store).wf(),
        ensures
            final(store).wf(),
            forall|u: Seq<char>| #[trigger]
                final(store).user_deposit_pools(u) == (if u == user@ {
                    without(old(store).user_deposit_pools(u), pool_id@)
                } else {
                    old(store).user_deposit_pools(u)
                }),
            final(store).deposits() == old(store).deposits(),
            final(store).borrows() == old(store).borrows(),
            forall|u: Seq<char>| #[trigger]
                final(store).user_borrow_pools(u) == old(store).user_borrow_pools(u),
            final(store).same_pools(*old(store)),
    {
        let list = Self::get_user_deposits(store, user);
        let new_list = without_name(&list, pool_id);
        let ghost old_store = *store;
        proof {
            assert(no_duplicates(stored_names(old_store.user_deposits.map(), user@)));
            lemma_without_no_duplicates(names(list@), pool_id@);
        }
        store.user_deposits.set(user.clone(), new_list);
        proof {
            assert forall|u: Seq<char>|
                #[trigger] no_duplicates(stored_names(store.user_deposits.map(), u)) by {
                assert(no_duplicates(stored_names(old_store.user_deposits.map(), u)));
            }
        }
    }

    /// Interest accrued by a deposit at its pool's current interest index.
    pub fn calculate_deposit_interest(store: &LendingStore, position: &DepositPosition) -> (interest: i128)
        requires
            store.wf(),
            deposit_interest_computable(store.interest_index(position.pool_id@) as int, *position),
        ensures
            interest == deposit_interest(store.interest_index(position.pool_id@) as int, *position),
    {
        let current_index = InterestStorage::get_interest_index(store, &position.pool_id);
        if position.index_at_deposit == 0 || current_index <= position.index_at_deposit {
            return 0;
        }
        let index_ratio = div_trunc(current_index * PRECISION, position.index_at_deposit);
        proof {
            lemma_tdiv_positive_divisor(position.amount * (index_ratio - PRECISION), PRECISION as int);
        }
        div_trunc(position.amount * (index_ratio - PRECISION), PRECISION)
    }

    /// Stores a borrow position and records the pool in the borrower's list.
    pub fn set_borrow(store: &mut LendingStore, position: &BorrowPosition)
        requires
            old(store).wf(),
        ensures
            final(store).wf(),
            final(store).borrows() == old(store).borrows().insert(
                (position.borrower@, position.pool_id@),
                *position,
            ),
            forall|u: Seq<char>| #[trigger]
                final(store).user_borrow_pools(u) == (if u == position.borrower@ {
                    with_added(old(store).user_borrow_pools(u), position.pool_id@)
                } else {
                    old(store).user_borrow_pools(u)
                }),
            final(store).deposits() == old(store).deposits(),
            forall|u: Seq<char>| #[trigger]
                final(store).user_deposit_pools(u) == old(store).user_deposit_pools(u),
            final(store).same_pools(*old(store)),
    {
        let key = (position.borrower.clone(), position.pool_id.clone());
        store.borrows.set(key, position.clone());
        Self::add_to_user_borrows(store, &position.borrower, &position.pool_id);
    }

    /// The borrow of a user from a pool, if any.
    pub fn get_borrow(store: &LendingStore, borrower: &String, pool_id: &String) -> (r: Option<BorrowPosition>)
        requires
            store.wf(),
        ensures
            r == (if store.borrows().contains_key((borrower@, pool_id@)) {
                Some(store.borrows()[(borrower@, pool_id@)])
            } else {
                None::<BorrowPosition>
            }),
    {
        match store.borrows.get(&(borrower.clone(), pool_id.clone())) {
            Some(p) => Some(p.clone()),
            None => None,
        }
    }

    /// Removes the borrow of a user from a pool and drops the pool from the user's list.
    pub fn remove_borrow(store: &mut LendingStore, borrower: &String, pool_id: &String)
        requires
            old(store).wf(),
        ensures
            final(store).wf(),
            final(store).borrows() == old(store).borrows().remove((borrower@, pool_id@)),
            forall|u: Seq<char>| #[trigger]
                final(store).user_borrow_pools(u) == (if u == borrower@ {
                    without(old(store).user_borrow_pools(u), pool_id@)
                } else {
                    old(store).user_borrow_pools(u)
                }),
            final(store).deposits() == old(store).deposits(),
            forall|u: Seq<char>| #[trigger]
                final(store).user_deposit_pools(u) == old(store).user_deposit_pools(u),
            final(store).same_pools(*old(store)),
    {
        store.borrows.remove(&(borrower.clone(), pool_id.clone()));
        Self::remove_from_user_borrows(store, borrower, pool_id);
    }

    /// The pools from which a user has borrowed.
    pub fn get_user_borrows(store: &LendingStore, user: &String) -> (r: Vec<String>)
        requires
            store.wf(),
        ensures
            names(r@) == store.user_borrow_pools(user@),
    {
        match store.user_borrows.get(user) {
            Some(list) => copy_names(list),
            None => {
                let v: Vec<String> = Vec::new();
                assert(names(v@) =~= Seq::<Seq<char>>::empty());
                v
            },
        }
    }

    fn add_to_user_borrows(store: &mut LendingStore, user: &String, pool_id: &String)
        requires
            old(store).wf(),
        ensures
            final(store).wf(),
            forall|u: Seq<char>| #[trigger]
                final(store).user_borrow_pools(u) == (if u == user@ {
                    with_added(old(store).user_borrow_pools(u), pool_id@)
                } else {
                    old(store).user_borrow_pools(u)
                }),
            final(store).deposits() == old(store).deposits(),
            final(store).borrows() == old(store).borrows(),
            forall|u: Seq<char>| #[trigger]
                final(store).user_deposit_pools(u) == old(store).user_deposit_pools(u),
            final(store).same_pools(*old(store)),
    {
        let mut list = Self::get_user_borrows(store, user);
        if !contains_name(&list, pool_id) {
            let ghost before = names(list@);
            list.push(pool_id.clone());
            proof {
                assert(names(list@) =~= before.push(pool_id@));
                lemma_push_fresh(before, pool_id@);
            }
            let ghost old_store = *store;
            store.user_borrows.set(user.clone(), list);
            proof {
                assert forall|u: Seq<char>| #[trigger]
                    store.user_borrow_pools(u) == (if u == user@ {
                        with_added(old_store.user_borrow_pools(u), pool_id@)
                    } else {
                        old_store.user_borrow_pools(u)
                    }) by {}
                assert forall|u: Seq<char>|
                    #[trigger] no_duplicates(stored_names(store.user_borrows.map(), u)) by {
                    assert(no_duplicates(stored_names(old_store.user_borrows.map(), u)));
                }
            }
        }
    }

    fn remove_from_user_borrows(store: &mut LendingStore, user: &String, pool_id: &String)
        requires
            old(store).wf(),
        ensures
            final(store).wf(),
            forall|u: Seq<char>| #[trigger]
                final(store).user_borrow_pools(u) == (if u == user@ {
                    without(old(store).user_borrow_pools(u), pool_id@)
                } else {
                    old(store).user_borrow_pools(u)
                }),
            final(store).deposits() == old(store).deposits(),
            final(store).borrows() == old(store).borrows(),
            forall|u: Seq<char>| #[trigger]
                final(store).user_deposit_pools(u) == old(store).user_deposit_pools(u),
            final(store).same_pools(*old(store)),
    {
        let list = Self::get_user_borrows(store, user);
        let new_list = without_name(&list, pool_id);
        let ghost old_store = *store;
        proof {
            assert(no_duplicates(stored_names(old_store.user_borrows.map(), user@)));
            lemma_without_no_duplicates(names(list@), pool_id@);
        }
        store.user_borrows.set(user.clone(), new_list);
        proof {
            assert forall|u: Seq<char>|
                #[trigger] no_duplicates(stored_names(store.user_borrows.map(), u)) by {
                assert(no_duplicates(stored_names(old_store.user_borrows.map(), u)));
            }
        }
    }

    /// Current debt of a borrow, interest included, at its pool's current index.
    pub fn calculate_current_debt(store: &LendingStore, position: &BorrowPosition) -> (debt: i128)
        requires
            store.wf(),
            current_debt_computable(store.interest_index(position.pool_id@) as int, *position),
        ensures
            debt == current_debt(store.interest_index(position.pool_id@) as int, *position),
    {
        let current_index = InterestStorage::get_interest_index(store, &position.pool_id);
        if position.index_at_borrow == 0 {
            return position.principal;
        }
        div_trunc(position.principal * current_index, position.index_at_borrow)
    }

    /// Health factor of a position from its collateral and debt values.
    pub fn calculate_health_factor(collateral_value: i128, debt_value: i128, liquidation_threshold: i128) -> (h: i128)
        requires
            health_factor_computable(collateral_value as int, debt_value as int, liquidation_threshold as int),
        ensures
            h == health_factor(collateral_value as int, debt_value as int, liquidation_threshold as int),
    {
        if debt_value == 0 {
            return i128::MAX;
        }
        div_trunc(collateral_value * liquidation_threshold, debt_value * PRECISION)
    }
}

/// While the pool index equals the index at borrow time, the debt is the principal.
pub proof fn lemma_debt_without_accrual(position: BorrowPosition)
    ensures
        current_debt(position.index_at_borrow as int, position) == position.principal,
{
    if position.index_at_borrow != 0 {
        lemma_tdiv_cancel(position.principal as int, position.index_at_borrow as int);
    }
}

/// A non-negative deposit made at a positive index never accrues negative interest.
pub proof fn lemma_deposit_interest_non_negative(current_index: int, position: DepositPosition)
    requires
        position.amount >= 0,
        position.index_at_deposit > 0,
    ensures
        deposit_interest(current_index, position) >= 0,
{
    if current_index > position.index_at_deposit {
        let p = PRECISION as int;
        let at = position.index_at_deposit as int;
        assert(current_index * p >= at * p) by (nonlinear_arith)
            requires
                current_index > at,
                p > 0,
        ;
        crate::math::lemma_tdiv_monotone(at * p, current_index * p, at);
        assert(at * p == p * at) by (nonlinear_arith);
        lemma_tdiv_cancel(p, at);
        let ratio = tdiv(current_index * p, at);
        assert(position.amount * (ratio - p) >= 0) by (nonlinear_arith)
            requires
                position.amount >= 0,
                ratio >= p,
        ;
        lemma_tdiv_positive_divisor(position.amount * (ratio - p), p);
    }
}

/// After a position is stored, its pool is listed for the user exactly once.
pub proof fn lemma_pool_listed_once(pools: Seq<Seq<char>>, pool_id: Seq<char>)
    requires
        no_duplicates(pools),
    ensures
        with_added(pools, pool_id).contains(pool_id),
        no_duplicates(with_added(pools, pool_id)),
{
    if !pools.contains(pool_id) {
        lemma_push_fresh(pools, pool_id);
        assert(pools.push(pool_id)[pools.len() as int] == pool_id);
    }
}

/// After a position is removed, its pool is no longer listed for the user,
/// and every other pool still is.
pub proof fn lemma_pool_unlisted(pools: Seq<Seq<char>>, pool_id: Seq<char>, other: Seq<char>)
    ensures
        !without(pools, pool_id).contains(pool_id),
        other != pool_id ==> without(pools, pool_id).contains(other) == pools.contains(other),
{
    lemma_without_contains(pools, pool_id, pool_id);
    lemma_without_contains(pools, pool_id, other);
}

/// The debt is the principal grown in proportion to the interest index: with
/// a positive index at borrow time, `debt * index_at_borrow` lies within one
/// `index_at_borrow` of `principal * current_index`, on the side of zero.
pub proof fn lemma_debt_proportional_to_index(current_index: int, position: BorrowPosition)
    requires
        position.index_at_borrow > 0,
    ensures
        ({
            let debt = current_debt(current_index, position);
            let grown = position.principal * current_index;
            let at = position.index_at_borrow as int;
            &&& grown >= 0 ==> debt * at <= grown < debt * at + at
            &&& grown <= 0 ==> debt * at - at < grown <= debt * at
        }),
{
    lemma_tdiv_bounds(position.principal * current_index, position.index_at_borrow as int);
}

/// Only the growth of the index since the borrow matters: scaling the current
/// index and the index at borrow time by the same positive factor leaves the
/// debt unchanged.
pub proof fn lemma_debt_depends_on_index_ratio(
    current_index: int,
    position: BorrowPosition,
    scaled: BorrowPosition,
    k: int,
)
    requires
        position.index_at_borrow > 0,
        k > 0,
        scaled.principal == position.principal,
        scaled.index_at_borrow == k * position.index_at_borrow,
    ensures
        current_debt(k * current_index, scaled) == current_debt(current_index, position),
{
    let x = position.principal * current_index;
    let at = position.index_at_borrow as int;
    assert(scaled.index_at_borrow != 0 && position.principal * (k * current_index) == k * x) by (nonlinear_arith)
        requires
            scaled.index_at_borrow == k * at,
            k > 0,
            at > 0,
            x == position.principal * current_index,
    ;
    lemma_tdiv_scale(x, at, k);
}

/// Deposit interest follows the growth ratio of the index: with a positive
/// index at deposit time, no interest while the index has not grown; once it
/// has, for the ratio `current / at_deposit` in fixed point (rounded toward
/// zero), the ratio is at least one and `interest * PRECISION` lies within
/// one `PRECISION` of `amount * (ratio - PRECISION)`, on the side of zero.
pub proof fn lemma_deposit_interest_from_index_ratio(current_index: int, position: DepositPosition, ratio: int)
    requires
        position.index_at_deposit > 0,
        ratio * position.index_at_deposit <= current_index * PRECISION < ratio * position.index_at_deposit
            + position.index_at_deposit,
    ensures
        current_index <= position.index_at_deposit ==> deposit_interest(current_index, position) == 0,
        current_index > position.index_at_deposit ==> ({
            let interest = deposit_interest(current_index, position);
            let earned = position.amount * (ratio - PRECISION);
            &&& ratio >= PRECISION
            &&& earned >= 0 ==> interest * PRECISION <= earned < interest * PRECISION + PRECISION
            &&& earned <= 0 ==> interest * PRECISION - PRECISION < earned <= interest * PRECISION
        }),
{
    let at = position.index_at_deposit as int;
    let p = PRECISION as int;
    if current_index > at {
        assert(current_index * p > at * p && current_index * p >= 0) by (nonlinear_arith)
            requires
                current_index > at,
                at > 0,
                p > 0,
        ;
        crate::math::lemma_tdiv_unique(current_index * p, at, ratio);
        assert(ratio >= p) by (nonlinear_arith)
            requires
                ratio * at + at > current_index * p,
                current_index * p > at * p,
                at > 0,
        ;
        lemma_tdiv_bounds(position.amount * (ratio - p), p);
    }
}

/// Only the growth of the index since the deposit matters: scaling the
/// current index and the index at deposit time by the same positive factor
/// leaves the interest unchanged.
pub proof fn lemma_deposit_interest_depends_on_index_ratio(
    current_index: int,
    position: DepositPosition,
    scaled: DepositPosition,
    k: int,
)
    requires
        position.index_at_deposit > 0,
        k > 0,
        scaled.amount == position.amount,
        scaled.index_at_deposit == k * position.index_at_deposit,
    ensures
        deposit_interest(k * current_index, scaled) == deposit_interest(current_index, position),
{
    let at = position.index_at_deposit as int;
    let p = PRECISION as int;
    assert(scaled.index_at_deposit != 0 && (k * current_index <= k * at <==> current_index <= at)
        && (k * current_index) * p == k * (current_index * p)) by (nonlinear_arith)
        requires
            scaled.index_at_deposit == k * at,
            k > 0,
            at > 0,
    ;
    lemma_tdiv_scale(current_index * p, at, k);
}

} // verus!
