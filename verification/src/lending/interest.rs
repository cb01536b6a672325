//! Interest-rate model of the lending pools and the pool interest index.

use vstd::prelude::*;

use super::LendingStore;
use crate::math::{
    div_trunc, fits_i128, lemma_tdiv_cancel, lemma_tdiv_monotone, lemma_tdiv_positive_divisor, tdiv,
};

verus! {

/// Precision for fixed-point calculations (18 decimals).
pub const PRECISION: i128 = 1_000_000_000_000_000_000;

/// Seconds per year, for annual rates.
pub const SECONDS_PER_YEAR: u64 = 31_536_000;

/// Two-slope interest-rate model; all fields are fixed-point values in
/// `PRECISION` units.
#[derive(Copy, Clone, Debug, PartialEq, Eq, Structural)]
pub struct InterestRateModel {
    /// Rate at zero utilization.
    pub base_rate: i128,
    /// Rate increase up to the optimal utilization.
    pub slope1: i128,
    /// Rate increase from the optimal utilization to full utilization.
    pub slope2: i128,
    /// Utilization at which the second slope starts.
    pub optimal_utilization: i128,
}

/// The default model: base 2%, first slope 4%, second slope 75%, optimal 80%.
pub open spec fn default_model() -> InterestRateModel {
    InterestRateModel {
        base_rate: 20_000_000_000_000_000,
        slope1: 40_000_000_000_000_000,
        slope2: 750_000_000_000_000_000,
        optimal_utilization: 800_000_000_000_000_000,
    }
}

impl Default for InterestRateModel {
    fn default() -> (m: Self)
        ensures
            m == default_model(),
    {
        InterestRateModel {
            base_rate: 20_000_000_000_000_000,
            slope1: 40_000_000_000_000_000,
            slope2: 750_000_000_000_000_000,
            optimal_utilization: 800_000_000_000_000_000,
        }
    }
}

/// The borrow rate at a utilization: below the optimum
/// `base + utilization * slope1 / optimal`, above it
/// `base + slope1 + (utilization - optimal) * slope2 / (PRECISION - optimal)`.
pub open spec fn borrow_rate(m: InterestRateModel, utilization: int) -> int {
    if utilization <= m.optimal_utilization {
        m.base_rate + tdiv(utilization * m.slope1, m.optimal_utilization as int)
    } else {
        m.base_rate + m.slope1 + tdiv(
            (utilization - m.optimal_utilization) * m.slope2,
            PRECISION - m.optimal_utilization,
        )
    }
}

/// Every step of the borrow-rate computation divides by a non-zero value
/// and fits in an `i128`.
pub open spec fn borrow_rate_computable(m: InterestRateModel, utilization: int) -> bool {
    if utilization <= m.optimal_utilization {
        &&& m.optimal_utilization != 0
        &&& fits_i128(utilization * m.slope1)
        &&& fits_i128(tdiv(utilization * m.slope1, m.optimal_utilization as int))
        &&& fits_i128(borrow_rate(m, utilization))
    } else {
        &&& fits_i128(m.base_rate + m.slope1)
        &&& fits_i128(utilization - m.optimal_utilization)
        &&& fits_i128((utilization - m.optimal_utilization) * m.slope2)
        &&& PRECISION - m.optimal_utilization != 0
        &&& fits_i128(PRECISION - m.optimal_utilization)
        &&& fits_i128(
            tdiv(
                (utilization - m.optimal_utilization) * m.slope2,
                PRECISION - m.optimal_utilization,
            ),
        )
        &&& fits_i128(borrow_rate(m, utilization))
    }
}

/// The supply rate: `borrow_rate * utilization * (1 - reserve_factor)`,
/// each product scaled back by `PRECISION` with rounding toward zero.
pub open spec fn supply_rate(borrow_rate: int, utilization: int, reserve_factor: int) -> int {
    tdiv(tdiv(borrow_rate * utilization, PRECISION as int) * (PRECISION - reserve_factor), PRECISION as int)
}

/// Every product of the supply-rate computation fits in an `i128`.
pub open spec fn supply_rate_computable(borrow_rate: int, utilization: int, reserve_factor: int) -> bool {
    &&& fits_i128(borrow_rate * utilization)
    &&& fits_i128(PRECISION - reserve_factor)
    &&& fits_i128(tdiv(borrow_rate * utilization, PRECISION as int) * (PRECISION - reserve_factor))
}

impl InterestRateModel {
    /// Borrow rate for a utilization (both in `PRECISION` units).
    pub fn calculate_borrow_rate(&self, utilization: i128) -> (rate: i128)
        requires
            borrow_rate_computable(*self, utilization as int),
        ensures
            rate == borrow_rate(*self, utilization as int),
    {
        if utilization <= self.optimal_utilization {
            let scaled = div_trunc(utilization * self.slope1, self.optimal_utilization);
            self.base_rate + scaled
        } else {
            let rate_at_optimal = self.base_rate + self.slope1;
            let excess_utilization = utilization - self.optimal_utilization;
            let remaining = PRECISION - self.optimal_utilization;
            rate_at_optimal + div_trunc(excess_utilization * self.slope2, remaining)
        }
    }

    /// Supply rate earned by depositors for a borrow rate, a utilization and
    /// a reserve factor (all in `PRECISION` units).
    pub fn calculate_supply_rate(&self, borrow_rate: i128, utilization: i128, reserve_factor: i128) -> (rate: i128)
        requires
            supply_rate_computable(borrow_rate as int, utilization as int, reserve_factor as int),
        ensures
            rate == supply_rate(borrow_rate as int, utilization as int, reserve_factor as int),
    {
        proof {
            lemma_tdiv_positive_divisor(borrow_rate * utilization, PRECISION as int);
        }
        let effective_rate = div_trunc(borrow_rate * utilization, PRECISION);
        proof {
            lemma_tdiv_positive_divisor(effective_rate * (PRECISION - reserve_factor), PRECISION as int);
        }
        div_trunc(effective_rate * (PRECISION - reserve_factor), PRECISION)
    }
}

/// The interest index after `time_elapsed` seconds at an annual
/// `borrow_rate`: `index * (PRECISION + rate_per_second * time) / PRECISION`,
/// where `rate_per_second = borrow_rate / SECONDS_PER_YEAR`; unchanged when
/// no time has passed.
pub open spec fn next_index(current_index: int, borrow_rate: int, time_elapsed: int) -> int {
    if time_elapsed == 0 {
        current_index
    } else {
        tdiv(
            current_index * (PRECISION + tdiv(borrow_rate, SECONDS_PER_YEAR as int) * time_elapsed),
            PRECISION as int,
        )
    }
}

/// Every product of the index computation fits in an `i128`.
pub open spec fn next_index_computable(current_index: int, borrow_rate: int, time_elapsed: int) -> bool {
    time_elapsed != 0 ==> {
        let rate_per_second = tdiv(borrow_rate, SECONDS_PER_YEAR as int);
        &&& fits_i128(rate_per_second * time_elapsed)
        &&& fits_i128(PRECISION + rate_per_second * time_elapsed)
        &&& fits_i128(current_index * (PRECISION + rate_per_second * time_elapsed))
    }
}

/// Storage helpers for interest-rate models, interest indexes and accrual times.
pub struct InterestStorage;

impl InterestStorage {
    /// Stores the interest-rate model of a pool.
    pub fn set_model(store: &mut LendingStore, pool_id: &String, model: &InterestRateModel)
        requires
            old(store).wf(),
        ensures
            final(store).wf(),
            final(store).models() == old(store).models().insert(pool_id@, *model),
            final(store).unchanged_except_models(*old(store)),
    {
        store.models.set(pool_id.clone(), *model);
    }

    /// The interest-rate model of a pool; the default model when none was stored.
    pub fn get_model(store: &LendingStore, pool_id: &String) -> (m: InterestRateModel)
        requires
            store.wf(),
        ensures
            m == (if store.models().contains_key(pool_id@) {
                store.models()[pool_id@]
            } else {
                default_model()
            }),
    {
        match store.models.get(pool_id) {
            Some(m) => *m,
            None => InterestRateModel::default(),
        }
    }

    /// The accumulated interest index of a pool; `PRECISION` when none was stored.
    pub fn get_interest_index(store: &LendingStore, pool_id: &String) -> (index: i128)
        requires
            store.wf(),
        ensures
            index == store.interest_index(pool_id@),
    {
        match store.indexes.get(pool_id) {
            Some(i) => *i,
            None => PRECISION,
        }
    }

    /// Stores the accumulated interest index of a pool.
    pub fn set_interest_index(store: &mut LendingStore, pool_id: &String, index: i128)
        requires
            old(store).wf(),
        ensures
            final(store).wf(),
            final(store).indexes() == old(store).indexes().insert(pool_id@, index),
            final(store).unchanged_except_indexes(*old(store)),
    {
        store.indexes.set(pool_id.clone(), index);
    }

    /// Time of the last interest accrual of a pool; zero when none was stored.
    pub fn get_last_accrual(store: &LendingStore, pool_id: &String) -> (t: u64)
        requires
            store.wf(),
        ensures
            t == (if store.last_accruals().contains_key(pool_id@) {
                store.last_accruals()[pool_id@]
            } else {
                0
            }),
    {
        match store.last_accruals.get(pool_id) {
            Some(t) => *t,
            None => 0,
        }
    }

    /// Stores the time of the last interest accrual of a pool.
    pub fn set_last_accrual(store: &mut LendingStore, pool_id: &String, timestamp: u64)
        requires
            old(store).wf(),
        ensures
            final(store).wf(),
            final(store).last_accruals() == old(store).last_accruals().insert(pool_id@, timestamp),
            final(store).unchanged_except_last_accruals(*old(store)),
    {
        store.last_accruals.set(pool_id.clone(), timestamp);
    }

    /// New interest index after `time_elapsed` seconds at `borrow_rate`.
    pub fn calculate_new_index(current_index: i128, borrow_rate: i128, time_elapsed: u64) -> (index: i128)
        requires
            next_index_computable(current_index as int, borrow_rate as int, time_elapsed as int),
        ensures
            index == next_index(current_index as int, borrow_rate as int, time_elapsed as int),
    {
        if time_elapsed == 0 {
            return current_index;
        }
        proof {
            lemma_tdiv_positive_divisor(borrow_rate as int, SECONDS_PER_YEAR as int);
        }
        let rate_per_second = div_trunc(borrow_rate, SECONDS_PER_YEAR as i128);
        let interest_factor = PRECISION + rate_per_second * (time_elapsed as i128);
        proof {
            lemma_tdiv_positive_divisor(current_index * interest_factor, PRECISION as int);
        }
        div_trunc(current_index * interest_factor, PRECISION)
    }
}

/// The two slopes meet at the optimal utilization: the rate there is
/// `base_rate + slope1`.
pub proof fn lemma_borrow_rate_at_optimal(m: InterestRateModel)
    requires
        m.optimal_utilization != 0,
    ensures
        borrow_rate(m, m.optimal_utilization as int) == m.base_rate + m.slope1,
{
    assert(m.optimal_utilization * m.slope1 == m.slope1 * m.optimal_utilization) by (nonlinear_arith);
    lemma_tdiv_cancel(m.slope1 as int, m.optimal_utilization as int);
}

/// With non-negative slopes and an optimal utilization strictly between 0
/// and 100%, the borrow rate never decreases as utilization grows.
pub proof fn lemma_borrow_rate_monotone(m: InterestRateModel, u1: int, u2: int)
    requires
        m.slope1 >= 0,
        m.slope2 >= 0,
        0 < m.optimal_utilization < PRECISION,
        u1 <= u2,
    ensures
        borrow_rate(m, u1) <= borrow_rate(m, u2),
{
    let opt = m.optimal_utilization as int;
    let rest = PRECISION - opt;
    if u2 <= opt {
        assert(u1 * m.slope1 <= u2 * m.slope1) by (nonlinear_arith)
            requires
                u1 <= u2,
                m.slope1 >= 0,
        ;
        lemma_tdiv_monotone(u1 * m.slope1, u2 * m.slope1, opt);
    } else if u1 > opt {
        assert((u1 - opt) * m.slope2 <= (u2 - opt) * m.slope2) by (nonlinear_arith)
            requires
                u1 <= u2,
                m.slope2 >= 0,
        ;
        lemma_tdiv_monotone((u1 - opt) * m.slope2, (u2 - opt) * m.slope2, rest);
    } else {
        assert(u1 * m.slope1 <= opt * m.slope1) by (nonlinear_arith)
            requires
                u1 <= opt,
                m.slope1 >= 0,
        ;
        lemma_tdiv_monotone(u1 * m.slope1, opt * m.slope1, opt);
        lemma_borrow_rate_at_optimal(m);
        assert((u2 - opt) * m.slope2 >= 0) by (nonlinear_arith)
            requires
                u2 > opt,
                m.slope2 >= 0,
        ;
        lemma_tdiv_positive_divisor((u2 - opt) * m.slope2, rest);
    }
}

/// Depositors never earn more than borrowers pay: with a non-negative
/// borrow rate, a utilization and a reserve factor between 0 and 100%, the
/// supply rate lies between zero and the borrow rate.
pub proof fn lemma_supply_rate_bounded(borrow_rate: int, utilization: int, reserve_factor: int)
    requires
        borrow_rate >= 0,
        0 <= utilization <= PRECISION,
        0 <= reserve_factor <= PRECISION,
    ensures
        0 <= supply_rate(borrow_rate, utilization, reserve_factor) <= borrow_rate,
{
    let p = PRECISION as int;
    assert(0 <= borrow_rate * utilization <= borrow_rate * p) by (nonlinear_arith)
        requires
            borrow_rate >= 0,
            0 <= utilization <= p,
    ;
    lemma_tdiv_monotone(borrow_rate * utilization, borrow_rate * p, p);
    lemma_tdiv_cancel(borrow_rate, p);
    lemma_tdiv_positive_divisor(borrow_rate * utilization, p);
    let e = tdiv(borrow_rate * utilization, p);
    assert(0 <= e * (p - reserve_factor) <= e * p) by (nonlinear_arith)
        requires
            e >= 0,
            0 <= reserve_factor <= p,
    ;
    lemma_tdiv_monotone(e * (p - reserve_factor), e * p, p);
    lemma_tdiv_cancel(e, p);
    lemma_tdiv_positive_divisor(e * (p - reserve_factor), p);
}

/// The interest index never decreases when the index and the borrow rate
/// are non-negative.
pub proof fn lemma_index_non_decreasing(current_index: int, borrow_rate: int, time_elapsed: int)
    requires
        current_index >= 0,
        borrow_rate >= 0,
        time_elapsed >= 0,
    ensures
        next_index(current_index, borrow_rate, time_elapsed) >= current_index,
{
    if time_elapsed != 0 {
        let p = PRECISION as int;
        lemma_tdiv_positive_divisor(borrow_rate, SECONDS_PER_YEAR as int);
        let rps = tdiv(borrow_rate, SECONDS_PER_YEAR as int);
        assert(rps * time_elapsed >= 0) by (nonlinear_arith)
            requires
                rps >= 0,
                time_elapsed >= 0,
        ;
        assert(current_index * p <= current_index * (p + rps * time_elapsed)) by (nonlinear_arith)
            requires
                current_index >= 0,
                rps * time_elapsed >= 0,
        ;
        lemma_tdiv_monotone(current_index * p, current_index * (p + rps * time_elapsed), p);
        lemma_tdiv_cancel(current_index, p);
    }
}

} // verus!
