//! Asset prices from a SEP-40 price feed, normalised to 18 decimals.

use vstd::prelude::*;

use super::LendingStore;
use crate::math::{div_trunc, fits_i128, lemma_tdiv_positive_divisor, tdiv};

verus! {

/// A price as reported by the feed, with the time it was recorded.
#[derive(Copy, Clone, Debug, PartialEq, Eq, Structural)]
pub struct PriceData {
    pub price: i128,
    pub timestamp: u64,
}

/// Why a price could not be given.
#[derive(Copy, Clone, Debug, PartialEq, Eq, Structural)]
pub enum OracleError {
    OracleNotConfigured,
    PriceUnavailable,
    StalePrice,
    ScalingOverflow,
}

/// Oldest acceptable price, in seconds.
pub const MAX_PRICE_AGE: u64 = 3600;

/// Decimals of the normalised price.
pub const TARGET_DECIMALS: u32 = 18;

/// `10` to the power `k`.
pub open spec fn pow10(k: nat) -> int
    decreases k,
{
    if k == 0 {
        1
    } else {
        10 * pow10((k - 1) as nat)
    }
}

proof fn lemma_pow10_monotone(j: nat, k: nat)
    requires
        j <= k,
    ensures
        1 <= pow10(j) <= pow10(k),
    decreases k,
{
    if k > j {
        lemma_pow10_monotone(j, (k - 1) as nat);
    } else if k > 0 {
        lemma_pow10_monotone(0, (k - 1) as nat);
    }
}

proof fn lemma_pow10_fits(k: nat)
    requires
        k <= 38,
    ensures
        1 <= pow10(k) <= i128::MAX,
{
    lemma_pow10_monotone(k, 38);
    reveal_with_fuel(pow10, 39);
    assert(pow10(38) == 100_000_000_000_000_000_000_000_000_000_000_000_000int);
}

/// Whether a price recorded at `timestamp` is too old at `current_time`.
pub open spec fn is_stale(timestamp: u64, current_time: u64) -> bool {
    current_time > timestamp && current_time - timestamp > MAX_PRICE_AGE
}

/// A feed price rescaled from `decimals` to 18 decimals: multiplied by a
/// power of ten when the feed has fewer decimals (refused on overflow),
/// divided (toward zero) when it has more.
pub open spec fn scaled_price(price: i128, decimals: u32) -> Result<i128, OracleError> {
    if decimals <= TARGET_DECIMALS {
        let p = price * pow10((TARGET_DECIMALS - decimals) as nat);
        if fits_i128(p) {
            Ok(p as i128)
        } else {
            Err(OracleError::ScalingOverflow)
        }
    } else {
        Ok(tdiv(price as int, pow10((decimals - TARGET_DECIMALS) as nat)) as i128)
    }
}

/// The answer to a price request: the feed must have a price, the price
/// must be at most an hour old, and it is then rescaled to 18 decimals.
pub open spec fn price_outcome(price_data: Option<PriceData>, current_time: u64, decimals: u32) -> Result<i128, OracleError> {
    match price_data {
        None => Err(OracleError::PriceUnavailable),
        Some(d) => if is_stale(d.timestamp, current_time) {
            Err(OracleError::StalePrice)
        } else {
            scaled_price(d.price, decimals)
        },
    }
}

fn power_of_ten(k: u32) -> (p: i128)
    requires
        k <= 38,
    ensures
        p == pow10(k as nat),
{
    let mut p: i128 = 1;
    let mut i: u32 = 0;
    while i < k
        invariant
            i <= k <= 38,
            p == pow10(i as nat),
        decreases k - i,
    {
        proof {
            lemma_pow10_fits((i + 1) as nat);
        }
        p = p * 10;
        i = i + 1;
    }
    p
}

/// Price-feed helpers.
pub struct PriceOracle;

impl PriceOracle {
    /// Stores the address of the price-feed contract.
    pub fn set_oracle_address(store: &mut LendingStore, oracle_address: &String)
        requires
            old(store).wf(),
        ensures
            final(store).wf(),
            final(store).oracle() == Some(oracle_address@),
            final(store).models() == old(store).models(),
            final(store).indexes() == old(store).indexes(),
            final(store).last_accruals() == old(store).last_accruals(),
            final(store).same_positions(*old(store)),
    {
        store.oracle_address = Some(oracle_address.clone());
    }

    /// The address of the price-feed contract; refused when none was configured.
    pub fn get_oracle_address(store: &LendingStore) -> (r: Result<String, OracleError>)
        ensures
            store.oracle() is None ==> r == Err::<String, OracleError>(
                OracleError::OracleNotConfigured,
            ),
            store.oracle() matches Some(a) ==> (r matches Ok(s) && s@ == a),
    {
        match &store.oracle_address {
            Some(a) => Ok(a.clone()),
            None => Err(OracleError::OracleNotConfigured),
        }
    }

    /// The price of an asset in 18 decimals, from the feed's last price
    /// (`None` when the feed has none), the current ledger time and the
    /// feed's number of decimals.
    pub fn get_price(price_data: Option<PriceData>, current_time: u64, oracle_decimals: u32) -> (r: Result<i128, OracleError>)
        requires
            oracle_decimals <= TARGET_DECIMALS + 38,
        ensures
            r == price_outcome(price_data, current_time, oracle_decimals),
    {
        let data = match price_data {
            Some(d) => d,
            None => return Err(OracleError::PriceUnavailable),
        };
        if current_time > data.timestamp && (current_time - data.timestamp) > MAX_PRICE_AGE {
            return Err(OracleError::StalePrice);
        }
        if oracle_decimals <= TARGET_DECIMALS {
            let scale_factor = power_of_ten(TARGET_DECIMALS - oracle_decimals);
            match data.price.checked_mul(scale_factor) {
                Some(p) => Ok(p),
                None => Err(OracleError::ScalingOverflow),
            }
        } else {
            let scale_factor = power_of_ten(oracle_decimals - TARGET_DECIMALS);
            proof {
                lemma_pow10_fits((oracle_decimals - TARGET_DECIMALS) as nat);
                lemma_tdiv_positive_divisor(data.price as int, scale_factor as int);
            }
            Ok(div_trunc(data.price, scale_factor))
        }
    }
}

/// A fresh price that already has 18 decimals is returned as it is.
pub proof fn lemma_target_decimals_unscaled(data: PriceData, current_time: u64)
    requires
        !is_stale(data.timestamp, current_time),
    ensures
        price_outcome(Some(data), current_time, TARGET_DECIMALS) == Ok::<i128, OracleError>(data.price),
{
    assert(pow10(0) == 1);
}

} // verus!
