//! Verified core of the Akkuea contracts: lending arithmetic, rental-income
//! distribution, quadratic voting and the supporting validation rules.

pub mod distribution;
pub mod greeter;
pub mod lending;
pub mod lists;
pub mod math;
pub mod milestone;
pub mod property;
pub mod store;
