//! Value-investing analysis over a store of yearly and daily company
//! financials: offset arithmetic on the store, derivation of valuation
//! metrics, an investability filter over configurable bounds, and a forward
//! scan of share prices that classifies how each selected position ended.
//!
//! Table cells are IEEE 754 binary32 numbers, held as their bit patterns (see
//! [`scalar`]). Comparisons and the missing-value test are decided on the bit
//! patterns; the four arithmetic operations are supplied by the caller.
//!
//! The data flows one way: [`companies`] and [`fetching`] describe what a
//! loader hands over, [`financials`] lays it out on unified offsets,
//! [`metrics`] derives the valuation ratios, filters the companies and
//! follows the chosen ones to the sell date.

pub mod companies;
pub mod date;
pub mod fetching;
pub mod fields;
pub mod financials;
pub mod metrics;
pub mod scalar;
pub mod table;
pub mod util;
