//! Cash in several currencies, converted by way of the dollar.
//!
//! Every currency has two rates: one takes an amount of it to dollars, the
//! other takes dollars to an amount of it. Cash is converted from one
//! currency to another in two steps, first to dollars and then from them, and
//! cash in different currencies is added and subtracted in the currency of
//! the left operand.
//!
//! Amounts and rates are whole numbers of millionths. A product of the two is
//! rounded to the nearest millionth, ties to even, and an amount beyond the
//! range of `i64` is held at the end of the range, so every operation gives
//! an amount.
//!
//! - [`fixed`]: the arithmetic on millionths.
//! - [`currency`]: currencies, and the dollar, the baht and the bitcoin.
//! - [`cash`]: cash, its conversion, sum, difference and display.
//! - [`decimal`]: amounts written out in decimal.
//! - [`laws`]: what conversion, sum and difference keep, and within what
//!   bounds.

pub mod cash;
pub mod currency;
pub mod decimal;
pub mod fixed;
pub mod laws;
