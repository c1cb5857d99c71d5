//! Currencies and their exchange rates against the dollar.

use vstd::prelude::*;
use vstd::string::StringExecFns;
use crate::fixed::distance;

verus! {

/// A currency as plain values: its name and its two rates, in millionths.
pub struct CurrencyView {
    pub name: Seq<char>,
    pub rate_to_dollar: nat,
    pub rate_from_dollar: nat,
}

/// A currency: a name, the rate that turns an amount of it into dollars, and
/// the rate that turns dollars into it. Both rates are in millionths. The two
/// are set independently and need not be reciprocal.
#[derive(Debug, Clone, Copy)]
pub struct Currency {
    name: &'static str,
    rate_to_dollar: u64,
    rate_from_dollar: u64,
}

impl View for Currency {
    type V = CurrencyView;

    closed spec fn view(&self) -> CurrencyView {
        CurrencyView {
            name: self.name@,
            rate_to_dollar: self.rate_to_dollar as nat,
            rate_from_dollar: self.rate_from_dollar as nat,
        }
    }
}

/// Whether both rates of `c` are exactly one, as the dollar's own are.
pub open spec fn at_par(c: CurrencyView) -> bool {
    c.rate_to_dollar == 1_000_000 && c.rate_from_dollar == 1_000_000
}

/// How far the product of the two rates of `c` is from one, in millionths of
/// millionths: what a unit of `c` gains or loses on its way to dollars and
/// back.
pub open spec fn drift(c: CurrencyView) -> int {
    distance((c.rate_to_dollar * c.rate_from_dollar) as int, 1_000_000_000_000)
}

/// The dollar: 1 to the dollar, 1 from it.
pub open spec fn usd_view() -> CurrencyView {
    CurrencyView {
        name: seq!['U', 'S', 'D'],
        rate_to_dollar: 1_000_000,
        rate_from_dollar: 1_000_000,
    }
}

/// The baht: 0.031 to the dollar, 32.51 from it.
pub open spec fn thb_view() -> CurrencyView {
    CurrencyView {
        name: seq!['T', 'H', 'B'],
        rate_to_dollar: 31_000,
        rate_from_dollar: 32_510_000,
    }
}

/// The bitcoin: 19519 to the dollar, 0.000051 from it.
pub open spec fn btc_view() -> CurrencyView {
    CurrencyView {
        name: seq!['B', 'T', 'C'],
        rate_to_dollar: 19_519_000_000,
        rate_from_dollar: 51,
    }
}

/// The dollar.
pub fn usd() -> (c: Currency)
    ensures
        c@ == usd_view(),
{
    proof {
        reveal_strlit("USD");
        assert("USD"@ =~= seq!['U', 'S', 'D']);
    }
    Currency { name: "USD", rate_to_dollar: 1_000_000, rate_from_dollar: 1_000_000 }
}

/// The baht.
pub fn thb() -> (c: Currency)
    ensures
        c@ == thb_view(),
{
    proof {
        reveal_strlit("THB");
        assert("THB"@ =~= seq!['T', 'H', 'B']);
    }
    Currency { name: "THB", rate_to_dollar: 31_000, rate_from_dollar: 32_510_000 }
}

/// The bitcoin.
pub fn btc() -> (c: Currency)
    ensures
        c@ == btc_view(),
{
    proof {
        reveal_strlit("BTC");
        assert("BTC"@ =~= seq!['B', 'T', 'C']);
    }
    Currency { name: "BTC", rate_to_dollar: 19_519_000_000, rate_from_dollar: 51 }
}

impl Currency {
    /// The name under which the currency is displayed.
    pub fn name(&self) -> (s: &'static str)
        ensures
            s@ == self@.name,
    {
        self.name
    }

    /// The currency as it is displayed: its name.
    pub fn to_string(&self) -> (s: String)
        ensures
            s@ == self@.name,
    {
        String::from_str(self.name)
    }

    /// The rate that turns an amount of this currency into dollars.
    pub fn rate_to_dollar(&self) -> (r: u64)
        ensures
            r == self@.rate_to_dollar,
    {
        self.rate_to_dollar
    }

    /// The rate that turns dollars into an amount of this currency.
    pub fn rate_from_dollar(&self) -> (r: u64)
        ensures
            r == self@.rate_from_dollar,
    {
        self.rate_from_dollar
    }
}

} // verus!
