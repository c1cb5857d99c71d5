//! An amount of money in a currency, with conversion, addition and
//! subtraction.

use vstd::prelude::*;
use vstd::string::StringExecFns;
use crate::currency::{Currency, CurrencyView};
use crate::decimal::{decimal, render};
use crate::fixed::{
    fits, nearest, saturate, saturating_difference, saturating_sum, scale, scaled,
};

verus! {

/// Cash as plain values: an amount in millionths and the currency it is in.
pub struct CashView {
    pub amount: int,
    pub currency: CurrencyView,
}

/// An amount of money, in millionths of a unit of its currency.
#[derive(Debug)]
pub struct Cash {
    currency: Currency,
    amount: i64,
}

impl View for Cash {
    type V = CashView;

    closed spec fn view(&self) -> CashView {
        CashView { amount: self.amount as int, currency: self.currency@ }
    }
}

/// `m` in dollars: its amount times its currency's rate to the dollar.
pub open spec fn in_dollars(m: CashView) -> int {
    scaled(m.amount, m.currency.rate_to_dollar as int)
}

/// `m` in the currency `target`: the amount goes to dollars by the rate of
/// its own currency and from dollars by the rate of `target`, also where the
/// two currencies are the same.
pub open spec fn converted(m: CashView, target: CurrencyView) -> CashView {
    CashView { amount: scaled(in_dollars(m), target.rate_from_dollar as int), currency: target }
}

/// Whether `m` in dollars is within the range of amounts, so that it is held
/// as it is and not as the end of the range.
pub open spec fn dollars_in_range(m: CashView) -> bool {
    fits(nearest(m.amount * m.currency.rate_to_dollar))
}

/// Whether `m` in the currency `target` is within the range of amounts.
pub open spec fn in_range_as(m: CashView, target: CurrencyView) -> bool {
    fits(nearest(in_dollars(m) * target.rate_from_dollar))
}

/// `a` and `b` together, in the currency of `a`.
pub open spec fn sum(a: CashView, b: CashView) -> CashView {
    CashView {
        amount: saturate(a.amount + converted(b, a.currency).amount),
        currency: a.currency,
    }
}

/// Whether every step of adding `b` to `a` is within the range of amounts:
/// `b` in dollars, `b` in the currency of `a`, the sum, and the sum in
/// dollars.
pub open spec fn sum_in_range(a: CashView, b: CashView) -> bool {
    &&& dollars_in_range(b)
    &&& in_range_as(b, a.currency)
    &&& fits(a.amount + converted(b, a.currency).amount)
    &&& dollars_in_range(sum(a, b))
}

/// `a` less `b`, in the currency of `a`.
pub open spec fn difference(a: CashView, b: CashView) -> CashView {
    CashView {
        amount: saturate(a.amount - converted(b, a.currency).amount),
        currency: a.currency,
    }
}

/// `m` as it is displayed: the amount in decimal, a space, and the name of
/// the currency.
pub open spec fn displayed(m: CashView) -> Seq<char> {
    decimal(m.amount) + seq![' '] + m.currency.name
}

impl Cash {
    /// The amount of any cash is within the range of `i64`.
    pub proof fn lemma_amount_fits(self)
        ensures
            fits(self@.amount),
    {
    }

    /// Cash of `amount` millionths in `currency`.
    pub fn new(amount: i64, currency: Currency) -> (c: Cash)
        ensures
            c@ == (CashView { amount: amount as int, currency: currency@ }),
    {
        Cash { amount, currency }
    }

    /// The amount, in millionths.
    pub fn amount(&self) -> (a: i64)
        ensures
            a == self@.amount,
    {
        self.amount
    }

    /// The currency the amount is in.
    pub fn currency(&self) -> (c: Currency)
        ensures
            c@ == self@.currency,
    {
        self.currency
    }

    /// The cash as it is displayed: the amount in decimal, a space, and the
    /// name of the currency.
    pub fn to_string(&self) -> (s: String)
        ensures
            s@ == displayed(self@),
    {
        let mut out = render(self.amount);
        proof {
            reveal_strlit(" ");
        }
        out.append(" ");
        out.append(self.currency.name());
        assert(out@ =~= displayed(self@));
        out
    }

    /// The same cash in `currency`, by way of the dollar: the amount times
    /// the rate of its own currency to the dollar, times the rate of
    /// `currency` from the dollar. Conversion to the currency that the cash is
    /// in already goes the same way, so it is exact only where the two rates
    /// cancel.
    pub fn convert(&self, currency: Currency) -> (r: Cash)
        ensures
            r@ == converted(self@, currency@),
    {
        let amount_in_dollar: i64 = scale(self.amount, self.currency.rate_to_dollar());
        let amount_in_currency: i64 = scale(amount_in_dollar, currency.rate_from_dollar());
        Cash::new(amount_in_currency, currency)
    }
}

impl core::ops::Add for Cash {
    type Output = Cash;

    /// Adds `rhs`, converted to the currency of `self`.
    fn add(self, rhs: Cash) -> (r: Cash)
        ensures
            r@ == sum(self@, rhs@),
    {
        Cash {
            currency: self.currency,
            amount: saturating_sum(self.amount, rhs.convert(self.currency).amount),
        }
    }
}

impl vstd::std_specs::ops::AddSpecImpl for Cash {
    open spec fn obeys_add_spec() -> bool {
        true
    }

    open spec fn add_req(self, rhs: Cash) -> bool {
        true
    }

    closed spec fn add_spec(self, rhs: Cash) -> Cash {
        Cash { currency: self.currency, amount: sum(self@, rhs@).amount as i64 }
    }
}

impl core::ops::Sub for Cash {
    type Output = Cash;

    /// Subtracts `rhs`, converted to the currency of `self`.
    fn sub(self, rhs: Cash) -> (r: Cash)
        ensures
            r@ == difference(self@, rhs@),
    {
        Cash {
            currency: self.currency,
            amount: saturating_difference(self.amount, rhs.convert(self.currency).amount),
        }
    }
}

impl vstd::std_specs::ops::SubSpecImpl for Cash {
    open spec fn obeys_sub_spec() -> bool {
        true
    }

    open spec fn sub_req(self, rhs: Cash) -> bool {
        true
    }

    closed spec fn sub_spec(self, rhs: Cash) -> Cash {
        Cash { currency: self.currency, amount: difference(self@, rhs@).amount as i64 }
    }
}

} // verus!
