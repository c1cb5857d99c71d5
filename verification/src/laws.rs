//! What holds of conversion, addition and subtraction, whatever the cash and
//! the currencies.
//!
//! A currency's two rates are set independently, so an amount taken to
//! dollars and back is not the amount it was: it is off by the drift of the
//! two rates, which is the distance of their product from one, and by the
//! rounding of each step. Only a currency at par with the dollar gives the
//! amount back exactly.
//!
//! The bounds are stated without division. Where an amount in millionths
//! stands against a product of two rates, the amount is multiplied by a
//! million million, and by two where half a millionth of rounding counts.

use vstd::prelude::*;
use crate::cash::{
    converted, difference, dollars_in_range, in_dollars, in_range_as, sum, sum_in_range, Cash,
    CashView,
};
use crate::currency::{at_par, btc_view, drift, thb_view, usd_view, Currency, CurrencyView};
use crate::fixed::{
    distance, lemma_nearest_is_near, lemma_round_trip, lemma_saturate_nearer,
    lemma_scaled_by_one, lemma_scaled_close, lemma_scaled_twice, magnitude, nearest, scaled,
};

verus! {

/// What an amount in the currency `c` may gain or lose on its way to dollars
/// and back, in halves of a millionth of a millionth: the drift of `c` on
/// the amount, half a millionth of rounding in dollars taken at the rate from
/// the dollar, and half a millionth of rounding at the end.
pub open spec fn round_trip_allowance(amount: int, c: CurrencyView) -> int {
    2 * (magnitude(amount) * drift(c)) + 1_000_000 * c.rate_from_dollar + 1_000_000_000_000
}

/// What an amount of dollars may gain or lose on its way to the currency `c`
/// and back, in halves of a millionth of a millionth: the drift of `c` on
/// the dollars, half a millionth of rounding in `c` taken at the rate to the
/// dollar, and half a millionth of rounding at the end.
pub open spec fn detour_allowance(dollars: int, c: CurrencyView) -> int {
    2 * (magnitude(dollars) * drift(c)) + 1_000_000 * c.rate_to_dollar + 1_000_000_000_000
}

/// Rounding to the nearest millionth gives the nearest: no whole number of
/// millionths lies closer to the value that was rounded. Where two lie
/// equally close, it gives the even one.
pub proof fn law_rounding_is_nearest(n: int, k: int)
    ensures
        distance(1_000_000 * nearest(n), n) <= distance(1_000_000 * k, n),
        2 * distance(1_000_000 * nearest(n), n) == 1_000_000 ==> nearest(n) % 2 == 0,
{
}

/// Converted cash is in the target currency, and its amount is the amount
/// that was, times the rate of its currency to the dollar, times the rate of
/// the target from the dollar, give or take the rounding of each of the two
/// steps. The amount must fit both in dollars and in the target.
pub proof fn law_convert_is_near_the_product(m: Cash, target: Currency)
    requires
        dollars_in_range(m@),
        in_range_as(m@, target@),
    ensures
        converted(m@, target@).currency == target@,
        2 * distance(
            1_000_000_000_000 * converted(m@, target@).amount,
            m@.amount * m@.currency.rate_to_dollar * target@.rate_from_dollar,
        ) <= 1_000_000 * target@.rate_from_dollar + 1_000_000_000_000,
{
    lemma_scaled_twice(
        m@.amount,
        m@.currency.rate_to_dollar as int,
        target@.rate_from_dollar as int,
    );
}

/// Cash converted to the currency it is in already stays in that currency,
/// and its amount comes back as it was, give or take the drift of the
/// currency on the amount and the two roundings on the way. The amount in
/// dollars must fit: one that saturates does not come back.
pub proof fn law_convert_to_own_currency(m: Cash)
    requires
        dollars_in_range(m@),
    ensures
        converted(m@, m@.currency).currency == m@.currency,
        2_000_000_000_000 * distance(converted(m@, m@.currency).amount, m@.amount)
            <= round_trip_allowance(m@.amount, m@.currency),
{
    m.lemma_amount_fits();
    lemma_round_trip(
        m@.amount,
        m@.currency.rate_to_dollar as int,
        m@.currency.rate_from_dollar as int,
    );
}

/// Cash in a currency at par with the dollar, converted to that currency, is
/// the same cash.
pub proof fn law_convert_to_own_currency_at_par(m: Cash)
    requires
        at_par(m@.currency),
    ensures
        converted(m@, m@.currency) == m@,
{
    m.lemma_amount_fits();
    lemma_scaled_by_one(m@.amount);
}

/// In dollars, baht and bitcoin alike, cash converted to its own currency
/// comes back within one part in a hundred, and seventeen millionths, of its
/// amount, as long as the amount in dollars fits.
pub proof fn law_convert_to_own_currency_preset(m: Cash)
    requires
        m@.currency == usd_view() || m@.currency == thb_view() || m@.currency == btc_view(),
        dollars_in_range(m@),
    ensures
        100 * distance(converted(m@, m@.currency).amount, m@.amount) <= magnitude(m@.amount)
            + 1_700,
{
    law_convert_to_own_currency(m);
    assert(31_000int * 32_510_000int == 1_007_810_000_000int);
    assert(19_519_000_000int * 51int == 995_469_000_000int);
}

/// Cash less an equal cash is in the same currency, and its amount is
/// nothing, give or take the drift of the currency on the amount and the two
/// roundings of the conversion, as long as the amount in dollars fits.
pub proof fn law_subtract_from_itself(m: Cash, n: Cash)
    requires
        n@ == m@,
        dollars_in_range(m@),
    ensures
        difference(m@, n@).currency == m@.currency,
        2_000_000_000_000 * magnitude(difference(m@, n@).amount) <= round_trip_allowance(
            m@.amount,
            m@.currency,
        ),
{
    law_convert_to_own_currency(m);
    lemma_saturate_nearer(m@.amount - converted(n@, m@.currency).amount, 0);
}

/// Cash in a currency at par with the dollar, less an equal cash, is nothing
/// in that currency.
pub proof fn law_subtract_from_itself_at_par(m: Cash, n: Cash)
    requires
        n@ == m@,
        at_par(m@.currency),
    ensures
        difference(m@, n@).currency == m@.currency,
        difference(m@, n@).amount == 0,
{
    law_convert_to_own_currency_at_par(m);
}

/// Converting by way of a currency at par with the dollar gives what
/// converting directly gives.
pub proof fn law_convert_by_way_of_par(m: Cash, x: Currency, y: Currency)
    requires
        at_par(x@),
    ensures
        converted(converted(m@, x@), y@) == converted(m@, y@),
{
    lemma_scaled_by_one(in_dollars(m@));
}

/// Converting by way of any other currency `x` gives the currency that
/// converting directly gives. The amount differs by no more than what the
/// dollars gain or lose on their way to `x` and back, taken at the rate of
/// the target, and one rounding more. The amount in `x` must fit.
pub proof fn law_convert_by_way_of(m: Cash, x: Currency, y: Currency)
    requires
        in_range_as(m@, x@),
    ensures
        converted(converted(m@, x@), y@).currency == converted(m@, y@).currency,
        2_000_000_000_000_000_000 * distance(
            converted(converted(m@, x@), y@).amount,
            converted(m@, y@).amount,
        ) <= y@.rate_from_dollar * detour_allowance(in_dollars(m@), x@)
            + 2_000_000_000_000_000_000,
{
    let d: int = in_dollars(m@);
    let back: int = in_dollars(converted(m@, x@));
    let rate: int = y@.rate_from_dollar as int;
    let bound: int = detour_allowance(d, x@);
    assert(x@.rate_from_dollar * x@.rate_to_dollar == x@.rate_to_dollar * x@.rate_from_dollar)
        by (nonlinear_arith);
    lemma_round_trip(d, x@.rate_from_dollar as int, x@.rate_to_dollar as int);
    lemma_scaled_close(back, d, rate);
    let gap: int = distance(back, d);
    let apart: int = distance(scaled(back, rate), scaled(d, rate));
    assert(2_000_000_000_000_000_000 * apart <= rate * bound + 2_000_000_000_000_000_000)
        by (nonlinear_arith)
        requires
            1_000_000 * apart <= gap * rate + 1_000_000,
            2_000_000_000_000 * gap <= bound,
            rate >= 0,
    ;
}

/// The sum of `a` and `b`, taken to dollars, is the two amounts in dollars
/// and what the dollars of `b` gain or lose by the drift of the currency of
/// `a`, give or take three roundings.
proof fn lemma_sum_in_dollars(a: CashView, b: CashView)
    requires
        sum_in_range(a, b),
        dollars_in_range(a),
    ensures
        2 * distance(
            1_000_000_000_000 * in_dollars(sum(a, b)),
            1_000_000_000_000 * (in_dollars(a) + in_dollars(b))
                + in_dollars(b) * (a.currency.rate_from_dollar * a.currency.rate_to_dollar
                - 1_000_000_000_000),
        ) <= 2_000_000_000_000 + 1_000_000 * a.currency.rate_to_dollar,
{
    let to: int = a.currency.rate_to_dollar as int;
    let from: int = a.currency.rate_from_dollar as int;
    let da: int = in_dollars(a);
    let db: int = in_dollars(b);
    let ba: int = converted(b, a.currency).amount;
    let total: int = sum(a, b).amount;
    let dt: int = in_dollars(sum(a, b));
    lemma_nearest_is_near(a.amount * to);
    lemma_nearest_is_near(db * from);
    lemma_nearest_is_near(total * to);
    let e_da: int = 1_000_000 * da - a.amount * to;
    let e_ba: int = 1_000_000 * ba - db * from;
    let e_dt: int = 1_000_000 * dt - total * to;
    let t: int = e_ba * to;
    let g: int = from * to - 1_000_000_000_000;
    assert(1_000_000_000_000 * dt == 1_000_000_000_000 * (da + db) + db * g + 1_000_000 * e_dt
        - 1_000_000 * e_da + t) by (nonlinear_arith)
        requires
            total == a.amount + ba,
            e_da == 1_000_000 * da - a.amount * to,
            e_ba == 1_000_000 * ba - db * from,
            e_dt == 1_000_000 * dt - total * to,
            t == e_ba * to,
            g == from * to - 1_000_000_000_000,
    ;
    assert(-(1_000_000 * to) <= 2 * t <= 1_000_000 * to) by (nonlinear_arith)
        requires
            t == e_ba * to,
            to >= 0,
            -1_000_000 <= 2 * e_ba <= 1_000_000,
    ;
}

/// Whichever of two amounts of cash comes first, their sum is in the currency
/// of the first, and it is worth the same in dollars either way, give or take
/// the drift of each currency on the other amount and the roundings on the
/// way. Every step of both sums must fit.
pub proof fn law_sum_either_way(a: Cash, b: Cash)
    requires
        sum_in_range(a@, b@),
        sum_in_range(b@, a@),
    ensures
        sum(a@, b@).currency == a@.currency,
        sum(b@, a@).currency == b@.currency,
        2_000_000_000_000 * distance(in_dollars(sum(a@, b@)), in_dollars(sum(b@, a@)))
            <= 2 * (magnitude(in_dollars(b@)) * drift(a@.currency))
            + 2 * (magnitude(in_dollars(a@)) * drift(b@.currency))
            + 1_000_000 * (a@.currency.rate_to_dollar + b@.currency.rate_to_dollar)
            + 4_000_000_000_000,
{
    lemma_sum_in_dollars(a@, b@);
    lemma_sum_in_dollars(b@, a@);
    let da: int = in_dollars(a@);
    let db: int = in_dollars(b@);
    let ga: int = a@.currency.rate_from_dollar * a@.currency.rate_to_dollar - 1_000_000_000_000;
    let gb: int = b@.currency.rate_from_dollar * b@.currency.rate_to_dollar - 1_000_000_000_000;
    let ta: int = db * ga;
    let tb: int = da * gb;
    let ma: int = magnitude(db) * drift(a@.currency);
    let mb: int = magnitude(da) * drift(b@.currency);
    assert(a@.currency.rate_to_dollar * a@.currency.rate_from_dollar
        == a@.currency.rate_from_dollar * a@.currency.rate_to_dollar) by (nonlinear_arith);
    assert(b@.currency.rate_to_dollar * b@.currency.rate_from_dollar
        == b@.currency.rate_from_dollar * b@.currency.rate_to_dollar) by (nonlinear_arith);
    assert(-ma <= ta <= ma) by (nonlinear_arith)
        requires
            ta == db * ga,
            ma == magnitude(db) * drift(a@.currency),
            drift(a@.currency) == distance(ga, 0),
    ;
    assert(-mb <= tb <= mb) by (nonlinear_arith)
        requires
            tb == da * gb,
            mb == magnitude(da) * drift(b@.currency),
            drift(b@.currency) == distance(gb, 0),
    ;
}

} // verus!
