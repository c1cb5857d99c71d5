use multicurrency::currency::{btc, thb, usd};

#[test]
fn dollar_is_at_par() {
    let c = usd();
    assert_eq!(c.name(), "USD");
    assert_eq!(c.rate_to_dollar(), 1_000_000);
    assert_eq!(c.rate_from_dollar(), 1_000_000);
}

#[test]
fn baht_rates() {
    let c = thb();
    assert_eq!(c.name(), "THB");
    assert_eq!(c.rate_to_dollar(), 31_000);
    assert_eq!(c.rate_from_dollar(), 32_510_000);
}

#[test]
fn bitcoin_rates() {
    let c = btc();
    assert_eq!(c.name(), "BTC");
    assert_eq!(c.rate_to_dollar(), 19_519_000_000);
    assert_eq!(c.rate_from_dollar(), 51);
}

#[test]
fn rates_are_not_reciprocal() {
    let baht = thb().rate_to_dollar() as u128 * thb().rate_from_dollar() as u128;
    assert_eq!(baht, 1_007_810_000_000);
    let bitcoin = btc().rate_to_dollar() as u128 * btc().rate_from_dollar() as u128;
    assert_eq!(bitcoin, 995_469_000_000);
}

#[test]
fn currency_is_displayed_by_its_name() {
    assert_eq!(usd().to_string(), "USD");
    assert_eq!(thb().to_string(), "THB");
    assert_eq!(btc().to_string(), "BTC");
}

#[test]
fn currency_is_copied_whole() {
    let c = thb();
    let d = c.clone();
    assert_eq!(d.name(), c.name());
    assert_eq!(d.rate_to_dollar(), c.rate_to_dollar());
    assert_eq!(d.rate_from_dollar(), c.rate_from_dollar());
    assert_eq!(format!("{:?}", c), format!("{:?}", d));
}
