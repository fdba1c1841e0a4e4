use kittzo::domain::money::Money;

fn money(currency: &str, amount: &str) -> Money {
    Money::from_parts(currency, amount).unwrap()
}

#[test]
fn amount_is_rescaled_to_the_currency_exponent() {
    assert_eq!(money("USD", "10.5").to_string(), "10.50 USD");
    assert_eq!(money("USD", "10").to_string(), "10.00 USD");
    assert_eq!(money("JPY", "500").to_string(), "500 JPY");
}

#[test]
fn trailing_zeros_beyond_the_exponent_are_accepted() {
    assert_eq!(money("USD", "10.500"), money("USD", "10.50"));
    assert_eq!(money("JPY", "500.00"), money("JPY", "500"));
}

#[test]
fn too_many_decimal_places_for_the_currency_is_rejected() {
    assert!(Money::from_parts("PLN", "29.4511").is_err());
    assert!(Money::from_parts("USD", "1.005").is_err());
    assert!(Money::from_parts("JPY", "500.25").is_err());
}

#[test]
fn unknown_currency_and_unparsable_amount_are_rejected() {
    assert!(Money::from_parts("XYZ", "1.00").is_err());
    assert!(Money::from_parts("USD", "ten").is_err());
}

#[test]
fn error_messages_name_the_problem() {
    assert_eq!(
        Money::from_parts("XYZ", "1.00").unwrap_err(),
        "unknown currency code: XYZ"
    );
    assert_eq!(
        Money::from_parts("PLN", "29.4511").unwrap_err(),
        "29.4511 has more decimal places than PLN allows (2)"
    );
    assert_eq!(
        Money::from_parts("JPY", "500.25").unwrap_err(),
        "500.25 has more decimal places than JPY allows (0)"
    );
    assert!(!Money::from_parts("USD", "ten").unwrap_err().is_empty());
}

#[test]
fn amount_and_currency_code_are_exposed() {
    let m = money("PLN", "99.99");
    assert_eq!(m.currency_code(), "PLN");
    assert_eq!(m.amount().mantissa, 9999);
    assert_eq!(m.amount().scale, 2);
    assert_eq!(m.amount().to_string(), "99.99");
    let three_places = money("KWD", "1.5");
    assert_eq!(three_places.amount().mantissa, 1500);
    assert_eq!(three_places.amount().scale, 3);
    assert_eq!(three_places.to_string(), "1.500 KWD");
}

#[test]
fn negative_and_zero_amounts_are_held_at_the_exponent() {
    assert_eq!(money("USD", "-3.1").to_string(), "-3.10 USD");
    assert_eq!(money("USD", "0").to_string(), "0.00 USD");
}

#[test]
fn clone_keeps_the_money() {
    let m = money("EUR", "12.34");
    assert_eq!(m.clone(), m);
}

#[test]
fn money_reads_back_from_its_own_parts() {
    for (currency, amount) in [("USD", "10.99"), ("PLN", "99.99"), ("JPY", "500"), ("USD", "-0.5")] {
        let original = money(currency, amount);
        let text = original.amount().to_string();
        assert_eq!(Money::from_parts(original.currency_code(), &text).unwrap(), original);
    }
}

#[test]
fn to_parts_gives_the_amount_text_and_the_code_and_reads_back() {
    for (currency, amount, text) in [
        ("USD", "10.5", "10.50"),
        ("PLN", "99.99", "99.99"),
        ("JPY", "500.00", "500"),
        ("KWD", "-1.5", "-1.500"),
    ] {
        let original = money(currency, amount);
        let (amount_text, code) = original.to_parts();
        assert_eq!(amount_text, text);
        assert_eq!(code, currency);
        assert_eq!(Money::from_parts(&code, &amount_text).unwrap(), original);
    }
}

#[test]
fn a_minus_zero_amount_is_zero() {
    assert_eq!(money("USD", "-0").to_string(), "0.00 USD");
    assert_eq!(money("USD", "-0.00"), money("USD", "0"));
}

#[test]
fn from_decimal_moves_the_number_to_the_currency_places() {
    let m = Money::from_decimal("USD", 2, 105, 1).unwrap();
    assert_eq!(m.amount().mantissa, 1050);
    assert_eq!(m.amount().scale, 2);
    assert_eq!(m, money("USD", "10.5"));
    let dropped = Money::from_decimal("JPY", 0, 50000, 2).unwrap();
    assert_eq!(dropped.amount().mantissa, 500);
    assert_eq!(dropped.amount().scale, 0);
    assert_eq!(
        Money::from_decimal("USD", 2, 1005, 3).unwrap_err(),
        "1.005 has more decimal places than USD allows (2)"
    );
}

#[test]
fn usd_parts_are_the_amount_and_the_code() {
    let (amount, currency) = money("USD", "10.99").to_parts();
    assert_eq!(amount, "10.99");
    assert_eq!(currency, "USD");
    let (amount, currency) = money("PLN", "99.99").to_parts();
    assert_eq!(amount, "99.99");
    assert_eq!(currency, "PLN");
}

#[test]
fn an_amount_too_wide_for_the_currency_places_keeps_the_widest_scale_and_reads_back() {
    let widest = money("USD", "79228162514264337593543950335");
    assert_eq!(widest.amount().scale, 0);
    assert_eq!(widest.to_string(), "79228162514264337593543950335 USD");
    let (amount, code) = widest.to_parts();
    assert_eq!(Money::from_parts(&code, &amount).unwrap(), widest);

    let one_place = money("USD", "7922816251426433759354395033");
    assert_eq!(one_place.amount().scale, 1);
    assert_eq!(one_place.amount().mantissa, 79228162514264337593543950330);
    assert_eq!(one_place.to_string(), "7922816251426433759354395033.0 USD");
    let (amount, code) = one_place.to_parts();
    assert_eq!(Money::from_parts(&code, &amount).unwrap(), one_place);
}
