use backend_service::money::{magnitude_of, Money, MoneyWithCurrency};

fn cents(text: &str) -> i64 {
    Money::parse(text).as_cents()
}

#[test]
fn cents_in_and_out() {
    assert_eq!(Money::from_cents(12345).as_cents(), 12345);
    assert_eq!(Money::from_cents(-1).as_cents(), -1);
    assert_eq!(Money::default().as_cents(), 0);
}

#[test]
fn major_and_minor() {
    assert_eq!(Money::from_cents(12345).as_major_minor(), (123, 45));
    assert_eq!(Money::from_cents(-12345).as_major_minor(), (-123, 45));
    assert_eq!(Money::from_cents(5).as_major_minor(), (0, 5));
    assert_eq!(Money::from_cents(-50).as_major_minor(), (0, 50));
    assert_eq!(Money::from_cents(0).as_major_minor(), (0, 0));
    assert_eq!(Money::from_cents(i64::MAX).as_major_minor(), (92233720368547758, 7));
    assert_eq!(Money::from_cents(i64::MIN).as_major_minor(), (-92233720368547758, 8));
}

#[test]
fn magnitude_of_numbers() {
    assert_eq!(magnitude_of(0), 0);
    assert_eq!(magnitude_of(-7), 7);
    assert_eq!(magnitude_of(7), 7);
    assert_eq!(magnitude_of(i64::MIN), 9223372036854775808);
}

#[test]
fn text_has_two_digits_of_cents() {
    assert_eq!(Money::from_cents(12345).to_string(), "123.45");
    assert_eq!(Money::from_cents(-12305).to_string(), "-123.05");
    assert_eq!(Money::from_cents(7).to_string(), "0.07");
    assert_eq!(Money::from_cents(-50).to_string(), "0.50");
    assert_eq!(Money::from_cents(100).to_string(), "1.00");
    assert_eq!(Money::from_cents(0).to_string(), "0.00");
}

#[test]
fn whole_units() {
    assert_eq!(Money::from_units(12).unwrap().as_cents(), 1200);
    assert_eq!(Money::from_units(-3).unwrap().as_cents(), -300);
    assert!(Money::from_units(i64::MAX).is_none());
    assert_eq!(Money::from_cents(1299).to_units(), 12);
    assert_eq!(Money::from_cents(-1299).to_units(), -12);
}

#[test]
fn amounts_add_and_subtract() {
    assert_eq!((Money::from_cents(150) + Money::from_cents(275)).as_cents(), 425);
    assert_eq!((Money::from_cents(150) - Money::from_cents(275)).as_cents(), -125);
}

#[test]
fn amounts_compare_by_their_cents() {
    assert!(Money::from_cents(1) < Money::from_cents(2));
    assert!(Money::from_cents(-5) < Money::from_cents(0));
    assert_eq!(Money::from_cents(3), Money::from_cents(3));
}

#[test]
fn written_amounts_are_read() {
    assert_eq!(cents("12.34"), 1234);
    assert_eq!(cents("12,34"), 1234);
    assert_eq!(cents("  12.3 "), 1230);
    assert_eq!(cents("12"), 1200);
    assert_eq!(cents("12."), 1200);
    assert_eq!(cents("-12.34"), -1234);
    assert_eq!(cents("+12.34"), 1234);
    assert_eq!(cents("0.07"), 7);
    assert_eq!(cents(".5"), 50);
    assert_eq!(cents("-.5"), -50);
    assert_eq!(cents("12.349"), 1234);
    assert_eq!(cents("-0.99"), -99);
}

#[test]
fn what_writes_no_amount_is_zero() {
    assert_eq!(cents(""), 0);
    assert_eq!(cents("   "), 0);
    assert_eq!(cents("abc"), 0);
    assert_eq!(cents("1.2.3"), 0);
    assert_eq!(cents("1,2,3"), 0);
    assert_eq!(cents("x.50"), 50);
    assert_eq!(cents("12.x"), 1200);
    assert_eq!(cents("12.5x"), 1200);
}

#[test]
fn odd_signs_are_read_as_the_parts_are() {
    assert_eq!(cents("--5"), -500);
    assert_eq!(cents("-+5"), -500);
    assert_eq!(cents("1.-5"), 95);
    assert_eq!(cents("1.+5"), 105);
}

#[test]
fn amounts_beyond_the_range_are_zero() {
    assert_eq!(cents("92233720368547758.07"), i64::MAX);
    assert_eq!(cents("92233720368547758.08"), 0);
    assert_eq!(cents("-92233720368547758.08"), i64::MIN);
    assert_eq!(cents("99999999999999999999"), 0);
}

#[test]
fn from_str_reads_the_same() {
    let money: Money = "3,50".parse().unwrap();
    assert_eq!(money.as_cents(), 350);
}

#[test]
fn money_with_a_currency() {
    let price = MoneyWithCurrency::new(Money::from_cents(500), "USD");
    assert_eq!(price.amount.as_cents(), 500);
    assert_eq!(price.currency, "USD");
    assert_eq!(MoneyWithCurrency::default_in(None).currency, "грн");
    assert_eq!(MoneyWithCurrency::default_in(Some("EUR".to_string())).currency, "EUR");
    assert_eq!(MoneyWithCurrency::default_in(None).amount.as_cents(), 0);
}

#[test]
fn sums_need_one_currency() {
    let a = MoneyWithCurrency::new(Money::from_cents(500), "USD");
    let b = MoneyWithCurrency::new(Money::from_cents(250), "USD");
    let c = MoneyWithCurrency::new(Money::from_cents(250), "EUR");
    let sum = a.clone().checked_add(b.clone()).unwrap();
    assert_eq!(sum, MoneyWithCurrency::new(Money::from_cents(750), "USD"));
    let rest = a.clone().checked_sub(b).unwrap();
    assert_eq!(rest, MoneyWithCurrency::new(Money::from_cents(250), "USD"));
    assert_eq!(a.clone().checked_add(c.clone()), Err("Currency mismatch".to_string()));
    assert_eq!(a.checked_sub(c), Err("Currency mismatch".to_string()));
}

#[test]
fn sums_beyond_the_range_are_refused() {
    let a = MoneyWithCurrency::new(Money::from_cents(i64::MAX), "USD");
    let b = MoneyWithCurrency::new(Money::from_cents(1), "USD");
    assert_eq!(a.clone().checked_add(b.clone()), Err("Amount out of range".to_string()));
    let low = MoneyWithCurrency::new(Money::from_cents(i64::MIN), "USD");
    assert_eq!(low.checked_sub(b), Err("Amount out of range".to_string()));
}
