use expenser::money::{to_cents, to_dollars};
use expenser::{Cents, Usd};

#[test]
fn cents_round_trip_two_digits() {
    // $12.50 survives the trip to cents and back exactly.
    let d = Usd { mantissa: 1250, scale: 2 };
    let c = to_cents(d);
    assert_eq!(c, Cents(1250));
    let back = to_dollars(c);
    assert_eq!(back, Usd { mantissa: 1250, scale: 2 });
}

#[test]
fn cents_round_trip_one_digit() {
    // $12.5 written with one fractional digit keeps its value: the result
    // is the same number at scale two.
    let d = Usd { mantissa: 125, scale: 1 };
    let c = to_cents(d);
    assert_eq!(c, Cents(1250));
    assert_eq!(to_dollars(c), Usd { mantissa: 1250, scale: 2 });
}

#[test]
fn cents_round_trip_whole_dollars() {
    let d = Usd { mantissa: 7, scale: 0 };
    let c = to_cents(d);
    assert_eq!(c, Cents(700));
    assert_eq!(to_dollars(c), Usd { mantissa: 700, scale: 2 });
}

#[test]
fn cents_round_trip_negative() {
    let d = Usd { mantissa: -1250, scale: 2 };
    let c = to_cents(d);
    assert_eq!(c, Cents(-1250));
    assert_eq!(to_dollars(c), Usd { mantissa: -1250, scale: 2 });
}

#[test]
fn to_cents_truncates_toward_zero() {
    // $12.349 loses its third digit without rounding.
    assert_eq!(to_cents(Usd { mantissa: 12349, scale: 3 }), Cents(1234));
}

#[test]
fn to_cents_truncates_toward_zero_negative() {
    // -$12.349 truncates toward zero, not toward minus infinity.
    assert_eq!(to_cents(Usd { mantissa: -12349, scale: 3 }), Cents(-1234));
}

#[test]
fn to_cents_never_rounds_up() {
    // $0.999 is 99 cents, not 100.
    assert_eq!(to_cents(Usd { mantissa: 999, scale: 3 }), Cents(99));
    // $1.23999 is 123 cents.
    assert_eq!(to_cents(Usd { mantissa: 123999, scale: 5 }), Cents(123));
}

#[test]
fn to_cents_zero() {
    assert_eq!(to_cents(Usd { mantissa: 0, scale: 2 }), Cents(0));
    assert_eq!(to_cents(Usd { mantissa: 0, scale: 0 }), Cents(0));
}

#[test]
fn to_cents_small_fractions_vanish() {
    // $0.009 truncates to zero cents.
    assert_eq!(to_cents(Usd { mantissa: 9, scale: 3 }), Cents(0));
    assert_eq!(to_cents(Usd { mantissa: -9, scale: 3 }), Cents(0));
}

#[test]
fn to_dollars_is_cents_over_hundred() {
    let d = to_dollars(Cents(1));
    assert_eq!(d.mantissa, 1);
    assert_eq!(d.scale, 2);
    let d = to_dollars(Cents(-12345));
    assert_eq!(d.mantissa, -12345);
    assert_eq!(d.scale, 2);
}

#[test]
fn cents_round_trip_trailing_zeros() {
    // $12.3400 is a whole number of cents even at scale four, so it
    // round-trips exactly.
    let d = Usd { mantissa: 123400, scale: 4 };
    let c = to_cents(d);
    assert_eq!(c, Cents(1234));
    assert_eq!(to_dollars(c), Usd { mantissa: 1234, scale: 2 });
}
