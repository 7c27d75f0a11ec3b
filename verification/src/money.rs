//! Fixed-point money: decimal dollar amounts and their integer-cents form.
//!
//! Storage and arithmetic use a signed integer number of cents ([`Cents`]).
//! A decimal dollar amount ([`Usd`]) is a mantissa scaled by a power of ten.
//! [`to_cents`] truncates toward zero — deliberately, it never rounds — and
//! [`to_dollars`] reads a cent count back as a two-digit decimal.

use vstd::arithmetic::div_mod::{
    lemma_div_denominator, lemma_div_multiples_vanish, lemma_fundamental_div_mod, lemma_mod_bound,
    lemma_mod_multiples_basic,
};
use vstd::prelude::*;

verus! {

/// A signed number of cents: one unit is $0.01.
#[derive(Clone, Copy, Debug, PartialEq, Eq, Structural)]
pub struct Cents(pub i64);

/// A decimal dollar amount, `mantissa / 10^scale` dollars.
///
/// `Usd { mantissa: 12349, scale: 3 }` is $12.349; `scale` is the number of
/// fractional digits carried.
#[derive(Clone, Copy, Debug, PartialEq, Eq, Structural)]
pub struct Usd {
    pub mantissa: i64,
    pub scale: u32,
}

/// `10^n`.
pub open spec fn pow10(n: nat) -> nat
    decreases n,
{
    if n == 0 {
        1
    } else {
        10 * pow10((n - 1) as nat)
    }
}

proof fn lemma_pow10_pos(n: nat)
    ensures
        pow10(n) >= 1,
    decreases n,
{
    if n > 0 {
        lemma_pow10_pos((n - 1) as nat);
    }
}

proof fn lemma_pow10_increases(a: nat, b: nat)
    requires
        a <= b,
    ensures
        pow10(a) <= pow10(b),
    decreases b,
{
    if a < b {
        lemma_pow10_increases(a, (b - 1) as nat);
        lemma_pow10_pos((b - 1) as nat);
    }
}

impl Usd {
    /// The representation stays clear of the one unnegatable mantissa and of
    /// scales whose power of ten exceeds what fits alongside an `i64`.
    pub open spec fn wf(self) -> bool {
        &&& self.scale <= 18
        &&& self.mantissa > i64::MIN
    }

    /// The cent count of this amount, truncated toward zero.
    pub open spec fn cents_value(self) -> int {
        if self.mantissa >= 0 {
            (self.mantissa * 100) / (pow10(self.scale as nat) as int)
        } else {
            -(((-self.mantissa) * 100) / (pow10(self.scale as nat) as int))
        }
    }

    /// Whether the amount is a whole number of cents (no third or later
    /// fractional digit is populated).
    pub open spec fn whole_cents(self) -> bool {
        (self.mantissa * 100) % (pow10(self.scale as nat) as int) == 0
    }

    /// Numeric equality of two amounts, regardless of scale.
    pub open spec fn same_value(self, other: Usd) -> bool {
        self.mantissa * pow10(other.scale as nat) == other.mantissa * pow10(self.scale as nat)
    }
}

/// `10^n` at run time.
fn pow10_exec(n: u32) -> (r: u64)
    requires
        n <= 18,
    ensures
        r == pow10(n as nat),
{
    let mut i: u32 = 0;
    let mut r: u64 = 1;
    while i < n
        invariant
            i <= n <= 18,
            r == pow10(i as nat),
        decreases n - i,
    {
        proof {
            lemma_pow10_increases((i + 1) as nat, 18);
            reveal_with_fuel(pow10, 19);
            assert(pow10(18nat) == 1_000_000_000_000_000_000);
        }
        r = r * 10;
        i = i + 1;
    }
    r
}

/// Converts a decimal dollar amount to cents, truncating toward zero.
///
/// Truncation is the promised policy: $12.349 becomes 1234 cents and
/// -$12.349 becomes -1234 cents; nothing is rounded.
pub fn to_cents(d: Usd) -> (r: Cents)
    requires
        d.wf(),
        -0x7fff_ffff_ffff_ffff <= d.cents_value() <= 0x7fff_ffff_ffff_ffff,
    ensures
        r.0 == d.cents_value(),
{
    let neg = d.mantissa < 0;
    let m: u64 = if neg {
        (-d.mantissa) as u64
    } else {
        d.mantissa as u64
    };
    let abs_cents: u64 = if d.scale >= 2 {
        let p = pow10_exec(d.scale - 2);
        proof {
            lemma_pow10_pos((d.scale - 2) as nat);
            lemma_abs_cents_divides(m as int, d.scale as nat);
        }
        m / p
    } else {
        let mul: u64 = if d.scale == 0 {
            100
        } else {
            10
        };
        proof {
            lemma_abs_cents_multiplies(m as int, d.scale as nat);
        }
        m * mul
    };
    let signed: i64 = if neg {
        -(abs_cents as i64)
    } else {
        abs_cents as i64
    };
    Cents(signed)
}

/// For scales of at least two digits, dropping the digits past the second is
/// the division `m / 10^(scale - 2)`.
proof fn lemma_abs_cents_divides(m: int, scale: nat)
    requires
        m >= 0,
        2 <= scale <= 18,
    ensures
        (m * 100) / (pow10(scale) as int) == m / (pow10((scale - 2) as nat) as int),
{
    let q = pow10((scale - 2) as nat) as int;
    lemma_pow10_pos((scale - 2) as nat);
    assert(pow10(scale) == 100 * q) by {
        assert(pow10(scale) == 10 * pow10((scale - 1) as nat));
        assert(pow10((scale - 1) as nat) == 10 * pow10((scale - 2) as nat));
    }
    assert(m * 100 == 100 * m) by (nonlinear_arith);
    lemma_div_denominator(m * 100, 100, q);
    assert((m * 100) / (100 * q) == ((m * 100) / 100) / q);
    lemma_div_multiples_vanish(m, 100);
    assert(100 * m == m * 100) by (nonlinear_arith);
    assert((m * 100) / 100 == m);
}

/// For scales of zero or one digit, the cent count is the exact product
/// `m * 10^(2 - scale)`.
proof fn lemma_abs_cents_multiplies(m: int, scale: nat)
    requires
        m >= 0,
        scale <= 1,
    ensures
        scale == 0 ==> (m * 100) / (pow10(scale) as int) == m * 100,
        scale == 1 ==> (m * 100) / (pow10(scale) as int) == m * 10,
{
    reveal_with_fuel(pow10, 3);
    if scale == 0 {
        assert(pow10(0nat) == 1);
        lemma_div_multiples_vanish(m * 100, 1);
        assert(1 * (m * 100) == m * 100) by (nonlinear_arith);
    } else {
        assert(pow10(1nat) == 10);
        assert(m * 100 == 10 * (m * 10)) by (nonlinear_arith);
        lemma_div_multiples_vanish(m * 10, 10);
    }
}

/// The truncation law, stated arithmetically: for every amount, the cent
/// count sits on the zero side of the exact value `mantissa * 100 / 10^scale`
/// and misses it by less than one cent. Positive amounts are never rounded
/// up, negative amounts never rounded down.
pub proof fn lemma_to_cents_truncates(d: Usd)
    requires
        d.wf(),
    ensures
        d.mantissa >= 0 ==> d.cents_value() * (pow10(d.scale as nat) as int) <= d.mantissa * 100 < (
        d.cents_value() + 1) * (pow10(d.scale as nat) as int),
        d.mantissa < 0 ==> (d.cents_value() - 1) * (pow10(d.scale as nat) as int) < d.mantissa * 100
            <= d.cents_value() * (pow10(d.scale as nat) as int),
{
    let p = pow10(d.scale as nat) as int;
    lemma_pow10_pos(d.scale as nat);
    if d.mantissa >= 0 {
        let x = d.mantissa * 100;
        let q = x / p;
        lemma_fundamental_div_mod(x, p);
        lemma_mod_bound(x, p);
        assert(x == p * q + x % p);
        assert(q * p <= x < (q + 1) * p) by (nonlinear_arith)
            requires
                x == p * q + x % p,
                0 <= x % p < p,
        ;
    } else {
        let x = (-d.mantissa) * 100;
        let q = x / p;
        lemma_fundamental_div_mod(x, p);
        lemma_mod_bound(x, p);
        assert(x >= 0) by (nonlinear_arith)
            requires
                d.mantissa < 0,
                x == (-d.mantissa) * 100,
        ;
        assert(x == p * q + x % p);
        assert(d.mantissa * 100 == -x) by (nonlinear_arith)
            requires
                x == (-d.mantissa) * 100,
        ;
        assert((-q - 1) * p < -x <= (-q) * p) by (nonlinear_arith)
            requires
                x == p * q + x % p,
                0 <= x % p < p,
        ;
    }
}

/// Reads a cent count back as a decimal dollar amount with two fractional
/// digits: `cents / 100` dollars, exactly.
pub fn to_dollars(c: Cents) -> (r: Usd)
    requires
        c.0 > i64::MIN,
    ensures
        r == (Usd { mantissa: c.0, scale: 2 }),
        r.wf(),
        r.cents_value() == c.0 as int,
{
    let r = Usd { mantissa: c.0, scale: 2 };
    proof {
        lemma_cents_value_scale_two(r);
    }
    r
}

/// At scale two the cent count is the mantissa itself.
proof fn lemma_cents_value_scale_two(d: Usd)
    requires
        d.scale == 2,
    ensures
        d.cents_value() == d.mantissa as int,
{
    assert(pow10(2nat) == 100) by {
        reveal_with_fuel(pow10, 3);
    }
    if d.mantissa >= 0 {
        lemma_div_multiples_vanish(d.mantissa as int, 100);
        assert(100 * (d.mantissa as int) == d.mantissa * 100) by (nonlinear_arith);
    } else {
        let m = -(d.mantissa as int);
        lemma_div_multiples_vanish(m, 100);
        assert(100 * m == m * 100) by (nonlinear_arith);
    }
}

/// Round-trip exactness for every amount that is a whole number of cents:
/// converting it to cents and back preserves its numeric value exactly.
///
/// The bound on `cents_value` only keeps the cent count representable in an
/// `i64`; within that, every whole-cent decimal survives the trip unchanged.
pub proof fn lemma_round_trip_whole_cents(d: Usd)
    requires
        d.wf(),
        d.whole_cents(),
        -0x7fff_ffff_ffff_ffff <= d.cents_value() <= 0x7fff_ffff_ffff_ffff,
    ensures
        (Usd { mantissa: d.cents_value() as i64, scale: 2 }).same_value(d),
{
    let p = pow10(d.scale as nat) as int;
    lemma_pow10_pos(d.scale as nat);
    assert(pow10(2nat) == 100) by {
        reveal_with_fuel(pow10, 3);
    }
    if d.mantissa >= 0 {
        let x = d.mantissa * 100;
        lemma_fundamental_div_mod(x, p);
        assert(d.cents_value() * p == d.mantissa * 100) by (nonlinear_arith)
            requires
                x == p * (x / p) + x % p,
                x % p == 0,
                x == d.mantissa * 100,
                d.cents_value() == x / p,
        ;
    } else {
        let x = (-d.mantissa) * 100;
        // the divisibility of m * 100 carries over to its negation
        let k = (d.mantissa * 100) / p;
        lemma_fundamental_div_mod(d.mantissa * 100, p);
        assert(x == p * (-k)) by (nonlinear_arith)
            requires
                d.mantissa * 100 == p * k + (d.mantissa * 100) % p,
                (d.mantissa * 100) % p == 0,
                x == (-d.mantissa) * 100,
        ;
        lemma_mod_multiples_basic(-k, p);
        assert((-k) * p == p * (-k)) by (nonlinear_arith);
        assert(x % p == 0);
        lemma_fundamental_div_mod(x, p);
        assert(x / p == -k) by (nonlinear_arith)
            requires
                x == p * (x / p) + x % p,
                x % p == 0,
                x == p * (-k),
                p > 0,
        ;
        assert(d.cents_value() * p == d.mantissa * 100) by (nonlinear_arith)
            requires
                d.cents_value() == -(x / p),
                x / p == -k,
                d.mantissa * 100 == p * k,
        ;
    }
}

/// Round-trip exactness at the supported precision: an amount with at most
/// two fractional digits is a whole number of cents, so converting it to
/// cents and back preserves its numeric value exactly.
pub proof fn lemma_round_trip_exact(d: Usd)
    requires
        d.wf(),
        d.scale <= 2,
        -0x7fff_ffff_ffff_ffff <= d.cents_value() <= 0x7fff_ffff_ffff_ffff,
    ensures
        (Usd { mantissa: d.cents_value() as i64, scale: 2 }).same_value(d),
{
    let p = pow10(d.scale as nat) as int;
    let r = pow10((2 - d.scale) as nat) as int;
    lemma_pow10_pos(d.scale as nat);
    assert(p * r == 100) by {
        reveal_with_fuel(pow10, 3);
        assert(pow10(d.scale as nat) * pow10((2 - d.scale) as nat) == 100) by (nonlinear_arith)
            requires
                d.scale <= 2,
                pow10(0nat) == 1 && pow10(1nat) == 10 && pow10(2nat) == 100,
                p == pow10(d.scale as nat),
                r == pow10((2 - d.scale) as nat),
        ;
    }
    lemma_mod_multiples_basic(d.mantissa * r, p);
    assert((d.mantissa * r) * p == d.mantissa * 100) by (nonlinear_arith)
        requires
            p * r == 100,
    ;
    lemma_round_trip_whole_cents(d);
}

} // verus!
