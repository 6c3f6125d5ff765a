use vstd::prelude::*;

verus! {

/// Number of decimal places that every stored amount carries.
pub const AMOUNT_SCALE: u32 = 4;

/// Ten to the power of `AMOUNT_SCALE`.
pub const MINOR_PER_UNIT: i64 = 10000;

/// A monetary amount in exact fixed-point form: `minor` counts ten-thousandths
/// of a unit, so `12.50` is held as `125000`.
#[derive(Clone, Copy, Debug, PartialEq, Eq, Structural)]
pub struct Amount {
    pub minor: i64,
}

/// Ten to the power `n`.
pub open spec fn pow10(n: nat) -> int
    decreases n,
{
    if n == 0 {
        1
    } else {
        10 * pow10((n - 1) as nat)
    }
}

/// `mantissa / 10^scale` is a whole number of ten-thousandths that fits `i64`.
pub open spec fn representable(mantissa: int, scale: nat) -> bool {
    &&& (mantissa * 10000) % pow10(scale) == 0
    &&& i64::MIN <= (mantissa * 10000) / pow10(scale) <= i64::MAX
}

proof fn lemma_pow10_positive(n: nat)
    ensures
        pow10(n) >= 1,
    decreases n,
{
    if n > 0 {
        lemma_pow10_positive((n - 1) as nat);
    }
}

proof fn lemma_pow10_add(a: nat, b: nat)
    ensures
        pow10(a + b) == pow10(a) * pow10(b),
    decreases a,
{
    if a > 0 {
        lemma_pow10_add((a - 1) as nat, b);
        assert(pow10(a + b) == 10 * pow10((a - 1 + b) as nat));
        assert(10 * (pow10((a - 1) as nat) * pow10(b)) == (10 * pow10((a - 1) as nat)) * pow10(b)) by (nonlinear_arith);
    }
}

proof fn lemma_pow10_monotone(a: nat, b: nat)
    requires
        a <= b,
    ensures
        pow10(a) <= pow10(b),
    decreases b,
{
    if a < b {
        lemma_pow10_monotone(a, (b - 1) as nat);
        lemma_pow10_positive((b - 1) as nat);
    }
}

/// `10^n`, for the exponents that a decimal scale can need.
fn power_of_ten(n: u32) -> (r: i128)
    requires
        n <= 24,
    ensures
        r == pow10(n as nat),
{
    proof {
        lemma_pow10_monotone(n as nat, 24);
        reveal_with_fuel(pow10, 25);
        assert(pow10(24) == 1_000_000_000_000_000_000_000_000);
    }
    let mut p: i128 = 1;
    let mut i: u32 = 0;
    while i < n
        invariant
            i <= n <= 24,
            p == pow10(i as nat),
            pow10(n as nat) <= 1_000_000_000_000_000_000_000_000,
        decreases n - i,
    {
        proof {
            lemma_pow10_monotone((i + 1) as nat, n as nat);
            assert(pow10((i + 1) as nat) == 10 * pow10(i as nat));
            assert(pow10((i + 1) as nat) <= pow10(n as nat));
            lemma_pow10_positive(i as nat);
        }
        p = p * 10;
        i += 1;
    }
    p
}

impl Amount {
    /// The amount worth `minor` ten-thousandths of a unit.
    pub fn from_minor(minor: i64) -> (r: Amount)
        ensures
            r.minor == minor,
    {
        Amount { minor }
    }

    /// The amount worth `mantissa / 10^scale` units, the way a decimal number
    /// is held; `None` when that value is not a whole number of
    /// ten-thousandths within the range of `i64`. A decimal number's scale is
    /// at most 28.
    pub fn from_scaled(mantissa: i128, scale: u32) -> (r: Option<Amount>)
        requires
            scale <= 28,
        ensures
            r is Some <==> representable(mantissa as int, scale as nat),
            r matches Some(a) ==> a.minor == (mantissa * 10000) / pow10(scale as nat),
    {
        let ghost x = mantissa * 10000;
        let ghost d = pow10(scale as nat);
        proof {
            lemma_pow10_positive(scale as nat);
        }
        if scale <= AMOUNT_SCALE {
            let f = power_of_ten(AMOUNT_SCALE - scale);
            proof {
                lemma_pow10_add(scale as nat, (4 - scale) as nat);
                reveal_with_fuel(pow10, 5);
                assert(scale as nat + (4 - scale) as nat == 4);
                assert(pow10(4) == 10000);
                assert(x == (mantissa * f) * d + 0) by (nonlinear_arith)
                    requires x == mantissa * 10000, d * f == 10000;
                vstd::arithmetic::div_mod::lemma_fundamental_div_mod_converse(x, d, mantissa * f, 0);
            }
            match mantissa.checked_mul(f) {
                Some(m) => {
                    if m < i64::MIN as i128 || m > i64::MAX as i128 {
                        None
                    } else {
                        Some(Amount { minor: m as i64 })
                    }
                },
                None => None,
            }
        } else {
            let q = power_of_ten(scale - AMOUNT_SCALE);
            proof {
                lemma_pow10_positive((scale - 4) as nat);
                let m = mantissa as int;
                let qi = q as int;
                vstd::arithmetic::div_mod::lemma_fundamental_div_mod(m, qi);
                assert(i128::MIN <= m / qi <= i128::MAX) by (nonlinear_arith)
                    requires
                        m == qi * (m / qi) + m % qi,
                        0 <= m % qi < qi,
                        qi >= 1,
                        i128::MIN <= m <= i128::MAX;
            }
            let rem = mantissa.checked_rem_euclid(q).unwrap();
            let quot = mantissa.checked_div_euclid(q).unwrap();
            proof {
                lemma_pow10_add(4, (scale - 4) as nat);
                reveal_with_fuel(pow10, 5);
                vstd::arithmetic::div_mod::lemma_fundamental_div_mod(mantissa as int, q as int);
                assert(x == quot * d + 10000 * rem) by (nonlinear_arith)
                    requires
                        x == mantissa * 10000,
                        d == 10000 * q,
                        mantissa == q * (mantissa / q) + mantissa % q,
                        quot == mantissa / q,
                        rem == mantissa % q;
                assert(0 <= 10000 * rem < d) by (nonlinear_arith)
                    requires d == 10000 * q, 0 <= rem < q;
                vstd::arithmetic::div_mod::lemma_fundamental_div_mod_converse(x, d, quot as int, 10000 * rem);
            }
            if rem != 0 || quot < i64::MIN as i128 || quot > i64::MAX as i128 {
                None
            } else {
                Some(Amount { minor: quot as i64 })
            }
        }
    }
}

/// Largest magnitude of the mantissa of a decimal number: 2^96 - 1.
pub const DECIMAL_MAX_MANTISSA: i128 = 0xFFFF_FFFF_FFFF_FFFF_FFFF_FFFF;

/// The character of the decimal digit `d`.
pub open spec fn digit_char(d: int) -> char {
    seq!['0', '1', '2', '3', '4', '5', '6', '7', '8', '9'][d]
}

/// The decimal digits of `n`, without leading zeros; `0` for zero.
pub open spec fn digits(n: nat) -> Seq<char>
    decreases n,
{
    if n < 10 {
        seq![digit_char(n as int)]
    } else {
        digits(n / 10).push(digit_char((n % 10) as int))
    }
}

/// The last `width` decimal digits of `n`, with leading zeros.
pub open spec fn padded_digits(n: nat, width: nat) -> Seq<char>
    decreases width,
{
    if width == 0 {
        Seq::empty()
    } else {
        padded_digits(n / 10, (width - 1) as nat).push(digit_char((n % 10) as int))
    }
}

/// `m / 10^scale` written with exactly `scale` digits after the point (and no
/// point when `scale` is zero).
pub open spec fn fixed_text(m: nat, scale: nat) -> Seq<char> {
    if scale == 0 {
        digits(m)
    } else {
        digits(((m as int) / pow10(scale)) as nat) + seq!['.'] + padded_digits(((m as int) % pow10(scale)) as nat, scale)
    }
}

/// `m / 10^scale` written with its trailing fractional zeros removed; `0`
/// for zero.
pub open spec fn trimmed_text(m: nat, scale: nat) -> Seq<char>
    decreases scale,
{
    if m == 0 {
        seq!['0']
    } else if scale > 0 && m % 10 == 0 {
        trimmed_text(m / 10, (scale - 1) as nat)
    } else {
        fixed_text(m, scale)
    }
}

/// The text of the decimal number `minor / 10^AMOUNT_SCALE`: a minus sign for
/// a negative number, then its digits with trailing fractional zeros removed.
pub open spec fn decimal_text(minor: i128) -> Seq<char> {
    if minor < 0 {
        seq!['-'] + trimmed_text((-minor) as nat, 4)
    } else {
        trimmed_text(minor as nat, 4)
    }
}

/// Relies on `rust_decimal::Decimal::from_i128_with_scale`, which builds
/// `minor / 10^scale` and panics only when the magnitude of `minor` exceeds
/// 2^96 - 1 or the scale exceeds 28; on `Decimal::normalize`, which strips
/// trailing fractional zeros and makes zero unsigned with scale 0; and on the
/// `Display` of `Decimal`, which writes the sign of a negative number, the
/// whole digits (`0` when there are none), then a point and exactly `scale`
/// fractional digits when the scale is not zero.
#[verifier::external_body]
pub(crate) fn total_text(minor: i128) -> (r: String)
    requires
        -DECIMAL_MAX_MANTISSA <= minor <= DECIMAL_MAX_MANTISSA,
    ensures
        r@ == decimal_text(minor),
{
    rust_decimal::Decimal::from_i128_with_scale(minor, AMOUNT_SCALE).normalize().to_string()
}

} // verus!
