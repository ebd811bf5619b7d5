//! Whole numbers as a double gives them.
//!
//! A double holds 53 binary digits. A number that needs more becomes the nearest
//! that a double holds, the even one of two that are equally near, before it is
//! made whole.

use crate::decimal;
use vstd::arithmetic::div_mod::lemma_fundamental_div_mod_converse;
use vstd::prelude::*;

verus! {

/// Two to the power `k`.
pub open spec fn pow2(k: nat) -> nat
    decreases k,
{
    if k == 0 {
        1
    } else {
        2 * pow2((k - 1) as nat)
    }
}

/// How many binary digits `n` takes.
pub open spec fn bit_len(n: nat) -> nat
    decreases n,
{
    if n == 0 {
        0
    } else {
        1 + bit_len(n / 2)
    }
}

/// The whole number nearest to `a / b`, the even one of two that are equally near.
pub open spec fn near_even(a: nat, b: nat) -> nat {
    let f = a / b;
    let r = a % b;
    if 2 * r > b || (2 * r == b && f % 2 == 1) {
        f + 1
    } else {
        f
    }
}

/// How many binary digits behind the point a double keeps of `num / den`, which is a
/// quarter at least, and less than two to the power 53.
pub open spec fn fraction_bits(num: nat, den: nat) -> nat {
    let n = bit_len(num / den);
    if n > 0 {
        (53 - n) as nat
    } else if 2 * num >= den {
        53
    } else {
        54
    }
}

/// The double nearest to `num / den` as a whole number: the nearest, half up, where
/// `near`, otherwise the next lower.
pub open spec fn double_whole(num: nat, den: nat, near: bool) -> nat {
    let n = bit_len(num / den);
    if 4 * num < den {
        0
    } else if n <= 53 {
        let u = pow2(fraction_bits(num, den));
        let q = near_even(num * u, den);
        if near {
            (2 * q + u) / (2 * u)
        } else {
            q / u
        }
    } else {
        let g = pow2((n - 53) as nat);
        near_even(num, den * g) * g
    }
}

/// Whether every one of `ds` is a decimal digit.
pub open spec fn are_digits(ds: Seq<u8>) -> bool {
    forall|i: int| 0 <= i < ds.len() ==> #[trigger] ds[i] < 10
}

/// The number that the digits `ds` write.
pub open spec fn value(ds: Seq<u8>) -> nat
    decreases ds.len(),
{
    if ds.len() == 0 {
        0
    } else {
        10 * value(ds.drop_last()) + ds.last() as nat
    }
}

proof fn lemma_pow10_positive(k: nat)
    ensures
        decimal::pow10(k) > 0,
    decreases k,
{
    if k > 0 {
        lemma_pow10_positive((k - 1) as nat);
    }
}

proof fn lemma_value_small(ds: Seq<u8>)
    requires
        are_digits(ds),
    ensures
        value(ds) < decimal::pow10(ds.len()),
    decreases ds.len(),
{
    if ds.len() > 0 {
        assert(are_digits(ds.drop_last()));
        lemma_value_small(ds.drop_last());
    }
}

proof fn lemma_value_first(ds: Seq<u8>)
    requires
        ds.len() > 0,
    ensures
        value(ds) == ds[0] * decimal::pow10((ds.len() - 1) as nat) + value(ds.skip(1)),
    decreases ds.len(),
{
    if ds.len() == 1 {
        assert(ds.drop_last() =~= Seq::<u8>::empty());
        assert(ds.skip(1) =~= Seq::<u8>::empty());
        reveal_with_fuel(value, 2);
        assert(ds[0] * 1 == ds[0]);
    } else {
        let front = ds.drop_last();
        lemma_value_first(front);
        assert(front.skip(1) =~= ds.skip(1).drop_last());
        let p = decimal::pow10((front.len() - 1) as nat);
        let d = ds[0] as nat;
        assert(10 * (d * p) == d * (10 * p)) by (nonlinear_arith);
    }
}

proof fn lemma_value_zero(ds: Seq<u8>)
    ensures
        value(ds) == 0 <==> forall|i: int| 0 <= i < ds.len() ==> #[trigger] ds[i] == 0,
    decreases ds.len(),
{
    if ds.len() > 0 {
        let front = ds.drop_last();
        lemma_value_zero(front);
        if value(ds) == 0 {
            assert forall|i: int| 0 <= i < ds.len() implies #[trigger] ds[i] == 0 by {
                if i < front.len() {
                    assert(front[i] == ds[i]);
                }
            }
        }
        if forall|i: int| 0 <= i < ds.len() ==> #[trigger] ds[i] == 0 {
            assert forall|i: int| 0 <= i < front.len() implies #[trigger] front[i] == 0 by {
                assert(front[i] == ds[i]);
            }
        }
    }
}

/// Whether the digits write 0.
fn is_zero(ds: &Vec<u8>) -> (r: bool)
    ensures
        r == (value(ds@) == 0),
{
    proof {
        lemma_value_zero(ds@);
    }
    for i in 0..ds.len()
        invariant
            forall|k: int| 0 <= k < i ==> #[trigger] ds@[k] == 0,
    {
        if ds[i] != 0 {
            proof {
                lemma_value_zero(ds@);
                assert(ds@[i as int] != 0);
            }
            return false;
        }
    }
    true
}

/// Doubles the number that `ds` write, and gives what it carries over.
fn double_digits(ds: &mut Vec<u8>) -> (carry: u64)
    requires
        are_digits(old(ds)@),
    ensures
        are_digits(final(ds)@),
        final(ds)@.len() == old(ds)@.len(),
        carry <= 1,
        2 * value(old(ds)@) == carry * decimal::pow10(old(ds)@.len()) + value(final(ds)@),
{
    let ghost before = ds@;
    let n: usize = ds.len();
    let mut j: usize = n;
    let mut carry: u8 = 0;
    assert(before.skip(n as int) =~= Seq::<u8>::empty());
    assert(ds@.skip(n as int) =~= Seq::<u8>::empty());
    while j > 0
        invariant
            j <= n,
            ds@.len() == n,
            before.len() == n,
            carry <= 1,
            are_digits(before),
            are_digits(ds@),
            forall|k: int| 0 <= k < j ==> #[trigger] ds@[k] == before[k],
            2 * value(before.skip(j as int)) == carry * decimal::pow10((n - j) as nat) + value(
                ds@.skip(j as int),
            ),
        decreases j,
    {
        let ghost so_far = ds@;
        let ghost c = carry as nat;
        j = j - 1;
        assert(so_far[j as int] == before[j as int]);
        let d: u8 = ds[j] * 2 + carry;
        carry = if d >= 10 {
            1
        } else {
            0
        };
        let left: u8 = if d >= 10 {
            d - 10
        } else {
            d
        };
        ds.set(j, left);
        proof {
            let a = before.skip(j as int);
            let b = ds@.skip(j as int);
            lemma_value_first(a);
            lemma_value_first(b);
            assert(a.skip(1) =~= before.skip(j + 1));
            assert(b.skip(1) =~= so_far.skip(j + 1));
            let p = decimal::pow10((n - j - 1) as nat);
            let x = before[j as int] as nat;
            let y = left as nat;
            let c2 = carry as nat;
            assert(2 * (x * p) + c * p == c2 * (10 * p) + y * p) by (nonlinear_arith)
                requires
                    2 * x + c == 10 * c2 + y,
            ;
            assert(decimal::pow10((n - j) as nat) == 10 * p);
        }
    }
    assert(before.skip(0) =~= before);
    assert(ds@.skip(0) =~= ds@);
    carry as u64
}

proof fn lemma_pow2_sum(a: nat, b: nat)
    ensures
        pow2(a + b) == pow2(a) * pow2(b),
        pow2(a) > 0,
    decreases a,
{
    if a == 0 {
        assert(1 * pow2(b) == pow2(b));
    } else {
        lemma_pow2_sum((a - 1) as nat, b);
        let x = pow2((a - 1) as nat);
        let y = pow2(b);
        assert(2 * (x * y) == (2 * x) * y) by (nonlinear_arith);
        assert(pow2(a + b) == 2 * pow2((a + b - 1) as nat));
    }
}

proof fn lemma_pow2_grows(a: nat, b: nat)
    requires
        a <= b,
    ensures
        pow2(a) <= pow2(b),
{
    lemma_pow2_sum(a, (b - a) as nat);
    lemma_pow2_sum((b - a) as nat, 0);
    let x = pow2(a);
    let y = pow2((b - a) as nat);
    assert(x * y >= x) by (nonlinear_arith)
        requires
            y >= 1,
    ;
}

proof fn lemma_powers()
    ensures
        pow2(53) == 0x20_0000_0000_0000,
        pow2(54) == 0x40_0000_0000_0000,
        pow2(64) == 0x1_0000_0000_0000_0000,
{
    reveal_with_fuel(pow2, 12);
    assert(pow2(9) == 512 && pow2(10) == 1024 && pow2(11) == 2048);
    lemma_pow2_sum(11, 11);
    assert(pow2(22) == 0x40_0000);
    lemma_pow2_sum(22, 22);
    assert(pow2(44) == 0x1000_0000_0000);
    lemma_pow2_sum(9, 44);
    lemma_pow2_sum(10, 44);
    assert(pow2(54) == 0x40_0000_0000_0000);
    lemma_pow2_sum(10, 54);
}

proof fn lemma_bit_len(n: nat)
    ensures
        n < pow2(bit_len(n)),
        n > 0 ==> bit_len(n) > 0 && pow2((bit_len(n) - 1) as nat) <= n,
    decreases n,
{
    if n > 0 {
        lemma_bit_len(n / 2);
        if n / 2 == 0 {
            assert(n == 1);
            reveal_with_fuel(bit_len, 2);
            reveal_with_fuel(pow2, 2);
        }
    }
}

/// How many binary digits `n` takes.
fn bits_of(n: u64) -> (r: u32)
    ensures
        r == bit_len(n as nat),
        r <= 64,
{
    let mut rest: u64 = n;
    let mut r: u32 = 0;
    proof {
        lemma_bit_len(n as nat);
        lemma_powers();
        if bit_len(n as nat) > 64 {
            lemma_pow2_grows(64, (bit_len(n as nat) - 1) as nat);
        }
    }
    while rest > 0
        invariant
            r + bit_len(rest as nat) == bit_len(n as nat),
            bit_len(n as nat) <= 64,
        decreases rest,
    {
        rest = rest / 2;
        r = r + 1;
    }
    r
}

/// Two to the power `k`.
fn power_of_two(k: u32) -> (r: u64)
    requires
        k <= 54,
    ensures
        r == pow2(k as nat),
        1 <= r <= 0x40_0000_0000_0000,
{
    let mut r: u64 = 1;
    proof {
        lemma_powers();
    }
    for j in 0..k
        invariant
            k <= 54,
            r == pow2(j as nat),
            pow2(54) == 0x40_0000_0000_0000,
    {
        proof {
            lemma_pow2_grows(j as nat + 1, 54);
        }
        r = r * 2;
    }
    proof {
        lemma_pow2_grows(k as nat, 54);
        lemma_pow2_grows(0, k as nat);
    }
    r
}

/// The first `k` binary digits of the fraction that `ds` write, and the digits of
/// what is left.
fn leading_bits(ds: &mut Vec<u8>, k: u32) -> (b: u64)
    requires
        are_digits(old(ds)@),
        k <= 54,
    ensures
        are_digits(final(ds)@),
        final(ds)@.len() == old(ds)@.len(),
        b < pow2(k as nat),
        value(old(ds)@) * pow2(k as nat) == b * decimal::pow10(old(ds)@.len()) + value(final(ds)@),
{
    let ghost before = ds@;
    let ghost den = decimal::pow10(before.len());
    let mut b: u64 = 0;
    proof {
        lemma_powers();
        assert(value(before) * 1 == value(before));
    }
    for j in 0..k
        invariant
            k <= 54,
            are_digits(ds@),
            ds@.len() == before.len(),
            den == decimal::pow10(before.len()),
            b < pow2(j as nat),
            pow2(54) == 0x40_0000_0000_0000,
            value(before) * pow2(j as nat) == b * den + value(ds@),
    {
        let ghost r = value(ds@);
        let ghost b0 = b as nat;
        proof {
            lemma_pow2_grows(j as nat + 1, 54);
        }
        let carry: u64 = double_digits(ds);
        b = b * 2 + carry;
        proof {
            let v = value(before);
            let p = pow2(j as nat);
            let c = carry as nat;
            let left = value(ds@);
            assert(v * (2 * p) == (2 * b0 + c) * den + left) by (nonlinear_arith)
                requires
                    v * p == b0 * den + r,
                    2 * r == c * den + left,
            ;
        }
    }
    b
}

/// What [`near_even`] makes of a quotient `f` whose remainder is the fraction that
/// `ds` write.
fn round_even(f: u64, ds: &mut Vec<u8>) -> (q: u64)
    requires
        are_digits(old(ds)@),
        f < u64::MAX,
    ensures
        f <= q <= f + 1,
        forall|a: nat|
            #![trigger near_even(a, decimal::pow10(old(ds)@.len()))]
            a == f * decimal::pow10(old(ds)@.len()) + value(old(ds)@) ==> q == near_even(
                a,
                decimal::pow10(old(ds)@.len()),
            ),
{
    let ghost den = decimal::pow10(ds@.len());
    let ghost rest = value(ds@);
    let carry: u64 = double_digits(ds);
    proof {
        lemma_pow10_positive(ds@.len());
        lemma_value_small(ds@);
    }
    let zero: bool = is_zero(ds);
    let up: bool = carry == 1 && (!zero || f % 2 == 1);
    proof {
        assert(carry == 0 ==> carry * den == 0) by (nonlinear_arith);
        assert(carry == 1 ==> carry * den == den) by (nonlinear_arith);
        assert forall|a: nat| a == f * den + rest implies #[trigger] near_even(a, den) == if up {
            f + 1
        } else {
            f as int
        } by {
            assert(rest < den);
            lemma_fundamental_div_mod_converse(a as int, den as int, f as int, rest as int);
        }
    }
    if up {
        f + 1
    } else {
        f
    }
}

proof fn lemma_integer_part(i: nat, f: nat, den: nat)
    requires
        f < den,
    ensures
        (i * den + f) / den == i,
        2 * (i * den + f) >= den <==> i > 0 || 2 * f >= den,
        4 * (i * den + f) < den <==> i == 0 && 4 * f < den,
{
    let num = i * den + f;
    lemma_fundamental_div_mod_converse(num as int, den as int, i as int, f as int);
    if i > 0 {
        assert(i * den >= den) by (nonlinear_arith)
            requires
                i > 0,
        ;
    } else {
        assert(0 * den == 0);
    }
}

/// The double nearest to `i` and the fraction that `frac` write, where 53 binary
/// digits hold `i`, as a whole number.
fn fitting_double(i: u64, frac: &mut Vec<u8>, near: bool) -> (r: u64)
    requires
        are_digits(old(frac)@),
        bit_len(i as nat) <= 53,
    ensures
        ({
            let den = decimal::pow10(old(frac)@.len());
            r == double_whole(i as nat * den + value(old(frac)@), den, near)
        }),
{
    let ghost den = decimal::pow10(frac@.len());
    let ghost f = value(frac@);
    let ghost num = i as nat * den + f;
    proof {
        lemma_pow10_positive(frac@.len());
        lemma_value_small(frac@);
        lemma_integer_part(i as nat, f, den);
        lemma_powers();
        lemma_bit_len(i as nat);
    }
    let bits: u32 = bits_of(i);
    let k: u32 = if bits > 0 {
        53 - bits
    } else {
        let mut twice = frac.clone();
        assert(twice@ =~= frac@);
        let ghost first = value(twice@);
        let half: u64 = double_digits(&mut twice);
        let ghost second = value(twice@);
        proof {
            lemma_value_small(twice@);
            lemma_first_bit(first, den, half as nat, second);
        }
        let quarter: u64 = double_digits(&mut twice);
        proof {
            lemma_value_small(twice@);
            lemma_first_bit(second, den, quarter as nat, value(twice@));
        }
        if half == 1 {
            53
        } else if quarter == 1 {
            54
        } else {
            return 0;
        }
    };
    assert(k == fraction_bits(num, den));
    assert(4 * num >= den);
    let u: u64 = power_of_two(k);
    let b: u64 = leading_bits(frac, k);
    proof {
        let p = pow2(k as nat);
        if bits > 0 {
            lemma_pow2_sum(bits as nat, k as nat);
            assert(i * p <= (pow2(bits as nat) - 1) * p) by (nonlinear_arith)
                requires
                    i <= pow2(bits as nat) - 1,
            ;
            assert((pow2(bits as nat) - 1) * p == pow2(bits as nat) * p - p) by (nonlinear_arith);
        } else {
            assert(i * p == 0) by (nonlinear_arith)
                requires
                    i == 0,
            ;
            lemma_pow2_grows(k as nat, 54);
        }
    }
    let whole: u64 = i * u + b;
    let ghost rest = value(frac@);
    proof {
        let p = u as nat;
        let i = i as nat;
        let b = b as nat;
        assert(num * p == (i * p + b) * den + rest) by (nonlinear_arith)
            requires
                num == i * den + f,
                f * p == b * den + rest,
        ;
    }
    let q: u64 = round_even(whole, frac);
    assert(q == near_even(num * u as nat, den));
    if near {
        (2 * q + u) / (2 * u)
    } else {
        q / u
    }
}

proof fn lemma_first_bit(f: nat, den: nat, carry: nat, left: nat)
    requires
        carry <= 1,
        left < den,
        2 * f == carry * den + left,
    ensures
        carry == 1 <==> 2 * f >= den,
        carry == 0 ==> left == 2 * f,
{
    assert(carry == 0 ==> carry * den == 0) by (nonlinear_arith);
    assert(carry == 1 ==> carry * den == den) by (nonlinear_arith);
}

/// A quotient of `a` by `b` and what is left, where `a` is `f` times `b` and `rest`.
proof fn lemma_quotient(a: nat, b: nat, f: nat, rest: nat)
    requires
        a == f * b + rest,
        rest < b,
    ensures
        a / b == f,
        a % b == rest,
{
    lemma_fundamental_div_mod_converse(a as int, b as int, f as int, rest as int);
}

/// Where `i` is `q` times `g` and `r`, so is `i` with a fraction, and the fraction
/// adds to what is left.
proof fn lemma_coarse(i: nat, f: nat, den: nat, g: nat, q: nat, r: nat)
    requires
        i == q * g + r,
        r < g,
        f < den,
    ensures
        (i * den + f) / (den * g) == q,
        (i * den + f) % (den * g) == r * den + f,
{
    let num = i * den + f;
    assert(num == q * (den * g) + (r * den + f)) by (nonlinear_arith)
        requires
            num == i * den + f,
            i == q * g + r,
    ;
    assert(r * den + f < den * g) by (nonlinear_arith)
        requires
            r <= g - 1,
            f < den,
    ;
    lemma_quotient(num, den * g, q, r * den + f);
}

/// How twice `r` and a fraction compare with `2 * half`.
proof fn lemma_halves(r: nat, half: nat, f: nat, den: nat)
    requires
        f < den,
    ensures
        r < half ==> 2 * (r * den + f) < den * (2 * half),
        r > half ==> 2 * (r * den + f) > den * (2 * half),
        r == half ==> 2 * (r * den + f) == den * (2 * half) + 2 * f,
{
    assert(r < half ==> r * den + f < half * den) by (nonlinear_arith)
        requires
            f < den,
    ;
    assert(r > half ==> r * den >= half * den + den) by (nonlinear_arith);
    assert(2 * (half * den) == den * (2 * half)) by (nonlinear_arith);
}

/// The double nearest to `i` and the fraction that `frac` write, where `i` takes more
/// than 53 binary digits.
fn large_double(i: u64, frac: &Vec<u8>, near: bool) -> (r: u64)
    requires
        are_digits(frac@),
        bit_len(i as nat) > 53,
    ensures
        ({
            let den = decimal::pow10(frac@.len());
            r == decimal::capped(double_whole(i as nat * den + value(frac@), den, near))
        }),
{
    let ghost den = decimal::pow10(frac@.len());
    let ghost f = value(frac@);
    proof {
        lemma_pow10_positive(frac@.len());
        lemma_value_small(frac@);
        lemma_integer_part(i as nat, f, den);
    }
    let bits: u32 = bits_of(i);
    let g: u64 = power_of_two(bits - 53);
    let half: u64 = power_of_two(bits - 54);
    assert(g == 2 * half);
    let q: u64 = i / g;
    let left: u64 = i % g;
    let zero: bool = is_zero(frac);
    let up: bool = left > half || (left == half && (!zero || q % 2 == 1));
    proof {
        assert(i == q * g + left) by (nonlinear_arith)
            requires
                q == i / g,
                left == i % g,
                g > 0,
        ;
        assert(i > 0);
        lemma_coarse(i as nat, f, den, g as nat, q as nat, left as nat);
        lemma_halves(left as nat, half as nat, f, den);
    }
    let rounded: u128 = if up {
        q as u128 + 1
    } else {
        q as u128
    };
    assert(rounded == near_even(i as nat * den + f, den * g as nat));
    assert(rounded * g <= 0x1_0000_0000_0000_0000 * 0x40_0000_0000_0000) by (nonlinear_arith)
        requires
            rounded <= 0x1_0000_0000_0000_0000,
            g <= 0x40_0000_0000_0000,
    ;
    let whole: u128 = rounded * (g as u128);
    if whole > 0xffff_ffff_ffff_ffff {
        u64::MAX
    } else {
        whole as u64
    }
}

proof fn lemma_at_least(a: nat, b: nat, c: nat)
    requires
        a >= c * b,
        b > 0,
    ensures
        a / b >= c,
{
    vstd::arithmetic::div_mod::lemma_div_is_ordered((c * b) as int, a as int, b as int);
    lemma_quotient(c * b, b, c, 0);
}

/// A number that no `u64` holds, or only the highest, becomes one that none holds.
proof fn lemma_high(v: nat, f: nat, den: nat, near: bool)
    requires
        v >= u64::MAX,
        f < den,
    ensures
        double_whole(v * den + f, den, near) > u64::MAX,
{
    let num = v * den + f;
    let n = bit_len(v);
    lemma_integer_part(v, f, den);
    lemma_bit_len(v);
    lemma_powers();
    if n < 64 {
        lemma_pow2_grows(n, 63);
        assert(pow2(64) == 2 * pow2(63));
    }
    let g = pow2((n - 53) as nat);
    if n == 64 {
        reveal_with_fuel(pow2, 12);
        assert(g == 2048);
        assert(v == 0x1f_ffff_ffff_ffff * 2048 + 2047);
        lemma_coarse(v, f, den, 2048, 0x1f_ffff_ffff_ffff, 2047);
        lemma_halves(2047, 1024, f, den);
    } else {
        lemma_pow2_sum(52, (n - 53) as nat);
        lemma_pow2_sum((n - 53) as nat, 0);
        lemma_pow2_grows(64, (n - 1) as nat);
        let c = pow2(52);
        assert(num >= c * (den * g)) by (nonlinear_arith)
            requires
                num >= v * den,
                v >= c * g,
        ;
        assert(den * g > 0) by (nonlinear_arith)
            requires
                den > 0,
                g > 0,
        ;
        lemma_at_least(num, den * g, c);
        let q = near_even(num, den * g);
        assert(q * g >= c * g) by (nonlinear_arith)
            requires
                q >= c,
        ;
    }
}

/// The double nearest to a number as a whole number up to the highest value there is:
/// the nearest, half up, where `near`, otherwise the next lower. `i` is the whole part
/// of the number, up to the highest value, and `frac` are the digits of its fraction.
pub fn double_number(i: u64, frac: &mut Vec<u8>, near: bool) -> (r: u64)
    requires
        are_digits(old(frac)@),
    ensures
        forall|v: nat|
            i == #[trigger] decimal::capped(v) ==> r == decimal::capped(
                double_whole(
                    v * decimal::pow10(old(frac)@.len()) + value(old(frac)@),
                    decimal::pow10(old(frac)@.len()),
                    near,
                ),
            ),
{
    let ghost den = decimal::pow10(frac@.len());
    let ghost f = value(frac@);
    proof {
        lemma_value_small(frac@);
    }
    if i == u64::MAX {
        proof {
            assert forall|v: nat| i == #[trigger] decimal::capped(v) implies u64::MAX
                == decimal::capped(double_whole(v * den + f, den, near)) by {
                lemma_high(v, f, den, near);
            }
        }
        return u64::MAX;
    }
    let bits: u32 = bits_of(i);
    proof {
        assert forall|v: nat| i == #[trigger] decimal::capped(v) implies v == i by {}
    }
    if bits <= 53 {
        fitting_double(i, frac, near)
    } else {
        large_double(i, frac, near)
    }
}

/// A double holds every whole number that 53 binary digits write, and gives it back.
pub proof fn law_doubles_hold_integers(n: nat, near: bool)
    requires
        n < pow2(53),
    ensures
        double_whole(n, 1, near) == n,
{
    lemma_bit_len(n);
    if n > 0 {
        if bit_len(n) > 53 {
            lemma_pow2_grows(53, (bit_len(n) - 1) as nat);
        }
        assert(n / 1 == n);
        let u = pow2(fraction_bits(n, 1));
        lemma_pow2_sum(fraction_bits(n, 1), 0);
        let q = n * u;
        assert(q / 1 == q && q % 1 == 0);
        assert(near_even(q, 1) == q);
        lemma_quotient(q, u, n, 0);
        assert(2 * q + u == n * (2 * u) + u) by (nonlinear_arith)
            requires
                q == n * u,
        ;
        lemma_quotient(2 * q + u, 2 * u, n, u);
    }
}

} // verus!
