//! Decimal numbers, read as doubles and made whole.

use crate::double;
use crate::text;
use vstd::prelude::*;

verus! {

/// Ten to the power `k`.
pub open spec fn pow10(k: nat) -> nat
    decreases k,
{
    if k == 0 {
        1
    } else {
        10 * pow10((k - 1) as nat)
    }
}

/// The double nearest to the digits `ds` with the decimal point behind the first `p`
/// of them, as a whole number: the nearest, half up, where `near`, otherwise the next
/// lower.
pub open spec fn whole_at(ds: Seq<char>, p: int, near: bool) -> nat {
    if p < 0 {
        0
    } else if p <= ds.len() {
        double::double_whole(text::digits_value(ds), pow10((ds.len() - p) as nat), near)
    } else {
        double::double_whole(text::digits_value(ds) * pow10((p - ds.len()) as nat), 1, near)
    }
}

/// Whether `s` is decimal digits only.
pub open spec fn all_digits(s: Seq<char>) -> bool {
    forall|i: int| 0 <= i < s.len() ==> text::is_digit(#[trigger] s[i])
}

/// A sign at the front of `s`, and the rest: whether it is a minus.
pub open spec fn signed(s: Seq<char>) -> (bool, Seq<char>) {
    if s.len() > 0 && s[0] == '-' {
        (true, s.skip(1))
    } else if s.len() > 0 && s[0] == '+' {
        (false, s.skip(1))
    } else {
        (false, s)
    }
}

/// The first position of an exponent mark in `s`.
pub open spec fn exponent_mark(s: Seq<char>) -> Option<int>
    decreases s.len(),
{
    if s.len() == 0 {
        None
    } else if s[0] == 'e' || s[0] == 'E' {
        Some(0)
    } else {
        match exponent_mark(s.skip(1)) {
            Some(i) => Some(i + 1),
            None => None,
        }
    }
}

/// The exponent that `s` writes: digits behind an optional sign.
pub open spec fn exponent(s: Seq<char>) -> Option<int> {
    let (minus, d) = signed(s);
    if d.len() > 0 && all_digits(d) {
        Some(
            if minus {
                -(text::digits_value(d) as int)
            } else {
                text::digits_value(d) as int
            },
        )
    } else {
        None
    }
}

/// The number that the digits `mantissa`, with at most one point, and an
/// exponent write, as a whole number.
pub open spec fn mantissa_whole(mantissa: Seq<char>, exp: int, near: bool) -> Option<nat> {
    let (whole, fraction) = match text::char_index(mantissa, '.') {
        Some(i) => (mantissa.take(i), mantissa.skip(i + 1)),
        None => (mantissa, Seq::empty()),
    };
    let ds = whole + fraction;
    if ds.len() > 0 && all_digits(ds) {
        Some(whole_at(ds, whole.len() + exp, near))
    } else {
        None
    }
}

/// The unsigned decimal number that `s` writes, as a whole number.
pub open spec fn unsigned_whole(s: Seq<char>, near: bool) -> Option<nat> {
    match exponent_mark(s) {
        Some(i) => match exponent(s.skip(i + 1)) {
            Some(e) => mantissa_whole(s.take(i), e, near),
            None => None,
        },
        None => mantissa_whole(s, 0, near),
    }
}

/// The double nearest to the decimal number that `s` writes, as a whole number from 0
/// on: the nearest where `near`, otherwise the next lower; none where `s` writes no
/// number.
pub open spec fn decimal_whole(s: Seq<char>, near: bool) -> Option<nat> {
    let (minus, body) = signed(s);
    match unsigned_whole(body, near) {
        Some(n) => Some(
            if minus {
                0
            } else {
                n
            },
        ),
        None => None,
    }
}

/// `n`, or the highest value there is where it is higher.
pub open spec fn capped(n: nat) -> u64 {
    if n > u64::MAX {
        u64::MAX
    } else {
        n as u64
    }
}

fn step(acc: u64, d: u64) -> (r: u64)
    requires
        d <= 9,
    ensures
        forall|v: nat| acc == #[trigger] capped(v) ==> r == capped(10 * v + d as nat),
{
    if acc > (u64::MAX - d) / 10 {
        u64::MAX
    } else {
        acc * 10 + d
    }
}

/// Whether `s` is decimal digits only.
fn is_all_digits(s: &Vec<char>) -> (r: bool)
    ensures
        r == all_digits(s@),
{
    for i in 0..s.len()
        invariant
            forall|j: int| 0 <= j < i ==> text::is_digit(#[trigger] s@[j]),
    {
        if !('0' <= s[i] && s[i] <= '9') {
            return false;
        }
    }
    true
}

fn prefix_value(ds: &Vec<char>, n: usize) -> (r: u64)
    requires
        all_digits(ds@),
        n <= ds@.len(),
    ensures
        r == capped(text::digits_value(ds@.take(n as int))),
{
    let mut acc: u64 = 0;
    for i in 0..n
        invariant
            all_digits(ds@),
            n <= ds@.len(),
            acc == capped(text::digits_value(ds@.take(i as int))),
    {
        assert(ds@.take(i as int + 1).drop_last() =~= ds@.take(i as int));
        assert(text::is_digit(ds@[i as int]));
        let d: u64 = (ds[i] as u8 - 48) as u64;
        acc = step(acc, d);
    }
    acc
}

proof fn lemma_pow10_large(k: nat)
    requires
        k >= 20,
    ensures
        pow10(k) > u64::MAX,
    decreases k,
{
    if k == 20 {
        reveal_with_fuel(pow10, 21);
    } else {
        lemma_pow10_large((k - 1) as nat);
    }
}

proof fn lemma_times(v: nat, k: nat)
    ensures
        v * pow10(k + 1) == (10 * v) * pow10(k),
        v * pow10(0) == v,
        0 * pow10(k) == 0,
        v > 0 ==> v * pow10(k) >= pow10(k),
{
    let p = pow10(k);
    assert(v * (10 * p) == (10 * v) * p) by (nonlinear_arith);
    assert(v > 0 ==> v * p >= p) by (nonlinear_arith);
    assert(v * 1 == v);
}

proof fn lemma_grows(v: nat, k: nat)
    requires
        v > u64::MAX,
    ensures
        v * pow10(k) > u64::MAX,
    decreases k,
{
    lemma_times(v, k);
    if k > 0 {
        lemma_times(v, (k - 1) as nat);
        lemma_grows(10 * v, (k - 1) as nat);
    }
}

/// `acc`, which is some number up to the highest value, times ten to the power
/// `k`, up to the highest value.
fn times_pow10(acc: u64, k: u128) -> (r: u64)
    ensures
        forall|v: nat| acc == #[trigger] capped(v) ==> r == capped(v * pow10(k as nat)),
{
    let mut out: u64 = acc;
    let mut left: u128 = k;
    proof {
        assert forall|v: nat| acc == #[trigger] capped(v) implies out == capped(v) by {}
    }
    while left > 0 && out > 0 && out < u64::MAX
        invariant
            left <= k,
            forall|v: nat|
                acc == #[trigger] capped(v) ==> exists|w: nat|
                    out == #[trigger] capped(w) && w * pow10(left as nat) == v * pow10(k as nat),
        decreases left,
    {
        let ghost before = out;
        let next: u64 = step(out, 0);
        proof {
            assert forall|v: nat| acc == #[trigger] capped(v) implies exists|w: nat|
                next == #[trigger] capped(w) && w * pow10((left - 1) as nat) == v * pow10(k as nat) by {
                let w = choose|w: nat|
                    before == #[trigger] capped(w) && w * pow10(left as nat) == v * pow10(k as nat);
                lemma_times(w, (left - 1) as nat);
                assert(next == capped(10 * w + 0));
            }
        }
        out = next;
        left = left - 1;
    }
    proof {
        assert forall|v: nat| acc == #[trigger] capped(v) implies out == capped(
            v * pow10(k as nat),
        ) by {
            let w = choose|w: nat|
                out == #[trigger] capped(w) && w * pow10(left as nat) == v * pow10(k as nat);
            lemma_times(w, left as nat);
            if left > 0 {
                if out == 0 {
                    assert(w == 0);
                } else {
                    assert(w >= u64::MAX);
                    if w == u64::MAX {
                        lemma_times(w, (left - 1) as nat);
                        lemma_grows(10 * w, (left - 1) as nat);
                    } else {
                        lemma_grows(w, left as nat);
                    }
                }
            }
        }
    }
    out
}

/// A size of exponents that none in use comes near.
const FAR: u128 = 0x10_0000_0000_0000_0000_0000_0000;

/// An exponent: its sign, and its size up to [`FAR`].
struct Exponent {
    minus: bool,
    size: u128,
}

/// Whether `e` stands for the exponent `n`.
spec fn stands_for(e: Exponent, n: int) -> bool {
    let size = if e.minus {
        -n
    } else {
        n
    };
    &&& e.size <= FAR
    &&& e.size < FAR ==> size == e.size
    &&& e.size == FAR ==> size >= FAR
}

fn digits_size(ds: &Vec<char>) -> (r: u128)
    requires
        all_digits(ds@),
    ensures
        r <= FAR,
        r < FAR ==> text::digits_value(ds@) == r,
        r == FAR ==> text::digits_value(ds@) >= FAR,
{
    let mut acc: u128 = 0;
    for i in 0..ds.len()
        invariant
            all_digits(ds@),
            acc <= FAR,
            acc < FAR ==> text::digits_value(ds@.take(i as int)) == acc,
            acc == FAR ==> text::digits_value(ds@.take(i as int)) >= FAR,
    {
        assert(ds@.take(i as int + 1).drop_last() =~= ds@.take(i as int));
        assert(text::is_digit(ds@[i as int]));
        let d: u128 = (ds[i] as u8 - 48) as u128;
        let next: u128 = acc * 10 + d;
        acc = if next < FAR {
            next
        } else {
            FAR
        };
    }
    assert(ds@.take(ds@.len() as int) =~= ds@);
    acc
}

fn read_exponent(s: &str) -> (r: Option<Exponent>)
    ensures
        match exponent(s@) {
            Some(n) => r matches Some(e) && stands_for(e, n),
            None => r is None,
        },
{
    let (minus, body) = take_sign(s);
    let cs = text::chars_of(&body);
    if cs.len() == 0 || !is_all_digits(&cs) {
        return None;
    }
    Some(Exponent { minus, size: digits_size(&cs) })
}

pub(crate) fn take_sign(s: &str) -> (r: (bool, String))
    ensures
        (r.0, r.1@) == signed(s@),
{
    let cs = text::chars_of(s);
    if cs.len() > 0 && cs[0] == '-' {
        (true, text::skip(s, 1))
    } else if cs.len() > 0 && cs[0] == '+' {
        (false, text::skip(s, 1))
    } else {
        (false, text::copy(s))
    }
}

proof fn lemma_value_positive(ds: Seq<char>, n: int)
    requires
        0 <= n <= ds.len(),
    ensures
        n == ds.len() ==> ds.take(n) == ds,
{
    if n == ds.len() {
        assert(ds.take(n) =~= ds);
    }
}

fn mantissa_number(mantissa: &str, e: &Exponent, near: bool, Ghost(exp): Ghost<int>) -> (r: Option<u64>)
    requires
        stands_for(*e, exp),
    ensures
        r == (match mantissa_whole(mantissa@, exp, near) {
            Some(n) => Some(capped(n)),
            None => None,
        }),
{
    let point = text::find_char(mantissa, '.');
    let (whole, fraction) = match point {
        Some(i) => (text::take(mantissa, i), text::skip(mantissa, i + 1)),
        None => (text::copy(mantissa), String::new()),
    };
    let w: usize = text::chars_of(&whole).len();
    let all = text::concat2(&whole, &fraction);
    let ds = text::chars_of(&all);
    if ds.len() == 0 || !is_all_digits(&ds) {
        return None;
    }
    let value: u64 = prefix_value(&ds, ds.len());
    proof {
        lemma_value_positive(ds@, ds@.len() as int);
    }
    if e.minus {
        if e.size > w as u128 {
            return Some(0);
        }
        let p: usize = w - e.size as usize;
        return Some(whole_here(&ds, p, near));
    }
    let behind: u128 = (ds.len() - w) as u128;
    if e.size < behind {
        let p: usize = w + e.size as usize;
        return Some(whole_here(&ds, p, near));
    }
    let ghost k = (w + exp - ds@.len()) as nat;
    let i: u64 = if e.size == FAR {
        proof {
            lemma_times(text::digits_value(ds@), k);
            if value > 0 {
                lemma_pow10_large(k);
            }
        }
        if value == 0 {
            0
        } else {
            u64::MAX
        }
    } else {
        assert(k == (e.size - behind) as nat);
        times_pow10(value, e.size - behind)
    };
    let ghost v = text::digits_value(ds@) * pow10(k);
    proof {
        assert(i == capped(v));
        if k == 0 {
            lemma_times(text::digits_value(ds@), 0);
        }
    }
    Some(integer_here(i, near))
}

/// The double nearest to `i`, which is some number up to the highest value.
fn integer_here(i: u64, near: bool) -> (r: u64)
    ensures
        forall|v: nat|
            i == #[trigger] capped(v) ==> r == capped(double::double_whole(v, 1, near)),
{
    let mut none: Vec<u8> = Vec::new();
    proof {
        assert forall|v: nat| #[trigger] (v * pow10(none@.len()) + double::value(none@)) == v by {
            assert(pow10(0) == 1);
            assert(v * 1 == v);
        }
        assert(pow10(none@.len()) == 1);
    }
    double::double_number(i, &mut none, near)
}

proof fn lemma_split(ds: Seq<char>, p: int, frac: Seq<u8>)
    requires
        all_digits(ds),
        0 <= p <= ds.len(),
        frac.len() == ds.len() - p,
        forall|i: int| 0 <= i < frac.len() ==> #[trigger] frac[i] == ds[p + i] as u32 - 48,
    ensures
        text::digits_value(ds) == text::digits_value(ds.take(p)) * pow10(frac.len())
            + double::value(frac),
    decreases ds.len() - p,
{
    if p == ds.len() {
        assert(ds.take(p) =~= ds);
        lemma_times(text::digits_value(ds), 0);
    } else {
        let front = ds.drop_last();
        lemma_split(front, p, frac.drop_last());
        assert(front.take(p) =~= ds.take(p));
        let v = text::digits_value(ds.take(p));
        let q = pow10((frac.len() - 1) as nat);
        assert(10 * (v * q) == v * (10 * q)) by (nonlinear_arith);
        assert(frac.last() == ds.last() as u32 - 48);
    }
}

fn whole_here(ds: &Vec<char>, p: usize, near: bool) -> (r: u64)
    requires
        all_digits(ds@),
        p <= ds@.len(),
    ensures
        r == capped(whole_at(ds@, p as int, near)),
{
    let v: u64 = prefix_value(ds, p);
    let mut frac: Vec<u8> = Vec::new();
    for i in p..ds.len()
        invariant
            p <= i <= ds@.len(),
            all_digits(ds@),
            double::are_digits(frac@),
            frac@.len() == i - p,
            forall|k: int| 0 <= k < frac@.len() ==> #[trigger] frac@[k] == ds@[p + k] as u32 - 48,
    {
        assert(text::is_digit(ds@[i as int]));
        frac.push(ds[i] as u8 - 48);
    }
    proof {
        lemma_split(ds@, p as int, frac@);
    }
    double::double_number(v, &mut frac, near)
}

fn find_mark(s: &str) -> (r: Option<usize>)
    ensures
        match r {
            Some(i) => i < s@.len() && i < usize::MAX && exponent_mark(s@) == Some(i as int),
            None => exponent_mark(s@) is None,
        },
{
    let cs = text::chars_of(s);
    assert(cs@.skip(0) =~= cs@);
    for i in 0..cs.len()
        invariant
            cs@ == s@,
            exponent_mark(s@) == (match exponent_mark(s@.skip(i as int)) {
                Some(k) => Some(k + i),
                None => None,
            }),
    {
        assert(s@.skip(i as int)[0] == cs@[i as int]);
        assert(s@.skip(i as int).skip(1) =~= s@.skip(i as int + 1));
        if cs[i] == 'e' || cs[i] == 'E' {
            return Some(i);
        }
    }
    None
}

/// The double nearest to the decimal number that `s` writes, as a whole number from 0
/// up to the highest value there is: the nearest where `near`, otherwise the next
/// lower; none where `s` writes no number.
pub fn decimal_number(s: &str, near: bool) -> (r: Option<u64>)
    ensures
        r == (match decimal_whole(s@, near) {
            Some(n) => Some(capped(n)),
            None => None,
        }),
{
    let (minus, body) = take_sign(s);
    let n: Option<u64> = match find_mark(&body) {
        Some(i) => match read_exponent(&text::skip(&body, i + 1)) {
            Some(e) => mantissa_number(
                &text::take(&body, i),
                &e,
                near,
                Ghost(exponent(body@.skip(i as int + 1))->0),
            ),
            None => None,
        },
        None => mantissa_number(&body, &Exponent { minus: false, size: 0 }, near, Ghost(0int)),
    };
    match n {
        Some(v) => if minus {
            Some(0)
        } else {
            Some(v)
        },
        None => None,
    }
}

} // verus!
