//! Amounts of coin, counted in satoshis.
//!
//! The node writes an amount as a decimal number of whole coins, and a JSON
//! library may write the same number with an exponent. Here such a text is
//! read into the number of satoshis it stands for, exactly, with integer
//! arithmetic only: a text that stands for a fraction of a satoshi, or for
//! more satoshis than 64 bits hold, is no amount.

use vstd::prelude::*;
use vstd::string::StrSliceExecFns;

verus! {

/// The number of satoshis in one coin.
pub const SATS_PER_COIN: u64 = 100_000_000;

/// The number of decimal places that a coin has.
pub const PLACES: usize = 8;

pub open spec fn is_digit(c: char) -> bool {
    '0' <= c && c <= '9'
}

pub open spec fn digit_value(c: char) -> nat {
    (c as u32 - 48) as nat
}

/// The number that a sequence of decimal digits writes, the first digit
/// counting most.
pub open spec fn digits_value(s: Seq<char>) -> nat
    decreases s.len(),
{
    if s.len() == 0 {
        0
    } else {
        digits_value(s.drop_last()) * 10 + digit_value(s.last())
    }
}

/// Where the run of digits that starts at `from` ends.
pub open spec fn digit_run(s: Seq<char>, from: int) -> int
    decreases s.len() - from,
{
    if 0 <= from < s.len() && is_digit(s[from]) {
        digit_run(s, from + 1)
    } else {
        from
    }
}

/// `n` zeros.
pub open spec fn zeros(n: nat) -> Seq<char> {
    Seq::new(n, |i: int| '0')
}

pub open spec fn all_zeros(s: Seq<char>) -> bool {
    forall|i: int| 0 <= i < s.len() ==> s[i] == '0'
}

/// The whole number that `digits` write when the decimal point stands
/// `point` places from their left end, zeros filling the places that the
/// digits do not reach. Nothing where a digit other than zero stands right
/// of the point, or where the number is beyond 64 bits.
pub open spec fn point_value(digits: Seq<char>, point: int) -> Option<u64> {
    let len = digits.len() as int;
    let left = if point <= 0 {
        Seq::<char>::empty()
    } else if point <= len {
        digits.subrange(0, point)
    } else {
        digits + zeros((point - len) as nat)
    };
    let right = if point <= 0 {
        digits
    } else if point <= len {
        digits.subrange(point, len)
    } else {
        Seq::<char>::empty()
    };
    if all_zeros(right) && digits_value(left) <= u64::MAX {
        Some(digits_value(left) as u64)
    } else {
        None
    }
}

/// The digits of a number whose whole part is `s[0..p]` and whose places are
/// `s[f..q]`.
pub open spec fn mantissa(s: Seq<char>, p: int, f: int, q: int) -> Seq<char> {
    s.subrange(0, p) + s.subrange(f, q)
}

/// The satoshis that a decimal text of coins stands for.
///
/// The text is one or more digits; then, if at all, a point and one or more
/// digits; then, if at all, `e` or `E`, a sign if any, and one or more
/// digits. Its value in coins, times a hundred million, must be a whole
/// number that 64 bits hold. Any other text stands for nothing.
pub open spec fn amount_of_text(s: Seq<char>) -> Option<u64> {
    let p = digit_run(s, 0);
    let f = if p < s.len() && s[p] == '.' {
        p + 1
    } else {
        p
    };
    let q = if f > p {
        digit_run(s, f)
    } else {
        p
    };
    if p == 0 || (f > p && q == f) {
        None
    } else if q == s.len() {
        point_value(mantissa(s, p, f, q), p + PLACES)
    } else if s[q] != 'e' && s[q] != 'E' {
        None
    } else {
        let signed = q + 1 < s.len() && (s[q + 1] == '-' || s[q + 1] == '+');
        let down = q + 1 < s.len() && s[q + 1] == '-';
        let x = if signed {
            q + 2
        } else {
            q + 1
        };
        let y = digit_run(s, x);
        if y != s.len() || y == x {
            None
        } else if down {
            point_value(mantissa(s, p, f, q), p + PLACES - digits_value(s.subrange(x, y)))
        } else {
            point_value(mantissa(s, p, f, q), p + PLACES + digits_value(s.subrange(x, y)))
        }
    }
}

/// Ten to the power `n`.
pub open spec fn pow10(n: nat) -> nat
    decreases n,
{
    if n == 0 {
        1
    } else {
        10 * pow10((n - 1) as nat)
    }
}

proof fn lemma_pow10_twenty()
    ensures
        pow10(20) > u64::MAX,
{
    reveal_with_fuel(pow10, 22);
}

/// One more zero at the end makes the number ten times as large.
pub proof fn lemma_zero_appended(d: Seq<char>, j: nat)
    ensures
        digits_value(d + zeros(j + 1)) == 10 * digits_value(d + zeros(j)),
{
    let longer = d + zeros(j + 1);
    assert(longer.drop_last() =~= d + zeros(j));
    assert(longer.last() == '0');
}

/// With more zeros at the end a number does not get smaller; zero stays
/// zero, and any other number grows by the powers of ten.
pub proof fn lemma_zeros_appended(d: Seq<char>, j: nat, k: nat)
    requires
        j <= k,
    ensures
        digits_value(d + zeros(j)) <= digits_value(d + zeros(k)),
        digits_value(d + zeros(j)) == 0 ==> digits_value(d + zeros(k)) == 0,
        digits_value(d + zeros(j)) >= 1 ==> digits_value(d + zeros(k)) >= pow10((k - j) as nat),
    decreases k - j,
{
    if j < k {
        lemma_zeros_appended(d, j, (k - 1) as nat);
        lemma_zero_appended(d, (k - 1) as nat);
    }
}

/// The number of two runs of digits joined: the first counts by the power of
/// ten that the length of the second gives.
pub proof fn lemma_digits_joined(a: Seq<char>, b: Seq<char>)
    ensures
        digits_value(a + b) == digits_value(a) * pow10(b.len()) + digits_value(b),
    decreases b.len(),
{
    if b.len() == 0 {
        assert(a + b =~= a);
    } else {
        let front = b.drop_last();
        lemma_digits_joined(a, front);
        assert((a + b).drop_last() =~= a + front);
        assert((a + b).last() == b.last());
        let va = digits_value(a);
        let vf = digits_value(front);
        let pf = pow10(front.len());
        let last = digit_value(b.last());
        assert(pow10(b.len()) == 10 * pf);
        assert((va * pf + vf) * 10 + last == va * (10 * pf) + (vf * 10 + last))
            by (nonlinear_arith);
    }
}

/// A run of digits that starts at `from` ends at `to` where everything
/// between is a digit and what stands at `to` is none.
pub proof fn lemma_digit_run_ends(s: Seq<char>, from: int, to: int)
    requires
        0 <= from <= to <= s.len(),
        forall|i: int| from <= i < to ==> is_digit(#[trigger] s[i]),
        to == s.len() || !is_digit(s[to]),
    ensures
        digit_run(s, from) == to,
    decreases to - from,
{
    if from < to {
        lemma_digit_run_ends(s, from + 1, to);
    }
}

/// Far right of the digits, the place of the point no longer matters: the
/// number is zero, or it is beyond 64 bits.
proof fn lemma_far_points_agree(d: Seq<char>, a: int, b: int)
    requires
        a > d.len() + 20,
        b > d.len() + 20,
    ensures
        point_value(d, a) == point_value(d, b),
{
    let len = d.len() as int;
    assert(d + zeros(0) =~= d);
    lemma_zeros_appended(d, 0, 20);
    lemma_zeros_appended(d, 0, (a - len) as nat);
    lemma_zeros_appended(d, 0, (b - len) as nat);
    lemma_zeros_appended(d, 20, (a - len) as nat);
    lemma_zeros_appended(d, 20, (b - len) as nat);
    lemma_pow10_twenty();
}

fn digit_of(c: char) -> (r: Option<u64>)
    ensures
        r is Some <==> is_digit(c),
        is_digit(c) ==> r == Some(digit_value(c) as u64) && digit_value(c) <= 9,
        r == Some(0u64) <==> c == '0',
{
    if '0' <= c && c <= '9' {
        let v: u32 = c as u32 - 48;
        Some(v as u64)
    } else {
        None
    }
}

/// Reads the run of digits of `s` that starts at `from`: where it ends, and
/// its value where 128 bits hold it.
fn scan_digits(s: &str, n: usize, from: usize) -> (r: (usize, Option<u128>))
    requires
        n == s@.len(),
        from <= n,
    ensures
        r.0 == digit_run(s@, from as int),
        from <= r.0 <= n,
        forall|i: int| from <= i < r.0 ==> is_digit(#[trigger] s@[i]),
        r.1 == (if digits_value(s@.subrange(from as int, r.0 as int)) <= u128::MAX {
            Some(digits_value(s@.subrange(from as int, r.0 as int)) as u128)
        } else {
            None
        }),
{
    let mut i: usize = from;
    let mut acc: u128 = 0;
    let mut over: bool = false;
    while i < n
        invariant
            n == s@.len(),
            from <= i <= n,
            digit_run(s@, from as int) == digit_run(s@, i as int),
            forall|j: int| from <= j < i ==> is_digit(#[trigger] s@[j]),
            !over ==> acc == digits_value(s@.subrange(from as int, i as int)),
            over ==> digits_value(s@.subrange(from as int, i as int)) > u128::MAX,
        decreases n - i,
    {
        let c = s.get_char(i);
        match digit_of(c) {
            None => {
                return (i, if over { None } else { Some(acc) });
            },
            Some(d) => {
                proof {
                    let next = s@.subrange(from as int, i + 1);
                    assert(next.drop_last() =~= s@.subrange(from as int, i as int));
                    assert(next.last() == c);
                }
                if !over && acc <= (u128::MAX - d as u128) / 10 {
                    acc = acc * 10 + d as u128;
                } else {
                    over = true;
                }
                i = i + 1;
            },
        }
    }
    (i, if over { None } else { Some(acc) })
}

/// The digit at place `k` of the number whose whole part is `s[0..p]` and
/// whose places are `s[f..q]`.
fn mantissa_digit(s: &str, p: usize, f: usize, q: usize, k: usize) -> (d: u64)
    requires
        p <= f <= q <= s@.len(),
        k < p + (q - f),
        forall|i: int| 0 <= i < p ==> is_digit(#[trigger] s@[i]),
        forall|i: int| f <= i < q ==> is_digit(#[trigger] s@[i]),
    ensures
        d == digit_value(mantissa(s@, p as int, f as int, q as int)[k as int]),
        d <= 9,
        d == 0 <==> mantissa(s@, p as int, f as int, q as int)[k as int] == '0',
{
    let c = if k < p {
        s.get_char(k)
    } else {
        s.get_char(f + (k - p))
    };
    match digit_of(c) {
        Some(d) => d,
        None => 0,
    }
}

/// Reads the digits of a number with the decimal point `point` places from
/// their left end. Takes as many steps as there are digits and places up to
/// the point.
fn read_at_point(s: &str, p: usize, f: usize, q: usize, point: i128) -> (r: Option<u64>)
    requires
        p <= f <= q <= s@.len(),
        forall|i: int| 0 <= i < p ==> is_digit(#[trigger] s@[i]),
        forall|i: int| f <= i < q ==> is_digit(#[trigger] s@[i]),
    ensures
        r == point_value(mantissa(s@, p as int, f as int, q as int), point as int),
{
    let ghost d = mantissa(s@, p as int, f as int, q as int);
    let len: usize = p + (q - f);
    let cut: usize = if point <= 0 {
        0
    } else if point <= len as i128 {
        point as usize
    } else {
        len
    };
    let mut acc: u64 = 0;
    let mut over: bool = false;
    let mut k: usize = 0;
    while k < cut
        invariant
            k <= cut <= len,
            len == d.len(),
            d == mantissa(s@, p as int, f as int, q as int),
            p <= f <= q <= s@.len(),
            len == p + (q - f),
            forall|i: int| 0 <= i < p ==> is_digit(#[trigger] s@[i]),
            forall|i: int| f <= i < q ==> is_digit(#[trigger] s@[i]),
            !over ==> acc == digits_value(d.subrange(0, k as int)),
            over ==> digits_value(d.subrange(0, k as int)) > u64::MAX,
        decreases cut - k,
    {
        let v = mantissa_digit(s, p, f, q, k);
        proof {
            assert(d.subrange(0, k + 1).drop_last() =~= d.subrange(0, k as int));
        }
        if !over && acc <= (u64::MAX - v) / 10 {
            acc = acc * 10 + v;
        } else {
            over = true;
        }
        k = k + 1;
    }
    while k < len
        invariant
            cut <= k <= len,
            len == d.len(),
            d == mantissa(s@, p as int, f as int, q as int),
            p <= f <= q <= s@.len(),
            len == p + (q - f),
            forall|i: int| 0 <= i < p ==> is_digit(#[trigger] s@[i]),
            forall|i: int| f <= i < q ==> is_digit(#[trigger] s@[i]),
            forall|i: int| cut <= i < k ==> d[i] == '0',
            point <= 0 ==> cut == 0,
            0 < point <= len ==> cut == point,
            point > len ==> cut == len,
        decreases len - k,
    {
        let v = mantissa_digit(s, p, f, q, k);
        if v != 0 {
            proof {
                if point <= 0 {
                    assert(d[k as int] != '0');
                    assert(!all_zeros(d));
                } else {
                    let right = d.subrange(cut as int, len as int);
                    assert(right[k - cut] == d[k as int]);
                    assert(!all_zeros(right));
                }
            }
            return None;
        }
        k = k + 1;
    }
    proof {
        let right = d.subrange(cut as int, len as int);
        assert forall|i: int| 0 <= i < right.len() implies right[i] == '0' by {
            assert(right[i] == d[cut + i]);
        }
        assert(all_zeros(right));
        assert(d.subrange(0, len as int) =~= d);
        assert(d + zeros(0) =~= d);
        assert(all_zeros(Seq::<char>::empty()));
        if point <= 0 {
            assert(d.subrange(0, len as int) =~= d);
        }
    }
    let mut j: i128 = 0;
    let pad: i128 = if point > len as i128 {
        point - len as i128
    } else {
        0
    };
    while j < pad
        invariant
            0 <= j <= pad,
            pad > 0 ==> cut == len,
            pad > 0 ==> pad == point - len,
            len == d.len(),
            !over ==> acc == digits_value(
                if pad > 0 {
                    d + zeros(j as nat)
                } else {
                    d.subrange(0, cut as int)
                },
            ),
            over ==> digits_value(
                if pad > 0 {
                    d + zeros(j as nat)
                } else {
                    d.subrange(0, cut as int)
                },
            ) > u64::MAX,
        decreases pad - j,
    {
        proof {
            lemma_zero_appended(d, j as nat);
        }
        if !over && acc <= u64::MAX / 10 {
            acc = acc * 10;
        } else {
            over = true;
        }
        j = j + 1;
    }
    if over {
        None
    } else {
        Some(acc)
    }
}

/// Reads a decimal amount of coins into satoshis.
pub fn parse_amount(text: &str) -> (r: Option<u64>)
    ensures
        r == amount_of_text(text@),
{
    let n = text.unicode_len();
    let (p, _) = scan_digits(text, n, 0);
    if p == 0 {
        return None;
    }
    let mut f: usize = p;
    let mut q: usize = p;
    if p < n && text.get_char(p) == '.' {
        f = p + 1;
        let (end, _) = scan_digits(text, n, f);
        q = end;
        if q == f {
            return None;
        }
    }
    let len: usize = p + (q - f);
    let base: i128 = p as i128 + 8;
    if q == n {
        return read_at_point(text, p, f, q, base);
    }
    let mark = text.get_char(q);
    if mark != 'e' && mark != 'E' {
        return None;
    }
    let mut x: usize = q + 1;
    let mut down: bool = false;
    if x < n {
        let sign = text.get_char(x);
        if sign == '-' || sign == '+' {
            down = sign == '-';
            x = x + 1;
        }
    }
    let (y, power) = scan_digits(text, n, x);
    if y != n || y == x {
        return None;
    }
    // Beyond this the point is left of all digits, or far right of them.
    let far: u128 = 0x1_0000_0000_0000_0000_0000;
    let near: Option<i128> = match power {
        Some(e) => if e < far {
            Some(e as i128)
        } else {
            None
        },
        None => None,
    };
    let ghost d = mantissa(text@, p as int, f as int, q as int);
    let ghost shift = digits_value(text@.subrange(x as int, y as int)) as int;
    let beyond: i128 = len as i128 + 21;
    match near {
        Some(e) => {
            if down {
                read_at_point(text, p, f, q, base - e)
            } else if base + e > beyond {
                proof {
                    lemma_far_points_agree(d, base + e, beyond as int);
                }
                read_at_point(text, p, f, q, beyond)
            } else {
                read_at_point(text, p, f, q, base + e)
            }
        },
        None => {
            if down {
                read_at_point(text, p, f, q, 0)
            } else {
                proof {
                    lemma_far_points_agree(d, base + shift, beyond as int);
                }
                read_at_point(text, p, f, q, beyond)
            }
        },
    }
}

} // verus!
