//! The report on a payment: ten lines of plain text in a fixed order.
//!
//! Amounts are written in coins, as decimal numbers. An amount has as many
//! places as it needs and no point where it is a whole number of coins; the
//! fee always has eight places.

use vstd::prelude::*;
use vstd::string::StringExecFns;
use crate::amount::{
    amount_of_text, digit_run, digit_value, digits_value, is_digit, lemma_digit_run_ends,
    lemma_digits_joined, lemma_zero_appended, lemma_zeros_appended, mantissa, point_value, pow10,
    zeros, SATS_PER_COIN,
};
use crate::extract::{Extraction, ExtractionModel};

verus! {

/// The number of lines in a report.
pub const REPORT_LINES: usize = 10;

/// The character that writes the digit `d`.
pub open spec fn digit_char(d: nat) -> char {
    if d == 0 {
        '0'
    } else if d == 1 {
        '1'
    } else if d == 2 {
        '2'
    } else if d == 3 {
        '3'
    } else if d == 4 {
        '4'
    } else if d == 5 {
        '5'
    } else if d == 6 {
        '6'
    } else if d == 7 {
        '7'
    } else if d == 8 {
        '8'
    } else {
        '9'
    }
}

/// A number in decimal digits, without leading zeros.
pub open spec fn decimal_text(n: nat) -> Seq<char>
    decreases n,
{
    if n < 10 {
        seq![digit_char(n)]
    } else {
        decimal_text(n / 10).push(digit_char(n % 10))
    }
}

/// The last `k` decimal digits of a number, zeros in front where it has
/// fewer.
pub open spec fn places_text(n: nat, k: nat) -> Seq<char>
    decreases k,
{
    if k == 0 {
        Seq::empty()
    } else {
        places_text(n / 10, (k - 1) as nat).push(digit_char(n % 10))
    }
}

/// The last `k` decimal digits of a number without the zeros at their end.
pub open spec fn short_places_text(n: nat, k: nat) -> Seq<char>
    decreases k,
{
    if k == 0 {
        Seq::empty()
    } else if n % 10 == 0 {
        short_places_text(n / 10, (k - 1) as nat)
    } else {
        places_text(n, k)
    }
}

/// An amount of satoshis written in coins: the whole coins, and where the
/// amount is not a whole number of coins, a point and the places that are
/// needed.
pub open spec fn amount_text(sats: nat) -> Seq<char> {
    let whole = sats / (SATS_PER_COIN as nat);
    let part = sats % (SATS_PER_COIN as nat);
    if part == 0 {
        decimal_text(whole)
    } else {
        decimal_text(whole) + seq!['.'] + short_places_text(part, 8)
    }
}

/// A number of satoshis, a fee for one, written in coins with eight places,
/// a minus sign in front where it is negative.
pub open spec fn fixed_text(fee: int) -> Seq<char> {
    let size = if fee < 0 {
        (-fee) as nat
    } else {
        fee as nat
    };
    let sign = if fee < 0 {
        seq!['-']
    } else {
        Seq::<char>::empty()
    };
    sign + decimal_text(size / (SATS_PER_COIN as nat)) + seq!['.'] + places_text(
        size % (SATS_PER_COIN as nat),
        8,
    )
}

/// The lines of the report on a result, in their order.
pub open spec fn report_of(x: ExtractionModel) -> Seq<Seq<char>> {
    seq![
        x.txid,
        x.input_address,
        amount_text(x.input_amount as nat),
        x.recipient_address,
        amount_text(x.recipient_amount as nat),
        x.change_address,
        amount_text(x.change_amount as nat),
        fixed_text(x.fee),
        decimal_text(x.block_height as nat),
        x.block_hash,
    ]
}

/// The text of each line of a report.
pub open spec fn line_texts(lines: Seq<String>) -> Seq<Seq<char>> {
    Seq::new(lines.len(), |i: int| lines[i]@)
}

fn digit_text(d: u128) -> (r: &'static str)
    requires
        d < 10,
    ensures
        r@ == seq![digit_char(d as nat)],
{
    proof {
        reveal_strlit("0");
        reveal_strlit("1");
        reveal_strlit("2");
        reveal_strlit("3");
        reveal_strlit("4");
        reveal_strlit("5");
        reveal_strlit("6");
        reveal_strlit("7");
        reveal_strlit("8");
        reveal_strlit("9");
        assert("0"@ =~= seq!['0']);
        assert("1"@ =~= seq!['1']);
        assert("2"@ =~= seq!['2']);
        assert("3"@ =~= seq!['3']);
        assert("4"@ =~= seq!['4']);
        assert("5"@ =~= seq!['5']);
        assert("6"@ =~= seq!['6']);
        assert("7"@ =~= seq!['7']);
        assert("8"@ =~= seq!['8']);
        assert("9"@ =~= seq!['9']);
    }
    if d == 0 {
        "0"
    } else if d == 1 {
        "1"
    } else if d == 2 {
        "2"
    } else if d == 3 {
        "3"
    } else if d == 4 {
        "4"
    } else if d == 5 {
        "5"
    } else if d == 6 {
        "6"
    } else if d == 7 {
        "7"
    } else if d == 8 {
        "8"
    } else {
        "9"
    }
}

fn push_decimal(s: &mut String, n: u128)
    ensures
        final(s)@ == old(s)@ + decimal_text(n as nat),
    decreases n,
{
    if n >= 10 {
        push_decimal(s, n / 10);
    }
    s.append(digit_text(n % 10));
    proof {
        let d = seq![digit_char((n % 10) as nat)];
        if n >= 10 {
            assert(old(s)@ + decimal_text((n / 10) as nat) + d =~= old(s)@ + decimal_text(
                (n / 10) as nat,
            ).push(digit_char((n % 10) as nat)));
        }
    }
}

fn push_places(s: &mut String, n: u128, k: usize)
    ensures
        final(s)@ == old(s)@ + places_text(n as nat, k as nat),
    decreases k,
{
    if k > 0 {
        push_places(s, n / 10, k - 1);
        s.append(digit_text(n % 10));
        proof {
            let d = seq![digit_char((n % 10) as nat)];
            assert(old(s)@ + places_text((n / 10) as nat, (k - 1) as nat) + d =~= old(s)@
                + places_text((n / 10) as nat, (k - 1) as nat).push(digit_char((n % 10) as nat)));
        }
    } else {
        proof {
            assert(old(s)@ + Seq::<char>::empty() =~= old(s)@);
        }
    }
}

fn push_short_places(s: &mut String, n: u128, k: usize)
    ensures
        final(s)@ == old(s)@ + short_places_text(n as nat, k as nat),
    decreases k,
{
    if k == 0 {
        proof {
            assert(old(s)@ + Seq::<char>::empty() =~= old(s)@);
        }
    } else if n % 10 == 0 {
        push_short_places(s, n / 10, k - 1);
    } else {
        push_places(s, n, k);
    }
}

/// Writes an amount of satoshis in coins.
pub fn format_amount(sats: u64) -> (r: String)
    ensures
        r@ == amount_text(sats as nat),
{
    let whole = sats / SATS_PER_COIN;
    let part = sats % SATS_PER_COIN;
    let mut s = String::new();
    push_decimal(&mut s, whole as u128);
    if part != 0 {
        s.append(".");
        push_short_places(&mut s, part as u128, 8);
        proof {
            reveal_strlit(".");
            assert("."@ =~= seq!['.']);
        }
    }
    proof {
        assert(Seq::<char>::empty() + decimal_text(whole as nat) =~= decimal_text(whole as nat));
    }
    s
}

/// Writes a number of satoshis in coins, with eight places: the form of the
/// fee in a report.
pub fn format_fixed(fee: i128) -> (r: String)
    ensures
        r@ == fixed_text(fee as int),
{
    let mut s = String::new();
    let size: u128 = if fee < 0 {
        s.append("-");
        if fee == i128::MIN {
            170141183460469231731687303715884105728u128
        } else {
            (-fee) as u128
        }
    } else {
        fee as u128
    };
    proof {
        reveal_strlit("-");
        reveal_strlit(".");
        assert("-"@ =~= seq!['-']);
        assert("."@ =~= seq!['.']);
        assert(Seq::<char>::empty() + seq!['-'] =~= seq!['-']);
    }
    push_decimal(&mut s, size / (SATS_PER_COIN as u128));
    s.append(".");
    push_places(&mut s, size % (SATS_PER_COIN as u128), 8);
    s
}

/// Writes a block height, or any other count, in decimal digits.
pub fn format_count(n: u64) -> (r: String)
    ensures
        r@ == decimal_text(n as nat),
{
    let mut s = String::new();
    push_decimal(&mut s, n as u128);
    proof {
        assert(Seq::<char>::empty() + decimal_text(n as nat) =~= decimal_text(n as nat));
    }
    s
}

/// The report on a result: its ten lines, in their order.
pub fn report_lines(x: &Extraction) -> (r: Vec<String>)
    ensures
        r@.len() == REPORT_LINES,
        line_texts(r@) == report_of(x@),
{
    let mut lines: Vec<String> = Vec::new();
    lines.push(x.txid.clone());
    lines.push(x.input_address.clone());
    lines.push(format_amount(x.input_amount));
    lines.push(x.recipient_address.clone());
    lines.push(format_amount(x.recipient_amount));
    lines.push(x.change_address.clone());
    lines.push(format_amount(x.change_amount));
    lines.push(format_fixed(x.fee));
    lines.push(format_count(x.block_height));
    lines.push(x.block_hash.clone());
    proof {
        assert(line_texts(lines@) =~= report_of(x@));
    }
    lines
}

// ---------------------------------------------------------------------------
// Written amounts read back
// ---------------------------------------------------------------------------

proof fn lemma_digit_char(d: nat)
    requires
        d < 10,
    ensures
        is_digit(digit_char(d)),
        digit_value(digit_char(d)) == d,
{
}

proof fn lemma_decimal_text(n: nat)
    ensures
        decimal_text(n).len() >= 1,
        forall|i: int| 0 <= i < decimal_text(n).len() ==> is_digit(#[trigger] decimal_text(n)[i]),
        digits_value(decimal_text(n)) == n,
    decreases n,
{
    lemma_digit_char(n % 10);
    let t = decimal_text(n);
    if n < 10 {
        assert(t.drop_last() =~= Seq::<char>::empty());
        assert(digits_value(t.drop_last()) == 0);
    } else {
        lemma_decimal_text(n / 10);
        assert(t.drop_last() =~= decimal_text(n / 10));
    }
}

proof fn lemma_places_text(n: nat, k: nat)
    requires
        n < pow10(k),
    ensures
        places_text(n, k).len() == k,
        forall|i: int| 0 <= i < k ==> is_digit(#[trigger] places_text(n, k)[i]),
        digits_value(places_text(n, k)) == n,
    decreases k,
{
    if k > 0 {
        lemma_digit_char(n % 10);
        lemma_places_text(n / 10, (k - 1) as nat);
        assert(places_text(n, k).drop_last() =~= places_text(n / 10, (k - 1) as nat));
    }
}

proof fn lemma_short_places_text(n: nat, k: nat)
    requires
        0 < n < pow10(k),
    ensures
        1 <= short_places_text(n, k).len() <= k,
        forall|i: int|
            0 <= i < short_places_text(n, k).len() ==> is_digit(
                #[trigger] short_places_text(n, k)[i],
            ),
        digits_value(
            short_places_text(n, k) + zeros((k - short_places_text(n, k).len()) as nat),
        ) == n,
    decreases k,
{
    let t = short_places_text(n, k);
    if n % 10 == 0 {
        lemma_short_places_text(n / 10, (k - 1) as nat);
        lemma_zero_appended(t, (k - 1 - t.len()) as nat);
    } else {
        lemma_places_text(n, k);
        assert(t + zeros(0) =~= t);
    }
}

/// An amount that was written is read back as the same amount.
pub proof fn law_amount_text_reads_back(sats: u64)
    ensures
        amount_of_text(amount_text(sats as nat)) == Some(sats),
{
    let whole = sats as nat / 100_000_000;
    let part = sats as nat % 100_000_000;
    let wt = decimal_text(whole);
    let s = amount_text(sats as nat);
    let p = wt.len() as int;
    lemma_decimal_text(whole);
    assert(pow10(8) == 100_000_000) by {
        reveal_with_fuel(pow10, 10);
    }
    if part == 0 {
        assert(s == wt);
        lemma_digit_run_ends(s, 0, p);
        assert(mantissa(s, p, p, p) =~= wt);
        lemma_digits_joined(wt, zeros(8));
        assert(Seq::<char>::empty() + zeros(0) =~= Seq::<char>::empty());
        assert(Seq::<char>::empty() + zeros(8) =~= zeros(8));
        lemma_zeros_appended(Seq::empty(), 0, 8);
        assert(digits_value(wt + zeros(8)) == sats);
        assert(point_value(wt, p + 8) == Some(sats));
    } else {
        let t = short_places_text(part, 8);
        lemma_short_places_text(part, 8);
        assert(s =~= wt + seq!['.'] + t);
        assert(s[p] == '.');
        assert forall|i: int| 0 <= i < p implies is_digit(#[trigger] s[i]) by {
            assert(s[i] == wt[i]);
        }
        lemma_digit_run_ends(s, 0, p);
        assert forall|i: int| p + 1 <= i < s.len() implies is_digit(#[trigger] s[i]) by {
            assert(s[i] == t[i - p - 1]);
        }
        lemma_digit_run_ends(s, p + 1, s.len() as int);
        let d = mantissa(s, p, p + 1, s.len() as int);
        assert(d =~= wt + t);
        let pad = zeros((8 - t.len()) as nat);
        lemma_digits_joined(wt, t + pad);
        if t.len() == 8 {
            assert(t + pad =~= t);
            assert(d.subrange(0, d.len() as int) =~= d);
            assert(d.subrange(d.len() as int, d.len() as int) =~= Seq::<char>::empty());
        } else {
            assert(d + pad =~= wt + (t + pad));
        }
        assert(point_value(d, p + 8) == Some(sats));
    }
}

} // verus!
