//! The percentage in a line of progress output.

use vstd::arithmetic::power;
use vstd::prelude::*;

use crate::strings;
use crate::text;

verus! {

/// Part of a number as it is written in output: a digit or the decimal point.
pub open spec fn is_number_char(c: char) -> bool {
    text::is_digit(c) || c == '.'
}

/// The number characters that `s` ends with.
pub open spec fn number_at_end(s: Seq<char>) -> Seq<char>
    decreases s.len(),
{
    if s.len() > 0 && is_number_char(s.last()) {
        number_at_end(s.drop_last()).push(s.last())
    } else {
        Seq::empty()
    }
}

/// The digits before and after the decimal point of a number: there is a digit, and one point at
/// most.
pub open spec fn number_parts(s: Seq<char>) -> Option<(Seq<char>, Seq<char>)> {
    let (whole, fraction) = match text::split_once(s, "."@) {
        Some((left, right)) => (left, right),
        None => (s, Seq::empty()),
    };
    if text::all_digits(whole) && text::all_digits(fraction) && whole.len() + fraction.len() > 0 {
        Some((whole, fraction))
    } else {
        None
    }
}

/// Between `whole` and `whole + 1` single-precision numbers lie so close that half a step below
/// `whole + 1/2` is this negative power of two.
pub open spec fn half_step(whole: nat) -> nat {
    if whole == 0 {
        26
    } else if whole < 2 {
        24
    } else if whole < 4 {
        23
    } else if whole < 8 {
        22
    } else if whole < 16 {
        21
    } else if whole < 32 {
        20
    } else if whole < 64 {
        19
    } else if whole < 128 {
        18
    } else {
        17
    }
}

/// The fraction with the digits `fraction` is at least one half less the `k`-th negative power of
/// two.
pub open spec fn reaches_half(fraction: Seq<char>, k: nat) -> bool {
    text::digits_value(fraction) * power::pow(2, k) >= power::pow(10, fraction.len()) * (power::pow(
        2,
        (k - 1) as nat,
    ) - 1)
}

/// The number with these digits as a percentage: as the nearest single-precision number, which is
/// rounded to a whole one, halves up, and cut at 255.
pub open spec fn percentage_value(whole: Seq<char>, fraction: Seq<char>) -> nat {
    let n = text::digits_value(whole);
    if n >= 255 {
        255
    } else if reaches_half(fraction, half_step(n)) {
        n + 1
    } else {
        n
    }
}

/// The percentage that stands before the first `%` of `s`, or at its end where it has none.
pub open spec fn percentage_in(s: Seq<char>) -> Option<nat> {
    match number_parts(number_at_end(text::before(s, "%"@))) {
        Some((whole, fraction)) => Some(percentage_value(whole, fraction)),
        None => None,
    }
}

/// A row of digits splits into a front that counts for the powers of ten behind it, and a rest
/// below that power.
proof fn lemma_digits_split(s: Seq<char>, n: int)
    requires
        text::all_digits(s),
        0 <= n <= s.len(),
    ensures
        text::digits_value(s) == text::digits_value(s.take(n)) * power::pow(
            10,
            (s.len() - n) as nat,
        ) + text::digits_value(s.skip(n)),
        text::digits_value(s.skip(n)) < power::pow(10, (s.len() - n) as nat),
    decreases s.len() - n,
{
    if n == s.len() {
        assert(s.take(n) =~= s);
        assert(s.skip(n) =~= Seq::<char>::empty());
        power::lemma_pow0(10);
    } else {
        let front = s.drop_last();
        let k = (s.len() - n - 1) as nat;
        assert forall|i: int| 0 <= i < front.len() implies text::is_digit(#[trigger] front[i]) by {
            assert(front[i] == s[i]);
        }
        lemma_digits_split(front, n);
        assert(front.take(n) =~= s.take(n));
        assert(s.skip(n).drop_last() =~= front.skip(n));
        assert(s.skip(n).last() == s.last());
        assert(text::is_digit(s[s.len() - 1]));
        vstd::arithmetic::power::lemma_pow_adds(10, k, 1);
        power::lemma_pow1(10);
        let a = text::digits_value(s.take(n)) as int;
        let p = power::pow(10, k);
        assert((a * p) * 10 == a * (p * 10)) by (nonlinear_arith);
    }
}

/// Comparing the first `k` decimals of a fraction with one half less the `k`-th negative power of
/// two, which has just `k` decimals, compares the fraction with it.
proof fn lemma_reaches_half(fraction: Seq<char>, k: nat, q: nat, bound: nat)
    requires
        text::all_digits(fraction),
        k >= 1,
        bound == power::pow(5, k) * (power::pow(2, (k - 1) as nat) - 1),
        fraction.len() >= k ==> q == text::digits_value(fraction.take(k as int)),
        fraction.len() < k ==> q == text::digits_value(fraction) * power::pow(
            10,
            (k - fraction.len()) as nat,
        ),
    ensures
        reaches_half(fraction, k) <==> q >= bound,
{
    let d = text::digits_value(fraction) as int;
    let two = power::pow(2, k);
    let five = power::pow(5, k);
    let m = power::pow(2, (k - 1) as nat) - 1;
    let ten_l = power::pow(10, fraction.len());
    let ten_k = power::pow(10, k);
    power::lemma_pow_positive(5, k);
    power::lemma_pow_positive(10, k);
    power::lemma_pow_positive(10, fraction.len());
    power::lemma_pow_distributes(2, 5, k);
    assert(ten_k == two * five);
    assert(d * two >= ten_l * m <==> d * ten_k >= ten_l * bound) by (nonlinear_arith)
        requires
            ten_k == two * five,
            bound == five * m,
            five > 0,
    ;
    if fraction.len() >= k {
        let rest = (fraction.len() - k) as nat;
        lemma_digits_split(fraction, k as int);
        power::lemma_pow_adds(10, k, rest);
        power::lemma_pow_positive(10, rest);
        let ten_r = power::pow(10, rest);
        let tail = text::digits_value(fraction.skip(k as int)) as int;
        assert(d * ten_k >= ten_l * bound <==> q >= bound) by (nonlinear_arith)
            requires
                d == q * ten_r + tail,
                0 <= tail < ten_r,
                ten_l == ten_k * ten_r,
                ten_k > 0,
                ten_r > 0,
        ;
    } else {
        let rest = (k - fraction.len()) as nat;
        power::lemma_pow_adds(10, fraction.len(), rest);
        let ten_r = power::pow(10, rest);
        assert(d * ten_k >= ten_l * bound <==> q >= bound) by (nonlinear_arith)
            requires
                q == d * ten_r,
                ten_k == ten_l * ten_r,
                ten_l > 0,
        ;
    }
}

/// One half less the `k`-th negative power of two, times the `k`-th power of ten.
pub open spec fn half_bound(k: nat) -> int {
    power::pow(5, k) * (power::pow(2, (k - 1) as nat) - 1)
}

proof fn lemma_half_bound(k: nat, five: int, two: int)
    requires
        power::pow(5, k) == five,
        power::pow(2, (k - 1) as nat) == two,
    ensures
        half_bound(k) == five * (two - 1),
{
}

/// The number of decimals that decide, for a number that starts with `whole`, whether it is
/// rounded up, and the least value of those decimals at which it is.
fn rounding_bound(whole: u64) -> (r: (usize, u128))
    ensures
        r.0 == half_step(whole as nat),
        r.1 == half_bound(half_step(whole as nat)),
        r.1 < 0x1_0000_0000_0000_0000_0000_0000,
        1 <= r.0 <= 26,
{
    proof {
        reveal_with_fuel(power::pow, 27);
        lemma_half_bound(26, 1490116119384765625, 33554432);
        lemma_half_bound(24, 59604644775390625, 8388608);
        lemma_half_bound(23, 11920928955078125, 4194304);
        lemma_half_bound(22, 2384185791015625, 2097152);
        lemma_half_bound(21, 476837158203125, 1048576);
        lemma_half_bound(20, 95367431640625, 524288);
        lemma_half_bound(19, 19073486328125, 262144);
        lemma_half_bound(18, 3814697265625, 131072);
        lemma_half_bound(17, 762939453125, 65536);
    }
    if whole == 0 {
        (26, 49999998509883880615234375)
    } else if whole < 2 {
        (24, 499999940395355224609375)
    } else if whole < 4 {
        (23, 49999988079071044921875)
    } else if whole < 8 {
        (22, 4999997615814208984375)
    } else if whole < 16 {
        (21, 499999523162841796875)
    } else if whole < 32 {
        (20, 49999904632568359375)
    } else if whole < 64 {
        (19, 4999980926513671875)
    } else if whole < 128 {
        (18, 499996185302734375)
    } else {
        (17, 49999237060546875)
    }
}

proof fn lemma_ten_to_the_25th()
    ensures
        power::pow(10, 25) == 10000000000000000000000000,
{
    reveal_with_fuel(power::pow, 26);
}

/// The first `k` decimals of the fraction with the digits `fraction`, as one number.
fn first_decimals(fraction: &Vec<char>, k: usize) -> (r: u128)
    requires
        k <= 26,
        text::all_digits(fraction@),
    ensures
        fraction@.len() >= k ==> r == text::digits_value(fraction@.take(k as int)),
        fraction@.len() < k ==> r == text::digits_value(fraction@) * power::pow(
            10,
            (k - fraction@.len()) as nat,
        ),
{
    let mut value: u128 = 0;
    let mut room: u128 = 1;
    assert(fraction@.take(0) =~= Seq::<char>::empty());
    proof {
        power::lemma_pow0(10);
    }
    for i in 0..k
        invariant
            k <= 26,
            text::all_digits(fraction@),
            i <= fraction@.len() ==> value == text::digits_value(fraction@.take(i as int)),
            i >= fraction@.len() ==> value == text::digits_value(fraction@) * power::pow(
                10,
                (i - fraction@.len()) as nat,
            ),
            value < room,
            room == power::pow(10, i as nat),
            room <= 100000000000000000000000000,
            room == 1 || i > 0,
    {
        proof {
            lemma_ten_to_the_25th();
            power::lemma_pow_increases(10, i as nat, 25);
            reveal_with_fuel(power::pow, 2);
        }
        room = room * 10;
        if i < fraction.len() {
            let c = fraction[i];
            proof {
                assert(text::is_digit(fraction@[i as int]));
                assert(fraction@.take(i + 1).drop_last() =~= fraction@.take(i as int));
                assert(fraction@.take(i + 1).last() == c);
                if i + 1 == fraction@.len() {
                    assert(fraction@.take(i + 1) =~= fraction@);
                    power::lemma_pow0(10);
                }
            }
            value = value * 10 + (((c as u8) - ('0' as u8)) as u128);
        } else {
            proof {
                if i == fraction@.len() {
                    assert(fraction@.take(i as int) =~= fraction@);
                }
                let d = text::digits_value(fraction@) as int;
                let p = power::pow(10, (i - fraction@.len()) as nat);
                assert((d * p) * 10 == d * (10 * p)) by (nonlinear_arith);
            }
            value = value * 10;
        }
    }
    value
}

/// The number that a row of digits stands for, or 255 where it is larger.
fn value_up_to_255(digits: &Vec<char>) -> (r: u64)
    requires
        text::all_digits(digits@),
    ensures
        r <= 255,
        r < 255 ==> r == text::digits_value(digits@),
        r == 255 ==> text::digits_value(digits@) >= 255,
{
    let mut value: u64 = 0;
    assert(digits@.take(0) =~= Seq::<char>::empty());
    for i in 0..digits.len()
        invariant
            text::all_digits(digits@),
            value <= 255,
            value < 255 ==> value == text::digits_value(digits@.take(i as int)),
            value == 255 ==> text::digits_value(digits@.take(i as int)) >= 255,
    {
        let c = digits[i];
        proof {
            assert(text::is_digit(digits@[i as int]));
            assert(digits@.take(i + 1).drop_last() =~= digits@.take(i as int));
            assert(digits@.take(i + 1).last() == c);
        }
        let next: u64 = value * 10 + (((c as u8) - ('0' as u8)) as u64);
        value = if next > 255 {
            255
        } else {
            next
        };
    }
    assert(digits@.take(digits@.len() as int) =~= digits@);
    value
}

/// Nothing but digits.
fn only_digits(chars: &Vec<char>) -> (r: bool)
    ensures
        r == text::all_digits(chars@),
{
    for i in 0..chars.len()
        invariant
            forall|j: int| 0 <= j < i ==> text::is_digit(#[trigger] chars@[j]),
    {
        if !strings::digit(chars[i]) {
            assert(!text::is_digit(chars@[i as int]));
            return false;
        }
    }
    true
}

/// The number characters that `chars` ends with.
fn ending_number(chars: &Vec<char>) -> (r: Vec<char>)
    ensures
        r@ == number_at_end(chars@),
{
    let mut n: usize = chars.len();
    let ghost all = chars@;
    assert(all.take(all.len() as int) =~= all);
    assert(number_at_end(all) + all.skip(all.len() as int) =~= number_at_end(all));
    while n > 0 && (strings::digit(chars[n - 1]) || chars[n - 1] == '.')
        invariant
            all == chars@,
            n <= all.len(),
            number_at_end(all) == number_at_end(all.take(n as int)) + all.skip(n as int),
        decreases n,
    {
        proof {
            let front = all.take(n as int);
            assert(front.drop_last() =~= all.take(n - 1));
            assert(front.last() == all[n - 1]);
            assert(number_at_end(all.take(n - 1)).push(all[n - 1]) + all.skip(n as int)
                =~= number_at_end(all.take(n - 1)) + all.skip(n - 1));
        }
        n = n - 1;
    }
    proof {
        if n > 0 {
            assert(all.take(n as int).last() == all[n - 1]);
        }
        assert(number_at_end(all.take(n as int)) =~= Seq::<char>::empty());
        assert(number_at_end(all) =~= all.subrange(n as int, all.len() as int));
    }
    strings::range_of(chars, n, chars.len())
}

/// The percentage that stands before the first `%` of `s`.
pub fn find_percentage(s: &str) -> (r: Option<u8>)
    ensures
        match r {
            Some(p) => percentage_in(s@) == Some(p as nat),
            None => percentage_in(s@) is None,
        },
{
    let number = ending_number(&strings::cut_before(&strings::chars_of(s), "%"));
    let (whole, fraction): (Vec<char>, Vec<char>) = match strings::cut_once(&number, ".") {
        Some((left, right)) => (left, right),
        None => (number, Vec::new()),
    };
    if !only_digits(&whole) || !only_digits(&fraction) || (whole.len() == 0 && fraction.len()
        == 0) {
        return None;
    }
    let n: u64 = value_up_to_255(&whole);
    if n == 255 {
        return Some(255);
    }
    let (k, bound): (usize, u128) = rounding_bound(n);
    let decimals: u128 = first_decimals(&fraction, k);
    proof {
        lemma_reaches_half(fraction@, k as nat, decimals as nat, bound as nat);
    }
    if decimals >= bound {
        Some((n + 1) as u8)
    } else {
        Some(n as u8)
    }
}

/// A whole percentage, written in base ten before a percent sign, is read as the number that it is,
/// whatever stands before and behind; one above 255 counts as 255.
pub proof fn a_whole_percentage_is_read(before: Seq<char>, n: nat, after: Seq<char>)
    requires
        !before.contains('%'),
        before.len() > 0 ==> !is_number_char(before.last()),
    ensures
        percentage_in(before + text::decimal(n) + seq!['%'] + after) == Some(
            if n < 255 {
                n
            } else {
                255
            },
        ),
{
    reveal_strlit("%");
    reveal_strlit(".");
    assert("%"@ =~= seq!['%']);
    assert("."@ =~= seq!['.']);
    let number = text::decimal(n);
    text::lemma_decimal(n);
    let front = before + number;
    assert(!front.contains('%')) by {
        assert forall|i: int| 0 <= i < front.len() implies front[i] != '%' by {
            if i < before.len() {
                assert(before.contains(before[i]));
            } else {
                assert(text::is_digit(number[i - before.len()]));
            }
        }
    }
    let s = before + number + seq!['%'] + after;
    text::lemma_split_once_char(front, '%', after);
    text::lemma_find_from(s, seq!['%'], 0);
    assert(text::before(s, "%"@) == front);
    lemma_number_at_end(before, number);
    assert(!number.contains('.')) by {
        assert forall|i: int| 0 <= i < number.len() implies number[i] != '.' by {
            assert(text::is_digit(number[i]));
        }
    }
    text::lemma_without_char(number, '.');
    assert(text::all_digits(Seq::<char>::empty()));
    assert(!reaches_half(Seq::empty(), half_step(n))) by {
        let k = half_step(n);
        power::lemma_pow0(10);
        power::lemma_pow_increases(2, 2, (k - 1) as nat);
        power::lemma_pow_adds(2, 1, 1);
        power::lemma_pow1(2);
        assert(text::digits_value(Seq::<char>::empty()) == 0);
        assert(power::pow(2, 2) == 4);
        assert(0 * power::pow(2, k) == 0) by (nonlinear_arith);
        assert(1 * (power::pow(2, (k - 1) as nat) - 1) >= 3) by (nonlinear_arith)
            requires
                power::pow(2, (k - 1) as nat) >= 4,
        ;
    }
}

proof fn lemma_number_at_end(before: Seq<char>, number: Seq<char>)
    requires
        before.len() > 0 ==> !is_number_char(before.last()),
        forall|i: int| 0 <= i < number.len() ==> is_number_char(#[trigger] number[i]),
    ensures
        number_at_end(before + number) == number,
    decreases number.len(),
{
    let s = before + number;
    if number.len() == 0 {
        assert(s =~= before);
        assert(number_at_end(s) =~= number);
    } else {
        assert(is_number_char(number[number.len() - 1]));
        let fewer = number.drop_last();
        assert forall|i: int| 0 <= i < fewer.len() implies is_number_char(#[trigger] fewer[i]) by {
            assert(fewer[i] == number[i]);
        }
        assert(s.drop_last() =~= before + fewer);
        lemma_number_at_end(before, fewer);
        assert(number_at_end(s) =~= number);
    }
}

/// A percentage with one decimal is rounded to the nearest whole number, halves up.
pub proof fn a_percentage_is_rounded(before: Seq<char>, n: nat, d: nat, after: Seq<char>)
    requires
        !before.contains('%'),
        before.len() > 0 ==> !is_number_char(before.last()),
        n < 255,
        d < 10,
    ensures
        percentage_in(
            before + text::decimal(n) + seq!['.', text::digit_char(d)] + seq!['%'] + after,
        ) == Some(
            if d >= 5 {
                n + 1
            } else {
                n
            },
        ),
{
    reveal_strlit("%");
    reveal_strlit(".");
    assert("%"@ =~= seq!['%']);
    assert("."@ =~= seq!['.']);
    let whole = text::decimal(n);
    let fraction = seq![text::digit_char(d)];
    text::lemma_decimal(n);
    text::lemma_digit(d);
    let number = whole + seq!['.', text::digit_char(d)];
    assert(number =~= whole + seq!['.'] + fraction);
    let front = before + number;
    assert forall|i: int| 0 <= i < number.len() implies is_number_char(#[trigger] number[i]) by {
        if i < whole.len() {
            assert(text::is_digit(whole[i]));
        }
    }
    assert(!front.contains('%')) by {
        assert forall|i: int| 0 <= i < front.len() implies front[i] != '%' by {
            if i < before.len() {
                assert(before.contains(before[i]));
            } else {
                assert(is_number_char(number[i - before.len()]));
            }
        }
    }
    let s = before + whole + seq!['.', text::digit_char(d)] + seq!['%'] + after;
    assert(s =~= front + seq!['%'] + after);
    text::lemma_split_once_char(front, '%', after);
    assert(text::before(s, "%"@) == front);
    lemma_number_at_end(before, number);
    assert(!whole.contains('.')) by {
        assert forall|i: int| 0 <= i < whole.len() implies whole[i] != '.' by {
            assert(text::is_digit(whole[i]));
        }
    }
    text::lemma_split_once_char(whole, '.', fraction);
    assert(text::all_digits(fraction));
    assert(text::digits_value(fraction) == d) by {
        reveal_with_fuel(text::digits_value, 2);
        assert(fraction.drop_last() =~= Seq::<char>::empty());
    }
    let k = half_step(n);
    assert(reaches_half(fraction, k) <==> d >= 5) by {
        power::lemma_pow1(10);
        power::lemma_pow1(2);
        power::lemma_pow_adds(2, (k - 1) as nat, 1);
        power::lemma_pow_increases(2, 4, (k - 1) as nat);
        let p = power::pow(2, (k - 1) as nat);
        assert(power::pow(2, k) == p * 2);
        assert(power::pow(2, 4) == 16) by {
            reveal_with_fuel(power::pow, 5);
        }
        assert(p >= 16);
        assert((d * (p * 2) >= 10 * (p - 1)) <==> d >= 5) by (nonlinear_arith)
            requires
                p >= 16,
                0 <= d < 10,
        ;
    }
}

/// A number at the end of a line without a percent sign counts too, and a line that ends in none has
/// no percentage.
pub proof fn a_number_at_the_end_counts(before: Seq<char>, n: nat)
    requires
        !before.contains('%'),
        before.len() > 0 ==> !is_number_char(before.last()),
        n < 255,
    ensures
        percentage_in(before + text::decimal(n)) == Some(n),
        percentage_in(before) is None,
{
    reveal_strlit("%");
    reveal_strlit(".");
    assert("%"@ =~= seq!['%']);
    assert("."@ =~= seq!['.']);
    a_whole_percentage_is_read(before, n, Seq::empty());
    let number = text::decimal(n);
    text::lemma_decimal(n);
    let front = before + number;
    assert forall|i: int| 0 <= i < front.len() implies front[i] != '%' by {
        if i < before.len() {
            assert(before.contains(before[i]));
        } else {
            assert(text::is_digit(number[i - before.len()]));
        }
    }
    assert(!front.contains('%'));
    text::lemma_without_char(front, '%');
    text::lemma_without_char(before, '%');
    text::lemma_split_once_char(front, '%', Seq::empty());
    let s = front + seq!['%'] + Seq::<char>::empty();
    assert(text::before(s, "%"@) == front);
    lemma_number_at_end(before, Seq::empty());
    assert(before + Seq::<char>::empty() =~= before);
    text::lemma_without_char(Seq::empty(), '.');
}

} // verus!
