//! Angles in millionths of a degree: bringing them into one full turn, and
//! reading them from text.

use crate::arithmetic::lemma_remainder_of_negative;
use crate::state::FULL_TURN;
use crate::text::{
    all_digits, chars_of, decimal_value, digit, digit_value, leading_digits,
    lemma_decimal_value_grows, lemma_digit_run_end_unique,
};
use vstd::arithmetic::div_mod::{lemma_fundamental_div_mod, lemma_mod_multiples_vanish};
use vstd::prelude::*;
use vstd::slice::slice_subrange;

verus! {

/// `angle` brought into one full turn: the angle from 0 up to, not
/// including, 360 degrees that points the same way.
pub open spec fn wrapped_angle(angle: int) -> int {
    angle % (FULL_TURN as int)
}

/// Brings the sum of an angle and a step back into one full turn.
pub fn wrap_angle(angle: i64, change: i64) -> (wrapped: i64)
    ensures
        wrapped == wrapped_angle(angle + change),
        0 <= wrapped < FULL_TURN,
{
    let sum: i128 = (angle as i128) + (change as i128);
    let full: i128 = FULL_TURN as i128;
    if sum >= 0 {
        (sum % full) as i64
    } else {
        let below: i128 = (-sum) % full;
        proof {
            lemma_remainder_of_negative(sum as int, full as int);
        }
        if below == 0 {
            0
        } else {
            (full - below) as i64
        }
    }
}

/// Going back by a step and forth by the same step ends at the angle from
/// which one set out, brought into one full turn.
pub proof fn lemma_wrap_undone(angle: int, step: int)
    ensures
        wrapped_angle(wrapped_angle(angle - step) + step) == wrapped_angle(angle),
        wrapped_angle(wrapped_angle(angle + step) - step) == wrapped_angle(angle),
{
    let full = FULL_TURN as int;
    lemma_fundamental_div_mod(angle - step, full);
    let q = (angle - step) / full;
    assert(wrapped_angle(angle - step) + step == full * (-q) + angle) by (nonlinear_arith)
        requires
            angle - step == full * q + wrapped_angle(angle - step),
    ;
    lemma_mod_multiples_vanish(-q, angle, full);
    lemma_fundamental_div_mod(angle + step, full);
    let p = (angle + step) / full;
    assert(wrapped_angle(angle + step) - step == full * (-p) + angle) by (nonlinear_arith)
        requires
            angle + step == full * p + wrapped_angle(angle + step),
    ;
    lemma_mod_multiples_vanish(-p, angle, full);
}

/// Ten to the power of `n`.
pub open spec fn pow10(n: nat) -> int
    decreases n,
{
    if n == 0 {
        1
    } else {
        10 * pow10((n - 1) as nat)
    }
}

/// `text` without its sign.
pub open spec fn unsigned_body(text: Seq<char>) -> Seq<char> {
    if text.len() > 0 && (text[0] == '+' || text[0] == '-') {
        text.skip(1)
    } else {
        text
    }
}

/// A point follows the leading digits of `body`.
pub open spec fn has_point(body: Seq<char>) -> bool {
    leading_digits(body) < body.len() && body[leading_digits(body)] == '.'
}

/// How many digits follow the point of `body`; none where it has no point.
pub open spec fn fraction_len(body: Seq<char>) -> int {
    if has_point(body) {
        leading_digits(body.skip(leading_digits(body) + 1))
    } else {
        0
    }
}

/// How long the mantissa of `body` is: its leading digits and, where a point
/// follows them, the point and the digits behind it.
pub open spec fn mantissa_len(body: Seq<char>) -> int {
    if has_point(body) {
        leading_digits(body) + 1 + fraction_len(body)
    } else {
        leading_digits(body)
    }
}

/// The digits of the mantissa of `body`, those in front of the point and
/// those behind it, without the point.
pub open spec fn mantissa_digits(body: Seq<char>) -> Seq<char> {
    body.take(leading_digits(body)) + body.subrange(
        mantissa_len(body) - fraction_len(body),
        mantissa_len(body),
    )
}

/// The power of ten that `text` states: none where it is empty; else an `e`
/// or `E`, an optional sign and at least one digit.
pub open spec fn exponent_of(text: Seq<char>) -> Option<int> {
    if text.len() == 0 {
        Some(0)
    } else if text[0] == 'e' || text[0] == 'E' {
        let digits = unsigned_body(text.skip(1));
        if digits.len() >= 1 && all_digits(digits) {
            if text.skip(1)[0] == '-' {
                Some(-decimal_value(digits))
            } else {
                Some(decimal_value(digits))
            }
        } else {
            None
        }
    } else {
        None
    }
}

/// `body` is an unsigned decimal number: digits, optionally a point and more
/// digits, with at least one digit in all, and optionally a power of ten
/// behind them.
pub open spec fn is_unsigned_decimal(body: Seq<char>) -> bool {
    &&& leading_digits(body) + fraction_len(body) >= 1
    &&& exponent_of(body.skip(mantissa_len(body))) is Some
}

/// The number that `digits` state when a point stands behind the first
/// `point` of them, rounded down: digits behind the point are dropped, and
/// zeros are supplied where the point lies beyond the last digit.
pub open spec fn scaled(digits: Seq<char>, point: int) -> int {
    if point <= 0 {
        0
    } else if point >= digits.len() {
        decimal_value(digits) * pow10((point - digits.len()) as nat)
    } else {
        decimal_value(digits.take(point))
    }
}

/// The unsigned decimal number `body` in millionths, rounded down.
pub open spec fn magnitude_of(body: Seq<char>) -> int {
    scaled(
        mantissa_digits(body),
        leading_digits(body) + 6 + exponent_of(body.skip(mantissa_len(body)))->0,
    )
}

/// The angle that `text` states, in millionths of a degree and rounded
/// towards 0: a decimal number with an optional sign, if it is one and is
/// not too large to be held.
pub open spec fn parsed_angle(text: Seq<char>) -> Option<int> {
    let body = unsigned_body(text);
    if is_unsigned_decimal(body) && magnitude_of(body) <= i64::MAX {
        if text[0] == '-' {
            Some(-magnitude_of(body))
        } else {
            Some(magnitude_of(body))
        }
    } else {
        None
    }
}

/// `value`, or one more than `cap` where it is beyond `cap`.
pub open spec fn capped(value: int, cap: int) -> int {
    if value <= cap {
        value
    } else {
        cap + 1
    }
}

/// The largest exponent of a power of ten that is told apart from larger ones.
pub const EXPONENT_CAP: u128 = 100_000_000_000_000_000_000;

/// The largest magnitude of an angle, in millionths of a degree.
pub const MAGNITUDE_CAP: u128 = 0x7fff_ffff_ffff_ffff;

/// Powers of ten are at least 1 and grow with the exponent.
pub proof fn lemma_pow10_grows(low: nat, high: nat)
    requires
        low <= high,
    ensures
        1 <= pow10(low) <= pow10(high),
    decreases high,
{
    if low < high {
        lemma_pow10_grows(low, (high - 1) as nat);
    } else if low > 0 {
        lemma_pow10_grows((low - 1) as nat, (high - 1) as nat);
    }
}

/// A run of digits stands for no negative number.
pub proof fn lemma_decimal_value_not_negative(digits: Seq<char>)
    requires
        all_digits(digits),
    ensures
        0 <= decimal_value(digits),
{
    if digits.len() > 0 {
        lemma_decimal_value_grows(digits);
    }
}

/// With the point nineteen or more places beyond the last digit, a number
/// is 0 or too large for an angle, and stays so as the point moves on.
proof fn lemma_scaled_far_beyond(digits: Seq<char>, point: int)
    requires
        all_digits(digits),
        point >= digits.len() + 19,
    ensures
        decimal_value(digits) == 0 ==> scaled(digits, point) == 0,
        decimal_value(digits) != 0 ==> scaled(digits, point) > MAGNITUDE_CAP,
{
    let value = decimal_value(digits);
    let power = pow10((point - digits.len()) as nat);
    lemma_decimal_value_not_negative(digits);
    lemma_pow10_grows(19, (point - digits.len()) as nat);
    assert(pow10(19) == 10_000_000_000_000_000_000) by {
        reveal_with_fuel(pow10, 20);
    }
    if value != 0 {
        assert(value * power >= power) by (nonlinear_arith)
            requires
                value >= 1,
                power >= 1,
        ;
    } else {
        assert(value * power == 0) by (nonlinear_arith)
            requires
                value == 0,
        ;
    }
}

/// Finds where the digits of `body` that begin at `from` end.
fn digit_run(body: &[char], from: usize) -> (end: usize)
    requires
        from <= body@.len(),
    ensures
        from <= end <= body@.len(),
        end - from == leading_digits(body@.skip(from as int)),
        all_digits(body@.subrange(from as int, end as int)),
        end < body@.len() ==> digit_value(body@[end as int]) is None,
{
    let mut end: usize = from;
    while end < body.len() && digit(body[end]).is_some()
        invariant
            from <= end <= body@.len(),
            all_digits(body@.subrange(from as int, end as int)),
        decreases body@.len() - end,
    {
        let ghost longer = body@.subrange(from as int, end + 1);
        proof {
            assert forall|k: int| 0 <= k < longer.len() implies digit_value(#[trigger] longer[k])
                is Some by {
                if k < end - from {
                    assert(longer[k] == body@.subrange(from as int, end as int)[k]);
                }
            }
        }
        end += 1;
    }
    proof {
        let rest = body@.skip(from as int);
        assert(rest.take(end - from) =~= body@.subrange(from as int, end as int));
        if end < body@.len() {
            assert(rest[end - from] == body@[end as int]);
        }
        lemma_digit_run_end_unique(rest, end - from);
    }
    end
}

/// The number that the first `upto` of `digits` stand for, as far as it is
/// told apart: one more than `cap` stands for all that is beyond `cap`.
fn capped_value(digits: &[char], upto: usize, cap: u128) -> (value: u128)
    requires
        upto <= digits@.len(),
        all_digits(digits@.take(upto as int)),
        cap <= EXPONENT_CAP,
    ensures
        value == capped(decimal_value(digits@.take(upto as int)), cap as int),
{
    let mut value: u128 = 0;
    let mut i: usize = 0;
    assert(digits@.take(0) =~= Seq::<char>::empty());
    while i < upto
        invariant
            i <= upto <= digits@.len(),
            all_digits(digits@.take(upto as int)),
            cap <= EXPONENT_CAP,
            value == capped(decimal_value(digits@.take(i as int)), cap as int),
        decreases upto - i,
    {
        let ghost longer = digits@.take(i + 1);
        proof {
            assert(longer.drop_last() =~= digits@.take(i as int));
            assert forall|k: int| 0 <= k < longer.len() implies digit_value(#[trigger] longer[k])
                is Some by {
                assert(longer[k] == digits@.take(upto as int)[k]);
            }
            lemma_decimal_value_grows(longer);
        }
        let next = digit(digits[i]);
        assert(digits@[i as int] == longer.last());
        if value <= cap {
            let grown: u128 = 10 * value + (next.unwrap() as u128);
            value = if grown > cap { cap + 1 } else { grown };
        }
        i += 1;
    }
    value
}

/// Appends `body[from..to]` to `digits`.
fn append_digits(digits: &mut Vec<char>, body: &[char], from: usize, to: usize)
    requires
        from <= to <= body@.len(),
    ensures
        final(digits)@ == old(digits)@ + body@.subrange(from as int, to as int),
{
    let mut i: usize = from;
    assert(digits@ =~= old(digits)@ + body@.subrange(from as int, from as int));
    while i < to
        invariant
            from <= i <= to <= body@.len(),
            digits@ == old(digits)@ + body@.subrange(from as int, i as int),
        decreases to - i,
    {
        digits.push(body[i]);
        i += 1;
        assert(digits@ =~= old(digits)@ + body@.subrange(from as int, i as int));
    }
}

/// `read` is what reading with a cap makes of the power of ten `exponent`:
/// the power itself, or one beyond the cap on its side.
spec fn read_as(exponent: int, read: int) -> bool {
    ||| read == exponent && -EXPONENT_CAP <= exponent <= EXPONENT_CAP
    ||| read == EXPONENT_CAP + 1 && exponent > EXPONENT_CAP
    ||| read == -EXPONENT_CAP - 1 && exponent < -EXPONENT_CAP
}

/// Reads the power of ten that `body` states from `from` on.
fn parse_exponent(body: &[char], from: usize) -> (exponent: Option<i128>)
    requires
        from <= body@.len(),
    ensures
        match exponent_of(body@.skip(from as int)) {
            Some(stated) => exponent is Some && read_as(stated, exponent.unwrap() as int),
            None => exponent is None,
        },
{
    let n: usize = body.len();
    if from == n {
        return Some(0);
    }
    if body[from] != 'e' && body[from] != 'E' {
        return None;
    }
    let ghost text = body@.skip(from as int);
    let signed: bool = from + 1 < n && (body[from + 1] == '+' || body[from + 1] == '-');
    let negative: bool = from + 1 < n && body[from + 1] == '-';
    let first: usize = if signed { from + 2 } else { from + 1 };
    let end = digit_run(body, first);
    let digits = slice_subrange(body, first, n);
    proof {
        assert(text[0] == body@[from as int]);
        if from + 1 < n {
            assert(text.skip(1)[0] == body@[from + 1]);
        }
        assert(digits@ =~= unsigned_body(text.skip(1)));
        assert(digits@ =~= body@.skip(first as int));
        if end < n {
            assert(digits@[end - first] == body@[end as int]);
        } else {
            assert(digits@ =~= body@.subrange(first as int, end as int));
        }
    }
    if end != n || end == first {
        return None;
    }
    assert(digits@.take(digits@.len() as int) =~= digits@);
    let value = capped_value(digits, n - first, EXPONENT_CAP);
    proof {
        lemma_decimal_value_not_negative(digits@);
    }
    if negative {
        Some(-(value as i128))
    } else {
        Some(value as i128)
    }
}

/// Reads the mantissa of `body`: its digits without the point, how many of
/// them stand in front of the point, and how long the mantissa is. There is
/// none where `body` begins with no digit, before or behind a point.
fn read_mantissa(body: &[char]) -> (mantissa: Option<(Vec<char>, usize, usize)>)
    ensures
        mantissa is Some <==> leading_digits(body@) + fraction_len(body@) >= 1,
        match mantissa {
            Some((digits, whole, length)) => {
                &&& digits@ == mantissa_digits(body@)
                &&& all_digits(digits@)
                &&& digits@.len() >= 1
                &&& whole <= digits@.len()
                &&& whole == leading_digits(body@)
                &&& length == mantissa_len(body@)
                &&& length <= body@.len()
            },
            None => true,
        },
{
    let n: usize = body.len();
    let whole: usize = digit_run(body, 0);
    assert(body@.skip(0) =~= body@);
    let pointed: bool = whole < n && body[whole] == '.';
    let length: usize = if pointed { digit_run(body, whole + 1) } else { whole };
    let fraction: usize = if pointed { length - whole - 1 } else { 0 };
    if whole + fraction == 0 {
        return None;
    }
    let mut digits: Vec<char> = Vec::new();
    append_digits(&mut digits, body, 0, whole);
    append_digits(&mut digits, body, length - fraction, length);
    proof {
        assert(body@.subrange(0, whole as int) =~= body@.take(whole as int));
        assert(digits@ =~= mantissa_digits(body@));
        assert forall|k: int| 0 <= k < digits@.len() implies digit_value(#[trigger] digits@[k])
            is Some by {
            if k < whole {
                assert(digits@[k] == body@.subrange(0, whole as int)[k]);
            } else {
                assert(digits@[k] == body@.subrange(whole + 1, length as int)[k - whole]);
            }
        }
    }
    Some((digits, whole, length))
}

/// The number that `digits` state with the point behind the first `point`
/// of them, rounded down, if it is not too large for an angle.
fn scale(digits: &[char], point: i128) -> (value: Option<u64>)
    requires
        all_digits(digits@),
        -2 * EXPONENT_CAP <= point <= 2 * EXPONENT_CAP,
    ensures
        match value {
            Some(value) => value == scaled(digits@, point as int) && value <= MAGNITUDE_CAP,
            None => scaled(digits@, point as int) > MAGNITUDE_CAP,
        },
{
    if point <= 0 {
        return Some(0);
    }
    let count: usize = digits.len();
    let before: usize = if point >= count as i128 { count } else { point as usize };
    proof {
        assert forall|k: int| 0 <= k < before implies digit_value(
            #[trigger] digits@.take(before as int)[k],
        ) is Some by {
            assert(digits@.take(before as int)[k] == digits@[k]);
        }
        assert(digits@.take(count as int) =~= digits@);
        lemma_decimal_value_not_negative(digits@.take(before as int));
    }
    let mut value: u128 = capped_value(digits, before, MAGNITUDE_CAP);
    let mut more: i128 = point - (before as i128);
    let ghost target = scaled(digits@, point as int);
    proof {
        let stated = decimal_value(digits@.take(before as int));
        let power = pow10(more as nat);
        lemma_pow10_grows(0, more as nat);
        assert(pow10(0) == 1);
        assert(target == stated * power);
        assert(stated * power >= stated) by (nonlinear_arith)
            requires
                stated >= 0,
                power >= 1,
        ;
    }
    while more > 0 && value != 0 && value <= MAGNITUDE_CAP
        invariant
            0 <= more,
            value <= 10 * MAGNITUDE_CAP,
            value <= MAGNITUDE_CAP ==> target == value * pow10(more as nat),
            value > MAGNITUDE_CAP ==> target > MAGNITUDE_CAP,
        decreases more,
    {
        proof {
            let rest = pow10((more - 1) as nat);
            lemma_pow10_grows(0, (more - 1) as nat);
            assert(value * (10 * rest) == (10 * value) * rest && (10 * value) * rest >= 10 * value)
                by (nonlinear_arith)
                requires
                    rest >= 1,
                    value >= 0,
            ;
        }
        value = 10 * value;
        more = more - 1;
    }
    proof {
        let power = pow10(more as nat);
        if value == 0 {
            assert(value * power == 0) by (nonlinear_arith)
                requires
                    value == 0,
            ;
        }
        if more == 0 {
            assert(value * power == value) by (nonlinear_arith)
                requires
                    power == 1,
            ;
        }
    }
    if value > MAGNITUDE_CAP {
        None
    } else {
        Some(value as u64)
    }
}

/// A power of ten that was read with a cap gives the same number as the one
/// that was stated, or both give a number too large for an angle.
proof fn lemma_capped_exponent_is_enough(digits: Seq<char>, whole: int, stated: int, read: int)
    requires
        all_digits(digits),
        0 <= whole <= digits.len() <= usize::MAX,
        read_as(stated, read),
    ensures
        scaled(digits, whole + 6 + read) <= MAGNITUDE_CAP ==> scaled(digits, whole + 6 + stated)
            == scaled(digits, whole + 6 + read),
        scaled(digits, whole + 6 + read) > MAGNITUDE_CAP ==> scaled(digits, whole + 6 + stated)
            > MAGNITUDE_CAP,
{
    if read > EXPONENT_CAP {
        lemma_scaled_far_beyond(digits, whole + 6 + read);
        lemma_scaled_far_beyond(digits, whole + 6 + stated);
    }
}

/// Reads an unsigned decimal number in millionths.
fn parse_magnitude(body: &[char]) -> (magnitude: Option<u64>)
    ensures
        match magnitude {
            Some(value) => is_unsigned_decimal(body@) && value == magnitude_of(body@) && value
                <= i64::MAX,
            None => !(is_unsigned_decimal(body@) && magnitude_of(body@) <= i64::MAX),
        },
        magnitude is Some ==> body@.len() >= 1,
{
    let (digits, whole, length) = match read_mantissa(body) {
        Some(mantissa) => mantissa,
        None => {
            return None;
        },
    };
    let exponent: i128 = match parse_exponent(body, length) {
        Some(exponent) => exponent,
        None => {
            return None;
        },
    };
    proof {
        assert(digits.len() == digits@.len());
        lemma_capped_exponent_is_enough(
            digits@,
            whole as int,
            exponent_of(body@.skip(length as int))->0,
            exponent as int,
        );
    }
    scale(digits.as_slice(), (whole as i128) + 6 + exponent)
}

/// Reads an angle in degrees into millionths of a degree, rounded towards 0.
/// The angle is written as a decimal number: an optional sign, digits with
/// an optional point among them, and optionally a power of ten.
pub fn parse_angle(text: &str) -> (angle: Option<i64>)
    ensures
        match parsed_angle(text@) {
            Some(expected) => angle is Some && angle.unwrap() == expected,
            None => angle is None,
        },
{
    let chars = chars_of(text);
    let signed: bool = chars.len() > 0 && (chars[0] == '+' || chars[0] == '-');
    let negative: bool = chars.len() > 0 && chars[0] == '-';
    let from: usize = if signed { 1 } else { 0 };
    let body = slice_subrange(chars.as_slice(), from, chars.len());
    proof {
        assert(body@ =~= unsigned_body(text@));
    }
    match parse_magnitude(body) {
        Some(magnitude) => if negative {
            Some(-(magnitude as i64))
        } else {
            Some(magnitude as i64)
        },
        None => None,
    }
}

/// What is reported for a text that states no angle.
pub open spec fn angle_error(text: Seq<char>) -> Seq<char> {
    "\""@ + text + "\" is not a valid angle."@
}

} // verus!
