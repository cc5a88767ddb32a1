//! Version numbers: runs of digits with dots between them.

use vstd::prelude::*;

use crate::versions::{digits_from, dotted, is_digit_byte, run_from};

verus! {

/// Is it a digit?
pub open spec fn digit(b: u8) -> bool {
    b == 48 || b == 49 || b == 50 || b == 51 || b == 52 || b == 53 || b == 54 || b == 55 || b == 56
        || b == 57
}

/// How many dots stand in a part of the bytes.
pub open spec fn dots(bytes: Seq<u8>, from: int, to: int) -> nat
    decreases to - from,
{
    if from >= to {
        0
    } else if bytes[from] == 46 {
        1 + dots(bytes, from + 1, to)
    } else {
        dots(bytes, from + 1, to)
    }
}

proof fn digits_stand_together(bytes: Seq<u8>, at: int)
    requires
        0 <= at,
    ensures
        forall|i: int| at <= i < at + digits_from(bytes, at) ==> #[trigger] is_digit_byte(bytes[i]),
        at + digits_from(bytes, at) < bytes.len() ==> !is_digit_byte(
            bytes[at + digits_from(bytes, at)],
        ),
        digits_from(bytes, at) > 0 ==> at + digits_from(bytes, at) <= bytes.len(),
    decreases bytes.len() - at,
{
    if at < bytes.len() && is_digit_byte(bytes[at]) {
        digits_stand_together(bytes, at + 1);
    }
}

proof fn digits_hold_no_dot(bytes: Seq<u8>, from: int, middle: int, to: int)
    requires
        0 <= from <= middle <= to,
        forall|i: int| from <= i < middle ==> #[trigger] is_digit_byte(bytes[i]),
    ensures
        dots(bytes, from, to) == dots(bytes, middle, to),
    decreases middle - from,
{
    if from < middle {
        assert(is_digit_byte(bytes[from]));
        digits_hold_no_dot(bytes, from + 1, middle, to);
    }
}

proof fn runs_hold_digits_and_dots(bytes: Seq<u8>, at: int)
    requires
        0 <= at,
    ensures
        ({
            let end = run_from(bytes, at).0;
            &&& at <= end
            &&& end > at ==> is_digit_byte(bytes[at]) && end <= bytes.len()
            &&& end == at <==> run_from(bytes, at).1 == 0
            &&& forall|i: int|
                at <= i < end ==> is_digit_byte(#[trigger] bytes[i]) || bytes[i] == 46
            &&& forall|i: int|
                at < i < end && #[trigger] bytes[i] == 46 ==> is_digit_byte(bytes[i - 1])
            &&& end > at && bytes[end - 1] != 46 ==> run_from(bytes, at).1 == dots(bytes, at, end)
                + 1
            &&& end > at && bytes[end - 1] == 46 ==> run_from(bytes, at).1 == dots(bytes, at, end)
            &&& end < bytes.len() ==> !is_digit_byte(bytes[end])
            &&& end > at && end < bytes.len() && bytes[end] == 46 ==> bytes[end - 1] == 46
        }),
    decreases bytes.len() - at,
{
    let n = digits_from(bytes, at);
    digits_stand_together(bytes, at);
    let end = run_from(bytes, at).0;
    if n > 0 {
        assert(is_digit_byte(bytes[at]));
        assert(is_digit_byte(bytes[at + n - 1]));
        if at + n < bytes.len() && bytes[at + n] == 46 {
            runs_hold_digits_and_dots(bytes, at + n + 1);
            digits_hold_no_dot(bytes, at, at + n, end);
            assert(dots(bytes, at + n, end) == 1 + dots(bytes, at + n + 1, end));
            if end == at + n + 1 {
                assert(dots(bytes, at + n + 1, end) == 0);
            }
            assert forall|i: int| at < i < end && #[trigger] bytes[i] == 46 implies is_digit_byte(
                bytes[i - 1],
            ) by {
                if i < at + n {
                    assert(is_digit_byte(bytes[i]));
                } else if i > at + n + 1 {
                } else if i == at + n + 1 {
                    assert(is_digit_byte(bytes[at + n + 1]));
                }
            }
        } else {
            digits_hold_no_dot(bytes, at, at + n, end);
        }
    }
}

proof fn dots_add_up(bytes: Seq<u8>, from: int, to: int)
    requires
        0 <= from < to,
    ensures
        dots(bytes, from, to) == dots(bytes, from, to - 1) + (if bytes[to - 1] == 46 {
            1nat
        } else {
            0
        }),
    decreases to - from,
{
    if from < to - 1 {
        dots_add_up(bytes, from + 1, to);
    } else {
        assert(dots(bytes, from + 1, to) == 0);
        assert(dots(bytes, from, to - 1) == 0);
    }
}

/// A run starts and ends with a digit, holds nothing but digits and single dots,
/// has one number more than dots, and goes on as long as it can.
pub proof fn runs_are_numbers_and_dots(bytes: Seq<u8>, start: int)
    requires
        0 <= start < bytes.len(),
    ensures
        ({
            let end = dotted(bytes, start).0;
            &&& start <= end <= bytes.len()
            &&& digit(bytes[start]) <==> end > start
            &&& dotted(bytes, start).1 == (if end > start {
                dots(bytes, start, end) + 1
            } else {
                0
            })
            &&& end > start ==> digit(bytes[end - 1])
            &&& forall|i: int|
                start <= i < end ==> digit(#[trigger] bytes[i]) || (bytes[i] == 46 && digit(
                    bytes[i - 1],
                ))
            &&& end > start && end < bytes.len() ==> !digit(bytes[end])
            &&& end > start && end + 1 < bytes.len() && bytes[end] == 46 ==> !digit(bytes[end + 1])
        }),
{
    runs_hold_digits_and_dots(bytes, start);
    let run = run_from(bytes, start).0;
    if run > start {
        dots_add_up(bytes, start, run);
        assert(is_digit_byte(bytes[start]));
    }
    digits_stand_together(bytes, start);
}

} // verus!
