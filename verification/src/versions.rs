//! Version numbers in text: runs of numbers with dots between them.

use vstd::prelude::*;

verus! {

/// Is the byte a decimal digit?
pub open spec fn is_digit_byte(b: u8) -> bool {
    0x30 <= b <= 0x39
}

/// Number of digits that follow each other from a place on.
pub open spec fn digits_from(bytes: Seq<u8>, at: int) -> nat
    decreases bytes.len() - at,
{
    if 0 <= at < bytes.len() && is_digit_byte(bytes[at]) {
        1 + digits_from(bytes, at + 1)
    } else {
        0
    }
}

/// The run of numbers with dots between them from a place on: where it ends,
/// with a dot at its end counted in, and how many numbers it has.
pub open spec fn run_from(bytes: Seq<u8>, at: int) -> (int, nat)
    decreases bytes.len() - at,
{
    let n = digits_from(bytes, at);
    if n == 0 {
        (at, 0)
    } else if at + n < bytes.len() && bytes[at + n] == 0x2E {
        let rest = run_from(bytes, at + n + 1);
        (rest.0, rest.1 + 1)
    } else {
        (at + n, 1)
    }
}

/// The run of numbers with dots between them from a place on: where it ends, a
/// dot at its end left out, and how many numbers it has.
pub open spec fn dotted(bytes: Seq<u8>, start: int) -> (int, nat) {
    let run = run_from(bytes, start);
    if run.0 > start && bytes[run.0 - 1] == 0x2E {
        (run.0 - 1, run.1)
    } else {
        run
    }
}

/// The run of numbers with dots between them that starts at a byte: the byte
/// after it and how many numbers it has. A version number such as `1.0.0` has
/// three, a device identifier such as `0.0.0.00000000` four.
pub fn dotted_run(content: &str, start: usize) -> (r: (usize, usize))
    ensures
        (r.0 as int, r.1 as nat) == dotted(vstd::utf8::encode_utf8(content@), start as int),
{
    let bytes = content.as_bytes();
    let mut i: usize = start;
    let mut components: usize = 0;
    loop
        invariant
            bytes@ == vstd::utf8::encode_utf8(content@),
            start <= i,
            i <= bytes@.len() || i == start,
            components <= i - start,
            run_from(bytes@, start as int).0 == run_from(bytes@, i as int).0,
            run_from(bytes@, start as int).1 == components + run_from(bytes@, i as int).1,
        ensures
            start <= i,
            i <= bytes@.len() || i == start,
            run_from(bytes@, start as int) == (i as int, components as nat),
        decreases bytes@.len() - i,
    {
        let first: usize = i;
        while i < bytes.len() && bytes[i] >= 0x30 && bytes[i] <= 0x39
            invariant
                first <= i,
                i <= bytes@.len() || i == first,
                digits_from(bytes@, first as int) == (i - first) + digits_from(bytes@, i as int),
            decreases bytes@.len() - i,
        {
            i += 1;
        }
        if i == first {
            break;
        }
        components += 1;
        if i < bytes.len() && bytes[i] == 0x2E {
            i += 1;
        } else {
            break;
        }
    }
    if i > start && bytes[i - 1] == 0x2E {
        (i - 1, components)
    } else {
        (i, components)
    }
}

} // verus!
