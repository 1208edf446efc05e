//! Characters, decimal numbers and strings.
use vstd::prelude::*;

verus! {

/// Relies on `String::push`: appends one character at the end.
#[verifier::external_body]
pub(crate) fn push_char(s: &mut String, c: char)
    ensures
        final(s)@ == old(s)@.push(c),
{
    s.push(c);
}

/// The characters of `s`, in order.
pub fn chars_of(s: &str) -> (r: Vec<char>)
    ensures
        r@ == s@,
{
    let mut r: Vec<char> = Vec::new();
    for c in it: s.chars()
        invariant
            r@ == it.seq().take(it.index() as int),
    {
        r.push(c);
    }
    r
}

/// The decimal digit character for `d` (`'0'` to `'9'`).
pub open spec fn digit_char(d: nat) -> char {
    if d == 0 {
        '0'
    } else if d == 1 {
        '1'
    } else if d == 2 {
        '2'
    } else if d == 3 {
        '3'
    } else if d == 4 {
        '4'
    } else if d == 5 {
        '5'
    } else if d == 6 {
        '6'
    } else if d == 7 {
        '7'
    } else if d == 8 {
        '8'
    } else {
        '9'
    }
}

/// The decimal digits of `n`, most significant first, without leading zeros.
pub open spec fn nat_decimal(n: nat) -> Seq<char>
    decreases n,
{
    if n < 10 {
        seq![digit_char(n)]
    } else {
        nat_decimal(n / 10).push(digit_char(n % 10))
    }
}

/// `n` written in decimal, with a leading `-` when negative.
pub open spec fn decimal(n: int) -> Seq<char> {
    if n < 0 {
        seq!['-'] + nat_decimal((-n) as nat)
    } else {
        nat_decimal(n as nat)
    }
}

fn digit_to_char(d: u32) -> (r: char)
    requires
        d < 10,
    ensures
        r == digit_char(d as nat),
{
    match d {
        0 => '0',
        1 => '1',
        2 => '2',
        3 => '3',
        4 => '4',
        5 => '5',
        6 => '6',
        7 => '7',
        8 => '8',
        _ => '9',
    }
}

fn push_nat_decimal(out: &mut String, n: u32)
    ensures
        final(out)@ == old(out)@ + nat_decimal(n as nat),
    decreases n,
{
    if n >= 10 {
        push_nat_decimal(out, n / 10);
    }
    push_char(out, digit_to_char(n % 10));
    assert(final(out)@ =~= old(out)@ + nat_decimal(n as nat));
}

/// Appends `n` in decimal to `out`.
pub fn push_decimal(out: &mut String, n: i32)
    ensures
        final(out)@ == old(out)@ + decimal(n as int),
{
    if n < 0 {
        push_char(out, '-');
        let magnitude: u32 = (-(n as i64)) as u32;
        push_nat_decimal(out, magnitude);
        assert(final(out)@ =~= old(out)@ + decimal(n as int));
    } else {
        push_nat_decimal(out, n as u32);
    }
}

/// True iff `c` is an ASCII decimal digit.
pub open spec fn is_digit(c: char) -> bool {
    '0' <= c <= '9'
}

/// The value of the digit `c`.
pub open spec fn digit_value(c: char) -> int {
    c as int - '0' as int
}

/// True iff `t` is a non-empty run of decimal digits.
pub open spec fn all_digits(t: Seq<char>) -> bool {
    t.len() > 0 && forall|i: int| 0 <= i < t.len() ==> is_digit(#[trigger] t[i])
}

/// The value of the digits `t`, read in decimal.
pub open spec fn digits_value(t: Seq<char>) -> int
    decreases t.len(),
{
    if t.len() == 0 {
        0
    } else {
        digits_value(t.drop_last()) * 10 + digit_value(t.last())
    }
}

/// The integer that `t` writes: digits with an optional leading `+` or `-`.
pub open spec fn integer_literal(t: Seq<char>) -> Option<int> {
    if all_digits(t) {
        Some(digits_value(t))
    } else if t.len() > 0 && t[0] == '-' && all_digits(t.drop_first()) {
        Some(-digits_value(t.drop_first()))
    } else if t.len() > 0 && t[0] == '+' && all_digits(t.drop_first()) {
        Some(digits_value(t.drop_first()))
    } else {
        None
    }
}

/// The `i32` that `t` writes, if it writes one in range.
pub open spec fn i32_literal(t: Seq<char>) -> Option<i32> {
    match integer_literal(t) {
        Some(v) => if i32::MIN <= v <= i32::MAX {
            Some(v as i32)
        } else {
            None
        },
        None => None,
    }
}

/// A bound just above the magnitude of every `i32`.
const MAGNITUDE_CAP: u64 = 2147483649;

/// The value of the digits `t[lo..hi]`, saturated at `MAGNITUDE_CAP`, or
/// `None` when that range is not a non-empty run of digits.
fn capped_digits(t: &Vec<char>, lo: usize, hi: usize) -> (r: Option<u64>)
    requires
        lo <= hi <= t@.len(),
    ensures
        r is Some <==> all_digits(t@.subrange(lo as int, hi as int)),
        r is Some ==> r->0 as int == if digits_value(t@.subrange(lo as int, hi as int))
            < MAGNITUDE_CAP as int {
            digits_value(t@.subrange(lo as int, hi as int))
        } else {
            MAGNITUDE_CAP as int
        },
{
    if lo == hi {
        return None;
    }
    let mut acc: u64 = 0;
    let mut i: usize = lo;
    while i < hi
        invariant
            lo <= i <= hi <= t@.len(),
            forall|j: int| lo <= j < i ==> is_digit(#[trigger] t@[j]),
            acc as int == if digits_value(t@.subrange(lo as int, i as int)) < MAGNITUDE_CAP as int {
                digits_value(t@.subrange(lo as int, i as int))
            } else {
                MAGNITUDE_CAP as int
            },
        decreases hi - i,
    {
        let c = t[i];
        if !('0' <= c && c <= '9') {
            assert(t@.subrange(lo as int, hi as int)[i - lo] == c);
            return None;
        }
        let d: u64 = (c as u32 - '0' as u32) as u64;
        assert(t@.subrange(lo as int, i + 1 as int).drop_last() =~= t@.subrange(lo as int, i as int));
        let ghost v = digits_value(t@.subrange(lo as int, i as int));
        assert(digits_value(t@.subrange(lo as int, i + 1 as int)) == v * 10 + d);
        if acc == MAGNITUDE_CAP {
            assert(v * 10 + d >= MAGNITUDE_CAP) by (nonlinear_arith)
                requires
                    v >= MAGNITUDE_CAP as int,
                    d >= 0,
            ;
        } else {
            let next = acc * 10 + d;
            acc = if next < MAGNITUDE_CAP {
                next
            } else {
                MAGNITUDE_CAP
            };
        }
        i = i + 1;
    }
    assert forall|j: int| 0 <= j < hi - lo implies is_digit(
        #[trigger] t@.subrange(lo as int, hi as int)[j],
    ) by {
        assert(t@.subrange(lo as int, hi as int)[j] == t@[lo + j]);
    }
    Some(acc)
}

/// The `i32` that `t[lo..hi]` writes, as `i32_literal` reads it.
pub fn parse_i32(t: &Vec<char>, lo: usize, hi: usize) -> (r: Option<i32>)
    requires
        lo <= hi <= t@.len(),
    ensures
        r == i32_literal(t@.subrange(lo as int, hi as int)),
{
    let ghost s = t@.subrange(lo as int, hi as int);
    if lo < hi && (t[lo] == '-' || t[lo] == '+') {
        assert(!is_digit(s[0]));
        assert(s.drop_first() =~= t@.subrange(lo + 1, hi as int));
        match capped_digits(t, lo + 1, hi) {
            None => None,
            Some(m) => {
                if t[lo] == '-' {
                    if m <= 2147483648 {
                        Some((-(m as i64)) as i32)
                    } else {
                        None
                    }
                } else {
                    if m <= 2147483647 {
                        Some(m as i32)
                    } else {
                        None
                    }
                }
            },
        }
    } else {
        match capped_digits(t, lo, hi) {
            None => {
                if lo < hi {
                    assert(s[0] == t@[lo as int]);
                }
                None
            },
            Some(m) => {
                if m <= 2147483647 {
                    Some(m as i32)
                } else {
                    None
                }
            },
        }
    }
}

} // verus!
