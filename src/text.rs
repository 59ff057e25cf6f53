//! Building short ASCII texts: clock readings and fixed labels.

use vstd::prelude::*;

verus! {

/// Relies on `String::push`: the character is appended at the end.
#[verifier::external_body]
pub(crate) fn push_char(s: &mut String, c: char)
    ensures
        final(s)@ == old(s)@.push(c),
{
    s.push(c);
}

/// The decimal digit for `d`, which is below ten.
pub open spec fn digit_char(d: int) -> char {
    if d == 0 {
        '0'
    } else if d == 1 {
        '1'
    } else if d == 2 {
        '2'
    } else if d == 3 {
        '3'
    } else if d == 4 {
        '4'
    } else if d == 5 {
        '5'
    } else if d == 6 {
        '6'
    } else if d == 7 {
        '7'
    } else if d == 8 {
        '8'
    } else {
        '9'
    }
}

/// `n`, below one hundred, as two decimal digits with a leading zero.
pub open spec fn two_digits(n: int) -> Seq<char> {
    seq![digit_char(n / 10), digit_char(n % 10)]
}

/// `HH:MM`, or `HH:MM:SS` with `with_seconds`, for `secs` seconds after midnight.
pub open spec fn clock_text(secs: int, with_seconds: bool) -> Seq<char> {
    let hm = two_digits(secs / 3600) + seq![':'] + two_digits(secs / 60 % 60);
    if with_seconds {
        hm + seq![':'] + two_digits(secs % 60)
    } else {
        hm
    }
}

fn digit(d: u32) -> (c: char)
    requires
        d < 10,
    ensures
        c == digit_char(d as int),
{
    if d == 0 {
        '0'
    } else if d == 1 {
        '1'
    } else if d == 2 {
        '2'
    } else if d == 3 {
        '3'
    } else if d == 4 {
        '4'
    } else if d == 5 {
        '5'
    } else if d == 6 {
        '6'
    } else if d == 7 {
        '7'
    } else if d == 8 {
        '8'
    } else {
        '9'
    }
}

fn push_two_digits(s: &mut String, n: u32)
    requires
        n < 100,
    ensures
        final(s)@ == old(s)@ + two_digits(n as int),
{
    push_char(s, digit(n / 10));
    push_char(s, digit(n % 10));
    assert(final(s)@ =~= old(s)@ + two_digits(n as int));
}

/// The clock reading of `secs` seconds after midnight.
pub fn clock(secs: u32, with_seconds: bool) -> (r: String)
    requires
        secs < 86400,
    ensures
        r@ == clock_text(secs as int, with_seconds),
{
    let mut s = String::new();
    push_two_digits(&mut s, secs / 3600);
    push_char(&mut s, ':');
    push_two_digits(&mut s, secs / 60 % 60);
    if with_seconds {
        push_char(&mut s, ':');
        push_two_digits(&mut s, secs % 60);
    }
    assert(s@ =~= clock_text(secs as int, with_seconds));
    s
}

} // verus!
