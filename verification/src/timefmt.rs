//! Rendering elapsed time as text: seconds with a three-digit fractional
//! part, as the progress reports print it.

use vstd::prelude::*;
use vstd::string::StringExecFns;

verus! {

/// The decimal digit character for one digit value.
pub open spec fn digit_char(d: int) -> char {
    if d == 0 {
        '0'
    } else if d == 1 {
        '1'
    } else if d == 2 {
        '2'
    } else if d == 3 {
        '3'
    } else if d == 4 {
        '4'
    } else if d == 5 {
        '5'
    } else if d == 6 {
        '6'
    } else if d == 7 {
        '7'
    } else if d == 8 {
        '8'
    } else {
        '9'
    }
}

/// The decimal notation of a non-negative number, most significant digit
/// first, without leading zeros.
pub open spec fn dec_digits(n: int) -> Seq<char>
    decreases n,
    when n >= 0
{
    if n <= 9 {
        seq![digit_char(n)]
    } else {
        dec_digits(n / 10).push(digit_char(n % 10))
    }
}

/// The three-digit, zero-padded decimal notation of a number below 1000.
pub open spec fn pad3_digits(n: int) -> Seq<char> {
    seq![digit_char(n / 100 % 10), digit_char(n / 10 % 10), digit_char(n % 10)]
}

/// The rendering of a duration: whole seconds, a dot, three millisecond
/// digits, and the unit.
pub open spec fn duration_text(secs: int, millis: int) -> Seq<char> {
    dec_digits(secs) + seq!['.'] + pad3_digits(millis) + seq![' ', 's']
}

/// One decimal digit as text.
fn digit_str(d: u64) -> (r: String)
    requires
        d <= 9,
    ensures
        r@ == seq![digit_char(d as int)],
{
    proof {
        reveal_strlit("0");
        reveal_strlit("1");
        reveal_strlit("2");
        reveal_strlit("3");
        reveal_strlit("4");
        reveal_strlit("5");
        reveal_strlit("6");
        reveal_strlit("7");
        reveal_strlit("8");
        reveal_strlit("9");
    }
    let s: &str = if d == 0 {
        "0"
    } else if d == 1 {
        "1"
    } else if d == 2 {
        "2"
    } else if d == 3 {
        "3"
    } else if d == 4 {
        "4"
    } else if d == 5 {
        "5"
    } else if d == 6 {
        "6"
    } else if d == 7 {
        "7"
    } else if d == 8 {
        "8"
    } else {
        "9"
    };
    proof {
        assert(s@ =~= seq![digit_char(d as int)]);
    }
    s.to_owned()
}

/// A number in decimal notation.
pub fn u64_to_dec(n: u64) -> (r: String)
    ensures
        r@ == dec_digits(n as int),
    decreases n,
{
    if n <= 9 {
        digit_str(n)
    } else {
        let mut s = u64_to_dec(n / 10);
        let d = digit_str(n % 10);
        s.append(d.as_str());
        proof {
            assert(s@ =~= dec_digits(n as int));
        }
        s
    }
}

/// A number below 1000 in three-digit, zero-padded decimal notation.
pub fn pad3(n: u32) -> (r: String)
    requires
        n < 1000,
    ensures
        r@ == pad3_digits(n as int),
{
    let mut s = digit_str((n / 100 % 10) as u64);
    let d1 = digit_str((n / 10 % 10) as u64);
    s.append(d1.as_str());
    let d2 = digit_str((n % 10) as u64);
    s.append(d2.as_str());
    proof {
        assert(s@ =~= pad3_digits(n as int));
    }
    s
}

/// Renders whole seconds and milliseconds as the duration text, such as
/// `1.024 s`.
pub fn fmt_secs_millis(secs: u64, millis: u32) -> (r: String)
    requires
        millis < 1000,
    ensures
        r@ == duration_text(secs as int, millis as int),
{
    let mut s = u64_to_dec(secs);
    s.append(".");
    let p = pad3(millis);
    s.append(p.as_str());
    s.append(" s");
    proof {
        reveal_strlit(".");
        reveal_strlit(" s");
        assert(s@ =~= duration_text(secs as int, millis as int));
    }
    s
}

/// What the whole-second part of a duration is: a function of the duration
/// value alone.
pub uninterp spec fn duration_secs_spec(d: core::time::Duration) -> u64;

/// What the nanosecond fractional part of a duration is: a function of the
/// duration value alone.
pub uninterp spec fn duration_nanos_spec(d: core::time::Duration) -> u32;

/// Relies on `std::time::Duration::as_secs`: the whole-second part of the
/// duration, a function of the duration value.
#[verifier::external_body]
fn duration_secs(d: &core::time::Duration) -> (r: u64)
    ensures
        r == duration_secs_spec(*d),
{
    d.as_secs()
}

/// Relies on `std::time::Duration::subsec_nanos`: the fractional part of the
/// duration in nanoseconds, a function of the duration value, always below
/// one billion.
#[verifier::external_body]
fn duration_subsec_nanos(d: &core::time::Duration) -> (r: u32)
    ensures
        r == duration_nanos_spec(*d),
        r < 1_000_000_000,
{
    d.subsec_nanos()
}

/// Format `duration` as seconds with a fractional component.
pub fn fmt_duration_as_secs(duration: &core::time::Duration) -> (r: String)
    ensures
        r@ == duration_text(
            duration_secs_spec(*duration) as int,
            duration_nanos_spec(*duration) as int / 1_000_000,
        ),
{
    let secs = duration_secs(duration);
    let nanos = duration_subsec_nanos(duration);
    let millis = nanos / 1_000_000;
    let r = fmt_secs_millis(secs, millis);
    proof {
        assert(millis as int == duration_nanos_spec(*duration) as int / 1_000_000);
    }
    r
}

} // verus!
