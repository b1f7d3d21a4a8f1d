use vstd::prelude::*;
use crate::format::{digit, digit_char, digits, push_digits, chars_to_string};

verus! {

/// A signed time span, counted in microseconds.
#[derive(Clone, Copy, Debug, PartialEq, Eq, Structural, Hash, PartialOrd, Ord)]
pub struct Duration {
    pub micros: i64,
}

pub const MICROS_PER_SECOND: u64 = 1000000;
pub const SECONDS_PER_DAY: u64 = 86400;
pub const SECONDS_PER_YEAR: u64 = 31536000;

impl Duration {
    pub fn microseconds(us: i64) -> (r: Duration)
        ensures
            r.micros == us,
    {
        Duration { micros: us }
    }

    pub fn milliseconds(ms: i64) -> (r: Duration)
        requires
            i64::MIN <= ms * 1000 <= i64::MAX,
        ensures
            r.micros == ms * 1000,
    {
        Duration { micros: ms * 1000 }
    }

    pub fn seconds(s: i64) -> (r: Duration)
        requires
            i64::MIN <= s * 1000000 <= i64::MAX,
        ensures
            r.micros == s * 1000000,
    {
        Duration { micros: s * 1000000 }
    }
}

/// Two decimal digits of `n`, which is below one hundred.
pub open spec fn pad2(n: nat) -> Seq<char> {
    seq![digit(n / 10), digit(n % 10)]
}

/// `s` without its trailing zeros.
pub open spec fn strip_zeros(s: Seq<char>) -> Seq<char>
    decreases s.len(),
{
    if s.len() > 0 && s.last() == '0' { strip_zeros(s.drop_last()) } else { s }
}

/// The six decimal digits of a count of microseconds below one second.
pub open spec fn six_digits(m: nat) -> Seq<char> {
    seq![
        digit(m / 100000 % 10), digit(m / 10000 % 10), digit(m / 1000 % 10),
        digit(m / 100 % 10), digit(m / 10 % 10), digit(m % 10),
    ]
}

/// The whole-second part of a non-negative span of `secs` seconds: years,
/// days, hours, minutes and seconds, each shown from the largest non-zero
/// unit on.
pub open spec fn seconds_text(secs: nat) -> Seq<char> {
    let years = secs / 31536000;
    let days = secs % 31536000 / 86400;
    let hours = secs % 86400 / 3600;
    let minutes = secs % 3600 / 60;
    let s = secs % 60;
    let clock = digits(hours) + seq![':'] + pad2(minutes) + seq![':'] + pad2(s);
    if years > 0 {
        digits(years) + seq!['y'] + digits(days) + seq!['d'] + clock
    } else if days > 0 {
        digits(days) + seq!['d'] + clock
    } else if hours > 0 {
        clock
    } else if minutes > 0 {
        digits(minutes) + seq![':'] + pad2(s)
    } else {
        digits(s)
    }
}

/// The text of a non-negative span of `us` microseconds: the sub-second
/// part is shown, without trailing zeros, only below one day.
pub open spec fn span_text(us: nat) -> Seq<char> {
    let secs = us / 1000000;
    let sub = us % 1000000;
    if secs < 86400 && sub > 0 {
        seconds_text(secs) + seq!['.'] + strip_zeros(six_digits(sub))
    } else {
        seconds_text(secs)
    }
}

/// The text of a span of `us` microseconds, negative spans with a minus sign.
pub open spec fn duration_text(us: int) -> Seq<char> {
    if us < 0 { seq!['-'] + span_text((-us) as nat) } else { span_text(us as nat) }
}

fn push_pad2(n: u64, out: &mut Vec<char>)
    requires
        n < 100,
    ensures
        final(out)@ == old(out)@ + pad2(n as nat),
{
    out.push(digit_char(n / 10));
    out.push(digit_char(n % 10));
    assert(out@ =~= old(out)@ + pad2(n as nat));
}

fn push_seconds(secs: u64, out: &mut Vec<char>)
    ensures
        final(out)@ == old(out)@ + seconds_text(secs as nat),
{
    let years = secs / SECONDS_PER_YEAR;
    let days = secs % SECONDS_PER_YEAR / SECONDS_PER_DAY;
    let hours = secs % SECONDS_PER_DAY / 3600;
    let minutes = secs % 3600 / 60;
    let s = secs % 60;
    let ghost clock = digits(hours as nat) + seq![':'] + pad2(minutes as nat) + seq![':'] + pad2(s as nat);
    if years > 0 || days > 0 || hours > 0 {
        if years > 0 {
            push_digits(years as u128, out);
            out.push('y');
        }
        if years > 0 || days > 0 {
            push_digits(days as u128, out);
            out.push('d');
        }
        push_digits(hours as u128, out);
        out.push(':');
        push_pad2(minutes, out);
        out.push(':');
        push_pad2(s, out);
        if years > 0 {
            assert(out@ =~= old(out)@ + (digits(years as nat) + seq!['y'] + digits(days as nat) + seq!['d'] + clock));
        } else if days > 0 {
            assert(out@ =~= old(out)@ + (digits(days as nat) + seq!['d'] + clock));
        } else {
            assert(out@ =~= old(out)@ + clock);
        }
    } else if minutes > 0 {
        push_digits(minutes as u128, out);
        out.push(':');
        push_pad2(s, out);
        assert(out@ =~= old(out)@ + (digits(minutes as nat) + seq![':'] + pad2(s as nat)));
    } else {
        push_digits(s as u128, out);
    }
}

fn push_fraction(sub: u64, out: &mut Vec<char>)
    requires
        0 < sub < 1000000,
    ensures
        final(out)@ == old(out)@ + strip_zeros(six_digits(sub as nat)),
{
    let mut d: Vec<char> = Vec::new();
    d.push(digit_char(sub / 100000 % 10));
    d.push(digit_char(sub / 10000 % 10));
    d.push(digit_char(sub / 1000 % 10));
    d.push(digit_char(sub / 100 % 10));
    d.push(digit_char(sub / 10 % 10));
    d.push(digit_char(sub % 10));
    assert(d@ =~= six_digits(sub as nat));
    while d.len() > 0 && d[d.len() - 1] == '0'
        invariant
            strip_zeros(d@) == strip_zeros(six_digits(sub as nat)),
        decreases d.len(),
    {
        d.pop();
    }
    let mut i: usize = 0;
    while i < d.len()
        invariant
            i <= d@.len(),
            out@ == old(out)@ + d@.subrange(0, i as int),
        decreases d.len() - i,
    {
        out.push(d[i]);
        assert(d@.subrange(0, i + 1) =~= d@.subrange(0, i as int).push(d@[i as int]));
        i = i + 1;
    }
    assert(d@.subrange(0, d@.len() as int) =~= d@);
}

/// Renders a span compactly: `[Ny][Nd][H:]MM:SS` from the largest non-zero
/// unit on, with up to six decimals of a second on spans under a day.
pub fn duration_format(d: &Duration) -> (r: String)
    ensures
        r@ == duration_text(d.micros as int),
{
    let mut out: Vec<char> = Vec::new();
    let us: u64 = if d.micros < 0 {
        out.push('-');
        if d.micros == i64::MIN { (i64::MAX as u64) + 1 } else { (-d.micros) as u64 }
    } else {
        d.micros as u64
    };
    let ghost start = out@;
    let secs = us / MICROS_PER_SECOND;
    let sub = us % MICROS_PER_SECOND;
    push_seconds(secs, &mut out);
    if secs < SECONDS_PER_DAY && sub > 0 {
        out.push('.');
        push_fraction(sub, &mut out);
        assert(out@ =~= start + span_text(us as nat));
    } else {
        assert(out@ =~= start + span_text(us as nat));
    }
    assert(out@ =~= duration_text(d.micros as int));
    chars_to_string(&out)
}

}
