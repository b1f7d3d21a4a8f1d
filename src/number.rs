use vstd::prelude::*;
use vstd::string::StrSliceExecFns;
use crate::format::{digit, digits, int_text};

verus! {

pub open spec fn is_digit(c: char) -> bool {
    c == '0' || c == '1' || c == '2' || c == '3' || c == '4' || c == '5' || c == '6' || c == '7'
        || c == '8' || c == '9'
}

/// The value of a decimal digit.
pub open spec fn digit_value(c: char) -> int {
    if c == '1' { 1 } else if c == '2' { 2 } else if c == '3' { 3 } else if c == '4' { 4 }
    else if c == '5' { 5 } else if c == '6' { 6 } else if c == '7' { 7 } else if c == '8' { 8 }
    else if c == '9' { 9 } else { 0 }
}

fn digit_of(c: char) -> (r: Option<u8>)
    ensures
        r is Some <==> is_digit(c),
        r matches Some(d) ==> d as int == digit_value(c) && d < 10,
{
    if c == '0' { Some(0) } else if c == '1' { Some(1) } else if c == '2' { Some(2) }
    else if c == '3' { Some(3) } else if c == '4' { Some(4) } else if c == '5' { Some(5) }
    else if c == '6' { Some(6) } else if c == '7' { Some(7) } else if c == '8' { Some(8) }
    else if c == '9' { Some(9) } else { None }
}

pub open spec fn all_digits(s: Seq<char>) -> bool {
    forall|i: int| 0 <= i < s.len() ==> is_digit(s[i])
}

/// The value of a run of decimal digits.
pub open spec fn digits_value(s: Seq<char>) -> int
    decreases s.len(),
{
    if s.len() == 0 { 0 } else { digits_value(s.drop_last()) * 10 + digit_value(s.last()) }
}

/// The digits of `s` after an optional leading sign.
pub open spec fn unsigned_part(s: Seq<char>) -> Seq<char> {
    if s.len() > 0 && (s[0] == '-' || s[0] == '+') { s.drop_first() } else { s }
}

pub open spec fn is_negative(s: Seq<char>) -> bool {
    s.len() > 0 && s[0] == '-'
}

/// A 128-bit signed integer read from text: an optional sign and at least one
/// decimal digit, nothing else, and a value that fits.
pub open spec fn parse_int(s: Seq<char>) -> Option<int> {
    let body = unsigned_part(s);
    let v = if is_negative(s) { -digits_value(body) } else { digits_value(body) };
    if body.len() == 0 || !all_digits(body) || v < i128::MIN || v > i128::MAX {
        None
    } else {
        Some(v)
    }
}

/// Text in the form that integers print in: no plus sign, no leading zeros,
/// no negative zero.
pub open spec fn canonical_int_text(s: Seq<char>) -> bool {
    let body = unsigned_part(s);
    &&& !(s.len() > 0 && s[0] == '+')
    &&& body.len() > 0
    &&& (body.len() == 1 || body[0] != '0')
    &&& !(is_negative(s) && body == seq!['0'])
}

proof fn lemma_digits_value_prefix(s: Seq<char>, k: int)
    requires
        all_digits(s),
        0 <= k <= s.len(),
    ensures
        digits_value(s) >= digits_value(s.subrange(0, k)),
        digits_value(s) >= 0,
    decreases s.len(),
{
    if s.len() > 0 {
        assert(all_digits(s.drop_last()));
        if k < s.len() {
            lemma_digits_value_prefix(s.drop_last(), k);
            assert(s.drop_last().subrange(0, k) =~= s.subrange(0, k));
        } else {
            lemma_digits_value_prefix(s.drop_last(), 0);
            assert(s.subrange(0, k) =~= s);
        }
    }
}

proof fn lemma_digit(k: nat)
    requires
        k < 10,
    ensures
        digit_value(digit(k)) == k,
        is_digit(digit(k)),
{
}

proof fn lemma_digits_of_value(n: nat)
    ensures
        all_digits(digits(n)),
        digits_value(digits(n)) == n,
        digits(n).len() > 0,
        digits(n).len() == 1 || digits(n)[0] != '0',
        n == 0 <==> digits(n) == seq!['0'],
    decreases n,
{
    if n < 10 {
        lemma_digit(n);
        assert(digits(n).drop_last() =~= Seq::<char>::empty());
        assert(digits_value(digits(n).drop_last()) == 0);
        assert(digits(n).last() == digit(n));
        assert(digits_value(digits(n)) == n);
        assert(n != 0 ==> digits(n)[0] != '0');
    } else {
        lemma_digits_of_value(n / 10);
        lemma_digit(n % 10);
        let d = digits(n);
        assert(d.drop_last() =~= digits(n / 10));
        assert(d.last() == digit(n % 10));
        assert(digits_value(d) == digits_value(d.drop_last()) * 10 + digit_value(d.last()));
        assert((n / 10) * 10 + n % 10 == n);
        assert(digits_value(d) == n);
        assert(d.len() >= 2);
        assert(d[0] == digits(n / 10)[0]);
    }
}

proof fn lemma_value_of_digits(s: Seq<char>)
    requires
        all_digits(s),
        s.len() > 0,
        s.len() == 1 || s[0] != '0',
    ensures
        digits(digits_value(s) as nat) == s,
    decreases s.len(),
{
    lemma_digits_value_prefix(s, 0);
    if s.len() == 1 {
        assert(s.drop_last() =~= Seq::<char>::empty());
        let c = s[0];
        assert(digits(digits_value(s) as nat) =~= s) by {
            assert(c == '0' || c == '1' || c == '2' || c == '3' || c == '4' || c == '5' || c == '6'
                || c == '7' || c == '8' || c == '9');
        };
    } else {
        let p = s.drop_last();
        assert(all_digits(p));
        lemma_value_of_digits(p);
        lemma_digits_value_prefix(p, 1);
        assert(p.subrange(0, 1).drop_last() =~= Seq::<char>::empty());
        let x = digits_value(p);
        let c = s.last();
        let d = digit_value(c);
        assert(x >= 1);
        assert(digits_value(s) == x * 10 + d);
        assert((x * 10 + d) / 10 == x && (x * 10 + d) % 10 == d) by (nonlinear_arith)
            requires 0 <= d < 10, x >= 1;
        assert(digits(digits_value(s) as nat) =~= s) by {
            assert(c == '0' || c == '1' || c == '2' || c == '3' || c == '4' || c == '5' || c == '6'
                || c == '7' || c == '8' || c == '9');
        };
    }
}

/// Printing an integer and reading it back gives the integer.
pub proof fn lemma_int_text_parses(n: i128)
    ensures
        parse_int(int_text(n as int)) == Some(n as int),
        canonical_int_text(int_text(n as int)),
{
    let t = int_text(n as int);
    if n < 0 {
        lemma_digits_of_value((-n) as nat);
        assert(unsigned_part(t) =~= digits((-n) as nat));
    } else {
        lemma_digits_of_value(n as nat);
    }
}

/// Reading canonical integer text and printing the integer gives the text back.
pub proof fn lemma_parse_prints_back(s: Seq<char>)
    requires
        parse_int(s) is Some,
        canonical_int_text(s),
    ensures
        int_text(parse_int(s)->0) == s,
{
    let body = unsigned_part(s);
    lemma_value_of_digits(body);
    lemma_digits_value_prefix(body, 0);
    if is_negative(s) {
        if digits_value(body) == 0 {
            lemma_digits_of_value(0);
        }
        assert(seq!['-'] + body =~= s);
    }
}

/// Reads a 128-bit signed integer from text.
pub fn parse_integer(s: &str) -> (r: Option<i128>)
    ensures
        r matches Some(v) ==> parse_int(s@) == Some(v as int),
        r is None ==> parse_int(s@) is None,
{
    let n = s.unicode_len();
    if n == 0 {
        return None;
    }
    let first = s.get_char(0);
    let negative = first == '-';
    let start: usize = if first == '-' || first == '+' { 1 } else { 0 };
    let ghost body = unsigned_part(s@);
    assert(body =~= s@.subrange(start as int, n as int));
    if start == n {
        return None;
    }
    let limit: u128 = if negative { 170141183460469231731687303715884105728 } else { 170141183460469231731687303715884105727 };
    let mut acc: u128 = 0;
    let mut i: usize = start;
    while i < n
        invariant
            n == s@.len(),
            start <= i <= n,
            body =~= s@.subrange(start as int, n as int),
            body == unsigned_part(s@),
            negative == is_negative(s@),
            limit == (if negative { 170141183460469231731687303715884105728u128 } else { 170141183460469231731687303715884105727u128 }),
            all_digits(body.subrange(0, i - start)),
            acc as int == digits_value(body.subrange(0, i - start)),
            acc <= limit,
        decreases n - i,
    {
        let c = s.get_char(i);
        let d: u128 = match digit_of(c) {
            Some(x) => x as u128,
            None => {
                assert(body[(i - start) as int] == s@[i as int]);
                assert(!is_digit(body[(i - start) as int]));
                assert(!all_digits(body));
                assert(parse_int(s@) is None);
                return None;
            },
        };
        let ghost pre = body.subrange(0, i - start);
        let ghost next = body.subrange(0, i + 1 - start);
        assert(next.drop_last() =~= pre);
        assert(next.last() == c);
        assert(all_digits(next));
        assert(d < 10);
        assert(limit >= 170141183460469231731687303715884105727);
        if acc > (limit - d) / 10 {
            proof {
                if all_digits(body) {
                    lemma_digits_value_prefix(body, i + 1 - start);
                }
            }
            return None;
        }
        acc = acc * 10 + d;
        i = i + 1;
    }
    assert(body.subrange(0, n - start) =~= body);
    if negative {
        if acc == 170141183460469231731687303715884105728 {
            Some(i128::MIN)
        } else {
            Some(-(acc as i128))
        }
    } else {
        Some(acc as i128)
    }
}

}
