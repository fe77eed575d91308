//! Server bootstrap settings: the listen port from its configured value.

use vstd::prelude::*;

use crate::text::{chars_of, decimal_digits, digit_char};

verus! {

/// Port used when `PORT` is unset or not a valid port number.
pub const DEFAULT_PORT: u16 = 8080;

/// `c` is an ASCII decimal digit.
pub open spec fn is_digit(c: char) -> bool {
    '0' <= c && c <= '9'
}

/// Value of a string of decimal digits.
pub open spec fn digits_value(d: Seq<char>) -> int
    decreases d.len(),
{
    if d.len() == 0 {
        0
    } else {
        10 * digits_value(d.drop_last()) + (d.last() as int - '0' as int)
    }
}

/// The digits of a port text: the text after one optional leading `+`.
pub open spec fn port_digits(s: Seq<char>) -> Seq<char> {
    if s.len() > 0 && s[0] == '+' {
        s.drop_first()
    } else {
        s
    }
}

/// A text parses as a `u16` as `str::parse::<u16>` accepts it: an optional
/// `+` followed by at least one decimal digit, valued at most 65535.
pub open spec fn parse_u16_text(s: Seq<char>) -> Option<u16> {
    let d = port_digits(s);
    if d.len() > 0 && (forall|i: int| 0 <= i < d.len() ==> is_digit(#[trigger] d[i]))
        && digits_value(d) <= 65535 {
        Some(digits_value(d) as u16)
    } else {
        None
    }
}

/// Listen port for a configured `PORT` value: the parsed port, or
/// [`DEFAULT_PORT`] when unset or invalid.
pub open spec fn listen_port_of(value: Option<Seq<char>>) -> u16 {
    match value {
        Some(v) => match parse_u16_text(v) {
            Some(p) => p,
            None => DEFAULT_PORT,
        },
        None => DEFAULT_PORT,
    }
}

proof fn lemma_digits_value_grows(d: Seq<char>, i: int)
    requires
        0 <= i <= d.len(),
        forall|j: int| 0 <= j < d.len() ==> is_digit(#[trigger] d[j]),
    ensures
        digits_value(d) >= digits_value(d.take(i)),
        digits_value(d.take(i)) >= 0,
    decreases d.len() - i,
{
    if i < d.len() {
        lemma_digits_value_grows(d, i + 1);
        assert(d.take(i + 1).drop_last() =~= d.take(i));
        assert(d.take(i + 1).last() == d[i]);
        assert(is_digit(d[i]));
    } else {
        assert(d.take(i) =~= d);
        lemma_digits_nonneg(d);
    }
}

proof fn lemma_digits_nonneg(d: Seq<char>)
    requires
        forall|j: int| 0 <= j < d.len() ==> is_digit(#[trigger] d[j]),
    ensures
        digits_value(d) >= 0,
    decreases d.len(),
{
    if d.len() > 0 {
        let e = d.drop_last();
        assert forall|j: int| 0 <= j < e.len() implies is_digit(#[trigger] e[j]) by {
            assert(e[j] == d[j]);
        }
        lemma_digits_nonneg(e);
        assert(is_digit(d[d.len() - 1]));
    }
}

/// Parses a port number as `str::parse::<u16>` does (see [`parse_u16_text`]).
pub fn parse_port(s: &str) -> (p: Option<u16>)
    ensures
        p == parse_u16_text(s@),
        forall|n: u16| #![trigger decimal_digits(n as nat)] s@ == decimal_digits(n as nat) ==> p == Some(n),
{
    proof {
        assert forall|n: u16| #![trigger decimal_digits(n as nat)] s@ == decimal_digits(n as nat) implies parse_u16_text(s@) == Some(n) by {
            lemma_decimal_text_parses(n as nat);
        }
    }
    parse_port_text(s)
}

fn parse_port_text(s: &str) -> (p: Option<u16>)
    ensures
        p == parse_u16_text(s@),
{
    let cs = chars_of(s);
    let n = cs.len();
    let start: usize = if n > 0 && cs[0] == '+' {
        1
    } else {
        0
    };
    let ghost d = port_digits(s@);
    assert(d =~= cs@.skip(start as int));
    if start >= n {
        return None;
    }
    let mut value: u32 = 0;
    let mut i = start;
    while i < n
        invariant
            start <= i <= n,
            n == cs.len(),
            cs@ == s@,
            d == cs@.skip(start as int),
            d == port_digits(s@),
            forall|j: int| start <= j < i ==> is_digit(#[trigger] cs@[j]),
            value == digits_value(d.take(i - start)),
            value <= 65535,
        decreases n - i,
    {
        let c = cs[i];
        if !('0' <= c && c <= '9') {
            proof {
                assert(d[i - start] == c);
                assert(!is_digit(d[i - start]));
            }
            return None;
        }
        let digit = (c as u32) - ('0' as u32);
        proof {
            assert(d.take(i - start + 1).drop_last() =~= d.take(i - start));
            assert(d.take(i - start + 1).last() == c);
        }
        let next = value * 10 + digit;
        if next > 65535 {
            proof {
                if forall|k: int| 0 <= k < d.len() ==> is_digit(#[trigger] d[k]) {
                    lemma_digits_value_grows(d, i - start + 1);
                    assert(digits_value(d.take(i - start + 1)) == 10 * digits_value(d.take(i - start)) + (c as int - '0' as int));
                }
            }
            return None;
        }
        value = next;
        i += 1;
    }
    proof {
        assert(d.take(n - start) =~= d);
        assert forall|k: int| 0 <= k < d.len() implies is_digit(#[trigger] d[k]) by {
            assert(d[k] == cs@[start + k]);
        }
    }
    Some(value as u16)
}

/// Listen port for the configured `PORT` value (see [`listen_port_of`]).
pub fn listen_port(value: Option<&str>) -> (port: u16)
    ensures
        port == listen_port_of(
            match value {
                Some(v) => Some(v@),
                None => None,
            },
        ),
{
    match value {
        Some(v) => match parse_port(v) {
            Some(p) => p,
            None => DEFAULT_PORT,
        },
        None => DEFAULT_PORT,
    }
}

proof fn lemma_decimal_digits_value(n: nat)
    ensures
        decimal_digits(n).len() > 0,
        forall|i: int| 0 <= i < decimal_digits(n).len() ==> is_digit(#[trigger] decimal_digits(n)[i]),
        digits_value(decimal_digits(n)) == n,
    decreases n,
{
    let d = decimal_digits(n);
    let c = digit_char((n % 10) as int);
    assert(c as int == n % 10 + 48);
    if n >= 10 {
        lemma_decimal_digits_value(n / 10);
        let e = decimal_digits(n / 10);
        assert(d == e.push(c));
        assert(d.drop_last() =~= e);
        assert(d.last() == c);
        assert(n == 10 * (n / 10) + n % 10);
        assert(digits_value(d) == 10 * digits_value(e) + (c as int - '0' as int));
        assert forall|i: int| 0 <= i < d.len() implies is_digit(#[trigger] d[i]) by {
            if i < e.len() {
                assert(d[i] == e[i]);
            }
        }
    } else {
        assert(d == seq![c]);
        assert(d.drop_last() =~= Seq::<char>::empty());
        assert(d.last() == c);
        assert(digits_value(d) == 10 * digits_value(d.drop_last()) + (c as int - '0' as int));
    }
}

/// Every port number, written in decimal, parses back to itself: each of
/// the ten ASCII digits counts as a digit with its own value.
pub proof fn lemma_decimal_text_parses(n: nat)
    requires
        n <= 65535,
    ensures
        parse_u16_text(decimal_digits(n)) == Some(n as u16),
        listen_port_of(Some(decimal_digits(n))) == n as u16,
{
    lemma_decimal_digits_value(n);
    let d = decimal_digits(n);
    assert(d[0] != '+');
    assert(port_digits(d) == d);
}

/// A text of one to four decimal digits is the port it spells, digit by
/// digit from the left.
pub proof fn lemma_short_digit_text_parses(d: Seq<char>)
    requires
        1 <= d.len() <= 4,
        forall|i: int| 0 <= i < d.len() ==> '0' <= #[trigger] d[i] && d[i] <= '9',
    ensures
        parse_u16_text(d) == Some(digits_value(d) as u16),
        0 <= digits_value(d) <= 9999,
{
    lemma_digits_bound(d);
    assert(pow10(4) == 10000) by {
        reveal_with_fuel(pow10, 5);
    }
    if d.len() < 4 {
        assert(pow10(d.len()) <= pow10(4)) by {
            reveal_with_fuel(pow10, 5);
        }
    }
    assert(d[0] != '+');
    assert(port_digits(d) == d);
    assert forall|i: int| 0 <= i < d.len() implies is_digit(#[trigger] d[i]) by {}
}

proof fn lemma_digits_bound(d: Seq<char>)
    requires
        forall|i: int| 0 <= i < d.len() ==> '0' <= #[trigger] d[i] && d[i] <= '9',
    ensures
        0 <= digits_value(d) < pow10(d.len()),
    decreases d.len(),
{
    if d.len() > 0 {
        let e = d.drop_last();
        assert forall|i: int| 0 <= i < e.len() implies '0' <= #[trigger] e[i] && e[i] <= '9' by {
            assert(e[i] == d[i]);
        }
        lemma_digits_bound(e);
        assert('0' <= d[d.len() - 1] <= '9');
    }
}

/// `10` to the power `k`.
pub open spec fn pow10(k: nat) -> int
    decreases k,
{
    if k == 0 {
        1
    } else {
        10 * pow10((k - 1) as nat)
    }
}

} // verus!
