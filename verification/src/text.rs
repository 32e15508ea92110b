//! Character-level helpers: decimal rendering and parsing of unsigned numbers.

use vstd::prelude::*;

verus! {

/// Appends one character to a string (std `String::push`).
#[verifier::external_body]
pub(crate) fn push_char(s: &mut String, c: char)
    ensures
        final(s)@ == old(s)@.push(c),
{
    s.push(c);
}

/// The ASCII digit for `d`, for `0 <= d < 10`.
pub open spec fn digit_char(d: int) -> char {
    (d + 48) as char
}

/// Whether `c` is an ASCII decimal digit.
pub open spec fn is_digit(c: char) -> bool {
    '0' <= c && c <= '9'
}

/// The decimal rendering of `n`: no sign, no leading zeros, "0" for zero.
pub open spec fn decimal_digits(n: nat) -> Seq<char>
    decreases n,
{
    if n < 10 {
        seq![digit_char(n as int)]
    } else {
        decimal_digits(n / 10).push(digit_char((n % 10) as int))
    }
}

fn digit_of(d: u8) -> (c: char)
    requires
        d < 10,
    ensures
        c == digit_char(d as int),
{
    (d + 48) as char
}

/// Appends the decimal rendering of `n` to `s`.
pub fn push_decimal(s: &mut String, n: u128)
    ensures
        final(s)@ == old(s)@ + decimal_digits(n as nat),
    decreases n,
{
    if n >= 10 {
        push_decimal(s, n / 10);
    }
    push_char(s, digit_of((n % 10) as u8));
    proof {
        assert(old(s)@ + decimal_digits(n as nat) =~= s@);
    }
}

/// The value of a string of decimal digits (leading zeros allowed; zero for
/// the empty string).
pub open spec fn digits_value(s: Seq<char>) -> nat
    decreases s.len(),
{
    if s.len() == 0 {
        0
    } else {
        digits_value(s.drop_last()) * 10 + (s.last() as nat - 48) as nat
    }
}

/// The characters of an unsigned number after an optional leading `+`.
pub open spec fn unsigned_body(s: Seq<char>) -> Seq<char> {
    if s.len() > 0 && s[0] == '+' {
        s.drop_first()
    } else {
        s
    }
}

/// Whether every character of `s` is an ASCII digit.
pub open spec fn all_digits(s: Seq<char>) -> bool {
    forall|i: int| 0 <= i < s.len() ==> is_digit(#[trigger] s[i])
}

/// What `u32::from_str` gives for the characters `s`: an optional `+`
/// followed by one or more ASCII digits whose value fits in a `u32`.
pub open spec fn parse_u32_chars(s: Seq<char>) -> Option<u32> {
    let body = unsigned_body(s);
    if body.len() > 0 && all_digits(body) && digits_value(body) <= u32::MAX {
        Some(digits_value(body) as u32)
    } else {
        None
    }
}

/// Parses an unsigned 32-bit decimal number the way `str::parse::<u32>` does.
pub fn parse_u32(s: &str) -> (res: Option<u32>)
    ensures
        res == parse_u32_chars(s@),
{
    let ghost cs = s@;
    let ghost body = unsigned_body(cs);
    let mut value: u32 = 0;
    let ghost mut seen: int = 0;
    let mut any_digit = false;
    let mut first = true;
    let mut skipped_plus = false;
    for c in it: s.chars()
        invariant
            it.seq() == cs,
            cs == s@,
            body == unsigned_body(cs),
            first == (it.index() == 0),
            skipped_plus == (it.index() > 0 && cs[0] == '+'),
            any_digit == (seen > 0),
            seen + (if skipped_plus { 1int } else { 0int }) == it.index(),
            forall|i: int| 0 <= i < seen ==> is_digit(#[trigger] body[i]),
            value == digits_value(body.take(seen)),
    {
        assert(c == cs[it.index() as int]);
        proof {
            if !(first && c == '+') {
                if cs.len() > 0 && cs[0] == '+' {
                    assert(body[seen] == cs[seen + 1]);
                } else {
                    assert(body[seen] == cs[seen]);
                }
            }
        }
        if first && c == '+' {
            skipped_plus = true;
            first = false;
        } else {
            first = false;
            if !('0' <= c && c <= '9') {
                assert(!is_digit(body[seen]));
                assert(seen < body.len());
                assert(parse_u32_chars(cs) is None);
                return None;
            }
            let d = (c as u32) - 48;
            assert(body.take(seen + 1).drop_last() =~= body.take(seen));
            if value > 429496729 || (value == 429496729 && d > 5) {
                proof {
                    lemma_digits_value_prefix_monotone(body, seen + 1, body.len() as int);
                    assert(body.take(body.len() as int) =~= body);
                    assert(body.take(seen + 1).last() == c);
                    assert(digits_value(body.take(seen + 1)) == value * 10 + d);
                    assert(parse_u32_chars(cs) is None);
                }
                return None;
            }
            value = value * 10 + d;
            any_digit = true;
            proof {
                seen = seen + 1;
            }
        }
    }
    assert(body.take(seen) =~= body);
    if !any_digit {
        None
    } else {
        Some(value)
    }
}

/// The value of a digit string does not shrink as digits are appended.
pub proof fn lemma_digits_value_prefix_monotone(s: Seq<char>, i: int, j: int)
    requires
        0 <= i <= j <= s.len(),
    ensures
        digits_value(s.take(i)) <= digits_value(s.take(j)),
    decreases j - i,
{
    if i < j {
        lemma_digits_value_prefix_monotone(s, i, j - 1);
        assert(s.take(j).drop_last() =~= s.take(j - 1));
    }
}

/// Decimal rendering only uses digits and never starts with `+`.
pub proof fn lemma_decimal_digits_shape(n: nat)
    ensures
        decimal_digits(n).len() > 0,
        forall|i: int| 0 <= i < decimal_digits(n).len() ==> is_digit(#[trigger] decimal_digits(n)[i]),
        digits_value(decimal_digits(n)) == n,
    decreases n,
{
    let r = (n % 10) as int;
    assert((r + 48) as char as nat == r + 48);
    if n >= 10 {
        lemma_decimal_digits_shape(n / 10);
        let d = decimal_digits(n);
        assert(d.drop_last() =~= decimal_digits(n / 10));
        assert(n == (n / 10) * 10 + r);
        assert(d.last() == digit_char(r));
        assert(digits_value(d) == digits_value(d.drop_last()) * 10 + (d.last() as nat - 48) as nat);
    } else {
        assert(decimal_digits(n) == seq![digit_char(n as int)]);
        assert(decimal_digits(n).drop_last() =~= Seq::<char>::empty());
        assert(digits_value(Seq::<char>::empty()) == 0);
        assert(r == n);
    }
}

/// Parsing the decimal rendering of a `u32` gives the number back.
pub proof fn lemma_parse_decimal_round_trip(n: u32)
    ensures
        parse_u32_chars(decimal_digits(n as nat)) == Some(n),
{
    lemma_decimal_digits_shape(n as nat);
    let d = decimal_digits(n as nat);
    assert(is_digit(d[0]));
}

/// Distinct numbers have distinct decimal renderings.
pub proof fn lemma_decimal_digits_injective(a: nat, b: nat)
    requires
        decimal_digits(a) == decimal_digits(b),
    ensures
        a == b,
{
    lemma_decimal_digits_shape(a);
    lemma_decimal_digits_shape(b);
}

/// The characters of `s`.
pub fn chars_of(s: &str) -> (v: Vec<char>)
    ensures
        v@ == s@,
{
    let mut v: Vec<char> = Vec::new();
    for c in it: s.chars()
        invariant
            v@ == it.seq().take(it.index() as int),
    {
        v.push(c);
    }
    v
}

/// A string of the first `n` characters of `chars`.
pub fn string_of_prefix(chars: &Vec<char>, n: usize) -> (s: String)
    requires
        n <= chars.len(),
    ensures
        s@ == chars@.take(n as int),
{
    let mut s = String::new();
    for i in 0..n
        invariant
            n <= chars.len(),
            s@ == chars@.take(i as int),
    {
        push_char(&mut s, chars[i]);
        assert(chars@.take(i as int + 1) =~= chars@.take(i as int).push(chars@[i as int]));
    }
    s
}

} // verus!
