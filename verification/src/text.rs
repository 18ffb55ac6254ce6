//! Small text primitives shared by the other modules: string comparison,
//! decimal rendering and decimal parsing.

use vstd::prelude::*;
use vstd::string::*;

verus! {

/// Position-by-position comparison of two texts by code point: `a` comes
/// before `b`, or equals it, in dictionary order.
pub open spec fn lex_le(a: Seq<char>, b: Seq<char>) -> bool
    decreases a.len(),
{
    if a.len() == 0 {
        true
    } else if b.len() == 0 {
        false
    } else if a[0] != b[0] {
        (a[0] as u32) < (b[0] as u32)
    } else {
        lex_le(a.skip(1), b.skip(1))
    }
}

/// Every text comes before or after every other.
pub proof fn lemma_lex_le_total(a: Seq<char>, b: Seq<char>)
    ensures
        lex_le(a, b) || lex_le(b, a),
    decreases a.len(),
{
    if a.len() > 0 && b.len() > 0 {
        if a[0] == b[0] {
            lemma_lex_le_total(a.skip(1), b.skip(1));
        } else {
            vstd::utf8::char_u32_cast(a[0], a[0] as u32);
            vstd::utf8::char_u32_cast(b[0], b[0] as u32);
        }
    }
}

/// A text comes before or equals itself.
pub proof fn lemma_lex_le_reflexive(a: Seq<char>)
    ensures
        lex_le(a, a),
    decreases a.len(),
{
    if a.len() > 0 {
        lemma_lex_le_reflexive(a.skip(1));
    }
}

/// Dictionary order is transitive.
pub proof fn lemma_lex_le_transitive(a: Seq<char>, b: Seq<char>, c: Seq<char>)
    requires
        lex_le(a, b),
        lex_le(b, c),
    ensures
        lex_le(a, c),
    decreases a.len(),
{
    if a.len() > 0 && b.len() > 0 && c.len() > 0 && a[0] == b[0] && b[0] == c[0] {
        lemma_lex_le_transitive(a.skip(1), b.skip(1), c.skip(1));
    }
}

/// Calls std's `==` on two string slices, which holds exactly when they
/// are the same sequence of characters.
#[verifier::external_body]
pub(crate) fn str_eq(a: &str, b: &str) -> (same: bool)
    ensures
        same == (a@ == b@),
{
    a == b
}

/// Calls std's `<=` on two string slices. std documents that strings are
/// ordered lexicographically by their bytes, which for UTF-8 is the order
/// of their code points; `lex_le` states that order.
#[verifier::external_body]
pub(crate) fn str_le(a: &str, b: &str) -> (before: bool)
    ensures
        before == lex_le(a@, b@),
{
    a <= b
}

/// Calls std's `String::push`, which appends one character.
#[verifier::external_body]
pub(crate) fn push_char(text: &mut String, c: char)
    ensures
        final(text)@ == old(text)@.push(c),
{
    text.push(c)
}

/// The character of a decimal digit `0 <= d < 10`.
pub open spec fn digit_char(d: int) -> char {
    seq!['0', '1', '2', '3', '4', '5', '6', '7', '8', '9'][d]
}

/// The decimal digits of `n`, most significant first, without leading
/// zeros (`0` itself is the single digit `0`).
pub open spec fn decimal(n: nat) -> Seq<char>
    decreases n,
{
    if n < 10 {
        seq![digit_char(n as int)]
    } else {
        decimal(n / 10).push(digit_char((n % 10) as int))
    }
}

/// The value of a decimal digit character, if it is one.
pub open spec fn digit_value(c: char) -> Option<int> {
    if '0' <= c && c <= '9' {
        Some(c as int - '0' as int)
    } else {
        None
    }
}

/// The number that a non-empty run of decimal digits denotes; `None` when
/// the run is empty or holds anything but digits.
pub open spec fn digits_value(s: Seq<char>) -> Option<nat>
    decreases s.len(),
{
    if s.len() == 0 {
        None
    } else if s.len() == 1 {
        match digit_value(s[0]) {
            Some(d) => Some(d as nat),
            None => None,
        }
    } else {
        match (digits_value(s.drop_last()), digit_value(s.last())) {
            (Some(high), Some(d)) => Some((high * 10 + d) as nat),
            _ => None,
        }
    }
}

/// What an unsigned decimal text denotes: an optional `+`, then at least
/// one digit, and nothing else.
pub open spec fn unsigned_value(s: Seq<char>) -> Option<nat> {
    if s.len() > 0 && s[0] == '+' {
        digits_value(s.skip(1))
    } else {
        digits_value(s)
    }
}

/// What `parse_unsigned` returns: the denoted number when there is one and
/// it does not exceed `max`.
pub open spec fn parsed_unsigned(s: Seq<char>, max: u64) -> Option<u64> {
    match unsigned_value(s) {
        Some(n) => if n <= max {
            Some(n as u64)
        } else {
            None
        },
        None => None,
    }
}

/// The digits of a number read back give the number.
pub proof fn lemma_decimal_round_trip(n: nat)
    ensures
        digits_value(decimal(n)) == Some(n),
        decimal(n).len() > 0,
        decimal(n)[0] != '+',
    decreases n,
{
    if n < 10 {
        assert(decimal(n) =~= seq![digit_char(n as int)]);
        assert(digit_value(digit_char(n as int)) == Some(n as int));
    } else {
        lemma_decimal_round_trip(n / 10);
        let high = decimal(n / 10);
        let d = digit_char((n % 10) as int);
        assert(decimal(n) == high.push(d));
        assert(high.push(d).drop_last() =~= high);
        assert(high.push(d).last() == d);
        assert(digit_value(d) == Some((n % 10) as int));
        assert(high.push(d)[0] == high[0]);
    }
}

/// Renders `n` in decimal.
pub fn decimal_string(n: u64) -> (text: String)
    ensures
        text@ == decimal(n as nat),
{
    let mut digits: Vec<char> = Vec::new();
    let mut rest: u64 = n;
    // least significant digit first
    while rest >= 10
        invariant
            decimal(n as nat) == decimal(rest as nat) + digits@.reverse(),
        decreases rest,
    {
        let d: u64 = rest % 10;
        let c = digit_of(d);
        proof {
            let high = decimal((rest / 10) as nat);
            assert(decimal(rest as nat) == high.push(c));
            assert(high.push(c) + digits@.reverse() =~= high + digits@.push(c).reverse());
        }
        digits.push(c);
        rest = rest / 10;
    }
    let mut text = String::new();
    push_char(&mut text, digit_of(rest));
    assert(text@ =~= decimal(rest as nat));
    let mut k: usize = digits.len();
    while k > 0
        invariant
            k <= digits.len(),
            text@ == decimal(rest as nat) + digits@.reverse().subrange(0, digits.len() - k),
        decreases k,
    {
        k = k - 1;
        push_char(&mut text, digits[k]);
        proof {
            let r = digits@.reverse();
            let m = digits.len() - k;
            assert(r.subrange(0, m) =~= r.subrange(0, m - 1).push(digits@[k as int]));
            assert(decimal(rest as nat) + r.subrange(0, m - 1).push(digits@[k as int]) =~= (
            decimal(rest as nat) + r.subrange(0, m - 1)).push(digits@[k as int]));
        }
    }
    proof {
        let r = digits@.reverse();
        assert(r.subrange(0, digits.len() as int) =~= r);
    }
    text
}

fn digit_of(d: u64) -> (c: char)
    requires
        d < 10,
    ensures
        c == digit_char(d as int),
{
    if d == 0 {
        '0'
    } else if d == 1 {
        '1'
    } else if d == 2 {
        '2'
    } else if d == 3 {
        '3'
    } else if d == 4 {
        '4'
    } else if d == 5 {
        '5'
    } else if d == 6 {
        '6'
    } else if d == 7 {
        '7'
    } else if d == 8 {
        '8'
    } else {
        '9'
    }
}

/// A run of digits denotes at least what each of its non-empty prefixes
/// denotes, and every such prefix is a run of digits too.
pub proof fn lemma_digits_prefix(s: Seq<char>, i: int)
    requires
        0 < i <= s.len(),
        digits_value(s) is Some,
    ensures
        digits_value(s.subrange(0, i)) is Some,
        digits_value(s.subrange(0, i))->0 <= digits_value(s)->0,
    decreases s.len(),
{
    if i == s.len() {
        assert(s.subrange(0, i) =~= s);
    } else {
        assert(s.drop_last().subrange(0, i) =~= s.subrange(0, i));
        lemma_digits_prefix(s.drop_last(), i);
    }
}

fn digit_of_char(c: char) -> (d: Option<u64>)
    ensures
        match d {
            Some(v) => digit_value(c) == Some(v as int),
            None => digit_value(c) is None,
        },
{
    if c == '0' {
        Some(0)
    } else if c == '1' {
        Some(1)
    } else if c == '2' {
        Some(2)
    } else if c == '3' {
        Some(3)
    } else if c == '4' {
        Some(4)
    } else if c == '5' {
        Some(5)
    } else if c == '6' {
        Some(6)
    } else if c == '7' {
        Some(7)
    } else if c == '8' {
        Some(8)
    } else if c == '9' {
        Some(9)
    } else {
        None
    }
}

/// Reads an unsigned decimal number no greater than `max`: an optional
/// `+`, then digits only. Anything else, and any number above `max`,
/// gives `None`.
pub fn parse_unsigned(s: &str, max: u64) -> (value: Option<u64>)
    ensures
        value == parsed_unsigned(s@, max),
{
    let len = s.unicode_len();
    let mut start: usize = 0;
    if len > 0 && s.get_char(0) == '+' {
        start = 1;
    }
    let ghost run = s@.skip(start as int);
    proof {
        assert(s@.skip(0) =~= s@);
    }
    assert(unsigned_value(s@) == digits_value(run));
    if start == len {
        return None;
    }
    let mut acc: u64 = 0;
    let mut i: usize = start;
    while i < len
        invariant
            start <= i <= len,
            len == s@.len(),
            run == s@.skip(start as int),
            unsigned_value(s@) == digits_value(run),
            acc <= max,
            i > start ==> digits_value(run.subrange(0, i - start)) == Some(acc as nat),
            i == start ==> acc == 0,
        decreases len - i,
    {
        let c = s.get_char(i);
        let ghost prefix = run.subrange(0, i - start);
        let ghost next = run.subrange(0, i + 1 - start);
        proof {
            assert(next.drop_last() =~= prefix);
            assert(next.last() == c);
        }
        match digit_of_char(c) {
            None => {
                proof {
                    if digits_value(run) is Some {
                        lemma_digits_prefix(run, i + 1 - start);
                    }
                }
                return None;
            },
            Some(d) => {
                if acc > max / 10 || d > max - acc * 10 {
                    proof {
                        if digits_value(run) is Some {
                            lemma_digits_prefix(run, i + 1 - start);
                        }
                    }
                    return None;
                }
                acc = acc * 10 + d;
            },
        }
        i = i + 1;
    }
    proof {
        assert(run.subrange(0, len - start) =~= run);
    }
    Some(acc)
}

/// The decimal digits of a number are digits, and there is at least one.
pub proof fn lemma_decimal_is_digits(n: nat)
    ensures
        decimal(n).len() >= 1,
        forall|i: int| 0 <= i < decimal(n).len() ==> digit_value(#[trigger] decimal(n)[i]) is Some,
    decreases n,
{
    if n < 10 {
        assert(decimal(n) =~= seq![digit_char(n as int)]);
        assert(digit_value(digit_char(n as int)) == Some(n as int));
    } else {
        lemma_decimal_is_digits(n / 10);
        let d = digit_char((n % 10) as int);
        assert(digit_value(d) == Some((n % 10) as int));
    }
}

/// Two numbers have two decimal texts.
pub proof fn lemma_decimal_injective(a: nat, b: nat)
    requires
        decimal(a) == decimal(b),
    ensures
        a == b,
{
    lemma_decimal_round_trip(a);
    lemma_decimal_round_trip(b);
}

} // verus!
