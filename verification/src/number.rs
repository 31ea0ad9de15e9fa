//! Decimal numerals: writing integers out and reading them back.

use vstd::prelude::*;

verus! {

/// The character that stands for a digit value below ten.
pub open spec fn digit_char(d: int) -> char
    recommends
        0 <= d < 10,
{
    ((d + 48) as u8) as char
}

/// Whether `c` is one of `0` to `9`.
pub open spec fn is_digit(c: char) -> bool {
    '0' <= c && c <= '9'
}

/// The value of a digit character.
pub open spec fn digit_value(c: char) -> int
    recommends
        is_digit(c),
{
    (c as u8) as int - 48
}

/// The decimal numeral of `n`, without leading zeros.
pub open spec fn numeral(n: nat) -> Seq<char>
    decreases n,
{
    if n < 10 {
        seq![digit_char(n as int)]
    } else {
        numeral(n / 10).push(digit_char((n % 10) as int))
    }
}

/// The decimal numeral of `n`, with a minus sign where `n` is negative.
pub open spec fn signed_numeral(n: int) -> Seq<char> {
    if n < 0 {
        seq!['-'] + numeral((-n) as nat)
    } else {
        numeral(n as nat)
    }
}

/// `n` written with exactly `width` digits: the last `width` digits of `n`,
/// with zeros in front where `n` has fewer.
pub open spec fn padded(n: nat, width: nat) -> Seq<char>
    decreases width,
{
    if width == 0 {
        Seq::empty()
    } else {
        padded(n / 10, (width - 1) as nat).push(digit_char((n % 10) as int))
    }
}

/// Whether every character of `s` is a digit.
pub open spec fn all_digits(s: Seq<char>) -> bool {
    forall|i: int| 0 <= i < s.len() ==> is_digit(#[trigger] s[i])
}

/// The number that a run of digits denotes; zero for the empty run.
pub open spec fn digits_value(s: Seq<char>) -> nat
    decreases s.len(),
{
    if s.len() == 0 {
        0
    } else {
        (digits_value(s.drop_last()) * 10 + digit_value(s.last())) as nat
    }
}

/// What an unsigned numeral denotes: an optional `+`, then at least one
/// digit, the value not above `limit`. Anything else denotes nothing.
pub open spec fn parsed_unsigned(s: Seq<char>, limit: nat) -> Option<nat> {
    let body = if s.len() > 0 && s[0] == '+' {
        s.drop_first()
    } else {
        s
    };
    if body.len() > 0 && all_digits(body) && digits_value(body) <= limit {
        Some(digits_value(body))
    } else {
        None
    }
}

/// What a signed numeral denotes: an optional `+` or `-`, then at least one
/// digit, the value between `-(limit + 1)` and `limit`.
pub open spec fn parsed_signed(s: Seq<char>, limit: nat) -> Option<int> {
    if s.len() > 0 && s[0] == '-' {
        let body = s.drop_first();
        if body.len() > 0 && all_digits(body) && digits_value(body) <= limit + 1 {
            Some(-(digits_value(body) as int))
        } else {
            None
        }
    } else {
        match parsed_unsigned(s, limit) {
            Some(v) => Some(v as int),
            None => None,
        }
    }
}

/// A longer run of digits denotes no less than any of its initial segments.
pub proof fn lemma_digits_value_grows(s: Seq<char>, i: int)
    requires
        0 <= i <= s.len(),
        all_digits(s),
    ensures
        digits_value(s.take(i)) <= digits_value(s),
    decreases s.len() - i,
{
    if i == s.len() {
        assert(s.take(i) == s);
    } else {
        lemma_digits_value_grows(s, i + 1);
        assert(s.take(i + 1).drop_last() == s.take(i));
        assert(is_digit(s[i]));
        assert(s.take(i + 1).last() == s[i]);
    }
}

/// The digits of a numeral are digits, and there is at least one.
pub proof fn lemma_numeral_digits(n: nat)
    ensures
        numeral(n).len() >= 1,
        all_digits(numeral(n)),
    decreases n,
{
    if n >= 10 {
        lemma_numeral_digits(n / 10);
    }
}

/// Reading a numeral back gives the number it was written from.
pub proof fn lemma_numeral_value(n: nat)
    ensures
        digits_value(numeral(n)) == n,
    decreases n,
{
    if n < 10 {
        assert(numeral(n).drop_last() == Seq::<char>::empty());
        assert(digits_value(numeral(n).drop_last()) == 0);
    } else {
        lemma_numeral_value(n / 10);
        assert(numeral(n).drop_last() == numeral(n / 10));
    }
}

/// Writing a number and reading it back is the identity, within the limit.
pub proof fn lemma_unsigned_round_trip(n: nat, limit: nat)
    requires
        n <= limit,
    ensures
        parsed_unsigned(numeral(n), limit) == Some(n),
{
    lemma_numeral_digits(n);
    lemma_numeral_value(n);
}

/// The character of a digit value.
pub fn char_of_digit(d: u8) -> (c: char)
    requires
        d < 10,
    ensures
        c == digit_char(d as int),
        is_digit(c),
        digit_value(c) == d,
{
    (d + 48) as char
}

/// Appends the numeral of `n` to `out`.
pub fn push_numeral(out: &mut Vec<char>, n: u64)
    ensures
        final(out)@ == old(out)@ + numeral(n as nat),
    decreases n,
{
    if n >= 10 {
        push_numeral(out, n / 10);
    }
    out.push(char_of_digit((n % 10) as u8));
    assert(out@ == old(out)@ + numeral(n as nat));
}

/// Appends `n` in exactly `width` digits to `out`.
pub fn push_padded(out: &mut Vec<char>, n: u64, width: u8)
    ensures
        final(out)@ == old(out)@ + padded(n as nat, width as nat),
    decreases width,
{
    if width > 0 {
        push_padded(out, n / 10, width - 1);
        out.push(char_of_digit((n % 10) as u8));
        assert(out@ == old(out)@ + padded(n as nat, width as nat));
    } else {
        assert(out@ == old(out)@ + padded(n as nat, width as nat));
    }
}

/// Appends the numeral of `n`, with its sign, to `out`.
pub fn push_signed(out: &mut Vec<char>, n: i64)
    ensures
        final(out)@ == old(out)@ + signed_numeral(n as int),
{
    if n < 0 {
        out.push('-');
        let magnitude: u64 = if n == i64::MIN {
            9223372036854775808u64
        } else {
            (-n) as u64
        };
        let ghost mid = out@;
        push_numeral(out, magnitude);
        assert(out@ == old(out)@ + (seq!['-'] + numeral(magnitude as nat)));
    } else {
        push_numeral(out, n as u64);
    }
}

/// The numeral of `n`.
pub fn format_unsigned(n: u64) -> (r: Vec<char>)
    ensures
        r@ == numeral(n as nat),
{
    let mut out: Vec<char> = Vec::new();
    push_numeral(&mut out, n);
    out
}

/// The numeral of `n`, with its sign.
pub fn format_signed(n: i64) -> (r: Vec<char>)
    ensures
        r@ == signed_numeral(n as int),
{
    let mut out: Vec<char> = Vec::new();
    push_signed(&mut out, n);
    out
}

/// Reads the digits of `s` from position `from` on.
///
/// Gives the value where that stretch is a non-empty run of digits whose
/// value is at most `limit`, and nothing otherwise.
pub fn parse_digits(s: &Vec<char>, from: usize, limit: u64) -> (r: Option<u64>)
    requires
        from <= s.len(),
    ensures
        r == ({
            let body = s@.skip(from as int);
            if body.len() > 0 && all_digits(body) && digits_value(body) <= limit {
                Some(digits_value(body) as u64)
            } else {
                None
            }
        }),
{
    let ghost body = s@.skip(from as int);
    if from == s.len() {
        return None;
    }
    let mut acc: u64 = 0;
    let mut i: usize = from;
    while i < s.len()
        invariant
            from <= i <= s.len(),
            body == s@.skip(from as int),
            all_digits(body.take(i - from)),
            acc == digits_value(body.take(i - from)),
            acc <= limit,
        decreases s.len() - i,
    {
        let c = s[i];
        assert(body[i - from] == c);
        if !('0' <= c && c <= '9') {
            return None;
        }
        let d: u64 = ((c as u8) - 48) as u64;
        proof {
            let next = body.take(i - from + 1);
            assert(next.drop_last() == body.take(i - from));
            assert(next.last() == c);
            assert(digits_value(next) == acc * 10 + d);
            assert forall|j: int| 0 <= j < next.len() implies is_digit(#[trigger] next[j]) by {
                if j < i - from {
                    assert(body.take(i - from)[j] == next[j]);
                }
            }
        }
        if d > limit || acc > (limit - d) / 10 {
            proof {
                // The value read so far already exceeds the limit, and what
                // follows can only raise it.
                let next = body.take(i - from + 1);
                assert(acc * 10 + d > limit);
                if all_digits(body) {
                    lemma_digits_value_grows(body, i - from + 1);
                }
            }
            return None;
        }
        acc = acc * 10 + d;
        i += 1;
    }
    assert(body.take(i - from) == body);
    Some(acc)
}

/// Reads an unsigned numeral: see [`parsed_unsigned`].
pub fn parse_unsigned(s: &Vec<char>, limit: u64) -> (r: Option<u64>)
    ensures
        r == match parsed_unsigned(s@, limit as nat) {
            Some(v) => Some(v as u64),
            None => None,
        },
{
    if s.len() > 0 && s[0] == '+' {
        assert(s@.skip(1) == s@.drop_first());
        parse_digits(s, 1, limit)
    } else {
        assert(s@.skip(0) == s@);
        parse_digits(s, 0, limit)
    }
}

/// Reads a signed numeral: see [`parsed_signed`].
pub fn parse_signed(s: &Vec<char>, limit: u64) -> (r: Option<i64>)
    requires
        limit <= i64::MAX,
    ensures
        r == match parsed_signed(s@, limit as nat) {
            Some(v) => Some(v as i64),
            None => None,
        },
{
    if s.len() > 0 && s[0] == '-' {
        assert(s@.skip(1) == s@.drop_first());
        match parse_digits(s, 1, limit + 1) {
            Some(v) => {
                if v == 9223372036854775808u64 {
                    Some(i64::MIN)
                } else {
                    Some(-(v as i64))
                }
            },
            None => None,
        }
    } else {
        match parse_unsigned(s, limit) {
            Some(v) => Some(v as i64),
            None => None,
        }
    }
}

} // verus!
