//! Exact decimal numbers with six fractional digits.
//!
//! Numeric transformation parameters (volumes, times, frequencies) are read
//! from text and written back as text. `Decimal` keeps them as a count of
//! millionths, so that reading, comparing and writing are exact.

use vstd::prelude::*;
use crate::number::{
    all_digits, digit_value, digits_value, is_digit, numeral, padded, parse_digits, push_numeral,
    push_padded,
};
use crate::text::{chars_of, find_first, first_index_of, lemma_first_index_of, slice_of, string_of};

verus! {

/// The greatest whole part that a `Decimal` read from text may have.
pub const MAX_UNITS: u64 = 999_999_999_999;

/// Millionths in one unit.
pub const MILLION: u64 = 1_000_000;

/// A decimal number: a sign and a magnitude counted in millionths.
#[derive(Debug, Clone, Copy, PartialEq, Eq, Structural)]
pub struct Decimal {
    negative: bool,
    micros: u64,
}

/// Ten to the power `k`, for `k` up to six.
pub open spec fn scale(k: nat) -> nat {
    if k == 0 {
        1
    } else if k == 1 {
        10
    } else if k == 2 {
        100
    } else if k == 3 {
        1_000
    } else if k == 4 {
        10_000
    } else if k == 5 {
        100_000
    } else {
        1_000_000
    }
}

/// The value of the digit at position `i` of a fraction, zero past its end.
pub open spec fn fraction_digit(f: Seq<char>, i: int) -> nat {
    if i < f.len() {
        digit_value(f[i]) as nat
    } else {
        0
    }
}

/// The millionths that a run of fractional digits denotes. Digits after the
/// sixth do not count.
pub open spec fn fraction_micros(f: Seq<char>) -> nat {
    fraction_digit(f, 0) * 100_000 + fraction_digit(f, 1) * 10_000 + fraction_digit(f, 2) * 1_000
        + fraction_digit(f, 3) * 100 + fraction_digit(f, 4) * 10 + fraction_digit(f, 5)
}

/// `s` without the zeros at its end.
pub open spec fn without_trailing_zeros(s: Seq<char>) -> Seq<char>
    decreases s.len(),
{
    if s.len() > 0 && s.last() == '0' {
        without_trailing_zeros(s.drop_last())
    } else {
        s
    }
}

/// The sign that stands in front of a number.
pub open spec fn sign_text(negative: bool) -> Seq<char> {
    if negative {
        seq!['-']
    } else {
        Seq::empty()
    }
}

/// What a decimal numeral denotes, as sign and millionths.
///
/// A numeral is an optional `+` or `-`, a run of digits, and optionally a
/// point and another run of digits; at least one digit must be there, and the
/// whole part must not exceed [`MAX_UNITS`]. Zero is never negative.
pub open spec fn parsed_decimal(s: Seq<char>) -> Option<(bool, nat)> {
    let signed = s.len() > 0 && (s[0] == '-' || s[0] == '+');
    let body = if signed {
        s.drop_first()
    } else {
        s
    };
    let dot = first_index_of(body, '.');
    let whole = body.take(dot);
    let fraction = if dot < body.len() {
        body.skip(dot + 1)
    } else {
        Seq::empty()
    };
    if all_digits(whole) && all_digits(fraction) && whole.len() + fraction.len() > 0
        && digits_value(whole) <= MAX_UNITS {
        let micros = digits_value(whole) * 1_000_000 + fraction_micros(fraction);
        Some((signed && s[0] == '-' && micros != 0, micros))
    } else {
        None
    }
}

impl Decimal {
    #[verifier::type_invariant]
    spec fn well_formed(self) -> bool {
        self.negative ==> self.micros != 0
    }

    /// Whether the number is below zero.
    pub closed spec fn is_negative(self) -> bool {
        self.negative
    }

    /// The magnitude, in millionths.
    pub closed spec fn magnitude(self) -> nat {
        self.micros as nat
    }

    /// The number in millionths, with its sign.
    pub open spec fn millionths(self) -> int {
        if self.is_negative() {
            -(self.magnitude() as int)
        } else {
            self.magnitude() as int
        }
    }

    /// The shortest numeral of the number: the whole part, then, unless the
    /// fraction is zero, a point and the fraction without trailing zeros.
    pub open spec fn text(self) -> Seq<char> {
        let whole = self.magnitude() / 1_000_000;
        let fraction = self.magnitude() % 1_000_000;
        sign_text(self.is_negative()) + numeral(whole) + if fraction == 0 {
            Seq::empty()
        } else {
            seq!['.'] + without_trailing_zeros(padded(fraction, 6))
        }
    }

    /// The magnitude counted in units of ten to the minus `places`, rounded
    /// to the nearest; a tie goes to the even neighbour.
    pub open spec fn rounded(self, places: nat) -> nat
        recommends
            places <= 6,
    {
        let unit = scale((6 - places) as nat);
        let q = self.magnitude() / unit;
        let r = self.magnitude() % unit;
        if 2 * r > unit || (2 * r == unit && q % 2 == 1) {
            q + 1
        } else {
            q
        }
    }

    /// The numeral with exactly `places` fractional digits (at most six),
    /// rounded as [`Decimal::rounded`] says. With no places there is no point.
    pub open spec fn fixed_text(self, places: nat) -> Seq<char> {
        let p = if places > 6 {
            6
        } else {
            places
        };
        let n = self.rounded(p);
        sign_text(self.is_negative()) + numeral(n / scale(p)) + if p == 0 {
            Seq::empty()
        } else {
            seq!['.'] + padded(n % scale(p), p)
        }
    }

    /// The number that is `n` millionths.
    pub fn from_millionths(n: i64) -> (r: Decimal)
        ensures
            r == Decimal::of(
                n < 0,
                (if n < 0 {
                    -n
                } else {
                    n as int
                }) as nat,
            ),
            r.millionths() == n,
    {
        if n < 0 {
            let magnitude: u64 = if n == i64::MIN {
                9223372036854775808u64
            } else {
                (-n) as u64
            };
            Decimal { negative: true, micros: magnitude }
        } else {
            Decimal { negative: false, micros: n as u64 }
        }
    }

    /// The number with the given sign and magnitude in millionths.
    pub closed spec fn of(negative: bool, micros: nat) -> Decimal {
        Decimal { negative, micros: micros as u64 }
    }

    /// Sign and magnitude name a number, and every number is named so.
    pub broadcast proof fn lemma_of(negative: bool, micros: nat)
        requires
            micros <= u64::MAX,
        ensures
            (#[trigger] Decimal::of(negative, micros)).is_negative() == negative,
            Decimal::of(negative, micros).magnitude() == micros,
    {
    }

    /// A number is the one that its sign and magnitude name.
    pub proof fn lemma_is_of(self)
        ensures
            self == Decimal::of(self.is_negative(), self.magnitude()),
    {
    }

    /// The loudness target that stands in where none is named: -16.
    pub open spec fn usual_level() -> Decimal {
        Decimal::of(true, 16_000_000)
    }

    /// The loudness target that stands in where none is named: -16.
    pub fn default_level() -> (r: Decimal)
        ensures
            r == Decimal::usual_level(),
    {
        Decimal { negative: true, micros: 16_000_000 }
    }

    /// The number one.
    pub fn one() -> (r: Decimal)
        ensures
            r == Decimal::of(false, 1_000_000),
    {
        Decimal { negative: false, micros: MILLION }
    }

    /// Whether the number is exactly one.
    pub fn is_one(&self) -> (r: bool)
        ensures
            r == (self.millionths() == 1_000_000),
    {
        !self.negative && self.micros == MILLION
    }

    /// Whether the number is below zero.
    pub fn negative(&self) -> (r: bool)
        ensures
            r == self.is_negative(),
            r ==> self.magnitude() != 0,
    {
        proof {
            use_type_invariant(self);
        }
        self.negative
    }

    /// The magnitude in millionths.
    pub fn micros(&self) -> (r: u64)
        ensures
            r == self.magnitude(),
    {
        self.micros
    }

    /// Reads a decimal numeral; see [`parsed_decimal`] for what is accepted.
    pub fn parse(s: &str) -> (r: Option<Decimal>)
        ensures
            r == match parsed_decimal(s@) {
                Some((negative, micros)) => Some(Decimal::of(negative, micros)),
                None => None,
            },
    {
        let all = chars_of(s);
        let signed = all.len() > 0 && (all[0] == '-' || all[0] == '+');
        let minus = signed && all[0] == '-';
        let body = if signed {
            slice_of(&all, 1, all.len())
        } else {
            slice_of(&all, 0, all.len())
        };
        assert(body@ == if signed {
            s@.drop_first()
        } else {
            s@
        });
        let dot = find_first(&body, '.');
        proof {
            lemma_first_index_of(body@, '.');
        }
        let whole = slice_of(&body, 0, dot);
        let fraction = if dot < body.len() {
            slice_of(&body, dot + 1, body.len())
        } else {
            Vec::new()
        };
        assert(whole@ == body@.take(dot as int));
        assert(fraction@ == if dot < body@.len() {
            body@.skip(dot + 1)
        } else {
            Seq::<char>::empty()
        });
        if whole.len() + fraction.len() == 0 {
            return None;
        }
        let units: u64 = if whole.len() == 0 {
            assert(digits_value(whole@) == 0);
            0
        } else {
            assert(whole@.skip(0) == whole@);
            match parse_digits(&whole, 0, MAX_UNITS) {
                Some(v) => v,
                None => {
                    return None;
                },
            }
        };
        let part = match read_fraction(&fraction) {
            Some(v) => v,
            None => {
                return None;
            },
        };
        let micros: u64 = units * MILLION + part;
        Some(Decimal { negative: minus && micros != 0, micros })
    }

    /// The shortest numeral of the number.
    pub fn to_string(&self) -> (r: String)
        ensures
            r@ == self.text(),
    {
        let out = self.to_chars();
        string_of(&out)
    }

    /// The shortest numeral of the number, as characters.
    pub fn to_chars(&self) -> (r: Vec<char>)
        ensures
            r@ == self.text(),
    {
        let mut out: Vec<char> = Vec::new();
        if self.negative {
            out.push('-');
        }
        let whole: u64 = self.micros / MILLION;
        let mut fraction: u64 = self.micros % MILLION;
        push_numeral(&mut out, whole);
        if fraction != 0 {
            out.push('.');
            let ghost head = out@;
            let mut width: u8 = 6;
            while fraction % 10 == 0
                invariant
                    fraction != 0,
                    width <= 6,
                    without_trailing_zeros(padded((self.micros % MILLION) as nat, 6))
                        == without_trailing_zeros(padded(fraction as nat, width as nat)),
                    fraction < scale(width as nat),
                decreases fraction,
            {
                proof {
                    let p = padded(fraction as nat, width as nat);
                    assert(p.last() == '0');
                    assert(p.drop_last() == padded((fraction / 10) as nat, (width - 1) as nat));
                }
                fraction = fraction / 10;
                width = width - 1;
            }
            proof {
                let p = padded(fraction as nat, width as nat);
                assert(p.last() != '0');
            }
            push_padded(&mut out, fraction, width);
            assert(out@ == self.text());
        } else {
            assert(out@ == self.text());
        }
        out
    }

    /// The numeral with exactly `places` fractional digits, at most six.
    pub fn format_fixed(&self, places: u8) -> (r: String)
        ensures
            r@ == self.fixed_text(places as nat),
    {
        let out = self.fixed_chars(places);
        string_of(&out)
    }

    /// The numeral with exactly `places` fractional digits, as characters.
    pub fn fixed_chars(&self, places: u8) -> (r: Vec<char>)
        ensures
            r@ == self.fixed_text(places as nat),
    {
        let p: u8 = if places > 6 {
            6
        } else {
            places
        };
        let unit: u64 = power_of_ten(6 - p);
        let per_unit: u64 = power_of_ten(p);
        let q: u64 = self.micros / unit;
        let rest: u64 = self.micros % unit;
        let up = rest > unit - rest || (rest == unit - rest && q % 2 == 1);
        let n: u64 = if up {
            proof {
                let m = self.micros as int;
                let u = unit as int;
                let k = q as int;
                assert(u >= 10);
                assert(k * u <= m) by (nonlinear_arith)
                    requires
                        k == m / u,
                        u > 0,
                        m >= 0,
                ;
                assert(k * 10 <= k * u) by (nonlinear_arith)
                    requires
                        u >= 10,
                        k >= 0,
                ;
            }
            q + 1
        } else {
            q
        };
        assert(n == self.rounded(p as nat));
        let mut out: Vec<char> = Vec::new();
        if self.negative {
            out.push('-');
        }
        push_numeral(&mut out, n / per_unit);
        if p != 0 {
            out.push('.');
            push_padded(&mut out, n % per_unit, p);
            assert(out@ == self.fixed_text(places as nat));
        } else {
            assert(out@ == self.fixed_text(places as nat));
        }
        out
    }
}

/// Ten to the power `k`, for `k` up to six.
pub fn power_of_ten(k: u8) -> (r: u64)
    requires
        k <= 6,
    ensures
        r == scale(k as nat),
{
    if k == 0 {
        1
    } else if k == 1 {
        10
    } else if k == 2 {
        100
    } else if k == 3 {
        1_000
    } else if k == 4 {
        10_000
    } else if k == 5 {
        100_000
    } else {
        1_000_000
    }
}

/// The millionths that the fractional digits `f` denote, where `f` is a run
/// of digits.
fn read_fraction(f: &Vec<char>) -> (r: Option<u64>)
    ensures
        match r {
            Some(v) => all_digits(f@) && v == fraction_micros(f@) && v < 1_000_000,
            None => !all_digits(f@),
        },
{
    let mut i: usize = 0;
    while i < f.len()
        invariant
            i <= f.len(),
            forall|j: int| 0 <= j < i ==> is_digit(#[trigger] f@[j]),
        decreases f.len() - i,
    {
        let c = f[i];
        if !('0' <= c && c <= '9') {
            return None;
        }
        i += 1;
    }
    let d0 = fraction_place(f, 0);
    let d1 = fraction_place(f, 1);
    let d2 = fraction_place(f, 2);
    let d3 = fraction_place(f, 3);
    let d4 = fraction_place(f, 4);
    let d5 = fraction_place(f, 5);
    Some(d0 * 100_000 + d1 * 10_000 + d2 * 1_000 + d3 * 100 + d4 * 10 + d5)
}

/// The digit at position `i` of a run of fractional digits, zero past its end.
fn fraction_place(f: &Vec<char>, i: usize) -> (r: u64)
    requires
        all_digits(f@),
    ensures
        r == fraction_digit(f@, i as int),
        r <= 9,
{
    if i < f.len() {
        let c = f[i];
        assert(is_digit(f@[i as int]));
        ((c as u8) - 48) as u64
    } else {
        0
    }
}

} // verus!
