//! Storage keys made safe for a file system or an object store.
//!
//! A key is stripped of line breaks and of surrounding slashes, and every
//! character that is not safe is percent-escaped byte by byte; a space
//! becomes `+`.

use std::collections::HashSet;
use vstd::prelude::*;
use vstd::std_specs::hash::group_hash_axioms;
use vstd::utf8::{char_is_scalar, encode_scalar, encode_utf8};
use crate::codec::{percent_triplet, upper_hex_digit};
use crate::text::{chars_of, same_text, slice_of, string_of};

verus! {

/// Which bytes of a key pass unescaped.
#[derive(Debug, PartialEq)]
pub enum SafeCharsType {
    /// ASCII letters and digits, `/`, `-`, `_`, `.` and `~`.
    Default,
    /// Those of `Default`, and the bytes of the set.
    Custom(HashSet<u8>),
    /// Every byte.
    Noop,
}

/// The bytes that are always safe unless nothing is: ASCII letters and
/// digits, `/`, `-`, `_`, `.` and `~`.
pub open spec fn is_plain_byte(c: u8) -> bool {
    (0x30 <= c <= 0x39) || (0x41 <= c <= 0x5A) || (0x61 <= c <= 0x7A) || c == 0x2F || c == 0x2D
        || c == 0x5F || c == 0x2E || c == 0x7E
}

/// The line breaks that never stay in a key: CR, LF, VT, FF, NEL, LS, PS.
pub open spec fn is_line_break(c: char) -> bool {
    c == '\r' || c == '\n' || c == '\u{000B}' || c == '\u{000C}' || c == '\u{0085}' || c
        == '\u{2028}' || c == '\u{2029}'
}

/// `s` without its line breaks.
pub open spec fn without_line_breaks(s: Seq<char>) -> Seq<char>
    decreases s.len(),
{
    if s.len() == 0 {
        Seq::empty()
    } else if is_line_break(s.last()) {
        without_line_breaks(s.drop_last())
    } else {
        without_line_breaks(s.drop_last()).push(s.last())
    }
}

/// `s` without the slashes it begins with.
pub open spec fn without_leading_slashes(s: Seq<char>) -> Seq<char>
    decreases s.len(),
{
    if s.len() > 0 && s[0] == '/' {
        without_leading_slashes(s.drop_first())
    } else {
        s
    }
}

/// `s` without the slashes it ends with.
pub open spec fn without_trailing_slashes(s: Seq<char>) -> Seq<char>
    decreases s.len(),
{
    if s.len() > 0 && s.last() == '/' {
        without_trailing_slashes(s.drop_last())
    } else {
        s
    }
}

/// `s` without the slashes around it.
pub open spec fn trimmed(s: Seq<char>) -> Seq<char> {
    without_trailing_slashes(without_leading_slashes(s))
}

/// Whether one of `bytes` is to be escaped.
pub open spec fn any_escaped(bytes: Seq<u8>, escapes: spec_fn(u8) -> bool) -> bool {
    exists|j: int| 0 <= j < bytes.len() && escapes(#[trigger] bytes[j])
}

/// Each of `bytes` as its percent triplet.
pub open spec fn triplets(bytes: Seq<u8>) -> Seq<char>
    decreases bytes.len(),
{
    if bytes.len() == 0 {
        Seq::empty()
    } else {
        triplets(bytes.drop_last()) + percent_triplet(bytes.last())
    }
}

/// What one character becomes. A character none of whose UTF-8 bytes is to
/// be escaped stays. Otherwise a space becomes `+`, and any other character
/// becomes the percent triplets of its bytes.
pub open spec fn escaped_char(c: char, escapes: spec_fn(u8) -> bool) -> Seq<char> {
    let bytes = encode_scalar(c as u32);
    if !any_escaped(bytes, escapes) {
        seq![c]
    } else if c == ' ' {
        seq!['+']
    } else {
        triplets(bytes)
    }
}

/// What a text becomes when each character is escaped by the rule.
pub open spec fn escaped_by(s: Seq<char>, escapes: spec_fn(u8) -> bool) -> Seq<char>
    decreases s.len(),
{
    if s.len() == 0 {
        Seq::empty()
    } else {
        escaped_by(s.drop_last(), escapes) + escaped_char(s.last(), escapes)
    }
}

/// The predicate `f` answers as `rule` says: whatever it returns for a
/// byte is what the rule holds of that byte.
pub open spec fn conforms<F: Fn(u8) -> bool>(f: F, rule: spec_fn(u8) -> bool) -> bool {
    forall|b: u8, r: bool| #[trigger] f.ensures((b,), r) ==> r == rule(b)
}

/// What a text becomes when `decisions` says of each character whether it
/// is escaped.
pub open spec fn escaped_with(s: Seq<char>, decisions: Seq<bool>) -> Seq<char>
    decreases s.len(),
{
    if s.len() == 0 {
        Seq::empty()
    } else {
        let c = s.last();
        escaped_with(s.drop_last(), decisions) + if !decisions[s.len() - 1] {
            seq![c]
        } else if c == ' ' {
            seq!['+']
        } else {
            triplets(encode_scalar(c as u32))
        }
    }
}

/// The decisions are answers of `f`: a character is escaped on a byte that
/// `f` answered with yes, and kept where `f` answered no for all its bytes.
pub open spec fn answered_by<F: Fn(u8) -> bool>(f: F, s: Seq<char>, decisions: Seq<bool>) -> bool {
    &&& decisions.len() == s.len()
    &&& forall|i: int|
        0 <= i < s.len() ==> if #[trigger] decisions[i] {
            exists|j: int|
                0 <= j < encode_scalar(s[i] as u32).len() && f.ensures(
                    (#[trigger] encode_scalar(s[i] as u32)[j],),
                    true,
                )
        } else {
            forall|j: int|
                0 <= j < encode_scalar(s[i] as u32).len() ==> f.ensures(
                    (#[trigger] encode_scalar(s[i] as u32)[j],),
                    false,
                )
        }
}

/// Decisions that are answers of a predicate escape as every rule does
/// that the predicate conforms to.
pub proof fn lemma_answers_follow_rule<F: Fn(u8) -> bool>(
    f: F,
    s: Seq<char>,
    decisions: Seq<bool>,
    rule: spec_fn(u8) -> bool,
    n: int,
)
    requires
        answered_by(f, s, decisions),
        conforms(f, rule),
        0 <= n <= s.len(),
    ensures
        escaped_with(s.take(n), decisions) == escaped_by(s.take(n), rule),
    decreases n,
{
    if n > 0 {
        lemma_answers_follow_rule(f, s, decisions, rule, n - 1);
        assert(s.take(n).drop_last() == s.take(n - 1));
        assert(s.take(n).last() == s[n - 1]);
        let bytes = encode_scalar(s[n - 1] as u32);
        if decisions[n - 1] {
            let j = choose|j: int|
                0 <= j < bytes.len() && f.ensures((#[trigger] bytes[j],), true);
            assert(rule(bytes[j]));
            assert(any_escaped(bytes, rule));
        } else {
            assert forall|j: int| 0 <= j < bytes.len() implies !rule(#[trigger] bytes[j]) by {
                assert(f.ensures((bytes[j],), false));
            }
            assert(!any_escaped(bytes, rule));
        }
    }
}

impl SafeCharsType {
    /// Whether the byte `c` is to be escaped.
    pub open spec fn escapes(self, c: u8) -> bool {
        match self {
            SafeCharsType::Default => !is_plain_byte(c),
            SafeCharsType::Custom(set) => !(is_plain_byte(c) || set@.contains(c)),
            SafeCharsType::Noop => false,
        }
    }

    /// The escaping rule of the mode.
    pub open spec fn rule(self) -> spec_fn(u8) -> bool {
        |b: u8| self.escapes(b)
    }

    /// Whether the byte `c` is to be escaped.
    pub fn should_escape(&self, c: u8) -> (r: bool)
        ensures
            r == self.escapes(c),
    {
        broadcast use group_hash_axioms;

        let plain = (0x30 <= c && c <= 0x39) || (0x41 <= c && c <= 0x5A) || (0x61 <= c && c
            <= 0x7A) || c == 0x2F || c == 0x2D || c == 0x5F || c == 0x2E || c == 0x7E;
        match self {
            SafeCharsType::Default => !plain,
            SafeCharsType::Custom(set) => !(plain || set.contains(&c)),
            SafeCharsType::Noop => false,
        }
    }
}

/// A set with the same bytes as `set`.
fn copy_set(set: &HashSet<u8>) -> (r: HashSet<u8>)
    ensures
        r@ == set@,
{
    broadcast use group_hash_axioms;

    let mut out: HashSet<u8> = HashSet::new();
    let mut b: u16 = 0;
    while b < 256
        invariant
            b <= 256,
            forall|x: u8| out@.contains(x) <==> (x < b && set@.contains(x)),
        decreases 256 - b,
    {
        let x: u8 = b as u8;
        if set.contains(&x) {
            out.insert(x);
        }
        b += 1;
    }
    assert(out@ =~= set@);
    out
}

impl Clone for SafeCharsType {
    fn clone(&self) -> (r: SafeCharsType)
        ensures
            forall|c: u8| r.escapes(c) == self.escapes(c),
    {
        match self {
            SafeCharsType::Default => SafeCharsType::Default,
            SafeCharsType::Custom(set) => SafeCharsType::Custom(copy_set(set)),
            SafeCharsType::Noop => SafeCharsType::Noop,
        }
    }
}

/// What a configured text says of the safe bytes: `--` means that every
/// byte is safe, the empty text means the usual ones, and any other text
/// adds its own UTF-8 bytes to the usual ones.
pub open spec fn is_mode_of(mode: SafeCharsType, text: Seq<char>) -> bool {
    if text == "--"@ {
        mode == SafeCharsType::Noop
    } else if text.len() == 0 {
        mode == SafeCharsType::Default
    } else {
        mode matches SafeCharsType::Custom(set) && set@ == encode_utf8(text).to_set()
    }
}

impl SafeCharsType {
    /// The mode that a configured text stands for.
    pub fn from_text(s: &str) -> (r: SafeCharsType)
        ensures
            is_mode_of(r, s@),
    {
        broadcast use group_hash_axioms;

        if same_text(s, "--") {
            return SafeCharsType::Noop;
        }
        if s.is_empty() {
            return SafeCharsType::Default;
        }
        let bytes = s.as_bytes();
        let mut set: HashSet<u8> = HashSet::new();
        let mut i: usize = 0;
        while i < bytes.len()
            invariant
                i <= bytes.len(),
                set@ == bytes@.take(i as int).to_set(),
            decreases bytes.len() - i,
        {
            let ghost before = set@;
            set.insert(bytes[i]);
            assert(set@ =~= bytes@.take(i + 1).to_set()) by {
                let a = bytes@.take(i as int);
                let b = bytes@.take(i + 1);
                assert(b == a.push(bytes@[i as int]));
                assert forall|x: u8| b.to_set().contains(x) <==> before.insert(
                    bytes@[i as int],
                ).contains(x) by {
                    if b.contains(x) {
                        let k = choose|k: int| 0 <= k < b.len() && b[k] == x;
                        if k < i {
                            assert(a[k] == x);
                        }
                    }
                    if a.contains(x) {
                        let k = choose|k: int| 0 <= k < a.len() && a[k] == x;
                        assert(b[k] == x);
                    }
                    if x == bytes@[i as int] {
                        assert(b[i as int] == x);
                    }
                }
            }
            i += 1;
        }
        assert(bytes@.take(bytes.len() as int) == bytes@);
        SafeCharsType::Custom(set)
    }
}

impl From<&str> for SafeCharsType {
    /// The mode that a configured text stands for.
    fn from(s: &str) -> (r: SafeCharsType)
        ensures
            is_mode_of(r, s@),
    {
        SafeCharsType::from_text(s)
    }
}

impl From<String> for SafeCharsType {
    /// The mode that a configured text stands for.
    fn from(s: String) -> (r: SafeCharsType)
        ensures
            is_mode_of(r, s@),
    {
        SafeCharsType::from_text(s.as_str())
    }
}

impl vstd::std_specs::convert::FromSpecImpl<&str> for SafeCharsType {
    open spec fn obeys_from_spec() -> bool {
        false
    }

    open spec fn from_spec(v: &str) -> SafeCharsType {
        SafeCharsType::Default
    }
}

impl vstd::std_specs::convert::FromSpecImpl<String> for SafeCharsType {
    open spec fn obeys_from_spec() -> bool {
        false
    }

    open spec fn from_spec(v: String) -> SafeCharsType {
        SafeCharsType::Default
    }
}

impl Default for SafeCharsType {
    fn default() -> (r: SafeCharsType)
        ensures
            r == SafeCharsType::Default,
    {
        SafeCharsType::Default
    }
}

/// The UTF-8 bytes of a character.
pub fn utf8_of(c: char) -> (r: Vec<u8>)
    ensures
        r@ == encode_scalar(c as u32),
        1 <= r@.len() <= 4,
{
    broadcast use char_is_scalar;

    let v: u32 = c as u32;
    let mut out: Vec<u8> = Vec::new();
    if v <= 0x7F {
        out.push((v & 0x7F) as u8);
    } else if v <= 0x7FF {
        out.push(0xC0 | ((v >> 6) & 0x1F) as u8);
        out.push(0x80 | (v & 0x3F) as u8);
    } else if v <= 0xFFFF {
        out.push(0xE0 | ((v >> 12) & 0x0F) as u8);
        out.push(0x80 | ((v >> 6) & 0x3F) as u8);
        out.push(0x80 | (v & 0x3F) as u8);
    } else {
        out.push(0xF0 | ((v >> 18) & 0x7) as u8);
        out.push(0x80 | ((v >> 12) & 0x3F) as u8);
        out.push(0x80 | ((v >> 6) & 0x3F) as u8);
        out.push(0x80 | (v & 0x3F) as u8);
    }
    assert(out@ =~= encode_scalar(c as u32));
    out
}

/// The upper-case hexadecimal digit for a value below sixteen.
fn hex_digit(d: u8) -> (r: char)
    requires
        d < 16,
    ensures
        r == upper_hex_digit(d as int),
{
    if d < 10 {
        (d + 48) as char
    } else {
        (d + 55) as char
    }
}

/// Appends the percent triplet of each byte.
fn push_triplets(out: &mut Vec<char>, bytes: &Vec<u8>)
    ensures
        final(out)@ == old(out)@ + triplets(bytes@),
{
    let ghost before = out@;
    let mut i: usize = 0;
    while i < bytes.len()
        invariant
            i <= bytes.len(),
            out@ == before + triplets(bytes@.take(i as int)),
        decreases bytes.len() - i,
    {
        let b = bytes[i];
        proof {
            assert(bytes@.take(i + 1).drop_last() == bytes@.take(i as int));
            assert(bytes@.take(i + 1).last() == b);
        }
        out.push('%');
        out.push(hex_digit(b / 16));
        out.push(hex_digit(b % 16));
        assert(out@ =~= before + triplets(bytes@.take(i + 1)));
        i += 1;
    }
    assert(bytes@.take(bytes.len() as int) == bytes@);
}

/// Escapes `s` as `should_escape` decides byte by byte. A character stays
/// where the predicate passes all its bytes; otherwise a space becomes `+`
/// and any other character the percent triplets of its bytes.
pub fn escape<F: Fn(u8) -> bool>(s: &str, should_escape: F) -> (r: String)
    requires
        forall|b: u8| #[trigger] should_escape.requires((b,)),
    ensures
        forall|rule: spec_fn(u8) -> bool| #[trigger]
            conforms(should_escape, rule) ==> r@ == escaped_by(s@, rule),
{
    let input = chars_of(s);
    let (out, Ghost(decisions)) = escape_chars(&input, &should_escape);
    proof {
        assert forall|rule: spec_fn(u8) -> bool| #[trigger]
            conforms(should_escape, rule) implies out@ == escaped_by(s@, rule) by {
            lemma_answers_follow_rule(should_escape, s@, decisions, rule, s@.len() as int);
            assert(s@.take(s@.len() as int) == s@);
        }
    }
    string_of(&out)
}

/// Escapes the characters of `s` as `should_escape` decides, and tells the
/// decisions.
fn escape_chars<F: Fn(u8) -> bool>(s: &Vec<char>, should_escape: &F) -> (r: (
    Vec<char>,
    Ghost<Seq<bool>>,
))
    requires
        forall|b: u8| #[trigger] should_escape.requires((b,)),
    ensures
        answered_by(*should_escape, s@, r.1@),
        r.0@ == escaped_with(s@, r.1@),
{
    let ghost mut decisions: Seq<bool> = Seq::empty();
    let mut out: Vec<char> = Vec::new();
    let mut i: usize = 0;
    while i < s.len()
        invariant
            i <= s.len(),
            forall|b: u8| #[trigger] should_escape.requires((b,)),
            answered_by(*should_escape, s@.take(i as int), decisions),
            out@ == escaped_with(s@.take(i as int), decisions),
        decreases s.len() - i,
    {
        let c = s[i];
        let bytes = utf8_of(c);
        let mut hit = false;
        let mut j: usize = 0;
        while j < bytes.len() && !hit
            invariant
                j <= bytes.len(),
                forall|b: u8| #[trigger] should_escape.requires((b,)),
                !hit ==> forall|k: int|
                    0 <= k < j ==> should_escape.ensures((#[trigger] bytes@[k],), false),
                hit ==> exists|k: int|
                    0 <= k < bytes@.len() && should_escape.ensures((#[trigger] bytes@[k],), true),
            decreases bytes.len() - j + (if hit { 0int } else { 1int }),
        {
            let b = bytes[j];
            hit = should_escape(b);
            j += 1;
        }
        let ghost before = decisions;
        let ghost sofar = out@;
        proof {
            decisions = decisions.push(hit);
            assert(s@.take(i + 1).drop_last() == s@.take(i as int));
            assert(s@.take(i + 1).last() == c);
            lemma_escaped_with_prefix(s@.take(i as int), before, decisions);
            assert forall|k: int| 0 <= k < i + 1 implies if #[trigger] decisions[k] {
                exists|j: int|
                    0 <= j < encode_scalar(s@.take(i + 1)[k] as u32).len()
                        && should_escape.ensures(
                        (#[trigger] encode_scalar(s@.take(i + 1)[k] as u32)[j],),
                        true,
                    )
            } else {
                forall|j: int|
                    0 <= j < encode_scalar(s@.take(i + 1)[k] as u32).len()
                        ==> should_escape.ensures(
                        (#[trigger] encode_scalar(s@.take(i + 1)[k] as u32)[j],),
                        false,
                    )
            } by {
                if k < i {
                    assert(decisions[k] == before[k]);
                    assert(s@.take(i + 1)[k] == s@.take(i as int)[k]);
                }
            }
        }
        if !hit {
            out.push(c);
        } else if c == ' ' {
            out.push('+');
        } else {
            push_triplets(&mut out, &bytes);
        }
        assert(out@ =~= escaped_with(s@.take(i + 1), decisions));
        i += 1;
    }
    assert(s@.take(s.len() as int) == s@);
    (out, Ghost(decisions))
}

/// Only the decisions for the characters of a text matter to it.
proof fn lemma_escaped_with_prefix(s: Seq<char>, d1: Seq<bool>, d2: Seq<bool>)
    requires
        s.len() <= d1.len(),
        s.len() <= d2.len(),
        forall|i: int| 0 <= i < s.len() ==> d1[i] == d2[i],
    ensures
        escaped_with(s, d1) == escaped_with(s, d2),
    decreases s.len(),
{
    if s.len() != 0 {
        lemma_escaped_with_prefix(s.drop_last(), d1, d2);
    }
}

/// The safe form of a key under a rule: line breaks removed, surrounding
/// slashes removed, and what is left escaped.
pub open spec fn normalized_by(key: Seq<char>, escapes: spec_fn(u8) -> bool) -> Seq<char> {
    escaped_by(trimmed(without_line_breaks(key)), escapes)
}

/// The safe form of a key under a mode.
pub open spec fn normalized(key: Seq<char>, safe_chars: SafeCharsType) -> Seq<char> {
    normalized_by(key, safe_chars.rule())
}

/// Whether `c` is one of the line breaks that never stay in a key.
fn line_break(c: char) -> (r: bool)
    ensures
        r == is_line_break(c),
{
    c == '\r' || c == '\n' || c == '\u{000B}' || c == '\u{000C}' || c == '\u{0085}' || c
        == '\u{2028}' || c == '\u{2029}'
}

/// `s` without its line breaks and without the slashes around it.
fn cleaned(s: &Vec<char>) -> (r: Vec<char>)
    ensures
        r@ == trimmed(without_line_breaks(s@)),
{
    let mut kept: Vec<char> = Vec::new();
    let mut i: usize = 0;
    while i < s.len()
        invariant
            i <= s.len(),
            kept@ == without_line_breaks(s@.take(i as int)),
        decreases s.len() - i,
    {
        proof {
            assert(s@.take(i + 1).drop_last() == s@.take(i as int));
            assert(s@.take(i + 1).last() == s@[i as int]);
        }
        if !line_break(s[i]) {
            kept.push(s[i]);
        }
        i += 1;
    }
    assert(s@.take(s.len() as int) == s@);
    let mut from: usize = 0;
    assert(kept@.skip(0) == kept@);
    while from < kept.len() && kept[from] == '/'
        invariant
            from <= kept.len(),
            without_leading_slashes(kept@) == without_leading_slashes(kept@.skip(from as int)),
        decreases kept.len() - from,
    {
        assert(kept@.skip(from as int).drop_first() == kept@.skip(from + 1));
        from += 1;
    }
    assert(without_leading_slashes(kept@) == kept@.skip(from as int));
    let mut to: usize = kept.len();
    while to > from && kept[to - 1] == '/'
        invariant
            from <= to <= kept.len(),
            without_trailing_slashes(kept@.skip(from as int)) == without_trailing_slashes(
                kept@.subrange(from as int, to as int),
            ),
        decreases to,
    {
        assert(kept@.subrange(from as int, to as int).drop_last() == kept@.subrange(
            from as int,
            to - 1,
        ));
        to -= 1;
    }
    slice_of(&kept, from, to)
}

/// The safe form of `key` under the mode `safe_chars`.
pub fn normalize(key: &str, safe_chars: &SafeCharsType) -> (r: String)
    ensures
        r@ == normalized(key@, *safe_chars),
{
    let input = chars_of(key);
    let clean = cleaned(&input);
    let decide = |c: u8| -> (r: bool)
        ensures
            r == safe_chars.escapes(c),
        { safe_chars.should_escape(c) };
    let (out, Ghost(decisions)) = escape_chars(&clean, &decide);
    proof {
        assert(conforms(decide, safe_chars.rule()));
        lemma_answers_follow_rule(
            decide,
            clean@,
            decisions,
            safe_chars.rule(),
            clean@.len() as int,
        );
        assert(clean@.take(clean@.len() as int) == clean@);
    }
    string_of(&out)
}

/// No character of `s` is a line break.
pub open spec fn no_line_breaks(s: Seq<char>) -> bool {
    forall|i: int| 0 <= i < s.len() ==> !is_line_break(#[trigger] s[i])
}

/// Whether the mode escapes the character `c`.
pub open spec fn escapes_char(safe_chars: SafeCharsType, c: char) -> bool {
    any_escaped(encode_scalar(c as u32), safe_chars.rule())
}

/// The mode escapes no character of `s`.
pub open spec fn all_pass(s: Seq<char>, safe_chars: SafeCharsType) -> bool {
    forall|i: int| 0 <= i < s.len() ==> !escapes_char(safe_chars, #[trigger] s[i])
}

/// What escaping writes is itself safe: wherever the mode escapes a
/// character of the cleaned key, it passes the sign that is written for it,
/// `+` for a space and `%` for anything else.
pub open spec fn escapes_pass(key: Seq<char>, safe_chars: SafeCharsType) -> bool {
    let m = trimmed(without_line_breaks(key));
    forall|i: int|
        0 <= i < m.len() && escapes_char(safe_chars, #[trigger] m[i]) ==> if m[i] == ' ' {
            !safe_chars.escapes(0x2B)
        } else {
            !safe_chars.escapes(0x25)
        }
}

/// An ASCII character is one byte in UTF-8: its own code.
pub proof fn lemma_ascii_bytes(c: char)
    requires
        c as u32 <= 0x7F,
    ensures
        encode_scalar(c as u32) == seq![c as u8],
{
    let v = c as u32;
    assert((v & 0x7F) as u8 == v as u8) by (bit_vector)
        requires
            v <= 0x7F,
    ;
}

/// The triplets hold `%` and upper-case hexadecimal digits only.
proof fn lemma_triplets_chars(bytes: Seq<u8>)
    ensures
        triplets(bytes).len() == 3 * bytes.len(),
        bytes.len() > 0 ==> triplets(bytes)[0] == '%',
        forall|i: int|
            0 <= i < triplets(bytes).len() ==> {
                let c = #[trigger] triplets(bytes)[i];
                c == '%' || ('0' <= c && c <= '9') || ('A' <= c && c <= 'F')
            },
    decreases bytes.len(),
{
    if bytes.len() != 0 {
        lemma_triplets_chars(bytes.drop_last());
        let t = percent_triplet(bytes.last());
        assert(t.len() == 3);
        let d1 = bytes.last() as int / 16;
        let d2 = bytes.last() as int % 16;
        assert(0 <= d1 < 16 && 0 <= d2 < 16);
    }
}

/// What is left after the line breaks are removed holds none.
proof fn lemma_without_line_breaks(s: Seq<char>)
    ensures
        no_line_breaks(without_line_breaks(s)),
        no_line_breaks(s) ==> without_line_breaks(s) == s,
    decreases s.len(),
{
    if s.len() != 0 {
        lemma_without_line_breaks(s.drop_last());
        if no_line_breaks(s) {
            assert(!is_line_break(s[s.len() - 1]));
            assert forall|i: int| 0 <= i < s.drop_last().len() implies !is_line_break(
                #[trigger] s.drop_last()[i],
            ) by {
                assert(s.drop_last()[i] == s[i]);
            }
            assert(s.drop_last().push(s.last()) == s);
        }
    }
}

/// Trimming takes a stretch out of the text: it brings no new character,
/// and what is left neither begins nor ends with a slash.
proof fn lemma_trimmed(s: Seq<char>)
    ensures
        exists|a: int, b: int| 0 <= a <= b <= s.len() && trimmed(s) == s.subrange(a, b),
        trimmed(s).len() > 0 ==> trimmed(s)[0] != '/' && trimmed(s).last() != '/',
{
    lemma_leading(s);
    let a = choose|a: int| 0 <= a <= s.len() && without_leading_slashes(s) == s.skip(a);
    let t = s.skip(a);
    lemma_trailing(t);
    let b = choose|b: int| 0 <= b <= t.len() && without_trailing_slashes(t) == t.take(b);
    assert(t.take(b) == s.subrange(a, a + b));
    if trimmed(s).len() > 0 {
        assert(t.take(b)[0] == t[0]);
    }
}

/// What is left after the leading slashes are removed is a tail of the
/// text, and does not begin with a slash.
proof fn lemma_leading(s: Seq<char>)
    ensures
        exists|a: int| 0 <= a <= s.len() && without_leading_slashes(s) == s.skip(a),
        without_leading_slashes(s).len() > 0 ==> without_leading_slashes(s)[0] != '/',
    decreases s.len(),
{
    if s.len() > 0 && s[0] == '/' {
        lemma_leading(s.drop_first());
        let a = choose|a: int|
            0 <= a <= s.drop_first().len() && without_leading_slashes(s.drop_first())
                == s.drop_first().skip(a);
        assert(s.drop_first().skip(a) == s.skip(a + 1));
    } else {
        assert(s.skip(0) == s);
    }
}

/// What is left after the trailing slashes are removed is a head of the
/// text, and does not end with a slash.
proof fn lemma_trailing(s: Seq<char>)
    ensures
        exists|b: int| 0 <= b <= s.len() && without_trailing_slashes(s) == s.take(b),
        without_trailing_slashes(s).len() > 0 ==> without_trailing_slashes(s).last() != '/',
    decreases s.len(),
{
    if s.len() > 0 && s.last() == '/' {
        lemma_trailing(s.drop_last());
        let b = choose|b: int|
            0 <= b <= s.drop_last().len() && without_trailing_slashes(s.drop_last())
                == s.drop_last().take(b);
        assert(s.drop_last().take(b) == s.take(b));
    } else {
        assert(s.take(s.len() as int) == s);
    }
}

/// A text that neither begins nor ends with a slash is its own trimming.
proof fn lemma_trimmed_already(s: Seq<char>)
    requires
        s.len() > 0 ==> s[0] != '/' && s.last() != '/',
    ensures
        trimmed(s) == s,
{
}

/// Escaping brings no line break into a text that holds none.
proof fn lemma_escaped_no_line_breaks(s: Seq<char>, rule: spec_fn(u8) -> bool)
    requires
        no_line_breaks(s),
    ensures
        no_line_breaks(escaped_by(s, rule)),
    decreases s.len(),
{
    if s.len() != 0 {
        assert forall|i: int| 0 <= i < s.drop_last().len() implies !is_line_break(
            #[trigger] s.drop_last()[i],
        ) by {
            assert(s.drop_last()[i] == s[i]);
        }
        lemma_escaped_no_line_breaks(s.drop_last(), rule);
        let head = escaped_by(s.drop_last(), rule);
        let tail = escaped_char(s.last(), rule);
        lemma_triplets_chars(encode_scalar(s.last() as u32));
        assert(!is_line_break(s[s.len() - 1]));
        assert forall|i: int| 0 <= i < (head + tail).len() implies !is_line_break(
            #[trigger] (head + tail)[i],
        ) by {
            if i < head.len() {
                assert((head + tail)[i] == head[i]);
            } else {
                assert((head + tail)[i] == tail[i - head.len()]);
            }
        }
    }
}

/// The safe form of a key holds none of the line breaks CR, LF, VT, FF,
/// NEL, LS and PS, whatever the key and the mode.
pub proof fn lemma_normalized_has_no_line_breaks(key: Seq<char>, safe_chars: SafeCharsType)
    ensures
        no_line_breaks(normalized(key, safe_chars)),
{
    let stripped = without_line_breaks(key);
    lemma_without_line_breaks(key);
    lemma_trimmed(stripped);
    let (a, b) = choose|a: int, b: int|
        0 <= a <= b <= stripped.len() && trimmed(stripped) == stripped.subrange(a, b);
    assert forall|i: int| 0 <= i < trimmed(stripped).len() implies !is_line_break(
        #[trigger] trimmed(stripped)[i],
    ) by {
        assert(trimmed(stripped)[i] == stripped[a + i]);
    }
    lemma_escaped_no_line_breaks(trimmed(stripped), safe_chars.rule());
}

/// A text that the mode passes whole is left as it is.
proof fn lemma_escaped_all_pass(s: Seq<char>, safe_chars: SafeCharsType)
    requires
        all_pass(s, safe_chars),
    ensures
        escaped_by(s, safe_chars.rule()) == s,
    decreases s.len(),
{
    if s.len() != 0 {
        assert forall|i: int| 0 <= i < s.drop_last().len() implies !escapes_char(
            safe_chars,
            #[trigger] s.drop_last()[i],
        ) by {
            assert(s.drop_last()[i] == s[i]);
        }
        lemma_escaped_all_pass(s.drop_last(), safe_chars);
        assert(!escapes_char(safe_chars, s[s.len() - 1]));
        assert(s.drop_last() + seq![s.last()] == s);
    }
}

/// Every mode passes the digits and the upper-case letters `A` to `F`.
proof fn lemma_hex_digit_passes(c: char, safe_chars: SafeCharsType)
    requires
        ('0' <= c && c <= '9') || ('A' <= c && c <= 'F'),
    ensures
        !escapes_char(safe_chars, c),
{
    lemma_ascii_bytes(c);
    assert(is_plain_byte(c as u8));
}

/// What is written for one character is passed by the mode, where the mode
/// passes the signs of escaping that the character calls for.
proof fn lemma_escaped_char_passes(c: char, safe_chars: SafeCharsType)
    requires
        escapes_char(safe_chars, c) ==> if c == ' ' {
            !safe_chars.escapes(0x2B)
        } else {
            !safe_chars.escapes(0x25)
        },
    ensures
        all_pass(escaped_char(c, safe_chars.rule()), safe_chars),
        escaped_char(c, safe_chars.rule()).len() > 0,
        c != '/' ==> escaped_char(c, safe_chars.rule())[0] != '/' && escaped_char(
            c,
            safe_chars.rule(),
        ).last() != '/',
{
    let out = escaped_char(c, safe_chars.rule());
    let bytes = encode_scalar(c as u32);
    if !escapes_char(safe_chars, c) {
    } else if c == ' ' {
        lemma_ascii_bytes('+');
        assert(encode_scalar('+' as u32)[0] == 0x2B);
    } else {
        lemma_triplets_chars(bytes);
        lemma_ascii_bytes('%');
        assert(encode_scalar('%' as u32)[0] == 0x25);
        assert(bytes.len() > 0);
        assert forall|i: int| 0 <= i < out.len() implies !escapes_char(
            safe_chars,
            #[trigger] out[i],
        ) by {
            let x = out[i];
            if x != '%' {
                lemma_hex_digit_passes(x, safe_chars);
            }
        }
    }
}

/// What is written for a text is passed by the mode, and begins and ends
/// as the writing of its first and last character does.
proof fn lemma_escaped_passes(m: Seq<char>, safe_chars: SafeCharsType)
    requires
        forall|i: int|
            0 <= i < m.len() && escapes_char(safe_chars, #[trigger] m[i]) ==> if m[i] == ' ' {
                !safe_chars.escapes(0x2B)
            } else {
                !safe_chars.escapes(0x25)
            },
    ensures
        all_pass(escaped_by(m, safe_chars.rule()), safe_chars),
        m.len() > 0 ==> escaped_by(m, safe_chars.rule()).len() > 0,
        m.len() > 0 && m[0] != '/' ==> escaped_by(m, safe_chars.rule())[0] != '/',
        m.len() > 0 && m.last() != '/' ==> escaped_by(m, safe_chars.rule()).last() != '/',
    decreases m.len(),
{
    if m.len() != 0 {
        let rest = m.drop_last();
        assert forall|i: int|
            0 <= i < rest.len() && escapes_char(safe_chars, #[trigger] rest[i]) implies if rest[i]
            == ' ' {
            !safe_chars.escapes(0x2B)
        } else {
            !safe_chars.escapes(0x25)
        } by {
            assert(rest[i] == m[i]);
        }
        lemma_escaped_passes(rest, safe_chars);
        let c = m[m.len() - 1];
        lemma_escaped_char_passes(c, safe_chars);
        let head = escaped_by(rest, safe_chars.rule());
        let tail = escaped_char(c, safe_chars.rule());
        assert forall|i: int| 0 <= i < (head + tail).len() implies !escapes_char(
            safe_chars,
            #[trigger] (head + tail)[i],
        ) by {
            if i < head.len() {
                assert((head + tail)[i] == head[i]);
            } else {
                assert((head + tail)[i] == tail[i - head.len()]);
            }
        }
        assert((head + tail).last() == tail.last());
        if rest.len() > 0 {
            assert(rest[0] == m[0]);
            assert((head + tail)[0] == head[0]);
        } else {
            assert(head.len() == 0);
            assert((head + tail)[0] == tail[0]);
        }
    }
}

/// Normalising twice gives what normalising once gives, for every key in
/// which escaping writes only what the mode passes (see [`escapes_pass`]).
///
/// The condition is needed: `+` and `%` are themselves escaped by the
/// `Default` mode, so a key with a space, once normalised, is changed again.
pub proof fn lemma_normalize_idempotent(key: Seq<char>, safe_chars: SafeCharsType)
    requires
        escapes_pass(key, safe_chars),
    ensures
        normalized(normalized(key, safe_chars), safe_chars) == normalized(key, safe_chars),
{
    let stripped = without_line_breaks(key);
    let m = trimmed(stripped);
    let once = escaped_by(m, safe_chars.rule());
    lemma_normalized_has_no_line_breaks(key, safe_chars);
    lemma_without_line_breaks(once);
    lemma_trimmed(stripped);
    lemma_escaped_passes(m, safe_chars);
    lemma_trimmed_already(once);
    lemma_escaped_all_pass(once, safe_chars);
}

/// Under a mode that escapes nothing, normalising is idempotent for every
/// key.
pub proof fn lemma_normalize_idempotent_noop(key: Seq<char>)
    ensures
        normalized(normalized(key, SafeCharsType::Noop), SafeCharsType::Noop) == normalized(
            key,
            SafeCharsType::Noop,
        ),
{
    lemma_normalize_idempotent(key, SafeCharsType::Noop);
}

/// What is written for a character is not empty and is at least as long
/// as what it stands for; an escaped character other than a space is
/// written in three characters or more, the first of them `%`.
proof fn lemma_escaped_char_shape(c: char, rule: spec_fn(u8) -> bool)
    ensures
        escaped_char(c, rule).len() >= 1,
        c != '/' ==> escaped_char(c, rule)[0] != '/' && escaped_char(c, rule).last() != '/',
        any_escaped(encode_scalar(c as u32), rule) && c != ' ' ==> escaped_char(c, rule).len() >= 3
            && escaped_char(c, rule)[0] == '%',
        any_escaped(encode_scalar(c as u32), rule) && c == ' ' ==> escaped_char(c, rule)
            == seq!['+'],
{
    let bytes = encode_scalar(c as u32);
    lemma_triplets_chars(bytes);
    assert(bytes.len() >= 1);
}

/// Escaping never shortens a text, and keeps it from beginning or ending
/// with a slash where it did not before.
proof fn lemma_escaped_shape(m: Seq<char>, rule: spec_fn(u8) -> bool)
    ensures
        escaped_by(m, rule).len() >= m.len(),
        m.len() > 0 && m[0] != '/' ==> escaped_by(m, rule)[0] != '/',
        m.len() > 0 && m.last() != '/' ==> escaped_by(m, rule).last() != '/',
    decreases m.len(),
{
    if m.len() != 0 {
        let rest = m.drop_last();
        lemma_escaped_shape(rest, rule);
        lemma_escaped_char_shape(m.last(), rule);
        let head = escaped_by(rest, rule);
        let tail = escaped_char(m.last(), rule);
        assert((head + tail).last() == tail.last());
        if rest.len() > 0 {
            assert(rest[0] == m[0]);
            assert((head + tail)[0] == head[0]);
        } else {
            assert((head + tail)[0] == tail[0]);
        }
    }
}

/// The sign that is written for an escaped character stands in the result.
proof fn lemma_escaped_holds_sign(m: Seq<char>, rule: spec_fn(u8) -> bool, i: int) -> (k: int)
    requires
        0 <= i < m.len(),
        any_escaped(encode_scalar(m[i] as u32), rule),
    ensures
        0 <= k < escaped_by(m, rule).len(),
        escaped_by(m, rule)[k] == if m[i] == ' ' {
            '+'
        } else {
            '%'
        },
    decreases m.len(),
{
    let head = escaped_by(m.drop_last(), rule);
    let tail = escaped_char(m.last(), rule);
    lemma_escaped_char_shape(m.last(), rule);
    if i == m.len() - 1 {
        assert((head + tail)[head.len() as int] == tail[0]);
        head.len() as int
    } else {
        assert(m.drop_last()[i] == m[i]);
        let k = lemma_escaped_holds_sign(m.drop_last(), rule, i);
        assert((head + tail)[k] == head[k]);
        k
    }
}

/// A text that holds an escaped character other than a space grows when
/// it is escaped.
proof fn lemma_escaped_grows(s: Seq<char>, rule: spec_fn(u8) -> bool, k: int)
    requires
        0 <= k < s.len(),
        any_escaped(encode_scalar(s[k] as u32), rule),
        s[k] != ' ',
    ensures
        escaped_by(s, rule).len() > s.len(),
    decreases s.len(),
{
    lemma_escaped_shape(s.drop_last(), rule);
    lemma_escaped_char_shape(s.last(), rule);
    if k < s.len() - 1 {
        assert(s.drop_last()[k] == s[k]);
        lemma_escaped_grows(s.drop_last(), rule, k);
    }
}

/// Where escaping writes a sign that the mode does not pass, normalising
/// a second time changes the key again: the condition of
/// [`lemma_normalize_idempotent`] leaves out no key for which the law holds.
pub proof fn lemma_normalize_changes_again(key: Seq<char>, safe_chars: SafeCharsType)
    requires
        !escapes_pass(key, safe_chars),
    ensures
        normalized(normalized(key, safe_chars), safe_chars) != normalized(key, safe_chars),
{
    let rule = safe_chars.rule();
    let stripped = without_line_breaks(key);
    let m = trimmed(stripped);
    let once = escaped_by(m, rule);
    let i = choose|i: int|
        0 <= i < m.len() && escapes_char(safe_chars, #[trigger] m[i]) && !(if m[i] == ' ' {
            !safe_chars.escapes(0x2B)
        } else {
            !safe_chars.escapes(0x25)
        });
    let k = lemma_escaped_holds_sign(m, rule, i);
    let sign = once[k];
    lemma_ascii_bytes(sign);
    assert(encode_scalar(sign as u32)[0] == sign as u8);
    assert(escapes_char(safe_chars, sign));
    lemma_normalized_has_no_line_breaks(key, safe_chars);
    lemma_without_line_breaks(once);
    lemma_trimmed(stripped);
    lemma_escaped_shape(m, rule);
    lemma_trimmed_already(once);
    lemma_escaped_grows(once, rule, k);
}

/// The mode answers alike for all bytes of the character: it escapes
/// every one of them or none.
pub open spec fn treats_bytes_alike(safe_chars: SafeCharsType, c: char) -> bool {
    let bytes = encode_scalar(c as u32);
    forall|i: int, j: int|
        0 <= i < bytes.len() && 0 <= j < bytes.len() ==> safe_chars.escapes(#[trigger] bytes[i])
            == safe_chars.escapes(#[trigger] bytes[j])
}

/// The mode adds no byte beyond ASCII to the usual safe bytes.
pub open spec fn adds_ascii_only(safe_chars: SafeCharsType) -> bool {
    safe_chars matches SafeCharsType::Custom(set) ==> forall|b: u8|
        set@.contains(b) ==> b < 0x80
}

/// Every byte of a character beyond ASCII is itself beyond ASCII.
proof fn lemma_wide_bytes(c: char)
    requires
        c as u32 > 0x7F,
    ensures
        forall|i: int|
            0 <= i < encode_scalar(c as u32).len() ==> (#[trigger] encode_scalar(c as u32)[i])
                >= 0x80,
{
    let v = c as u32;
    assert(0xC0u8 | ((v >> 6) & 0x1F) as u8 >= 0x80) by (bit_vector);
    assert(0xE0u8 | ((v >> 12) & 0x0F) as u8 >= 0x80) by (bit_vector);
    assert(0xF0u8 | ((v >> 18) & 0x7) as u8 >= 0x80) by (bit_vector);
    assert(0x80u8 | (v & 0x3F) as u8 >= 0x80) by (bit_vector);
    assert(0x80u8 | ((v >> 6) & 0x3F) as u8 >= 0x80) by (bit_vector);
    assert(0x80u8 | ((v >> 12) & 0x3F) as u8 >= 0x80) by (bit_vector);
}

/// Escaping goes byte by byte wherever a string can show it: a mode that
/// adds only ASCII bytes to the safe ones, or none, or passes everything,
/// answers alike for all bytes of a character, so that the character is kept
/// exactly where each of its bytes is safe and written as the triplets of
/// its bytes exactly where each of them is not. Only a set that holds some
/// bytes of a character beyond ASCII and not the others can part them, and
/// there the character is escaped whole, since half of it is no text.
pub proof fn lemma_escaping_is_bytewise(safe_chars: SafeCharsType, c: char)
    requires
        adds_ascii_only(safe_chars),
    ensures
        treats_bytes_alike(safe_chars, c),
{
    let bytes = encode_scalar(c as u32);
    if c as u32 <= 0x7F {
        lemma_ascii_bytes(c);
    } else {
        lemma_wide_bytes(c);
        assert forall|i: int, j: int|
            0 <= i < bytes.len() && 0 <= j < bytes.len() implies safe_chars.escapes(
            #[trigger] bytes[i],
        ) == safe_chars.escapes(#[trigger] bytes[j]) by {
            assert(bytes[i] >= 0x80 && bytes[j] >= 0x80);
        }
    }
}

} // verus!
