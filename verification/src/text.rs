//! Character-level building blocks shared by the codecs of this crate.
//!
//! Text is handled as a sequence of Unicode scalar values: the view of a
//! `String` or `&str`. The functions here work on `Vec<char>` buffers and
//! convert at the edges.

use vstd::prelude::*;

verus! {

/// Appends one character to a string.
///
/// Trusted: states of `String::push` that the new contents are the old ones
/// followed by `c`.
#[verifier::external_body]
pub(crate) fn push_char(s: &mut String, c: char)
    ensures
        final(s)@ == old(s)@.push(c),
{
    s.push(c)
}

/// The characters of `s`, in order.
pub fn chars_of(s: &str) -> (r: Vec<char>)
    ensures
        r@ == s@,
{
    let mut out: Vec<char> = Vec::new();
    for c in it: s.chars()
        invariant
            out@ == it.seq().take(it.index() as int),
            it.seq() == s@,
    {
        out.push(c);
    }
    out
}

/// The string whose characters are `v`, in order.
pub fn string_of(v: &Vec<char>) -> (r: String)
    ensures
        r@ == v@,
{
    let mut out = String::new();
    let mut i: usize = 0;
    while i < v.len()
        invariant
            i <= v.len(),
            out@ == v@.take(i as int),
        decreases v.len() - i,
    {
        push_char(&mut out, v[i]);
        i += 1;
    }
    out
}

/// Appends the characters of `s` to `out`.
pub fn push_str(out: &mut Vec<char>, s: &str)
    ensures
        final(out)@ == old(out)@ + s@,
{
    let ghost before = out@;
    for c in it: s.chars()
        invariant
            out@ == before + it.seq().take(it.index() as int),
            it.seq() == s@,
    {
        out.push(c);
    }
}

/// Appends the characters of `s` to `out`.
pub fn push_all(out: &mut Vec<char>, s: &Vec<char>)
    ensures
        final(out)@ == old(out)@ + s@,
{
    let ghost before = out@;
    let mut i: usize = 0;
    while i < s.len()
        invariant
            i <= s.len(),
            out@ == before + s@.take(i as int),
        decreases s.len() - i,
    {
        out.push(s[i]);
        i += 1;
    }
}

/// The characters of `s` from position `from` up to, not counting, `to`.
pub fn slice_of(s: &Vec<char>, from: usize, to: usize) -> (r: Vec<char>)
    requires
        from <= to <= s.len(),
    ensures
        r@ == s@.subrange(from as int, to as int),
{
    let mut out: Vec<char> = Vec::new();
    let mut i: usize = from;
    while i < to
        invariant
            from <= i <= to <= s.len(),
            out@ == s@.subrange(from as int, i as int),
        decreases to - i,
    {
        out.push(s[i]);
        i += 1;
    }
    out
}

/// Whether two buffers hold the same characters.
pub fn same_chars(a: &Vec<char>, b: &Vec<char>) -> (r: bool)
    ensures
        r == (a@ == b@),
{
    if a.len() != b.len() {
        return false;
    }
    let mut i: usize = 0;
    while i < a.len()
        invariant
            i <= a.len(),
            a.len() == b.len(),
            a@.take(i as int) == b@.take(i as int),
        decreases a.len() - i,
    {
        if a[i] != b[i] {
            return false;
        }
        assert(a@.take(i + 1) == a@.take(i as int).push(a@[i as int]));
        assert(b@.take(i + 1) == b@.take(i as int).push(b@[i as int]));
        i += 1;
    }
    assert(a@ == a@.take(a.len() as int));
    assert(b@ == b@.take(b.len() as int));
    true
}

/// Whether `s` holds exactly the characters of `lit`.
pub fn is_text(s: &Vec<char>, lit: &str) -> (r: bool)
    ensures
        r == (s@ == lit@),
{
    let other = chars_of(lit);
    same_chars(s, &other)
}

/// `p` is an initial segment of `s`.
pub open spec fn has_prefix(s: Seq<char>, p: Seq<char>) -> bool {
    p.len() <= s.len() && s.subrange(0, p.len() as int) == p
}

/// Whether `s` begins with the characters of `p`.
pub fn starts_with(s: &Vec<char>, p: &str) -> (r: bool)
    ensures
        r == has_prefix(s@, p@),
{
    let pc = chars_of(p);
    if pc.len() > s.len() {
        return false;
    }
    let head = slice_of(s, 0, pc.len());
    same_chars(&head, &pc)
}

/// Position of the first `c` in `s`, or the length of `s` where there is none.
pub open spec fn first_index_of(s: Seq<char>, c: char) -> int
    decreases s.len(),
{
    if s.len() == 0 {
        0
    } else if s[0] == c {
        0
    } else {
        1 + first_index_of(s.drop_first(), c)
    }
}

/// Position of the last `c` in `s`, or -1 where there is none.
pub open spec fn last_index_of(s: Seq<char>, c: char) -> int
    decreases s.len(),
{
    if s.len() == 0 {
        -1
    } else if s.last() == c {
        s.len() - 1
    } else {
        last_index_of(s.drop_last(), c)
    }
}

/// `first_index_of` names the least position that holds `c`.
pub proof fn lemma_first_index_of(s: Seq<char>, c: char)
    ensures
        0 <= first_index_of(s, c) <= s.len(),
        first_index_of(s, c) < s.len() ==> s[first_index_of(s, c)] == c,
        forall|j: int| 0 <= j < first_index_of(s, c) ==> s[j] != c,
    decreases s.len(),
{
    if s.len() != 0 && s[0] != c {
        lemma_first_index_of(s.drop_first(), c);
        let k = first_index_of(s.drop_first(), c);
        assert forall|j: int| 0 <= j < 1 + k implies s[j] != c by {
            if j > 0 {
                assert(s.drop_first()[j - 1] == s[j]);
            }
        }
    }
}

/// `last_index_of` names the greatest position that holds `c`.
pub proof fn lemma_last_index_of(s: Seq<char>, c: char)
    ensures
        -1 <= last_index_of(s, c) < s.len(),
        last_index_of(s, c) >= 0 ==> s[last_index_of(s, c)] == c,
        forall|j: int| last_index_of(s, c) < j < s.len() ==> s[j] != c,
    decreases s.len(),
{
    if s.len() != 0 && s.last() != c {
        lemma_last_index_of(s.drop_last(), c);
        let k = last_index_of(s.drop_last(), c);
        assert forall|j: int| k < j < s.len() implies s[j] != c by {
            if j < s.len() - 1 {
                assert(s.drop_last()[j] == s[j]);
            }
        }
    }
}

/// A position that holds `c` and is followed by no other `c` is the last one.
pub proof fn lemma_last_index_is(s: Seq<char>, c: char, i: int)
    requires
        -1 <= i < s.len(),
        i >= 0 ==> s[i] == c,
        forall|j: int| i < j < s.len() ==> s[j] != c,
    ensures
        last_index_of(s, c) == i,
    decreases s.len(),
{
    if s.len() != 0 && s.last() != c {
        assert forall|j: int| i < j < s.drop_last().len() implies s.drop_last()[j] != c by {
            assert(s.drop_last()[j] == s[j]);
        }
        if i >= 0 {
            assert(s.drop_last()[i] == s[i]);
        }
        lemma_last_index_is(s.drop_last(), c, i);
    }
}

/// A position that holds `c` and is preceded by no other `c` is the first one.
pub proof fn lemma_first_index_is(s: Seq<char>, c: char, i: int)
    requires
        0 <= i <= s.len(),
        i < s.len() ==> s[i] == c,
        forall|j: int| 0 <= j < i ==> s[j] != c,
    ensures
        first_index_of(s, c) == i,
    decreases s.len(),
{
    if s.len() != 0 && s[0] != c {
        assert forall|j: int| 0 <= j < i - 1 implies s.drop_first()[j] != c by {
            assert(s.drop_first()[j] == s[j + 1]);
        }
        if i < s.len() {
            assert(s.drop_first()[i - 1] == s[i]);
        }
        lemma_first_index_is(s.drop_first(), c, i - 1);
    }
}

/// Position of the first `c` in `s`, or the length of `s`.
pub fn find_first(s: &Vec<char>, c: char) -> (r: usize)
    ensures
        r == first_index_of(s@, c),
{
    let mut i: usize = 0;
    while i < s.len() && s[i] != c
        invariant
            i <= s.len(),
            forall|j: int| 0 <= j < i ==> s@[j] != c,
        decreases s.len() - i,
    {
        i += 1;
    }
    proof {
        lemma_first_index_is(s@, c, i as int);
    }
    i
}

/// Position of the last `c` in `s`, if there is one.
pub fn find_last(s: &Vec<char>, c: char) -> (r: Option<usize>)
    ensures
        match r {
            Some(i) => i == last_index_of(s@, c),
            None => last_index_of(s@, c) == -1,
        },
{
    let mut i: usize = s.len();
    while i > 0 && s[i - 1] != c
        invariant
            i <= s.len(),
            forall|j: int| i <= j < s.len() ==> s@[j] != c,
        decreases i,
    {
        i -= 1;
    }
    proof {
        lemma_last_index_is(s@, c, i as int - 1);
    }
    if i == 0 {
        None
    } else {
        Some(i - 1)
    }
}

/// The lower-case form of an ASCII letter; other characters stay as they are.
pub open spec fn ascii_lower(c: char) -> char {
    if 'A' <= c && c <= 'Z' {
        ((c as u8) + 32) as char
    } else {
        c
    }
}

/// `s` with every ASCII upper-case letter replaced by its lower-case form.
pub open spec fn ascii_lowered(s: Seq<char>) -> Seq<char> {
    Seq::new(s.len(), |i: int| ascii_lower(s[i]))
}

/// The lower-case form of an ASCII letter; other characters stay as they are.
pub fn lower_char(c: char) -> (r: char)
    ensures
        r == ascii_lower(c),
{
    if 'A' <= c && c <= 'Z' {
        ((c as u8) + 32) as char
    } else {
        c
    }
}

/// `s` with every ASCII upper-case letter replaced by its lower-case form.
pub fn lowered(s: &Vec<char>) -> (r: Vec<char>)
    ensures
        r@ == ascii_lowered(s@),
{
    let mut out: Vec<char> = Vec::new();
    let mut i: usize = 0;
    while i < s.len()
        invariant
            i <= s.len(),
            out@ == ascii_lowered(s@).take(i as int),
        decreases s.len() - i,
    {
        out.push(lower_char(s[i]));
        i += 1;
    }
    out
}


/// Whether two strings hold the same characters.
pub fn same_text(a: &str, b: &str) -> (r: bool)
    ensures
        r == (a@ == b@),
{
    let x = chars_of(a);
    let y = chars_of(b);
    same_chars(&x, &y)
}

/// A copy of `s`.
pub fn copy_of(s: &str) -> (r: String)
    ensures
        r@ == s@,
{
    s.to_owned()
}

} // verus!
