//! Responses of the gateway as plain data: status, headers and body, and
//! the serving of byte ranges out of a cached entry.

use vstd::prelude::*;
use vstd::slice::slice_to_vec;
use vstd::utf8::encode_utf8;
use crate::number::{all_digits, digits_value, numeral, parse_digits, push_numeral};
use crate::strmap::{pair_views, Pair};
use crate::text::{
    chars_of, copy_of, find_first, first_index_of, has_prefix, lemma_first_index_of, push_str,
    slice_of, starts_with, string_of,
};

verus! {

/// A response: status code, headers in order, and body.
#[derive(Debug)]
pub struct Response {
    pub status: u16,
    pub headers: Vec<(String, String)>,
    pub body: Vec<u8>,
}

/// What a `Range` header asks of an entry.
#[derive(Debug, Clone, Copy, PartialEq, Eq, Structural)]
pub enum RangePlan {
    /// No range is asked for: the whole entry is served.
    Full,
    /// The bytes from the first position to the second, both counted.
    Partial(usize, usize),
    /// The range cannot be served from the entry.
    Unsatisfiable,
}

/// The content type that stands in where none is recognised.
pub const DEFAULT_CONTENT_TYPE: &'static str = "audio/mpeg";

/// The number that a run of digits denotes, where it is one and the number
/// fits the machine.
pub open spec fn position_of_text(text: Seq<char>) -> Option<nat> {
    if text.len() > 0 && all_digits(text) && digits_value(text) <= usize::MAX {
        Some(digits_value(text))
    } else {
        None
    }
}

/// The positions that a range denotes in an entry of `total` bytes.
///
/// A range is a numeral, `-`, and a numeral or nothing: the start, and the
/// end, which is the last byte where none is given or the given one lies
/// beyond it. Any other text denotes nothing, and so does any range in an
/// empty entry.
pub open spec fn range_of(range: Seq<char>, total: nat) -> Option<(nat, nat)> {
    let dash = first_index_of(range, '-');
    if total == 0 || dash >= range.len() {
        None
    } else {
        let last = (total - 1) as nat;
        let rest = range.skip(dash + 1);
        match position_of_text(range.take(dash)) {
            Some(start) => if rest.len() == 0 {
                Some((start, last))
            } else {
                match position_of_text(rest) {
                    Some(end) => Some(
                        (
                            start,
                            if end < last {
                                end
                            } else {
                                last
                            },
                        ),
                    ),
                    None => None,
                }
            },
            None => None,
        }
    }
}

/// What a `Range` header asks of an entry of `total` bytes. A header that
/// does not begin with `bytes=` asks for nothing. After `bytes=` a range
/// must follow that starts no later than it ends; anything else cannot be
/// served.
pub open spec fn range_plan_of(header: Option<Seq<char>>, total: nat) -> RangePlan {
    match header {
        Some(h) => if has_prefix(h, "bytes="@) {
            match range_of(h.skip(6), total) {
                Some((start, end)) => if start > end {
                    RangePlan::Unsatisfiable
                } else {
                    RangePlan::Partial(start as usize, end as usize)
                },
                None => RangePlan::Unsatisfiable,
            }
        } else {
            RangePlan::Full
        },
        None => RangePlan::Full,
    }
}

/// The headers of an audio response.
pub open spec fn audio_headers(content_type: Seq<char>, length: nat) -> Seq<Pair> {
    seq![
        ("content-type"@, content_type),
        ("accept-ranges"@, "bytes"@),
        ("content-length"@, numeral(length)),
        ("cache-control"@, "no-cache"@),
        ("access-control-allow-origin"@, "*"@),
        ("content-disposition"@, "inline"@),
    ]
}

/// The value of `Content-Range` for a slice of an entry.
pub open spec fn content_range(start: nat, end: nat, total: nat) -> Seq<char> {
    "bytes "@ + numeral(start) + "-"@ + numeral(end) + "/"@ + numeral(total)
}

/// The headers of a partial audio response.
pub open spec fn partial_headers(content_type: Seq<char>, start: nat, end: nat, total: nat) -> Seq<
    Pair,
> {
    seq![
        ("content-type"@, content_type),
        ("accept-ranges"@, "bytes"@),
        ("content-length"@, numeral((end - start + 1) as nat)),
        ("content-range"@, content_range(start, end, total)),
        ("cache-control"@, "no-cache"@),
        ("access-control-allow-origin"@, "*"@),
        ("content-disposition"@, "inline"@),
    ]
}

/// Whether `r` is the response that says `message` under `status`.
pub open spec fn is_error(r: Response, status: u16, message: Seq<char>) -> bool {
    &&& r.status == status
    &&& pair_views(r.headers@) == seq![("content-type"@, "text/plain; charset=utf-8"@)]
    &&& r.body@ == encode_utf8(message)
}

/// Whether `r` hands out `bytes` as a JSON document.
pub open spec fn is_json(r: Response, bytes: Seq<u8>) -> bool {
    &&& r.status == 200
    &&& pair_views(r.headers@) == seq![("content-type"@, "application/json"@)]
    &&& r.body@ == bytes
}

/// Whether `r` serves all of `bytes` as audio of the given content type.
pub open spec fn is_full(r: Response, bytes: Seq<u8>, content_type: Seq<char>) -> bool {
    &&& r.status == 200
    &&& pair_views(r.headers@) == audio_headers(content_type, bytes.len())
    &&& r.body@ == bytes
}

/// Whether `r` serves the bytes from `start` to `end` of `bytes`.
pub open spec fn is_partial(
    r: Response,
    bytes: Seq<u8>,
    content_type: Seq<char>,
    start: nat,
    end: nat,
) -> bool {
    &&& r.status == 206
    &&& pair_views(r.headers@) == partial_headers(content_type, start, end, bytes.len())
    &&& r.body@ == bytes.subrange(start as int, end as int + 1)
}

/// Whether `r` is what a cached entry is served as under a `Range` header.
pub open spec fn is_cached(
    r: Response,
    bytes: Seq<u8>,
    content_type: Seq<char>,
    header: Option<Seq<char>>,
) -> bool {
    match range_plan_of(header, bytes.len()) {
        RangePlan::Full => is_full(r, bytes, content_type),
        RangePlan::Partial(start, end) => is_partial(
            r,
            bytes,
            content_type,
            start as nat,
            end as nat,
        ),
        RangePlan::Unsatisfiable => is_error(r, 400, "Invalid range"@),
    }
}

/// Reads a run of digits as a position.
fn position(text: &Vec<char>) -> (r: Option<usize>)
    ensures
        r == match position_of_text(text@) {
            Some(n) => Some(n as usize),
            None => None,
        },
{
    assert(text@.skip(0) == text@);
    match parse_digits(text, 0, usize::MAX as u64) {
        Some(n) => Some(n as usize),
        None => None,
    }
}

/// The positions that `range` denotes in an entry of `total_size` bytes,
/// if it denotes any.
pub fn parse_range(range: &str, total_size: usize) -> (r: Option<(usize, usize)>)
    ensures
        match range_of(range@, total_size as nat) {
            Some((start, end)) => r == Some((start as usize, end as usize)) && end < total_size,
            None => r is None,
        },
{
    let all = chars_of(range);
    proof {
        lemma_first_index_of(all@, '-');
    }
    let dash = find_first(&all, '-');
    if total_size == 0 || dash >= all.len() {
        return None;
    }
    let last = total_size - 1;
    let first = slice_of(&all, 0, dash);
    let rest = slice_of(&all, dash + 1, all.len());
    let start = match position(&first) {
        Some(n) => n,
        None => {
            return None;
        },
    };
    if rest.len() == 0 {
        return Some((start, last));
    }
    match position(&rest) {
        Some(n) => Some(
            (
                start,
                if n < last {
                    n
                } else {
                    last
                },
            ),
        ),
        None => None,
    }
}

/// What `header`, the value of a `Range` header if there is one, asks of
/// an entry of `total_size` bytes.
pub fn range_plan(header: Option<&str>, total_size: usize) -> (r: RangePlan)
    ensures
        r == range_plan_of(
            match header {
                Some(h) => Some(h@),
                None => None,
            },
            total_size as nat,
        ),
{
    match header {
        Some(h) => {
            let c = chars_of(h);
            if starts_with(&c, "bytes=") {
                proof {
                    reveal_strlit("bytes=");
                }
                let rest = slice_of(&c, 6, c.len());
                let rest = string_of(&rest);
                match parse_range(rest.as_str(), total_size) {
                    Some((start, end)) => if start > end {
                        RangePlan::Unsatisfiable
                    } else {
                        RangePlan::Partial(start, end)
                    },
                    None => RangePlan::Unsatisfiable,
                }
            } else {
                RangePlan::Full
            }
        },
        None => RangePlan::Full,
    }
}

/// The numeral of `n`.
fn number_text(n: usize) -> (r: String)
    ensures
        r@ == numeral(n as nat),
{
    let mut out: Vec<char> = Vec::new();
    push_numeral(&mut out, n as u64);
    string_of(&out)
}

/// One header.
fn header(name: &str, value: &str) -> (r: (String, String))
    ensures
        r.0@ == name@,
        r.1@ == value@,
{
    (copy_of(name), copy_of(value))
}

impl Response {
    /// The response that says `message` under `status`.
    pub fn error(status: u16, message: &str) -> (r: Response)
        ensures
            is_error(r, status, message@),
    {
        let mut headers: Vec<(String, String)> = Vec::new();
        headers.push(header("content-type", "text/plain; charset=utf-8"));
        assert(pair_views(headers@) =~= seq![("content-type"@, "text/plain; charset=utf-8"@)]);
        Response { status, headers, body: slice_to_vec(message.as_bytes()) }
    }

    /// The response that hands out `bytes` as a JSON document.
    pub fn json(bytes: Vec<u8>) -> (r: Response)
        ensures
            is_json(r, bytes@),
    {
        let mut headers: Vec<(String, String)> = Vec::new();
        headers.push(header("content-type", "application/json"));
        assert(pair_views(headers@) =~= seq![("content-type"@, "application/json"@)]);
        Response { status: 200, headers, body: bytes }
    }

    /// The response that serves all of `bytes` as audio.
    pub fn full(bytes: Vec<u8>, content_type: &str) -> (r: Response)
        ensures
            is_full(r, bytes@, content_type@),
    {
        let mut headers: Vec<(String, String)> = Vec::new();
        headers.push(header("content-type", content_type));
        headers.push(header("accept-ranges", "bytes"));
        let length = number_text(bytes.len());
        headers.push(header("content-length", length.as_str()));
        headers.push(header("cache-control", "no-cache"));
        headers.push(header("access-control-allow-origin", "*"));
        headers.push(header("content-disposition", "inline"));
        assert(pair_views(headers@) =~= audio_headers(content_type@, bytes@.len()));
        Response { status: 200, headers, body: bytes }
    }

    /// The response that serves the bytes from `start` to `end`, both
    /// counted, of `bytes`.
    pub fn partial(bytes: &Vec<u8>, content_type: &str, start: usize, end: usize) -> (r: Response)
        requires
            start <= end < bytes@.len(),
        ensures
            is_partial(r, bytes@, content_type@, start as nat, end as nat),
    {
        let mut body: Vec<u8> = Vec::new();
        let mut i: usize = start;
        while i <= end
            invariant
                start <= i <= end + 1,
                end < bytes.len(),
                body@ == bytes@.subrange(start as int, i as int),
            decreases end + 1 - i,
        {
            body.push(bytes[i]);
            i += 1;
        }
        let mut range: Vec<char> = Vec::new();
        push_str(&mut range, "bytes ");
        push_numeral(&mut range, start as u64);
        push_str(&mut range, "-");
        push_numeral(&mut range, end as u64);
        push_str(&mut range, "/");
        push_numeral(&mut range, bytes.len() as u64);
        let range = string_of(&range);
        assert(range@ == content_range(start as nat, end as nat, bytes@.len()));
        let mut headers: Vec<(String, String)> = Vec::new();
        headers.push(header("content-type", content_type));
        headers.push(header("accept-ranges", "bytes"));
        let length = number_text(end - start + 1);
        headers.push(header("content-length", length.as_str()));
        headers.push(header("content-range", range.as_str()));
        headers.push(header("cache-control", "no-cache"));
        headers.push(header("access-control-allow-origin", "*"));
        headers.push(header("content-disposition", "inline"));
        assert(pair_views(headers@) =~= partial_headers(
            content_type@,
            start as nat,
            end as nat,
            bytes@.len(),
        ));
        Response { status: 206, headers, body }
    }

    /// The response that serves a cached entry under a `Range` header, if
    /// there is one: the slice asked for, the whole entry where no range is
    /// asked for, and a bad request where the header is malformed or the
    /// range cannot be served.
    pub fn cached(bytes: Vec<u8>, content_type: &str, range_header: Option<&str>) -> (r: Response)
        ensures
            is_cached(
                r,
                bytes@,
                content_type@,
                match range_header {
                    Some(h) => Some(h@),
                    None => None,
                },
            ),
    {
        match range_plan(range_header, bytes.len()) {
            RangePlan::Full => Response::full(bytes, content_type),
            RangePlan::Partial(start, end) => Response::partial(&bytes, content_type, start, end),
            RangePlan::Unsatisfiable => Response::error(400, "Invalid range"),
        }
    }

    /// The value of the first header named `name`, if there is one.
    pub fn header(&self, name: &str) -> (r: Option<&String>)
        ensures
            match r {
                Some(v) => exists|i: int|
                    0 <= i < self.headers@.len() && (#[trigger] self.headers@[i]).0@ == name@
                        && self.headers@[i].1@ == v@,
                None => forall|i: int|
                    0 <= i < self.headers@.len() ==> (#[trigger] self.headers@[i]).0@ != name@,
            },
    {
        let mut i: usize = 0;
        while i < self.headers.len()
            invariant
                i <= self.headers.len(),
                forall|j: int| 0 <= j < i ==> (#[trigger] self.headers@[j]).0@ != name@,
            decreases self.headers.len() - i,
        {
            if crate::text::same_text(self.headers[i].0.as_str(), name) {
                return Some(&self.headers[i].1);
            }
            i += 1;
        }
        None
    }
}

} // verus!
