use cyberpunk::response::{parse_range, range_plan, RangePlan, Response};

fn headers(r: &Response) -> Vec<(&str, &str)> {
    r.headers.iter().map(|(k, v)| (k.as_str(), v.as_str())).collect()
}

#[test]
fn a_range_of_a_cached_entry_is_served_partially() {
    let entry: Vec<u8> = (0..1000).map(|i| (i % 251) as u8).collect();
    let r = Response::cached(entry.clone(), "audio/mpeg", Some("bytes=0-99"));
    assert_eq!(r.status, 206);
    assert_eq!(r.header("content-length").unwrap(), "100");
    assert_eq!(r.header("content-range").unwrap(), "bytes 0-99/1000");
    assert_eq!(r.body, entry[0..100].to_vec());
    assert_eq!(
        headers(&r),
        vec![
            ("content-type", "audio/mpeg"),
            ("accept-ranges", "bytes"),
            ("content-length", "100"),
            ("content-range", "bytes 0-99/1000"),
            ("cache-control", "no-cache"),
            ("access-control-allow-origin", "*"),
            ("content-disposition", "inline"),
        ]
    );
}

#[test]
fn a_request_without_range_gets_the_whole_entry() {
    let r = Response::cached(vec![1, 2, 3], "audio/wav", None);
    assert_eq!(r.status, 200);
    assert_eq!(r.body, vec![1, 2, 3]);
    assert_eq!(
        headers(&r),
        vec![
            ("content-type", "audio/wav"),
            ("accept-ranges", "bytes"),
            ("content-length", "3"),
            ("cache-control", "no-cache"),
            ("access-control-allow-origin", "*"),
            ("content-disposition", "inline"),
        ]
    );
    assert!(r.header("content-range").is_none());
    let other_unit = Response::cached(vec![1, 2, 3], "audio/wav", Some("items=0-1"));
    assert_eq!(other_unit.status, 200);
    assert_eq!(other_unit.body, vec![1, 2, 3]);
}

#[test]
fn ranges_are_clamped_to_the_entry() {
    assert_eq!(parse_range("0-99", 1000), Some((0, 99)));
    assert_eq!(parse_range("500-", 1000), Some((500, 999)));
    assert_eq!(parse_range("10-5000", 1000), Some((10, 999)));
    assert_eq!(parse_range("0-0", 1), Some((0, 0)));
    assert_eq!(parse_range("2000-3000", 1000), Some((2000, 999)));
    assert_eq!(parse_range("007-08", 1000), Some((7, 8)));
}

#[test]
fn malformed_ranges_denote_nothing() {
    assert_eq!(parse_range("", 1000), None);
    assert_eq!(parse_range("5", 1000), None);
    assert_eq!(parse_range("-100", 1000), None);
    assert_eq!(parse_range("abc-def", 1000), None);
    assert_eq!(parse_range("abc", 1000), None);
    assert_eq!(parse_range("1-2-3", 1000), None);
    assert_eq!(parse_range("1-x", 1000), None);
    assert_eq!(parse_range("+1-2", 1000), None);
    assert_eq!(parse_range(" 1-2", 1000), None);
    assert_eq!(parse_range("1-2 ", 1000), None);
    assert_eq!(parse_range("99999999999999999999999-", 1000), None);
    assert_eq!(parse_range("0-1", 0), None);
}

#[test]
fn range_plans() {
    assert_eq!(range_plan(None, 10), RangePlan::Full);
    assert_eq!(range_plan(Some("bytes=2-4"), 10), RangePlan::Partial(2, 4));
    assert_eq!(range_plan(Some("bytes=9-"), 10), RangePlan::Partial(9, 9));
    assert_eq!(range_plan(Some("bytes=10-"), 10), RangePlan::Unsatisfiable);
    assert_eq!(range_plan(Some("bytes=5-2"), 10), RangePlan::Unsatisfiable);
    assert_eq!(range_plan(Some("bytes=500-100"), 1000), RangePlan::Unsatisfiable);
    assert_eq!(range_plan(Some("bytes=0-0"), 0), RangePlan::Unsatisfiable);
    assert_eq!(range_plan(Some("bytes="), 10), RangePlan::Unsatisfiable);
    assert_eq!(range_plan(Some("bytes=abc"), 10), RangePlan::Unsatisfiable);
    assert_eq!(range_plan(Some("bytes=-5"), 10), RangePlan::Unsatisfiable);
    assert_eq!(range_plan(Some("Bytes=0-1"), 10), RangePlan::Full);
    for header in ["bytes=20-30", "bytes=abc", "bytes=500-100", "bytes="] {
        let refused = Response::cached(vec![0; 10], "audio/mpeg", Some(header));
        assert_eq!(refused.status, 400);
        assert_eq!(refused.body, b"Invalid range".to_vec());
    }
    let empty = Response::cached(vec![], "audio/mpeg", Some("bytes=0-0"));
    assert_eq!(empty.status, 400);
}

#[test]
fn partial_and_error_responses() {
    let r = Response::partial(&vec![10, 11, 12, 13], "audio/ogg", 1, 2);
    assert_eq!(r.status, 206);
    assert_eq!(r.body, vec![11, 12]);
    assert_eq!(r.header("content-range").unwrap(), "bytes 1-2/4");
    assert_eq!(r.header("content-length").unwrap(), "2");
    let e = Response::error(404, "Failed to fetch audio: gone");
    assert_eq!(e.status, 404);
    assert_eq!(headers(&e), vec![("content-type", "text/plain; charset=utf-8")]);
    assert_eq!(e.body, b"Failed to fetch audio: gone".to_vec());
    let f = Response::full(vec![], "audio/flac");
    assert_eq!(f.header("content-length").unwrap(), "0");
    let j = Response::json(b"{}".to_vec());
    assert_eq!(j.status, 200);
    assert_eq!(headers(&j), vec![("content-type", "application/json")]);
    assert_eq!(j.body, b"{}".to_vec());
}
