use obiwan::range::{parse_range_header, ByteRange, RangeError};
use obiwan::resolve::{resolve_header, resolve_range, RangeOutcome, ResolvedRange};

#[test]
fn parses_exact_range() {
    let r = parse_range_header(b"bytes=200-299").unwrap();
    assert_eq!(r.len(), 1);
    assert_eq!(r[0], ByteRange { start: Some(200), end: Some(299) });
}

#[test]
fn parses_open_ended_range() {
    let r = parse_range_header(b"bytes=900-").unwrap();
    assert_eq!(r, vec![ByteRange { start: Some(900), end: None }]);
}

#[test]
fn parses_suffix_range() {
    let r = parse_range_header(b"bytes=-100").unwrap();
    assert_eq!(r, vec![ByteRange { start: None, end: Some(100) }]);
}

#[test]
fn parses_multi_range_in_order() {
    let r = parse_range_header(b"bytes=0-99,200-299,500-").unwrap();
    assert_eq!(
        r,
        vec![
            ByteRange { start: Some(0), end: Some(99) },
            ByteRange { start: Some(200), end: Some(299) },
            ByteRange { start: Some(500), end: None },
        ]
    );
}

#[test]
fn rejects_malformed_headers() {
    let bad: &[&[u8]] = &[
        b"",
        b"bytes=",
        b"bytes=-",
        b"bytes=abc",
        b"bytes=1x-2",
        b"bytes=5-2",
        b"bites=1-2",
        b"bytes 1-2",
        b"bytes=1-2,",
        b"bytes=1-2,bad",
        b"bytes=,1-2",
        b"bytes=1",
        b"bytes=99999999999999999999-",
        b"bytes=-99999999999999999999",
    ];
    for h in bad {
        assert_eq!(parse_range_header(h), Err(RangeError::MalformedRange), "{:?}", h);
    }
}

#[test]
fn accepts_leading_zeros() {
    let r = parse_range_header(b"bytes=007-010").unwrap();
    assert_eq!(r, vec![ByteRange { start: Some(7), end: Some(10) }]);
}

#[test]
fn resolves_exact_range() {
    let out = resolve_header(Some(b"bytes=200-299".as_slice()), 1000);
    assert_eq!(
        out,
        RangeOutcome::Partial(ResolvedRange { first: 200, last: 299, total: 1000 })
    );
}

#[test]
fn resolves_open_ended_range() {
    let out = resolve_header(Some(b"bytes=900-".as_slice()), 1000);
    assert_eq!(
        out,
        RangeOutcome::Partial(ResolvedRange { first: 900, last: 999, total: 1000 })
    );
}

#[test]
fn clamps_end_to_resource() {
    let out = resolve_header(Some(b"bytes=200-5000".as_slice()), 1000);
    assert_eq!(
        out,
        RangeOutcome::Partial(ResolvedRange { first: 200, last: 999, total: 1000 })
    );
}

#[test]
fn resolves_suffix_range() {
    let out = resolve_header(Some(b"bytes=-100".as_slice()), 1000);
    assert_eq!(
        out,
        RangeOutcome::Partial(ResolvedRange { first: 900, last: 999, total: 1000 })
    );
}

#[test]
fn clamps_suffix_to_whole_resource() {
    let out = resolve_header(Some(b"bytes=-2000".as_slice()), 1000);
    assert_eq!(
        out,
        RangeOutcome::Partial(ResolvedRange { first: 0, last: 999, total: 1000 })
    );
}

#[test]
fn zero_length_suffix_is_unsatisfiable() {
    let out = resolve_header(Some(b"bytes=-0".as_slice()), 1000);
    assert_eq!(out, RangeOutcome::Unsatisfiable(1000));
}

#[test]
fn start_past_end_is_unsatisfiable() {
    let out = resolve_header(Some(b"bytes=1000-1050".as_slice()), 1000);
    assert_eq!(out, RangeOutcome::Unsatisfiable(1000));
    let out = resolve_header(Some(b"bytes=1000-".as_slice()), 1000);
    assert_eq!(out, RangeOutcome::Unsatisfiable(1000));
}

#[test]
fn empty_resource_is_unsatisfiable_for_any_range() {
    assert_eq!(resolve_header(Some(b"bytes=0-0".as_slice()), 0), RangeOutcome::Unsatisfiable(0));
    assert_eq!(resolve_header(Some(b"bytes=0-".as_slice()), 0), RangeOutcome::Unsatisfiable(0));
    assert_eq!(resolve_header(Some(b"bytes=-5".as_slice()), 0), RangeOutcome::Unsatisfiable(0));
}

#[test]
fn no_header_serves_full_content() {
    assert_eq!(resolve_header(None, 1000), RangeOutcome::Full(1000));
    assert_eq!(resolve_header(None, 0), RangeOutcome::Full(0));
}

#[test]
fn malformed_header_serves_full_content() {
    assert_eq!(resolve_header(Some(b"bytes=oops".as_slice()), 1000), RangeOutcome::Full(1000));
    assert_eq!(resolve_header(Some(b"bytes=5-2".as_slice()), 1000), RangeOutcome::Full(1000));
}

#[test]
fn multi_range_resolves_first_interval_only() {
    let out = resolve_header(Some(b"bytes=0-99,200-299".as_slice()), 1000);
    assert_eq!(
        out,
        RangeOutcome::Partial(ResolvedRange { first: 0, last: 99, total: 1000 })
    );
}

#[test]
fn single_byte_range() {
    let out = resolve_header(Some(b"bytes=0-0".as_slice()), 1);
    assert_eq!(out, RangeOutcome::Partial(ResolvedRange { first: 0, last: 0, total: 1 }));
}

#[test]
fn resolve_range_without_request() {
    assert_eq!(resolve_range(None, 42), RangeOutcome::Full(42));
}
