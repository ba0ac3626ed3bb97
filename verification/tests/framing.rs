use obiwan::frame::{
    content_type_for_path, format_content_range_partial, format_content_range_unsat,
    frame_file_response, frame_response, next_chunk_len, parse_content_range, read_window,
};
use obiwan::resolve::{resolve_header, RangeOutcome, ResolvedRange};

fn thousand_bytes() -> Vec<u8> {
    (0..1000u64).map(|i| (i % 251) as u8).collect()
}

#[test]
fn frames_exact_range_of_thousand_byte_resource() {
    let data = thousand_bytes();
    let out = resolve_header(Some(b"bytes=200-299".as_slice()), data.len() as u64);
    let f = frame_response(out, None);
    assert_eq!(f.status, 206);
    assert_eq!(f.content_range, Some(b"bytes 200-299/1000".to_vec()));
    assert_eq!(f.content_length, Some(100));
    assert!(f.accept_ranges);
    let body = read_window(&data, f.body_offset, f.body_len);
    assert_eq!(body, data[200..=299].to_vec());
}

#[test]
fn frames_open_ended_range_of_thousand_byte_resource() {
    let out = resolve_header(Some(b"bytes=900-".as_slice()), 1000);
    let f = frame_response(out, None);
    assert_eq!(f.status, 206);
    assert_eq!(f.content_range, Some(b"bytes 900-999/1000".to_vec()));
    assert_eq!(f.content_length, Some(100));
    assert_eq!(f.body_offset, 900);
    assert_eq!(f.body_len, 100);
}

#[test]
fn frames_unsatisfiable_range_of_thousand_byte_resource() {
    let out = resolve_header(Some(b"bytes=1000-1050".as_slice()), 1000);
    let f = frame_response(out, Some(b"video/mp4".to_vec()));
    assert_eq!(f.status, 416);
    assert_eq!(f.content_range, Some(b"bytes */1000".to_vec()));
    assert_eq!(f.content_length, None);
    assert_eq!(f.content_type, None);
    assert!(!f.accept_ranges);
    assert_eq!(f.body_len, 0);
}

#[test]
fn frames_full_content_without_header() {
    let data = thousand_bytes();
    let out = resolve_header(None, data.len() as u64);
    let f = frame_response(out, None);
    assert_eq!(f.status, 200);
    assert_eq!(f.content_range, None);
    assert_eq!(f.content_length, Some(1000));
    assert!(f.accept_ranges);
    let body = read_window(&data, f.body_offset, f.body_len);
    assert_eq!(body, data);
}

#[test]
fn content_range_round_trips() {
    let rr = ResolvedRange { first: 200, last: 299, total: 1000 };
    let v = format_content_range_partial(rr);
    assert_eq!(parse_content_range(&v), Some(rr));
    let rr = ResolvedRange { first: 0, last: 0, total: 1 };
    let v = format_content_range_partial(rr);
    assert_eq!(parse_content_range(&v), Some(rr));
    let rr = ResolvedRange { first: 0, last: u64::MAX - 2, total: u64::MAX - 1 };
    let v = format_content_range_partial(rr);
    assert_eq!(parse_content_range(&v), Some(rr));
}

#[test]
fn parse_content_range_rejects_other_forms() {
    assert_eq!(parse_content_range(b"bytes */1000"), None);
    assert_eq!(parse_content_range(b"bytes 5-2/10"), None);
    assert_eq!(parse_content_range(b"bytes 5-12/10"), None);
    assert_eq!(parse_content_range(b"bytes 5-7"), None);
    assert_eq!(parse_content_range(b"5-7/10"), None);
    assert_eq!(parse_content_range(b""), None);
}

#[test]
fn unsat_content_range_names_the_total() {
    assert_eq!(format_content_range_unsat(1000), b"bytes */1000".to_vec());
    assert_eq!(format_content_range_unsat(0), b"bytes */0".to_vec());
}

#[test]
fn content_type_follows_extension_table() {
    assert_eq!(content_type_for_path(b"movie.mp4"), Some(b"video/mp4".to_vec()));
    assert_eq!(content_type_for_path(b"/films/clip.avi"), Some(b"video/x-msvideo".to_vec()));
    assert_eq!(content_type_for_path(b"archive.tar.mp4"), Some(b"video/mp4".to_vec()));
    assert_eq!(content_type_for_path(b"notes.txt"), None);
    assert_eq!(content_type_for_path(b"no_extension"), None);
    assert_eq!(content_type_for_path(b".mp4"), None);
    assert_eq!(content_type_for_path(b"dir.mp4/file"), None);
    assert_eq!(content_type_for_path(b"trailing."), None);
    assert_eq!(content_type_for_path(b""), None);
}

#[test]
fn frames_whole_file_request_in_one_call() {
    let f = frame_file_response(b"show.mp4", Some(b"bytes=200-299".as_slice()), 1000);
    assert_eq!(f.status, 206);
    assert_eq!(f.content_range, Some(b"bytes 200-299/1000".to_vec()));
    assert_eq!(f.content_length, Some(100));
    assert_eq!(f.content_type, Some(b"video/mp4".to_vec()));
    assert_eq!(f.body_offset, 200);
    assert_eq!(f.body_len, 100);

    let f = frame_file_response(b"show.mp4", None, 1000);
    assert_eq!(f.status, 200);
    assert_eq!(f.content_length, Some(1000));
    assert_eq!(f.content_type, Some(b"video/mp4".to_vec()));

    let f = frame_file_response(b"show.mp4", Some(b"bytes=1000-1050".as_slice()), 1000);
    assert_eq!(f.status, 416);
    assert_eq!(f.content_range, Some(b"bytes */1000".to_vec()));
    assert_eq!(f.content_type, None);
}

#[test]
fn chunking_is_bounded_and_exhaustive() {
    assert_eq!(next_chunk_len(1000, 64), 64);
    assert_eq!(next_chunk_len(10, 64), 10);
    assert_eq!(next_chunk_len(0, 64), 0);
    assert_eq!(next_chunk_len(64, 64), 64);

    // streaming the window in bounded chunks covers it exactly
    let data = thousand_bytes();
    let mut remaining: u64 = 100;
    let mut offset: u64 = 200;
    let mut body: Vec<u8> = Vec::new();
    loop {
        let n = next_chunk_len(remaining, 7);
        if n == 0 {
            break;
        }
        body.extend_from_slice(&read_window(&data, offset, n as u64));
        offset += n as u64;
        remaining -= n as u64;
    }
    assert_eq!(body, data[200..300].to_vec());
}
