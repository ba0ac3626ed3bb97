//! Framing the response for a resolved range request: status code,
//! `Content-Range` / `Content-Length` / `Accept-Ranges` headers, the
//! `Content-Type` chosen from the file extension, and the body window the
//! transport must stream (one seek to the window's offset, then bounded
//! reads).

use vstd::prelude::*;
use crate::digits::{is_digit_seq, digits_val, dec_rep};
use crate::digits;
use crate::scan::{find_byte, find_last_byte};
use crate::scan;
use crate::range::DASH;
use crate::resolve::{ResolvedRange, RangeOutcome};

verus! {

/// ASCII `'/'`.
pub const SLASH: u8 = 47;

/// ASCII `'*'`.
pub const STAR: u8 = 42;

/// ASCII `'.'`.
pub const DOT: u8 = 46;

/// The bytes `"bytes "` that a `Content-Range` value begins with.
pub open spec fn content_range_prefix() -> Seq<u8> {
    seq![98u8, 121u8, 116u8, 101u8, 115u8, 32u8]
}

/// The `Content-Range` value for a partial response:
/// `bytes <first>-<last>/<total>`.
pub open spec fn spec_content_range_partial(rr: ResolvedRange) -> Seq<u8> {
    content_range_prefix() + dec_rep(rr.first as nat) + seq![DASH] + dec_rep(rr.last as nat)
        + seq![SLASH] + dec_rep(rr.total as nat)
}

/// The `Content-Range` value for an unsatisfiable request: `bytes */<total>`.
pub open spec fn spec_content_range_unsat(total: u64) -> Seq<u8> {
    content_range_prefix() + seq![STAR, SLASH] + dec_rep(total as nat)
}

/// The status code a resolved request is answered with.
pub open spec fn spec_status(o: RangeOutcome) -> u16 {
    match o {
        RangeOutcome::Full(_) => 200,
        RangeOutcome::Partial(_) => 206,
        RangeOutcome::Unsatisfiable(_) => 416,
    }
}

/// The `Content-Length` header: the exact number of body bytes; none on an
/// unsatisfiable request, whose body is empty.
pub open spec fn spec_content_length(o: RangeOutcome) -> Option<u64> {
    match o {
        RangeOutcome::Full(t) => Some(t),
        RangeOutcome::Partial(rr) => Some((rr.last - rr.first + 1) as u64),
        RangeOutcome::Unsatisfiable(_) => None,
    }
}

/// The `Content-Range` header value, present on 206 and 416 responses.
pub open spec fn spec_content_range(o: RangeOutcome) -> Option<Seq<u8>> {
    match o {
        RangeOutcome::Full(_) => None,
        RangeOutcome::Partial(rr) => Some(spec_content_range_partial(rr)),
        RangeOutcome::Unsatisfiable(t) => Some(spec_content_range_unsat(t)),
    }
}

/// Whether the response advertises `Accept-Ranges: bytes`.
pub open spec fn spec_accept_ranges(o: RangeOutcome) -> bool {
    !(o is Unsatisfiable)
}

/// Offset of the first body byte within the resource.
pub open spec fn spec_body_offset(o: RangeOutcome) -> u64 {
    match o {
        RangeOutcome::Full(_) => 0,
        RangeOutcome::Partial(rr) => rr.first,
        RangeOutcome::Unsatisfiable(_) => 0,
    }
}

/// Number of body bytes to stream.
pub open spec fn spec_body_len(o: RangeOutcome) -> u64 {
    match o {
        RangeOutcome::Full(t) => t,
        RangeOutcome::Partial(rr) => (rr.last - rr.first + 1) as u64,
        RangeOutcome::Unsatisfiable(_) => 0,
    }
}

/// Everything the transport needs to write one response: the status code,
/// the header values (absent means the header is omitted), and the byte
/// window of the resource to stream as the body.
pub struct ResponseFrame {
    pub status: u16,
    pub content_range: Option<Vec<u8>>,
    pub content_length: Option<u64>,
    pub accept_ranges: bool,
    pub content_type: Option<Vec<u8>>,
    pub body_offset: u64,
    pub body_len: u64,
}

/// Renders the `Content-Range` value of a partial response.
pub fn format_content_range_partial(rr: ResolvedRange) -> (v: Vec<u8>)
    ensures
        v@ == spec_content_range_partial(rr),
{
    let mut v: Vec<u8> = Vec::new();
    v.push(98);
    v.push(121);
    v.push(116);
    v.push(101);
    v.push(115);
    v.push(32);
    let mut a = digits::u64_to_dec(rr.first);
    v.append(&mut a);
    v.push(DASH);
    let mut b = digits::u64_to_dec(rr.last);
    v.append(&mut b);
    v.push(SLASH);
    let mut c = digits::u64_to_dec(rr.total);
    v.append(&mut c);
    proof {
        assert(v@ =~= spec_content_range_partial(rr));
    }
    v
}

/// Renders the `Content-Range` value of an unsatisfiable response.
pub fn format_content_range_unsat(total: u64) -> (v: Vec<u8>)
    ensures
        v@ == spec_content_range_unsat(total),
{
    let mut v: Vec<u8> = Vec::new();
    v.push(98);
    v.push(121);
    v.push(116);
    v.push(101);
    v.push(115);
    v.push(32);
    v.push(STAR);
    v.push(SLASH);
    let mut c = digits::u64_to_dec(total);
    v.append(&mut c);
    proof {
        assert(v@ =~= spec_content_range_unsat(total));
    }
    v
}

/// What a `Content-Range` value of a partial response denotes: the interval
/// and total it frames, provided they satisfy the interval invariant.
pub open spec fn spec_parse_content_range(s: Seq<u8>) -> Option<ResolvedRange> {
    if s.len() < 6 || s.take(6) != content_range_prefix() {
        None
    } else {
        let rest = s.skip(6);
        let i = find_byte(rest, DASH);
        if i < 0 {
            None
        } else {
            let a = rest.take(i);
            let rest2 = rest.skip(i + 1);
            let j = find_byte(rest2, SLASH);
            if j < 0 {
                None
            } else {
                let b = rest2.take(j);
                let c = rest2.skip(j + 1);
                if is_digit_seq(a) && digits_val(a) <= u64::MAX && is_digit_seq(b) && digits_val(
                    b,
                ) <= u64::MAX && is_digit_seq(c) && digits_val(c) <= u64::MAX && digits_val(a)
                    <= digits_val(b) && digits_val(b) < digits_val(c) {
                    Some(
                        ResolvedRange {
                            first: digits_val(a) as u64,
                            last: digits_val(b) as u64,
                            total: digits_val(c) as u64,
                        },
                    )
                } else {
                    None
                }
            }
        }
    }
}

/// Parses a partial-response `Content-Range` value back into the interval it
/// frames. Returns `None` on anything that is not `bytes N-M/T` with
/// `N <= M < T`.
pub fn parse_content_range(s: &[u8]) -> (r: Option<ResolvedRange>)
    ensures
        r == spec_parse_content_range(s@),
        r matches Some(rr) ==> rr.wf(),
{
    if s.len() < 6 || s[0] != 98 || s[1] != 121 || s[2] != 116 || s[3] != 101 || s[4] != 115 || s[5]
        != 32 {
        proof {
            if s@.len() >= 6 && s@.take(6) == content_range_prefix() {
                assert(s@[0] == content_range_prefix()[0]) by {
                    assert(s@.take(6)[0] == s@[0]);
                }
                assert(s@[1] == content_range_prefix()[1]) by {
                    assert(s@.take(6)[1] == s@[1]);
                }
                assert(s@[2] == content_range_prefix()[2]) by {
                    assert(s@.take(6)[2] == s@[2]);
                }
                assert(s@[3] == content_range_prefix()[3]) by {
                    assert(s@.take(6)[3] == s@[3]);
                }
                assert(s@[4] == content_range_prefix()[4]) by {
                    assert(s@.take(6)[4] == s@[4]);
                }
                assert(s@[5] == content_range_prefix()[5]) by {
                    assert(s@.take(6)[5] == s@[5]);
                }
            }
        }
        return None;
    }
    proof {
        assert(s@.take(6) =~= content_range_prefix());
    }
    let ghost rest = s@.skip(6);
    proof {
        assert(rest =~= s@.subrange(6, s@.len() as int));
    }
    let dash = match scan::find_in(s, DASH, 6, s.len()) {
        None => {
            return None;
        },
        Some(k) => k,
    };
    proof {
        assert(rest.take(dash - 6) =~= s@.subrange(6, dash as int));
        assert(rest.skip(dash - 6 + 1) =~= s@.subrange(dash as int + 1, s@.len() as int));
    }
    let ghost rest2 = rest.skip(dash - 6 + 1);
    let slash = match scan::find_in(s, SLASH, dash + 1, s.len()) {
        None => {
            return None;
        },
        Some(k) => k,
    };
    proof {
        assert(rest2.take(slash - dash - 1) =~= s@.subrange(dash as int + 1, slash as int));
        assert(rest2.skip(slash - dash - 1 + 1) =~= s@.subrange(slash as int + 1, s@.len() as int));
    }
    let first = match digits::parse_u64_digits(s, 6, dash) {
        None => {
            return None;
        },
        Some(v) => v,
    };
    let last = match digits::parse_u64_digits(s, dash + 1, slash) {
        None => {
            return None;
        },
        Some(v) => v,
    };
    let total = match digits::parse_u64_digits(s, slash + 1, s.len()) {
        None => {
            return None;
        },
        Some(v) => v,
    };
    if first <= last && last < total {
        Some(ResolvedRange { first, last, total })
    } else {
        None
    }
}

/// Frames a resolved request: 200 with the whole resource, 206 with the
/// interval and its `Content-Range`, or 416 with `bytes */total` and an empty
/// body. The content type hint is carried on content-bearing responses only.
pub fn frame_response(o: RangeOutcome, content_type: Option<Vec<u8>>) -> (f: ResponseFrame)
    requires
        o.wf(),
    ensures
        f.status == spec_status(o),
        f.content_length == spec_content_length(o),
        match f.content_range {
            Some(v) => spec_content_range(o) == Some(v@),
            None => spec_content_range(o) is None,
        },
        f.accept_ranges == spec_accept_ranges(o),
        f.body_offset == spec_body_offset(o),
        f.body_len == spec_body_len(o),
        f.body_offset + f.body_len <= o.spec_total(),
        o is Unsatisfiable ==> f.content_type is None,
        !(o is Unsatisfiable) ==> f.content_type == content_type,
{
    match o {
        RangeOutcome::Full(t) => ResponseFrame {
            status: 200,
            content_range: None,
            content_length: Some(t),
            accept_ranges: true,
            content_type,
            body_offset: 0,
            body_len: t,
        },
        RangeOutcome::Partial(rr) => {
            let len = rr.last - rr.first + 1;
            ResponseFrame {
                status: 206,
                content_range: Some(format_content_range_partial(rr)),
                content_length: Some(len),
                accept_ranges: true,
                content_type,
                body_offset: rr.first,
                body_len: len,
            }
        },
        RangeOutcome::Unsatisfiable(t) => ResponseFrame {
            status: 416,
            content_range: Some(format_content_range_unsat(t)),
            content_length: None,
            accept_ranges: false,
            content_type: None,
            body_offset: 0,
            body_len: 0,
        },
    }
}

/// The extension of a path: the bytes after the last `'.'`, provided that
/// dot comes after the last `'/'` and is not the first byte of the name.
pub open spec fn spec_extension(p: Seq<u8>) -> Option<Seq<u8>> {
    let d = find_last_byte(p, DOT);
    let sl = find_last_byte(p, SLASH);
    if d > sl + 1 {
        Some(p.skip(d + 1))
    } else {
        None
    }
}

/// `"video/mp4"`.
pub open spec fn mime_mp4() -> Seq<u8> {
    seq![118u8, 105u8, 100u8, 101u8, 111u8, 47u8, 109u8, 112u8, 52u8]
}

/// `"video/x-msvideo"`.
pub open spec fn mime_avi() -> Seq<u8> {
    seq![
        118u8,
        105u8,
        100u8,
        101u8,
        111u8,
        47u8,
        120u8,
        45u8,
        109u8,
        115u8,
        118u8,
        105u8,
        100u8,
        101u8,
        111u8,
    ]
}

/// The extension table: `mp4` and `avi` are recognized; any other extension
/// yields no `Content-Type` (omitted rather than guessed).
pub open spec fn spec_mime_of_extension(e: Seq<u8>) -> Option<Seq<u8>> {
    if e == seq![109u8, 112u8, 52u8] {
        Some(mime_mp4())
    } else if e == seq![97u8, 118u8, 105u8] {
        Some(mime_avi())
    } else {
        None
    }
}

/// The `Content-Type` a path's extension calls for, if any.
pub open spec fn spec_content_type_for_path(p: Seq<u8>) -> Option<Seq<u8>> {
    match spec_extension(p) {
        Some(e) => spec_mime_of_extension(e),
        None => None,
    }
}

fn build_mime_mp4() -> (v: Vec<u8>)
    ensures
        v@ == mime_mp4(),
{
    let mut v: Vec<u8> = Vec::new();
    v.push(118);
    v.push(105);
    v.push(100);
    v.push(101);
    v.push(111);
    v.push(47);
    v.push(109);
    v.push(112);
    v.push(52);
    proof {
        assert(v@ =~= mime_mp4());
    }
    v
}

fn build_mime_avi() -> (v: Vec<u8>)
    ensures
        v@ == mime_avi(),
{
    let mut v: Vec<u8> = Vec::new();
    v.push(118);
    v.push(105);
    v.push(100);
    v.push(101);
    v.push(111);
    v.push(47);
    v.push(120);
    v.push(45);
    v.push(109);
    v.push(115);
    v.push(118);
    v.push(105);
    v.push(100);
    v.push(101);
    v.push(111);
    proof {
        assert(v@ =~= mime_avi());
    }
    v
}

/// Resolves the `Content-Type` hint from a path's extension.
pub fn content_type_for_path(path: &[u8]) -> (r: Option<Vec<u8>>)
    ensures
        match r {
            Some(v) => spec_content_type_for_path(path@) == Some(v@),
            None => spec_content_type_for_path(path@) is None,
        },
{
    let d = match scan::find_last(path, DOT) {
        None => {
            proof {
                scan::lemma_find_last_byte(path@, SLASH);
            }
            return None;
        },
        Some(d) => d,
    };
    let ok = match scan::find_last(path, SLASH) {
        None => d > 0,
        Some(sl) => d > sl && d - 1 > sl,
    };
    if !ok {
        return None;
    }
    let ghost ext = path@.skip(d as int + 1);
    let n = path.len();
    if n - (d + 1) == 3 {
        let e0 = path[d + 1];
        let e1 = path[d + 2];
        let e2 = path[d + 3];
        proof {
            assert(ext.len() == 3);
            assert(ext[0] == path@[d as int + 1]);
            assert(ext[1] == path@[d as int + 2]);
            assert(ext[2] == path@[d as int + 3]);
        }
        if e0 == 109 && e1 == 112 && e2 == 52 {
            proof {
                assert(ext =~= seq![109u8, 112u8, 52u8]);
            }
            return Some(build_mime_mp4());
        }
        if e0 == 97 && e1 == 118 && e2 == 105 {
            proof {
                assert(ext =~= seq![97u8, 118u8, 105u8]);
            }
            return Some(build_mime_avi());
        }
        return None;
    }
    None
}

/// Copies the byte window `[offset, offset + len)` out of an in-memory
/// resource: the bytes a framed response's body consists of. The streaming
/// transport does the same against a file, seeking once to `offset` and
/// reading `len` bytes in bounded chunks.
pub fn read_window(data: &[u8], offset: u64, len: u64) -> (out: Vec<u8>)
    requires
        offset + len <= data@.len(),
    ensures
        out@ == data@.subrange(offset as int, offset as int + len as int),
{
    let dlen: usize = data.len();
    let mut out: Vec<u8> = Vec::new();
    let mut i: u64 = 0;
    while i < len
        invariant
            i <= len,
            dlen == data@.len(),
            offset + len <= dlen,
            out@ == data@.subrange(offset as int, offset as int + i as int),
        decreases len - i,
    {
        let idx: usize = (offset + i) as usize;
        out.push(data[idx]);
        proof {
            assert(data@.subrange(offset as int, offset as int + i as int).push(
                data@[idx as int],
            ) =~= data@.subrange(offset as int, offset as int + (i + 1) as int));
        }
        i = i + 1;
    }
    out
}

/// The complete framing decision for one file request: the range header
/// (absent when the request carried none) resolved against the file's total
/// size and framed, with the `Content-Type` resolved from the path's
/// extension. The transport only has to copy the frame onto the wire.
pub fn frame_file_response(path: &[u8], header: Option<&[u8]>, total: u64) -> (f: ResponseFrame)
    ensures
        ({
            let outcome = crate::resolve::spec_resolve_header(
                match header {
                    Some(s) => Some(s@),
                    None => None,
                },
                total,
            );
            &&& f.status == spec_status(outcome)
            &&& f.content_length == spec_content_length(outcome)
            &&& match f.content_range {
                Some(v) => spec_content_range(outcome) == Some(v@),
                None => spec_content_range(outcome) is None,
            }
            &&& f.accept_ranges == spec_accept_ranges(outcome)
            &&& f.body_offset == spec_body_offset(outcome)
            &&& f.body_len == spec_body_len(outcome)
            &&& f.body_offset + f.body_len <= total
            &&& frame_carries_content_type(f, outcome, path@)
        }),
{
    let ct = content_type_for_path(path);
    let outcome = crate::resolve::resolve_header(header, total);
    frame_response(outcome, ct)
}

/// The `Content-Type` carried by a frame: the one the path's extension calls
/// for on content-bearing responses, none on a 416.
pub open spec fn frame_carries_content_type(f: ResponseFrame, o: RangeOutcome, path: Seq<u8>) -> bool {
    if o is Unsatisfiable {
        f.content_type is None
    } else {
        match f.content_type {
            Some(v) => spec_content_type_for_path(path) == Some(v@),
            None => spec_content_type_for_path(path) is None,
        }
    }
}

/// The size of the next bounded read while `remaining` body bytes are left
/// and each read is capped at `max_chunk`.
pub fn next_chunk_len(remaining: u64, max_chunk: usize) -> (n: usize)
    ensures
        n as int == vstd::math::min(remaining as int, max_chunk as int),
{
    if remaining < max_chunk as u64 {
        remaining as usize
    } else {
        max_chunk
    }
}

} // verus!
