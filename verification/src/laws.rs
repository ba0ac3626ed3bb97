//! The guarantees the library makes across its functions, stated and proved
//! once and for all inputs: how whole classes of range requests resolve and
//! frame, and that `Content-Range` framing loses nothing.

use vstd::prelude::*;
use crate::digits::{dec_rep, digits_val, is_digit, lemma_dec_rep_digits, lemma_dec_rep_val};
use crate::scan::{lemma_find_byte_at, lemma_find_byte_absent};
use crate::range::{
    ByteRange,
    DASH,
    COMMA,
    range_unit_prefix,
    spec_parse_range_header,
    spec_parse_ranges,
    spec_parse_part,
};
use crate::resolve::{ResolvedRange, RangeOutcome, spec_resolve, spec_resolve_header};
use crate::frame::{
    SLASH,
    content_range_prefix,
    spec_content_range_partial,
    spec_content_range_unsat,
    spec_parse_content_range,
    spec_status,
    spec_content_length,
    spec_content_range,
    spec_body_offset,
    spec_body_len,
};

verus! {

/// The header value `bytes=<s>-<e>`.
pub open spec fn spec_exact_range_header(s: u64, e: u64) -> Seq<u8> {
    range_unit_prefix() + dec_rep(s as nat) + seq![DASH] + dec_rep(e as nat)
}

/// The header value `bytes=-<n>`.
pub open spec fn spec_suffix_range_header(n: u64) -> Seq<u8> {
    range_unit_prefix() + seq![DASH] + dec_rep(n as nat)
}

/// The header `bytes=<s>-<e>` with `s <= e` parses to exactly that interval.
pub proof fn lemma_parse_exact_range_header(s: u64, e: u64)
    requires
        s <= e,
    ensures
        spec_parse_range_header(spec_exact_range_header(s, e)) == Some(
            seq![ByteRange { start: Some(s), end: Some(e) }],
        ),
{
    let a = dec_rep(s as nat);
    let b = dec_rep(e as nat);
    lemma_dec_rep_digits(s as nat);
    lemma_dec_rep_digits(e as nat);
    lemma_dec_rep_val(s as nat);
    lemma_dec_rep_val(e as nat);
    let h = spec_exact_range_header(s, e);
    assert(h.take(6) =~= range_unit_prefix());
    let body = h.skip(6);
    assert(body =~= a + seq![DASH] + b);
    assert forall|j: int| 0 <= j < body.len() implies body[j] != COMMA by {
        if j < a.len() {
            assert(body[j] == a[j]);
            assert(is_digit(a[j]));
        } else if j == a.len() {
            assert(body[j] == DASH);
        } else {
            assert(body[j] == b[j - a.len() - 1]);
            assert(is_digit(b[j - a.len() - 1]));
        }
    }
    lemma_find_byte_absent(body, COMMA);
    assert(body[a.len() as int] == DASH);
    assert forall|j: int| 0 <= j < a.len() implies body[j] != DASH by {
        assert(body[j] == a[j]);
        assert(is_digit(a[j]));
    }
    lemma_find_byte_at(body, DASH, a.len() as int);
    assert(body.take(a.len() as int) =~= a);
    assert(body.skip(a.len() as int + 1) =~= b);
    assert(spec_parse_part(body) == Some(ByteRange { start: Some(s), end: Some(e) }));
    assert(spec_parse_ranges(body) == Some(seq![ByteRange { start: Some(s), end: Some(e) }]));
}

/// The header `bytes=-<n>` parses to exactly the suffix interval.
pub proof fn lemma_parse_suffix_range_header(n: u64)
    ensures
        spec_parse_range_header(spec_suffix_range_header(n)) == Some(
            seq![ByteRange { start: None, end: Some(n) }],
        ),
{
    let b = dec_rep(n as nat);
    lemma_dec_rep_digits(n as nat);
    lemma_dec_rep_val(n as nat);
    let h = spec_suffix_range_header(n);
    assert(h.take(6) =~= range_unit_prefix());
    let body = h.skip(6);
    assert(body =~= seq![DASH] + b);
    assert forall|j: int| 0 <= j < body.len() implies body[j] != COMMA by {
        if j == 0 {
            assert(body[j] == DASH);
        } else {
            assert(body[j] == b[j - 1]);
            assert(is_digit(b[j - 1]));
        }
    }
    lemma_find_byte_absent(body, COMMA);
    assert(body[0] == DASH);
    lemma_find_byte_at(body, DASH, 0);
    assert(body.take(0) =~= Seq::<u8>::empty());
    assert(body.skip(1) =~= b);
    assert(spec_parse_part(body) == Some(ByteRange { start: None, end: Some(n) }));
    assert(spec_parse_ranges(body) == Some(seq![ByteRange { start: None, end: Some(n) }]));
}

/// For every resource length `t > 0` and bounds `0 <= s <= e < t`, the
/// request `bytes=<s>-<e>` resolves to the partial interval `[s, e]` of `t`,
/// framed with status 206 and content length `e - s + 1`.
pub proof fn lemma_exact_range_request(s: u64, e: u64, t: u64)
    requires
        t > 0,
        s <= e,
        e < t,
    ensures
        ({
            let outcome = spec_resolve_header(Some(spec_exact_range_header(s, e)), t);
            &&& outcome == RangeOutcome::Partial(ResolvedRange { first: s, last: e, total: t })
            &&& spec_status(outcome) == 206
            &&& spec_content_length(outcome) == Some((e - s + 1) as u64)
            &&& spec_body_offset(outcome) == s
            &&& spec_body_len(outcome) == (e - s + 1) as u64
        }),
{
    lemma_parse_exact_range_header(s, e);
}

/// For every resource length `t > 0` and suffix length `n >= t`, the request
/// `bytes=-<n>` resolves to the whole resource as the partial interval
/// `[0, t - 1]` of `t`.
pub proof fn lemma_suffix_range_clamped(n: u64, t: u64)
    requires
        t > 0,
        n >= t,
    ensures
        spec_resolve_header(Some(spec_suffix_range_header(n)), t) == RangeOutcome::Partial(
            ResolvedRange { first: 0, last: (t - 1) as u64, total: t },
        ),
{
    lemma_parse_suffix_range_header(n);
}

/// A request whose start position lies at or past the end of the resource is
/// unsatisfiable: status 416, `Content-Range: bytes */<t>`, empty body.
pub proof fn lemma_start_past_end_unsatisfiable(br: ByteRange, t: u64)
    requires
        br.start matches Some(s) && s >= t,
    ensures
        ({
            let outcome = spec_resolve(Some(br), t);
            &&& outcome == RangeOutcome::Unsatisfiable(t)
            &&& spec_status(outcome) == 416
            &&& spec_content_range(outcome) == Some(spec_content_range_unsat(t))
            &&& spec_body_len(outcome) == 0
        }),
{
}

/// On an empty resource every request that names a range is unsatisfiable,
/// whatever the (well-formed) header said.
pub proof fn lemma_empty_resource_unsatisfiable(h: Seq<u8>)
    requires
        spec_parse_range_header(h) is Some,
    ensures
        spec_resolve_header(Some(h), 0) == RangeOutcome::Unsatisfiable(0),
{
}

/// With no range header the full content is served: status 200,
/// `Content-Length` equal to the resource's total size, no `Content-Range`.
pub proof fn lemma_no_range_full(t: u64)
    ensures
        ({
            let outcome = spec_resolve_header(None, t);
            &&& outcome == RangeOutcome::Full(t)
            &&& spec_status(outcome) == 200
            &&& spec_content_length(outcome) == Some(t)
            &&& spec_content_range(outcome) is None
            &&& spec_body_offset(outcome) == 0
            &&& spec_body_len(outcome) == t
        }),
{
}

/// The advertised `Content-Length` always equals the number of body bytes
/// streamed; a response without one (416) streams no body at all.
pub proof fn lemma_content_length_matches_body(o: RangeOutcome)
    ensures
        match spec_content_length(o) {
            Some(n) => n == spec_body_len(o),
            None => spec_body_len(o) == 0,
        },
{
}

/// Framing loses nothing: re-parsing the `Content-Range` value emitted for a
/// partial response recovers exactly the interval that was framed.
pub proof fn lemma_content_range_round_trip(rr: ResolvedRange)
    requires
        rr.wf(),
    ensures
        spec_parse_content_range(spec_content_range_partial(rr)) == Some(rr),
{
    let a = dec_rep(rr.first as nat);
    let b = dec_rep(rr.last as nat);
    let c = dec_rep(rr.total as nat);
    lemma_dec_rep_digits(rr.first as nat);
    lemma_dec_rep_digits(rr.last as nat);
    lemma_dec_rep_digits(rr.total as nat);
    lemma_dec_rep_val(rr.first as nat);
    lemma_dec_rep_val(rr.last as nat);
    lemma_dec_rep_val(rr.total as nat);
    let s = spec_content_range_partial(rr);
    assert(s.take(6) =~= content_range_prefix());
    let rest = s.skip(6);
    assert(rest =~= a + seq![DASH] + b + seq![SLASH] + c);
    assert(rest[a.len() as int] == DASH);
    assert forall|j: int| 0 <= j < a.len() implies rest[j] != DASH by {
        assert(rest[j] == a[j]);
        assert(is_digit(a[j]));
    }
    lemma_find_byte_at(rest, DASH, a.len() as int);
    assert(rest.take(a.len() as int) =~= a);
    let rest2 = rest.skip(a.len() as int + 1);
    assert(rest2 =~= b + seq![SLASH] + c);
    assert(rest2[b.len() as int] == SLASH);
    assert forall|j: int| 0 <= j < b.len() implies rest2[j] != SLASH by {
        assert(rest2[j] == b[j]);
        assert(is_digit(b[j]));
    }
    lemma_find_byte_at(rest2, SLASH, b.len() as int);
    assert(rest2.take(b.len() as int) =~= b);
    assert(rest2.skip(b.len() as int + 1) =~= c);
}

} // verus!
