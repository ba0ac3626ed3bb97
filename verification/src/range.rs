//! The `Range` request header: grammar and verified parser.
//!
//! The recognized grammar is `bytes=<spec>[,<spec>]*` where each `<spec>` is
//! `N-M`, `N-` or `-N` with non-negative decimal bounds and `N <= M` when both
//! are present. Anything else is malformed; by the lenient policy adopted
//! here (a common HTTP server convention) the caller then ignores the header
//! and serves the full content.

use vstd::prelude::*;
use crate::digits::{is_digit_seq, digits_val};
use crate::scan::{find_byte, lemma_find_byte};
use crate::scan;
use crate::digits;

verus! {

/// ASCII `'-'`.
pub const DASH: u8 = 45;

/// ASCII `','`.
pub const COMMA: u8 = 44;

/// One requested byte interval, as written in the header: `start`/`end`
/// absent encode the open forms `N-` and `-N`.
#[derive(Clone, Copy, Debug, PartialEq, Eq)]
pub struct ByteRange {
    pub start: Option<u64>,
    pub end: Option<u64>,
}

impl ByteRange {
    /// At least one bound is present, and when both are, they are ordered.
    pub open spec fn wf(self) -> bool {
        &&& self.start is Some || self.end is Some
        &&& (self.start is Some && self.end is Some) ==> self.start->0 <= self.end->0
    }
}

/// A range header was present but does not follow the grammar.
#[derive(Clone, Copy, Debug, PartialEq, Eq)]
pub enum RangeError {
    MalformedRange,
}

/// The bytes `"bytes="` that a range header must begin with.
pub open spec fn range_unit_prefix() -> Seq<u8> {
    seq![98u8, 121u8, 116u8, 101u8, 115u8, 61u8]
}

/// One `<spec>` of the grammar: digits, a dash, digits, with either side of
/// the dash (but not both) allowed to be empty, values fitting `u64`, and
/// ordered bounds when both are present.
pub open spec fn spec_parse_part(s: Seq<u8>) -> Option<ByteRange> {
    let i = find_byte(s, DASH);
    if i < 0 {
        None
    } else {
        let left = s.take(i);
        let right = s.skip(i + 1);
        if left.len() == 0 && right.len() == 0 {
            None
        } else if left.len() > 0 && !(is_digit_seq(left) && digits_val(left) <= u64::MAX) {
            None
        } else if right.len() > 0 && !(is_digit_seq(right) && digits_val(right) <= u64::MAX) {
            None
        } else if left.len() > 0 && right.len() > 0 && digits_val(left) > digits_val(right) {
            None
        } else {
            Some(ByteRange {
                start: if left.len() > 0 {
                    Some(digits_val(left) as u64)
                } else {
                    None
                },
                end: if right.len() > 0 {
                    Some(digits_val(right) as u64)
                } else {
                    None
                },
            })
        }
    }
}

/// The comma-separated list of `<spec>`s after the unit prefix. `None` if any
/// element is malformed; otherwise the non-empty list in header order.
pub open spec fn spec_parse_ranges(s: Seq<u8>) -> Option<Seq<ByteRange>>
    decreases s.len(),
    via spec_parse_ranges_decreases
{
    let i = find_byte(s, COMMA);
    if i < 0 {
        match spec_parse_part(s) {
            Some(r) => Some(seq![r]),
            None => None,
        }
    } else {
        match (spec_parse_part(s.take(i)), spec_parse_ranges(s.skip(i + 1))) {
            (Some(r), Some(rest)) => Some(seq![r] + rest),
            _ => None,
        }
    }
}

#[via_fn]
proof fn spec_parse_ranges_decreases(s: Seq<u8>) {
    lemma_find_byte(s, COMMA);
}

/// A whole `Range` header value: the `bytes=` prefix followed by the list.
pub open spec fn spec_parse_range_header(s: Seq<u8>) -> Option<Seq<ByteRange>> {
    if s.len() >= 6 && s.take(6) == range_unit_prefix() {
        spec_parse_ranges(s.skip(6))
    } else {
        None
    }
}

/// Parses one `<spec>` out of the window `s[from..to]`.
fn parse_part(s: &[u8], from: usize, to: usize) -> (r: Option<ByteRange>)
    requires
        from <= to <= s@.len(),
    ensures
        r == spec_parse_part(s@.subrange(from as int, to as int)),
        r matches Some(br) ==> br.wf(),
{
    let ghost part = s@.subrange(from as int, to as int);
    let dash = match scan::find_in(s, DASH, from, to) {
        None => {
            return None;
        },
        Some(k) => k,
    };
    proof {
        assert(part.take(dash - from) =~= s@.subrange(from as int, dash as int));
        assert(part.skip(dash - from + 1) =~= s@.subrange(dash as int + 1, to as int));
    }
    if dash == from && dash + 1 == to {
        return None;
    }
    let start: Option<u64> = if dash > from {
        match digits::parse_u64_digits(s, from, dash) {
            None => {
                return None;
            },
            Some(v) => Some(v),
        }
    } else {
        None
    };
    let end: Option<u64> = if dash + 1 < to {
        match digits::parse_u64_digits(s, dash + 1, to) {
            None => {
                return None;
            },
            Some(v) => Some(v),
        }
    } else {
        None
    };
    if let (Some(a), Some(b)) = (start, end) {
        if a > b {
            return None;
        }
    }
    Some(ByteRange { start, end })
}

/// Parses a `Range` header value. Returns the non-empty list of requested
/// intervals exactly when the header follows the grammar, and
/// `MalformedRange` otherwise.
pub fn parse_range_header(h: &[u8]) -> (r: Result<Vec<ByteRange>, RangeError>)
    ensures
        match r {
            Ok(v) => {
                &&& spec_parse_range_header(h@) == Some(v@)
                &&& v@.len() > 0
                &&& forall|i: int| 0 <= i < v@.len() ==> v@[i].wf()
            },
            Err(e) => {
                &&& spec_parse_range_header(h@) is None
                &&& e == RangeError::MalformedRange
            },
        },
{
    if h.len() < 6 || h[0] != 98 || h[1] != 121 || h[2] != 116 || h[3] != 101 || h[4]
        != 115 || h[5] != 61 {
        proof {
            if h@.len() >= 6 && h@.take(6) == range_unit_prefix() {
                assert(h@[0] == range_unit_prefix()[0]) by {
                    assert(h@.take(6)[0] == h@[0]);
                }
                assert(h@[1] == range_unit_prefix()[1]) by {
                    assert(h@.take(6)[1] == h@[1]);
                }
                assert(h@[2] == range_unit_prefix()[2]) by {
                    assert(h@.take(6)[2] == h@[2]);
                }
                assert(h@[3] == range_unit_prefix()[3]) by {
                    assert(h@.take(6)[3] == h@[3]);
                }
                assert(h@[4] == range_unit_prefix()[4]) by {
                    assert(h@.take(6)[4] == h@[4]);
                }
                assert(h@[5] == range_unit_prefix()[5]) by {
                    assert(h@.take(6)[5] == h@[5]);
                }
            }
        }
        return Err(RangeError::MalformedRange);
    }
    proof {
        assert(h@.take(6) =~= range_unit_prefix());
    }
    let mut out: Vec<ByteRange> = Vec::new();
    let mut pos: usize = 6;
    loop
        invariant
            6 <= pos <= h@.len(),
            h@.take(6) == range_unit_prefix(),
            spec_parse_ranges(h@.skip(6)) == (match spec_parse_ranges(h@.skip(pos as int)) {
                Some(rest) => Some(out@ + rest),
                None => None::<Seq<ByteRange>>,
            }),
            forall|i: int| 0 <= i < out@.len() ==> out@[i].wf(),
        decreases h@.len() - pos,
    {
        let ghost rem = h@.skip(pos as int);
        proof {
            assert(rem =~= h@.subrange(pos as int, h@.len() as int));
        }
        match scan::find_in(h, COMMA, pos, h.len()) {
            None => {
                // the last (or only) element of the list
                match parse_part(h, pos, h.len()) {
                    None => {
                        return Err(RangeError::MalformedRange);
                    },
                    Some(br) => {
                        let ghost prev = out@;
                        out.push(br);
                        proof {
                            assert(prev + seq![br] =~= out@);
                        }
                        return Ok(out);
                    },
                }
            },
            Some(k) => {
                proof {
                    assert(rem.take(k - pos) =~= h@.subrange(pos as int, k as int));
                    assert(rem.skip(k - pos + 1) =~= h@.skip(k as int + 1));
                }
                match parse_part(h, pos, k) {
                    None => {
                        return Err(RangeError::MalformedRange);
                    },
                    Some(br) => {
                        let ghost prev = out@;
                        out.push(br);
                        proof {
                            let tailp = spec_parse_ranges(h@.skip(k as int + 1));
                            if tailp is Some {
                                assert(prev + (seq![br] + tailp->0) =~= out@ + tailp->0);
                            }
                        }
                        pos = k + 1;
                    },
                }
            },
        }
    }
}

} // verus!
