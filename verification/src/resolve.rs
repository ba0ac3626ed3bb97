//! Resolving a requested byte interval against the resource's total length.
//!
//! Only the first interval of the request is honoured: multi-range responses
//! are out of scope, so a request resolves to full content, one satisfiable
//! interval, or an unsatisfiable range.

use vstd::prelude::*;
use crate::range::{ByteRange, spec_parse_range_header, parse_range_header};

verus! {

/// A byte interval validated against the resource: `first <= last < total`.
#[derive(Clone, Copy, Debug, PartialEq, Eq, Structural)]
pub struct ResolvedRange {
    pub first: u64,
    pub last: u64,
    pub total: u64,
}

impl ResolvedRange {
    /// The interval is non-empty, inside the resource, and inclusive.
    pub open spec fn wf(self) -> bool {
        self.first <= self.last < self.total
    }

    /// Number of bytes the interval covers.
    pub open spec fn spec_len(self) -> int {
        self.last - self.first + 1
    }
}

/// How a request is to be answered: the whole resource, one resolved
/// interval, or nothing because the request lies outside the resource.
#[derive(Clone, Copy, Debug, PartialEq, Eq)]
pub enum RangeOutcome {
    Full(u64),
    Partial(ResolvedRange),
    Unsatisfiable(u64),
}

impl RangeOutcome {
    /// A partial outcome carries a valid interval; every outcome records the
    /// resource's total length.
    pub open spec fn wf(self) -> bool {
        self matches RangeOutcome::Partial(rr) ==> rr.wf()
    }

    /// The total resource length the outcome was resolved against.
    pub open spec fn spec_total(self) -> u64 {
        match self {
            RangeOutcome::Full(t) => t,
            RangeOutcome::Partial(rr) => rr.total,
            RangeOutcome::Unsatisfiable(t) => t,
        }
    }
}

/// The resolution rules, applied to the first requested interval (or to none):
/// an absent request serves the full content; on an empty resource nothing is
/// satisfiable; a start at or past the end is unsatisfiable; an end is clamped
/// to the last byte; a suffix request takes the last `n` bytes, clamped to the
/// whole resource, with `n == 0` unsatisfiable.
pub open spec fn spec_resolve(r: Option<ByteRange>, total: u64) -> RangeOutcome {
    match r {
        None => RangeOutcome::Full(total),
        Some(br) => {
            if total == 0 {
                RangeOutcome::Unsatisfiable(0)
            } else {
                match (br.start, br.end) {
                    (Some(s), Some(e)) => {
                        if s >= total {
                            RangeOutcome::Unsatisfiable(total)
                        } else {
                            RangeOutcome::Partial(ResolvedRange {
                                first: s,
                                last: if e <= (total - 1) as u64 {
                                    e
                                } else {
                                    (total - 1) as u64
                                },
                                total,
                            })
                        }
                    },
                    (Some(s), None) => {
                        if s >= total {
                            RangeOutcome::Unsatisfiable(total)
                        } else {
                            RangeOutcome::Partial(ResolvedRange {
                                first: s,
                                last: (total - 1) as u64,
                                total,
                            })
                        }
                    },
                    (None, Some(n)) => {
                        if n == 0 {
                            RangeOutcome::Unsatisfiable(total)
                        } else {
                            RangeOutcome::Partial(ResolvedRange {
                                first: if n <= total {
                                    (total - n) as u64
                                } else {
                                    0
                                },
                                last: (total - 1) as u64,
                                total,
                            })
                        }
                    },
                    // not produced by the parser: treated as no request
                    (None, None) => RangeOutcome::Full(total),
                }
            }
        },
    }
}

/// Resolves the first requested interval (or the absence of a request)
/// against the resource's total length.
pub fn resolve_range(r: Option<ByteRange>, total: u64) -> (out: RangeOutcome)
    requires
        r matches Some(br) ==> br.wf(),
    ensures
        out == spec_resolve(r, total),
        out.wf(),
        out.spec_total() == total,
{
    match r {
        None => RangeOutcome::Full(total),
        Some(br) => {
            if total == 0 {
                return RangeOutcome::Unsatisfiable(0);
            }
            match (br.start, br.end) {
                (Some(s), Some(e)) => {
                    if s >= total {
                        RangeOutcome::Unsatisfiable(total)
                    } else {
                        RangeOutcome::Partial(ResolvedRange {
                            first: s,
                            last: if e <= total - 1 {
                                e
                            } else {
                                total - 1
                            },
                            total,
                        })
                    }
                },
                (Some(s), None) => {
                    if s >= total {
                        RangeOutcome::Unsatisfiable(total)
                    } else {
                        RangeOutcome::Partial(ResolvedRange { first: s, last: total - 1, total })
                    }
                },
                (None, Some(n)) => {
                    if n == 0 {
                        RangeOutcome::Unsatisfiable(total)
                    } else {
                        RangeOutcome::Partial(ResolvedRange {
                            first: if n <= total {
                                total - n
                            } else {
                                0
                            },
                            last: total - 1,
                            total,
                        })
                    }
                },
                (None, None) => RangeOutcome::Full(total),
            }
        },
    }
}

/// A whole request resolved in one step: `h` is the raw `Range` header value,
/// absent when the request carried none. Under the lenient policy a malformed
/// header counts as no request.
pub open spec fn spec_resolve_header(h: Option<Seq<u8>>, total: u64) -> RangeOutcome {
    match h {
        None => spec_resolve(None, total),
        Some(s) => match spec_parse_range_header(s) {
            Some(rs) => spec_resolve(Some(rs[0]), total),
            None => spec_resolve(None, total),
        },
    }
}

/// Parses the header (if any) and resolves its first interval against
/// `total`, ignoring a malformed header per the lenient policy.
pub fn resolve_header(h: Option<&[u8]>, total: u64) -> (out: RangeOutcome)
    ensures
        out == spec_resolve_header(
            match h {
                Some(s) => Some(s@),
                None => None,
            },
            total,
        ),
        out.wf(),
        out.spec_total() == total,
{
    match h {
        None => resolve_range(None, total),
        Some(s) => {
            match parse_range_header(s) {
                Ok(v) => {
                    let first = v[0];
                    resolve_range(Some(first), total)
                },
                Err(_) => resolve_range(None, total),
            }
        },
    }
}

} // verus!
