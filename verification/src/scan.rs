//! Locating a delimiter byte in a byte string: first and last occurrence,
//! with verified scanners over slice windows.

use vstd::prelude::*;

verus! {

/// Index of the first occurrence of `b` in `s`, or `-1` if absent.
pub open spec fn find_byte(s: Seq<u8>, b: u8) -> int
    decreases s.len(),
{
    if s.len() == 0 {
        -1
    } else if s[0] == b {
        0
    } else if find_byte(s.skip(1), b) < 0 {
        -1
    } else {
        find_byte(s.skip(1), b) + 1
    }
}

/// Index of the last occurrence of `b` in `s`, or `-1` if absent.
pub open spec fn find_last_byte(s: Seq<u8>, b: u8) -> int
    decreases s.len(),
{
    if s.len() == 0 {
        -1
    } else if s.last() == b {
        s.len() - 1
    } else {
        find_last_byte(s.drop_last(), b)
    }
}

/// What `find_byte` finds: an in-bounds index holding `b` with no earlier
/// occurrence, or `-1` when `b` does not occur at all.
pub proof fn lemma_find_byte(s: Seq<u8>, b: u8)
    ensures
        -1 <= find_byte(s, b) < s.len(),
        find_byte(s, b) >= 0 ==> s[find_byte(s, b)] == b && (forall|j: int|
            0 <= j < find_byte(s, b) ==> s[j] != b),
        find_byte(s, b) == -1 ==> forall|j: int| 0 <= j < s.len() ==> s[j] != b,
    decreases s.len(),
{
    if s.len() > 0 && s[0] != b {
        lemma_find_byte(s.skip(1), b);
        let t = s.skip(1);
        assert forall|j: int| 1 <= j < s.len() && t[j - 1] != b implies s[j] != b by {
            assert(t[j - 1] == s[j]);
        }
    }
}

/// `find_byte` returns exactly the position of the first occurrence.
pub proof fn lemma_find_byte_at(s: Seq<u8>, b: u8, k: int)
    requires
        0 <= k < s.len(),
        s[k] == b,
        forall|j: int| 0 <= j < k ==> s[j] != b,
    ensures
        find_byte(s, b) == k,
{
    lemma_find_byte(s, b);
}

/// `find_byte` returns `-1` on a string without the byte.
pub proof fn lemma_find_byte_absent(s: Seq<u8>, b: u8)
    requires
        forall|j: int| 0 <= j < s.len() ==> s[j] != b,
    ensures
        find_byte(s, b) == -1,
{
    lemma_find_byte(s, b);
}

/// What `find_last_byte` finds: an in-bounds index holding `b` with no later
/// occurrence, or `-1` when `b` does not occur at all.
pub proof fn lemma_find_last_byte(s: Seq<u8>, b: u8)
    ensures
        -1 <= find_last_byte(s, b) < s.len(),
        find_last_byte(s, b) >= 0 ==> s[find_last_byte(s, b)] == b && (forall|j: int|
            find_last_byte(s, b) < j < s.len() ==> s[j] != b),
        find_last_byte(s, b) == -1 ==> forall|j: int| 0 <= j < s.len() ==> s[j] != b,
    decreases s.len(),
{
    if s.len() > 0 && s.last() != b {
        lemma_find_last_byte(s.drop_last(), b);
        assert(forall|j: int| 0 <= j < s.drop_last().len() ==> s.drop_last()[j] == s[j]);
    }
}

/// Finds the first occurrence of `b` within the window `s[from..to]`,
/// reported as an absolute index into `s`.
pub fn find_in(s: &[u8], b: u8, from: usize, to: usize) -> (r: Option<usize>)
    requires
        from <= to <= s@.len(),
    ensures
        ({
            let w = s@.subrange(from as int, to as int);
            match r {
                Some(k) => from <= k < to && find_byte(w, b) == k - from,
                None => find_byte(w, b) == -1,
            }
        }),
{
    let ghost w = s@.subrange(from as int, to as int);
    let mut i: usize = from;
    while i < to
        invariant
            from <= i <= to <= s@.len(),
            w == s@.subrange(from as int, to as int),
            forall|j: int| 0 <= j < i - from ==> w[j] != b,
        decreases to - i,
    {
        if s[i] == b {
            proof {
                lemma_find_byte_at(w, b, i - from);
            }
            return Some(i);
        }
        assert(w[i - from] == s@[i as int]);
        i = i + 1;
    }
    proof {
        lemma_find_byte_absent(w, b);
    }
    None
}

/// Finds the last occurrence of `b` in all of `s`.
pub fn find_last(s: &[u8], b: u8) -> (r: Option<usize>)
    ensures
        match r {
            Some(k) => k < s@.len() && find_last_byte(s@, b) == k,
            None => find_last_byte(s@, b) == -1,
        },
{
    let mut i: usize = s.len();
    while i > 0
        invariant
            i <= s@.len(),
            forall|j: int| i <= j < s@.len() ==> s@[j] != b,
        decreases i,
    {
        i = i - 1;
        if s[i] == b {
            proof {
                lemma_find_last_byte(s@, b);
                assert(s@[i as int] == b);
            }
            return Some(i);
        }
    }
    proof {
        lemma_find_last_byte(s@, b);
    }
    None
}

} // verus!
