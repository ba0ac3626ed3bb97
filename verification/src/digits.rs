//! ASCII decimal numerals: what a run of digit bytes denotes, the canonical
//! decimal representation of a number, and verified conversions both ways.

use vstd::prelude::*;

verus! {

/// The byte is an ASCII decimal digit (`'0'` to `'9'`).
pub open spec fn is_digit(b: u8) -> bool {
    48 <= b && b <= 57
}

/// A non-empty run of ASCII decimal digits.
pub open spec fn is_digit_seq(s: Seq<u8>) -> bool {
    s.len() > 0 && forall|i: int| 0 <= i < s.len() ==> is_digit(s[i])
}

/// The number denoted by a run of ASCII digits, most significant first.
/// Bytes that are not digits contribute nothing; callers pair this with
/// `is_digit_seq`.
pub open spec fn digits_val(s: Seq<u8>) -> nat
    decreases s.len(),
{
    if s.len() == 0 {
        0
    } else {
        digits_val(s.drop_last()) * 10 + (if is_digit(s.last()) {
            (s.last() - 48) as nat
        } else {
            0
        })
    }
}

/// The canonical decimal representation of `n`: no leading zeros, at least
/// one digit.
pub open spec fn dec_rep(n: nat) -> Seq<u8>
    decreases n,
{
    if n < 10 {
        seq![(n + 48) as u8]
    } else {
        dec_rep(n / 10).push((n % 10 + 48) as u8)
    }
}

/// The canonical representation consists only of digit bytes.
pub proof fn lemma_dec_rep_digits(n: nat)
    ensures
        is_digit_seq(dec_rep(n)),
    decreases n,
{
    if n >= 10 {
        lemma_dec_rep_digits(n / 10);
    }
}

/// Reading the canonical representation back gives the number itself.
pub proof fn lemma_dec_rep_val(n: nat)
    ensures
        digits_val(dec_rep(n)) == n,
    decreases n,
{
    if n < 10 {
        let s = dec_rep(n);
        assert(s.drop_last() =~= Seq::<u8>::empty());
        assert(digits_val(Seq::<u8>::empty()) == 0);
        assert(s.last() == (n + 48) as u8);
        assert(digits_val(s) == n);
    } else {
        lemma_dec_rep_val(n / 10);
        lemma_dec_rep_digits(n / 10);
        let s = dec_rep(n);
        assert(s.drop_last() =~= dec_rep(n / 10));
        assert(s.last() == (n % 10 + 48) as u8);
        vstd::arithmetic::div_mod::lemma_fundamental_div_mod(n as int, 10);
        assert(digits_val(s) == (n / 10) * 10 + n % 10);
    }
}

/// Growing a digit run from the left end never shrinks its value: the value
/// of a prefix is at most the value of the whole run.
pub proof fn lemma_digits_val_prefix_le(s: Seq<u8>, i: int)
    requires
        0 <= i <= s.len(),
    ensures
        digits_val(s.take(i)) <= digits_val(s),
    decreases s.len() - i,
{
    if i == s.len() {
        assert(s.take(i) =~= s);
    } else {
        assert(s.take(i + 1).drop_last() =~= s.take(i));
        assert(s.take(i + 1).last() == s[i]);
        assert(digits_val(s.take(i)) <= digits_val(s.take(i + 1)));
        lemma_digits_val_prefix_le(s, i + 1);
    }
}

/// Converts a number to its canonical decimal representation.
pub fn u64_to_dec(n: u64) -> (r: Vec<u8>)
    ensures
        r@ == dec_rep(n as nat),
    decreases n,
{
    if n < 10 {
        let mut v: Vec<u8> = Vec::new();
        v.push((n as u8) + 48);
        proof {
            assert(v@ =~= dec_rep(n as nat));
        }
        v
    } else {
        let mut v = u64_to_dec(n / 10);
        v.push((n % 10) as u8 + 48);
        proof {
            assert(v@ =~= dec_rep(n as nat));
        }
        v
    }
}

/// Reads the digit run `s[from..to]` as a `u64`. Returns `None` exactly when
/// the run is empty, holds a byte that is not a digit, or denotes a number
/// too large for `u64`.
pub fn parse_u64_digits(s: &[u8], from: usize, to: usize) -> (r: Option<u64>)
    requires
        from <= to <= s@.len(),
    ensures
        ({
            let part = s@.subrange(from as int, to as int);
            match r {
                Some(v) => is_digit_seq(part) && digits_val(part) == v,
                None => !(is_digit_seq(part) && digits_val(part) <= u64::MAX),
            }
        }),
{
    let ghost part = s@.subrange(from as int, to as int);
    if from == to {
        return None;
    }
    let mut acc: u64 = 0;
    let mut i: usize = from;
    while i < to
        invariant
            from <= i <= to <= s@.len(),
            to > from,
            part == s@.subrange(from as int, to as int),
            acc == digits_val(part.take(i - from)),
            forall|j: int| 0 <= j < i - from ==> is_digit(part[j]),
        decreases to - i,
    {
        let b = s[i];
        assert(part[i - from] == b);
        if !(48 <= b && b <= 57) {
            return None;
        }
        let d: u64 = (b - 48) as u64;
        let wide: u128 = (acc as u128) * 10 + (d as u128);
        proof {
            assert(part.take(i - from + 1).drop_last() =~= part.take(i - from));
            assert(part.take(i - from + 1).last() == part[i - from]);
        }
        if wide > u64::MAX as u128 {
            proof {
                if is_digit_seq(part) {
                    lemma_digits_val_prefix_le(part, i - from + 1);
                }
            }
            return None;
        }
        acc = wide as u64;
        i = i + 1;
    }
    proof {
        assert(part.take(to - from) =~= part);
    }
    Some(acc)
}

} // verus!
