//! Verified parsing of the numeric attribute forms the extractors read:
//! unsigned and signed decimal integers, and the lexical form of a
//! floating-point number (whose raw text the records keep).

use vstd::prelude::*;
use vstd::string::StrSliceExecFns;

verus! {

/// A decimal digit.
pub open spec fn is_digit(c: char) -> bool {
    48 <= c as u32 <= 57
}

/// The numeric value of a decimal digit.
pub open spec fn digit_val(c: char) -> int {
    c as u32 - 48
}

pub open spec fn all_digits(s: Seq<char>) -> bool {
    forall|i: int| 0 <= i < s.len() ==> is_digit(#[trigger] s[i])
}

/// The value of a digit string read in base ten.
pub open spec fn digits_val(s: Seq<char>) -> int
    decreases s.len(),
{
    if s.len() == 0 {
        0
    } else {
        digits_val(s.drop_last()) * 10 + digit_val(s.last())
    }
}

proof fn lemma_digits_val_nonneg(s: Seq<char>)
    requires
        all_digits(s),
    ensures
        digits_val(s) >= 0,
    decreases s.len(),
{
    if s.len() > 0 {
        assert(all_digits(s.drop_last()));
        lemma_digits_val_nonneg(s.drop_last());
    }
}

/// Reading more digits never makes the value smaller.
proof fn lemma_digits_val_prefix_le(s: Seq<char>, i: int)
    requires
        all_digits(s),
        0 <= i <= s.len(),
    ensures
        digits_val(s.take(i)) <= digits_val(s),
    decreases s.len() - i,
{
    if i < s.len() {
        assert(s.take(i + 1).drop_last() =~= s.take(i));
        assert(s.take(i + 1).last() == s[i]);
        assert(all_digits(s.take(i)));
        lemma_digits_val_nonneg(s.take(i));
        lemma_digits_val_prefix_le(s, i + 1);
    } else {
        assert(s.take(i) =~= s);
    }
}

/// The string after an optional leading sign.
pub open spec fn sign_stripped(s: Seq<char>) -> Seq<char> {
    if s.len() > 0 && (s[0] == '+' || s[0] == '-') {
        s.drop_first()
    } else {
        s
    }
}

/// What parsing the string as a 32-bit unsigned decimal integer yields: an
/// optional leading plus sign, then at least one digit, and a value that
/// fits; anything else is rejected.
pub open spec fn spec_parse_u32(s: Seq<char>) -> Option<u32> {
    let t = if s.len() > 0 && s[0] == '+' {
        s.drop_first()
    } else {
        s
    };
    if t.len() > 0 && all_digits(t) && digits_val(t) <= u32::MAX {
        Some(digits_val(t) as u32)
    } else {
        None
    }
}

/// Parses a 32-bit unsigned decimal integer.
pub fn parse_u32(s: &str) -> (r: Option<u32>)
    ensures
        r == spec_parse_u32(s@),
{
    let n = s.unicode_len();
    let start: usize = if n > 0 && s.get_char(0) == '+' {
        1
    } else {
        0
    };
    let ghost t = if s@.len() > 0 && s@[0] == '+' {
        s@.drop_first()
    } else {
        s@
    };
    if start == n {
        return None;
    }
    let mut acc: u64 = 0;
    let mut i: usize = start;
    while i < n
        invariant
            start <= i <= n,
            n == s@.len(),
            start == 1 <==> (s@.len() > 0 && s@[0] == '+'),
            start <= 1,
            t == (if s@.len() > 0 && s@[0] == '+' {
                s@.drop_first()
            } else {
                s@
            }),
            t.len() == n - start,
            forall|j: int| 0 <= j < t.len() ==> t[j] == s@[j + start],
            all_digits(t.take(i - start)),
            acc == digits_val(t.take(i - start)),
            acc <= u32::MAX,
        decreases n - i,
    {
        let c = s.get_char(i);
        let d = c as u32;
        if d < 48 || d > 57 {
            proof {
                assert(!is_digit(t[i - start]));
            }
            return None;
        }
        proof {
            assert(t.take(i - start + 1).drop_last() =~= t.take(i - start));
            assert(t.take(i - start + 1).last() == t[i - start]);
        }
        let acc2: u64 = acc * 10 + (d - 48) as u64;
        if acc2 > 0xffff_ffff {
            proof {
                if all_digits(t) {
                    lemma_digits_val_prefix_le(t, i - start + 1);
                }
            }
            return None;
        }
        acc = acc2;
        i = i + 1;
    }
    proof {
        assert(t.take(n - start) =~= t);
    }
    Some(acc as u32)
}

/// What parsing the string as a 32-bit signed decimal integer yields: an
/// optional leading sign, then at least one digit, and a value that fits.
pub open spec fn spec_parse_i32(s: Seq<char>) -> Option<i32> {
    let neg = s.len() > 0 && s[0] == '-';
    let t = sign_stripped(s);
    if t.len() > 0 && all_digits(t) {
        if neg {
            if digits_val(t) <= 0x8000_0000 {
                Some((-digits_val(t)) as i32)
            } else {
                None
            }
        } else {
            if digits_val(t) <= 0x7fff_ffff {
                Some(digits_val(t) as i32)
            } else {
                None
            }
        }
    } else {
        None
    }
}

/// Parses a 32-bit signed decimal integer.
pub fn parse_i32(s: &str) -> (r: Option<i32>)
    ensures
        r == spec_parse_i32(s@),
{
    let n = s.unicode_len();
    let mut neg = false;
    let mut start: usize = 0;
    if n > 0 {
        let c0 = s.get_char(0);
        if c0 == '-' {
            neg = true;
            start = 1;
        } else if c0 == '+' {
            start = 1;
        }
    }
    let ghost t = sign_stripped(s@);
    if start == n {
        return None;
    }
    let bound: u64 = if neg {
        0x8000_0000
    } else {
        0x7fff_ffff
    };
    let mut acc: u64 = 0;
    let mut i: usize = start;
    while i < n
        invariant
            start <= i <= n,
            n == s@.len(),
            start == 1 <==> (s@.len() > 0 && (s@[0] == '+' || s@[0] == '-')),
            start <= 1,
            neg <==> (s@.len() > 0 && s@[0] == '-'),
            bound == (if neg {
                0x8000_0000u64
            } else {
                0x7fff_ffffu64
            }),
            t == sign_stripped(s@),
            t.len() == n - start,
            forall|j: int| 0 <= j < t.len() ==> t[j] == s@[j + start],
            all_digits(t.take(i - start)),
            acc == digits_val(t.take(i - start)),
            acc <= bound,
        decreases n - i,
    {
        let c = s.get_char(i);
        let d = c as u32;
        if d < 48 || d > 57 {
            proof {
                assert(!is_digit(t[i - start]));
            }
            return None;
        }
        proof {
            assert(t.take(i - start + 1).drop_last() =~= t.take(i - start));
            assert(t.take(i - start + 1).last() == t[i - start]);
        }
        let acc2: u64 = acc * 10 + (d - 48) as u64;
        if acc2 > bound {
            proof {
                if all_digits(t) {
                    lemma_digits_val_prefix_le(t, i - start + 1);
                }
            }
            return None;
        }
        acc = acc2;
        i = i + 1;
    }
    proof {
        assert(t.take(n - start) =~= t);
    }
    if neg {
        if acc == 0x8000_0000 {
            Some(i32::MIN)
        } else {
            Some(-(acc as i32))
        }
    } else {
        Some(acc as i32)
    }
}

/// Case-insensitive match against one ASCII letter, given in lower case.
pub open spec fn eq_ci(c: char, l: char) -> bool {
    c == l || c as u32 + 32 == l as u32
}

pub open spec fn is_inf_text(t: Seq<char>) -> bool {
    t.len() == 3 && eq_ci(t[0], 'i') && eq_ci(t[1], 'n') && eq_ci(t[2], 'f')
}

pub open spec fn is_infinity_text(t: Seq<char>) -> bool {
    &&& t.len() == 8
    &&& eq_ci(t[0], 'i')
    &&& eq_ci(t[1], 'n')
    &&& eq_ci(t[2], 'f')
    &&& eq_ci(t[3], 'i')
    &&& eq_ci(t[4], 'n')
    &&& eq_ci(t[5], 'i')
    &&& eq_ci(t[6], 't')
    &&& eq_ci(t[7], 'y')
}

pub open spec fn is_nan_text(t: Seq<char>) -> bool {
    t.len() == 3 && eq_ci(t[0], 'n') && eq_ci(t[1], 'a') && eq_ci(t[2], 'n')
}

/// The whole part of a float literal before any exponent: at least one
/// digit, at most one point, and nothing else.
pub open spec fn is_mantissa(m: Seq<char>) -> bool {
    &&& m.len() > 0
    &&& forall|i: int| 0 <= i < m.len() ==> is_digit(#[trigger] m[i]) || m[i] == '.'
    &&& exists|i: int| 0 <= i < m.len() && is_digit(#[trigger] m[i])
    &&& forall|i: int, j: int|
        0 <= i < j < m.len() ==> !(#[trigger] m[i] == '.' && #[trigger] m[j] == '.')
}

/// An exponent part: an optional sign, then at least one digit.
pub open spec fn is_exp_part(u: Seq<char>) -> bool {
    let v = sign_stripped(u);
    v.len() > 0 && all_digits(v)
}

pub open spec fn is_exp_marker(c: char) -> bool {
    c == 'e' || c == 'E'
}

/// The lexical forms that parse as a floating-point number: an optional
/// sign, then one of the named special values (case-insensitive) or a
/// mantissa with an optional exponent.
pub open spec fn spec_float_text(s: Seq<char>) -> bool {
    let t = sign_stripped(s);
    ||| is_inf_text(t)
    ||| is_infinity_text(t)
    ||| is_nan_text(t)
    ||| is_mantissa(t)
    ||| exists|k: int|
        0 <= k < t.len() && is_exp_marker(#[trigger] t[k]) && is_mantissa(t.take(k))
            && is_exp_part(t.skip(k + 1))
}

/// Decides whether the string has the lexical form of a floating-point
/// number.
pub fn is_float_text(s: &str) -> (r: bool)
    ensures
        r == spec_float_text(s@),
{
    let n = s.unicode_len();
    let start: usize = if n > 0 {
        let c0 = s.get_char(0);
        if c0 == '+' || c0 == '-' {
            1
        } else {
            0
        }
    } else {
        0
    };
    let ghost t = sign_stripped(s@);
    proof {
        assert(t.len() == n - start);
        assert(forall|j: int| 0 <= j < t.len() ==> t[j] == s@[j + start]);
    }
    if n - start == 3 {
        let c0 = s.get_char(start);
        let c1 = s.get_char(start + 1);
        let c2 = s.get_char(start + 2);
        if (c0 == 'i' || c0 == 'I') && (c1 == 'n' || c1 == 'N') && (c2 == 'f' || c2 == 'F') {
            return true;
        }
        if (c0 == 'n' || c0 == 'N') && (c1 == 'a' || c1 == 'A') && (c2 == 'n' || c2 == 'N') {
            return true;
        }
    }
    if n - start == 8 {
        let c0 = s.get_char(start);
        let c1 = s.get_char(start + 1);
        let c2 = s.get_char(start + 2);
        let c3 = s.get_char(start + 3);
        let c4 = s.get_char(start + 4);
        let c5 = s.get_char(start + 5);
        let c6 = s.get_char(start + 6);
        let c7 = s.get_char(start + 7);
        if (c0 == 'i' || c0 == 'I') && (c1 == 'n' || c1 == 'N') && (c2 == 'f' || c2 == 'F') && (c3
            == 'i' || c3 == 'I') && (c4 == 'n' || c4 == 'N') && (c5 == 'i' || c5 == 'I') && (c6
            == 't' || c6 == 'T') && (c7 == 'y' || c7 == 'Y') {
            return true;
        }
    }
    // Find the first exponent marker, if any.
    let mut epos: usize = start;
    let mut has_marker = false;
    while !has_marker && epos < n
        invariant
            start <= epos <= n,
            n == s@.len(),
            t.len() == n - start,
            forall|j: int| 0 <= j < t.len() ==> t[j] == s@[j + start],
            forall|j: int| 0 <= j < epos - start ==> !is_exp_marker(#[trigger] t[j]),
            has_marker ==> epos < n && is_exp_marker(t[epos - start]),
        decreases n - epos, (if has_marker {
            0int
        } else {
            1int
        }),
    {
        let c = s.get_char(epos);
        if c == 'e' || c == 'E' {
            has_marker = true;
        } else {
            epos = epos + 1;
        }
    }
    // Check the mantissa over [start, epos).
    let mantissa_ok = check_mantissa(s, start, epos, Ghost(t));
    if epos == n {
        proof {
            if !mantissa_ok {
                assert forall|k: int|
                    0 <= k < t.len() && is_exp_marker(#[trigger] t[k]) implies !(is_mantissa(
                    t.take(k),
                ) && is_exp_part(t.skip(k + 1))) by {
                    assert(!is_exp_marker(t[k]));
                }
                assert(t.take(epos - start) =~= t);
                assert(!is_mantissa(t));
            } else {
                assert(t.take(epos - start) =~= t);
                assert(is_mantissa(t));
            }
        }
        return mantissa_ok;
    }
    if !mantissa_ok {
        proof {
            let k0 = epos - start;
            assert(is_exp_marker(t[k0]));
            assert forall|k: int|
                0 <= k < t.len() && is_exp_marker(#[trigger] t[k]) implies !(is_mantissa(t.take(k))
                && is_exp_part(t.skip(k + 1))) by {
                if k < k0 {
                    assert(!is_exp_marker(t[k]));
                } else if k == k0 {
                    assert(t.take(k) =~= t.take(epos - start));
                } else {
                    assert(t.take(k)[k0] == t[k0]);
                    assert(!is_digit(t[k0]) && t[k0] != '.');
                    assert(!is_mantissa(t.take(k)));
                }
            }
            assert(t[epos - start] == s@[epos as int]);
            assert(!is_mantissa(t)) by {
                if is_mantissa(t) {
                    assert(is_digit(t[epos - start]) || t[epos - start] == '.');
                }
            }
        }
        return false;
    }
    // Check the exponent part over [epos + 1, n).
    let exp_ok = check_exp_part(s, epos + 1, n, Ghost(t), Ghost(start as int));
    proof {
        let k0 = epos - start;
        assert(t.take(k0) =~= t.take(epos - start));
        if exp_ok {
            assert(is_exp_marker(t[k0]) && is_mantissa(t.take(k0)) && is_exp_part(t.skip(k0 + 1)));
        } else {
            assert forall|k: int|
                0 <= k < t.len() && is_exp_marker(#[trigger] t[k]) implies !(is_mantissa(t.take(k))
                && is_exp_part(t.skip(k + 1))) by {
                if k < k0 {
                    assert(!is_exp_marker(t[k]));
                } else if k > k0 {
                    assert(t.take(k)[k0] == t[k0]);
                    assert(!is_digit(t[k0]) && t[k0] != '.');
                    assert(!is_mantissa(t.take(k)));
                }
            }
            assert(!is_mantissa(t)) by {
                if is_mantissa(t) {
                    assert(is_digit(t[k0]) || t[k0] == '.');
                }
            }
        }
    }
    exp_ok
}

/// Checks the mantissa form over the character range `[lo, hi)` of `s`,
/// which stands for the range `[lo - start, hi - start)` of the
/// sign-stripped text `t`.
fn check_mantissa(s: &str, lo: usize, hi: usize, Ghost(t): Ghost<Seq<char>>) -> (r: bool)
    requires
        lo <= hi <= s@.len(),
        t.len() == s@.len() - (if s@.len() > 0 && (s@[0] == '+' || s@[0] == '-') {
            1int
        } else {
            0int
        }),
        forall|j: int| 0 <= j < t.len() ==> t[j] == s@[j + s@.len() - t.len()],
        lo == s@.len() - t.len(),
        hi - lo <= t.len(),
    ensures
        r == is_mantissa(t.take(hi - lo)),
{
    let ghost m = t.take(hi - lo);
    if lo == hi {
        return false;
    }
    let mut i: usize = lo;
    let mut has_digit = false;
    let mut has_dot = false;
    while i < hi
        invariant
            lo <= i <= hi <= s@.len(),
            m == t.take(hi - lo),
            m.len() == hi - lo,
            forall|j: int| 0 <= j < m.len() ==> m[j] == s@[j + lo],
            forall|j: int| 0 <= j < i - lo ==> is_digit(#[trigger] m[j]) || m[j] == '.',
            has_digit <==> exists|j: int| 0 <= j < i - lo && is_digit(#[trigger] m[j]),
            has_dot <==> exists|j: int| 0 <= j < i - lo && #[trigger] m[j] == '.',
            forall|j: int, k: int|
                0 <= j < k < i - lo ==> !(#[trigger] m[j] == '.' && #[trigger] m[k] == '.'),
        decreases hi - i,
    {
        let c = s.get_char(i);
        let d = c as u32;
        if 48 <= d && d <= 57 {
            proof {
                assert(m[i - lo] == c);
                assert(is_digit(m[i - lo]));
                assert(m[i - lo] != '.');
            }
            has_digit = true;
        } else if c == '.' {
            if has_dot {
                proof {
                    let j = choose|j: int| 0 <= j < i - lo && #[trigger] m[j] == '.';
                    assert(m[j] == '.' && m[i - lo] == '.');
                }
                return false;
            }
            has_dot = true;
        } else {
            proof {
                assert(!(is_digit(m[i - lo]) || m[i - lo] == '.'));
            }
            return false;
        }
        i = i + 1;
    }
    has_digit
}

/// Checks the exponent-part form over the character range `[lo, hi)` of `s`,
/// which stands for the tail `t.skip(lo - start)` of the sign-stripped text.
fn check_exp_part(
    s: &str,
    lo: usize,
    hi: usize,
    Ghost(t): Ghost<Seq<char>>,
    Ghost(start): Ghost<int>,
) -> (r: bool)
    requires
        lo <= hi,
        hi == s@.len(),
        start == s@.len() - t.len(),
        0 <= start <= lo,
        forall|j: int| 0 <= j < t.len() ==> t[j] == s@[j + start],
        lo - start <= t.len(),
    ensures
        r == is_exp_part(t.skip(lo - start)),
{
    let ghost u = t.skip(lo - start);
    proof {
        assert(u.len() == hi - lo);
        assert(forall|j: int| 0 <= j < u.len() ==> u[j] == s@[j + lo]);
    }
    if lo == hi {
        return false;
    }
    let c0 = s.get_char(lo);
    let dlo: usize = if c0 == '+' || c0 == '-' {
        lo + 1
    } else {
        lo
    };
    let ghost v = sign_stripped(u);
    proof {
        assert(v.len() == hi - dlo);
        assert(forall|j: int| 0 <= j < v.len() ==> v[j] == s@[j + dlo]);
    }
    if dlo == hi {
        return false;
    }
    let mut i: usize = dlo;
    while i < hi
        invariant
            dlo <= i <= hi <= s@.len(),
            0 <= lo - start <= t.len(),
            u == t.skip(lo - start),
            v == sign_stripped(u),
            v.len() == hi - dlo,
            forall|j: int| 0 <= j < v.len() ==> v[j] == s@[j + dlo],
            forall|j: int| 0 <= j < i - dlo ==> is_digit(#[trigger] v[j]),
        decreases hi - i,
    {
        let c = s.get_char(i);
        let d = c as u32;
        if d < 48 || d > 57 {
            proof {
                assert(v[i - dlo] == c);
                assert(!is_digit(v[i - dlo]));
                assert(!all_digits(v));
                assert(!is_exp_part(t.skip(lo - start)));
            }
            return false;
        }
        proof {
            assert(v[i - dlo] == c);
            assert(is_digit(v[i - dlo]));
        }
        i = i + 1;
    }
    proof {
        assert(all_digits(v));
        assert(v.len() > 0);
    }
    true
}

} // verus!
