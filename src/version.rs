//! Semantic versions and their `major.minor.patch` text form.

use crate::error::DecodeError;
use vstd::prelude::*;

verus! {

/// A semantic version, referenced across a definition.
#[derive(PartialEq, Eq, Structural, Debug, Clone, Copy)]
pub struct Version {
    /// The major version.
    pub major: u64,
    /// The minor version.
    pub minor: u64,
    /// The patch version.
    pub patch: u64,
}

/// The decimal digit character of `d`, for `d < 10`.
pub open spec fn digit_char(d: nat) -> char {
    ((d + '0' as nat) as u32) as char
}

/// Whether `c` is an ASCII decimal digit.
pub open spec fn is_digit(c: char) -> bool {
    '0' <= c && c <= '9'
}

/// The decimal text of `n`, without leading zeros.
pub open spec fn decimal(n: nat) -> Seq<char>
    decreases n,
{
    if n < 10 {
        seq![digit_char(n)]
    } else {
        decimal(n / 10).push(digit_char(n % 10))
    }
}

/// The number that a string of decimal digits denotes.
pub open spec fn digits_value(s: Seq<char>) -> nat
    decreases s.len(),
{
    if s.len() == 0 {
        0
    } else {
        digits_value(s.drop_last()) * 10 + (s.last() as nat - '0' as nat) as nat
    }
}

/// The value of a version segment: a non-empty run of decimal digits whose
/// value fits in 64 bits.
pub open spec fn segment_value(s: Seq<char>) -> Option<u64> {
    if s.len() > 0 && (forall|i: int| 0 <= i < s.len() ==> is_digit(#[trigger] s[i]))
        && digits_value(s) <= u64::MAX {
        Some(digits_value(s) as u64)
    } else {
        None
    }
}

/// The first index at or after `k` that holds a `.`, or the length of `s`.
pub open spec fn dot_from(s: Seq<char>, k: int) -> int
    decreases s.len() - k,
{
    if k < 0 || k >= s.len() {
        s.len() as int
    } else if s[k] == '.' {
        k
    } else {
        dot_from(s, k + 1)
    }
}

/// What parsing `s` as a version gives. The segments are read from the
/// left: each must be a number, the first two must be followed by a dot, and
/// nothing may follow the third.
pub open spec fn version_of(s: Seq<char>) -> Result<Version, DecodeError> {
    let i = dot_from(s, 0);
    match segment_value(s.subrange(0, i)) {
        None => Err(DecodeError::InvalidInteger),
        Some(major) => if i >= s.len() {
            Err(DecodeError::MissingSegment)
        } else {
            let j = dot_from(s, i + 1);
            match segment_value(s.subrange(i + 1, j)) {
                None => Err(DecodeError::InvalidInteger),
                Some(minor) => if j >= s.len() {
                    Err(DecodeError::MissingSegment)
                } else {
                    let k = dot_from(s, j + 1);
                    match segment_value(s.subrange(j + 1, k)) {
                        None => Err(DecodeError::InvalidInteger),
                        Some(patch) => if k < s.len() {
                            Err(DecodeError::TooManySegments)
                        } else {
                            Ok(Version { major, minor, patch })
                        },
                    }
                },
            }
        },
    }
}

/// The text form of a version.
pub open spec fn version_text(v: Version) -> Seq<char> {
    decimal(v.major as nat) + seq!['.'] + decimal(v.minor as nat) + seq!['.'] + decimal(
        v.patch as nat,
    )
}

/// Relies on `u64`'s `Display` (through `to_string`): it writes the value in
/// decimal, with no sign, padding or leading zeros.
#[verifier::external_body]
pub(crate) fn u64_text(n: u64) -> (r: String)
    ensures
        r@ == decimal(n as nat),
{
    n.to_string()
}

/// The value of the segment `s[from..to]`, if it is one.
pub(crate) fn segment_at(s: &str, from: usize, to: usize) -> (r: Option<u64>)
    requires
        from <= to <= s@.len(),
    ensures
        r == segment_value(s@.subrange(from as int, to as int)),
{
    let ghost seg = s@.subrange(from as int, to as int);
    if from == to {
        return None;
    }
    let mut acc: u64 = 0;
    let mut i: usize = from;
    while i < to
        invariant
            from <= i <= to <= s@.len(),
            seg == s@.subrange(from as int, to as int),
            forall|k: int| 0 <= k < i - from ==> is_digit(#[trigger] seg[k]),
            acc as nat == digits_value(seg.subrange(0, i - from)),
        decreases to - i,
    {
        let c = s.get_char(i);
        let ghost pre = seg.subrange(0, i - from);
        let ghost next = seg.subrange(0, i + 1 - from);
        assert(next.drop_last() == pre);
        assert(next.last() == c);
        if !('0' <= c && c <= '9') {
            assert(!is_digit(seg[i - from]));
            return None;
        }
        let d = (c as u32 - '0' as u32) as u64;
        if acc > (u64::MAX - d) / 10 {
            proof {
                assert(acc * 10 + d > u64::MAX) by (nonlinear_arith)
                    requires
                        acc > (u64::MAX - d) / 10,
                        d <= 9,
                ;
                assert(digits_value(next) == acc * 10 + d);
                lemma_digits_value_prefix(seg, i + 1 - from, to - from);
                assert(seg.subrange(0, to - from) == seg);
            }
            return None;
        }
        acc = acc * 10 + d;
        i = i + 1;
    }
    assert(seg.subrange(0, to - from) == seg);
    Some(acc)
}

/// The value of a digit string is at least that of each of its prefixes.
proof fn lemma_digits_value_prefix(s: Seq<char>, k: int, n: int)
    requires
        0 <= k <= n <= s.len(),
    ensures
        digits_value(s.subrange(0, k)) <= digits_value(s.subrange(0, n)),
    decreases n - k,
{
    if k < n {
        lemma_digits_value_prefix(s, k, n - 1);
        assert(s.subrange(0, n).drop_last() == s.subrange(0, n - 1));
    }
}

/// The first index at or after `k` that holds a `.`, or the length of `s`.
fn find_dot(s: &str, k: usize, n: usize) -> (r: usize)
    requires
        n == s@.len(),
        k <= n,
    ensures
        r as int == dot_from(s@, k as int),
        k <= r <= n,
{
    let mut i: usize = k;
    while i < n
        invariant
            k <= i <= n == s@.len(),
            dot_from(s@, k as int) == dot_from(s@, i as int),
        decreases n - i,
    {
        if s.get_char(i) == '.' {
            return i;
        }
        i = i + 1;
    }
    i
}

impl Version {
    /// Parses `major.minor.patch`: exactly three dot-separated non-negative
    /// decimal integers, each fitting in 64 bits; the first fault from the
    /// left is the error.
    pub fn parse(text: &str) -> (r: Result<Version, DecodeError>)
        ensures
            r == version_of(text@),
    {
        let n = text.unicode_len();
        let i = find_dot(text, 0, n);
        let major = match segment_at(text, 0, i) {
            Some(x) => x,
            None => return Err(DecodeError::InvalidInteger),
        };
        if i == n {
            return Err(DecodeError::MissingSegment);
        }
        let j = find_dot(text, i + 1, n);
        let minor = match segment_at(text, i + 1, j) {
            Some(x) => x,
            None => return Err(DecodeError::InvalidInteger),
        };
        if j == n {
            return Err(DecodeError::MissingSegment);
        }
        let k = find_dot(text, j + 1, n);
        let patch = match segment_at(text, j + 1, k) {
            Some(x) => x,
            None => return Err(DecodeError::InvalidInteger),
        };
        if k < n {
            return Err(DecodeError::TooManySegments);
        }
        Ok(Version { major, minor, patch })
    }

    /// The text `major.minor.patch`, in decimal without padding.
    pub fn format(&self) -> (r: String)
        ensures
            r@ == version_text(*self),
    {
        let mut out = u64_text(self.major);
        out.append(".");
        let minor = u64_text(self.minor);
        out.append(minor.as_str());
        out.append(".");
        let patch = u64_text(self.patch);
        out.append(patch.as_str());
        proof {
            reveal_strlit(".");
        }
        out
    }
}

/// The decimal text of a number is a non-empty run of digits that denotes it.
pub proof fn lemma_decimal(n: nat)
    ensures
        decimal(n).len() > 0,
        forall|i: int| 0 <= i < decimal(n).len() ==> is_digit(#[trigger] decimal(n)[i]),
        digits_value(decimal(n)) == n,
    decreases n,
{
    if n < 10 {
        assert(decimal(n).drop_last() =~= Seq::<char>::empty());
        assert(digit_char(n) as nat - '0' as nat == n);
        assert(digits_value(decimal(n)) == digits_value(Seq::<char>::empty()) * 10 + (
        digit_char(n) as nat - '0' as nat) as nat);
    } else {
        lemma_decimal(n / 10);
        let s = decimal(n);
        assert(s.drop_last() == decimal(n / 10));
        assert(digit_char(n % 10) as nat - '0' as nat == n % 10);
        assert(n == (n / 10) * 10 + n % 10);
        assert(s.last() == digit_char(n % 10));
        assert forall|i: int| 0 <= i < s.len() implies is_digit(#[trigger] s[i]) by {
            if i < s.len() - 1 {
                assert(s[i] == decimal(n / 10)[i]);
            }
        }
    }
}

/// A segment that holds no dot runs up to the dot that follows it.
proof fn lemma_dot_after(s: Seq<char>, start: int, seg: Seq<char>)
    requires
        0 <= start,
        start + seg.len() < s.len(),
        s.subrange(start, start + seg.len()) == seg,
        s[start + seg.len()] == '.',
        forall|i: int| 0 <= i < seg.len() ==> is_digit(#[trigger] seg[i]),
    ensures
        dot_from(s, start) == start + seg.len(),
    decreases seg.len(),
{
    if seg.len() > 0 {
        assert(s[start] == seg[0]);
        let rest = seg.drop_first();
        assert(s.subrange(start + 1, start + 1 + rest.len()) == rest);
        assert forall|i: int| 0 <= i < rest.len() implies is_digit(#[trigger] rest[i]) by {
            assert(rest[i] == seg[i + 1]);
        }
        lemma_dot_after(s, start + 1, rest);
    }
}

/// A tail of digits holds no dot.
pub proof fn lemma_no_dot(s: Seq<char>, start: int)
    requires
        0 <= start <= s.len(),
        forall|i: int| start <= i < s.len() ==> is_digit(#[trigger] s[i]),
    ensures
        dot_from(s, start) == s.len(),
    decreases s.len() - start,
{
    if start < s.len() {
        lemma_no_dot(s, start + 1);
    }
}

/// Parsing the text form of a version gives the version back.
pub proof fn lemma_version_round_trip(v: Version)
    ensures
        version_of(version_text(v)) == Ok::<Version, DecodeError>(v),
{
    let a = decimal(v.major as nat);
    let b = decimal(v.minor as nat);
    let c = decimal(v.patch as nat);
    lemma_decimal(v.major as nat);
    lemma_decimal(v.minor as nat);
    lemma_decimal(v.patch as nat);
    let s = version_text(v);
    let i = a.len() as int;
    let j = i + 1 + b.len();
    assert(s.subrange(0, i) == a);
    assert(s.subrange(i + 1, j) == b);
    assert(s.subrange(j + 1, s.len() as int) == c);
    lemma_dot_after(s, 0, a);
    lemma_dot_after(s, i + 1, b);
    assert forall|k: int| j + 1 <= k < s.len() implies is_digit(#[trigger] s[k]) by {
        assert(s[k] == c[k - j - 1]);
    }
    lemma_no_dot(s, j + 1);
}

} // verus!
