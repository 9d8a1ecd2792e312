//! Byte-level parsing of the small line formats the data sources
//! speak: unsigned decimal numbers, the window manager's event lines,
//! and the kernel's CPU statistics line.

use vstd::prelude::*;

verus! {

/// Whether every byte of the sequence is an ASCII digit.
pub open spec fn spec_all_digits(s: Seq<u8>) -> bool {
    forall|i: int| 0 <= i < s.len() ==> 0x30 <= #[trigger] s[i] <= 0x39
}

/// The number the digit sequence denotes, most significant first.
pub open spec fn spec_decimal_value(s: Seq<u8>) -> int
    decreases s.len(),
{
    if s.len() == 0 {
        0
    } else {
        spec_decimal_value(s.drop_last()) * 10 + (s.last() - 0x30)
    }
}

/// Parses a whole byte string as an unsigned decimal number: succeeds
/// exactly on non-empty all-digit input whose value fits in `u32`.
pub fn parse_u32(s: &[u8]) -> (r: Option<u32>)
    ensures
        match r {
            Option::Some(n) => s@.len() > 0 && spec_all_digits(s@) && n == spec_decimal_value(s@)
                && spec_decimal_value(s@) <= u32::MAX,
            Option::None => s@.len() == 0 || !spec_all_digits(s@) || spec_decimal_value(s@)
                > u32::MAX,
        },
{
    if s.len() == 0 {
        return Option::None;
    }
    let mut value: u64 = 0;
    let mut i: usize = 0;
    while i < s.len()
        invariant
            i <= s@.len(),
            forall|j: int| 0 <= j < i ==> 0x30 <= #[trigger] s@[j] <= 0x39,
            value == spec_decimal_value(s@.take(i as int)),
            value <= u32::MAX,
        decreases s@.len() - i,
    {
        let b = s[i];
        if b < 0x30 || b > 0x39 {
            return Option::None;
        }
        proof {
            assert(s@.take(i as int + 1).drop_last() =~= s@.take(i as int));
            assert(s@.take(i as int + 1).last() == s@[i as int]);
        }
        value = value * 10 + (b - 0x30) as u64;
        if value > u32::MAX as u64 {
            proof {
                if spec_all_digits(s@) {
                    lemma_decimal_value_monotone(s@, i as int + 1);
                }
            }
            return Option::None;
        }
        i = i + 1;
    }
    proof {
        assert(s@.take(s@.len() as int) =~= s@);
    }
    Option::Some(value as u32)
}

/// A longer digit prefix never denotes a smaller number.
proof fn lemma_decimal_value_monotone(s: Seq<u8>, n: int)
    requires
        0 <= n <= s.len(),
        spec_all_digits(s),
    ensures
        spec_decimal_value(s.take(n)) <= spec_decimal_value(s),
    decreases s.len() - n,
{
    if n < s.len() {
        lemma_decimal_value_monotone(s, n + 1);
        assert(s.take(n + 1).drop_last() =~= s.take(n));
        assert(s.take(n + 1).last() == s[n]);
        let v = spec_decimal_value(s.take(n));
        assert(spec_decimal_value(s.take(n + 1)) == v * 10 + (s[n] - 0x30));
        lemma_decimal_nonneg(s.take(n));
        assert(v <= v * 10) by (nonlinear_arith)
            requires
                0 <= v,
        ;
    } else {
        assert(s.take(n) =~= s);
    }
}

/// A digit sequence denotes a number, never a deficit.
proof fn lemma_decimal_nonneg(s: Seq<u8>)
    ensures
        spec_all_digits(s) ==> 0 <= spec_decimal_value(s),
    decreases s.len(),
{
    if s.len() > 0 {
        lemma_decimal_nonneg(s.drop_last());
        if spec_all_digits(s) {
            assert(spec_all_digits(s.drop_last()));
            let v = spec_decimal_value(s.drop_last());
            assert(0 <= v * 10) by (nonlinear_arith)
                requires
                    0 <= v,
            ;
        }
    }
}

/// Parses a whole byte string as an unsigned decimal number: succeeds
/// exactly on non-empty all-digit input whose value fits in `u64`.
pub fn parse_u64(s: &[u8]) -> (r: Option<u64>)
    ensures
        match r {
            Option::Some(n) => s@.len() > 0 && spec_all_digits(s@) && n == spec_decimal_value(s@)
                && spec_decimal_value(s@) <= u64::MAX,
            Option::None => s@.len() == 0 || !spec_all_digits(s@) || spec_decimal_value(s@)
                > u64::MAX,
        },
{
    if s.len() == 0 {
        return Option::None;
    }
    let mut value: u128 = 0;
    let mut i: usize = 0;
    while i < s.len()
        invariant
            i <= s@.len(),
            forall|j: int| 0 <= j < i ==> 0x30 <= #[trigger] s@[j] <= 0x39,
            value == spec_decimal_value(s@.take(i as int)),
            value <= u64::MAX,
        decreases s@.len() - i,
    {
        let b = s[i];
        if b < 0x30 || b > 0x39 {
            return Option::None;
        }
        proof {
            assert(s@.take(i as int + 1).drop_last() =~= s@.take(i as int));
            assert(s@.take(i as int + 1).last() == s@[i as int]);
        }
        value = value * 10 + (b - 0x30) as u128;
        if value > u64::MAX as u128 {
            proof {
                if spec_all_digits(s@) {
                    lemma_decimal_value_monotone(s@, i as int + 1);
                }
            }
            return Option::None;
        }
        i = i + 1;
    }
    proof {
        assert(s@.take(s@.len() as int) =~= s@);
    }
    Option::Some(value as u64)
}

/// First position at or after `p` holding something besides a space.
pub open spec fn spec_skip_spaces(s: Seq<u8>, p: int) -> int
    decreases s.len() - p,
    when 0 <= p <= s.len()
{
    if p >= s.len() || s[p] != 0x20 {
        p
    } else {
        spec_skip_spaces(s, p + 1)
    }
}

/// First position at or after `p` holding a space, or the end.
pub open spec fn spec_token_end(s: Seq<u8>, p: int) -> int
    decreases s.len() - p,
    when 0 <= p <= s.len()
{
    if p >= s.len() || s[p] == 0x20 {
        p
    } else {
        spec_token_end(s, p + 1)
    }
}

/// The next space-separated field at or after `p`: start past any
/// spaces, end at the next space or the end of input. An empty field
/// means the input is exhausted.
pub open spec fn spec_field(s: Seq<u8>, p: int) -> (int, int) {
    let a = spec_skip_spaces(s, p);
    (a, spec_token_end(s, a))
}

/// The bounds of the next field, exactly as `spec_field` places them.
pub fn next_field(s: &[u8], p: usize) -> (r: (usize, usize))
    requires
        p <= s@.len(),
    ensures
        (r.0 as int, r.1 as int) == spec_field(s@, p as int),
        p <= r.0 <= r.1 <= s@.len(),
{
    let mut a = p;
    while a < s.len() && s[a] == 0x20
        invariant
            p <= a <= s@.len(),
            spec_skip_spaces(s@, p as int) == spec_skip_spaces(s@, a as int),
        decreases s@.len() - a,
    {
        a = a + 1;
    }
    let mut b = a;
    while b < s.len() && s[b] != 0x20
        invariant
            a <= b <= s@.len(),
            spec_token_end(s@, a as int) == spec_token_end(s@, b as int),
        decreases s@.len() - b,
    {
        b = b + 1;
    }
    (a, b)
}

/// First position at or after `p` holding `b`, or the end.
pub open spec fn spec_find_from(s: Seq<u8>, p: int, b: u8) -> int
    decreases s.len() - p,
    when 0 <= p <= s.len()
{
    if p >= s.len() || s[p] == b {
        p
    } else {
        spec_find_from(s, p + 1, b)
    }
}

/// First position of `b`, exactly as `spec_find_from` places it.
pub fn find_from(s: &[u8], p: usize, b: u8) -> (r: usize)
    requires
        p <= s@.len(),
    ensures
        r == spec_find_from(s@, p as int, b),
        p <= r <= s@.len(),
{
    let mut i = p;
    while i < s.len() && s[i] != b
        invariant
            p <= i <= s@.len(),
            spec_find_from(s@, p as int, b) == spec_find_from(s@, i as int, b),
        decreases s@.len() - i,
    {
        i = i + 1;
    }
    i
}

/// Index of the first occurrence of `b`, if any.
pub fn find_byte(s: &[u8], b: u8) -> (r: Option<usize>)
    ensures
        match r {
            Option::Some(i) => i < s@.len() && s@[i as int] == b && forall|j: int|
                0 <= j < i ==> s@[j] != b,
            Option::None => forall|j: int| 0 <= j < s@.len() ==> s@[j] != b,
        },
{
    let mut i: usize = 0;
    while i < s.len()
        invariant
            i <= s@.len(),
            forall|j: int| 0 <= j < i ==> s@[j] != b,
        decreases s@.len() - i,
    {
        if s[i] == b {
            return Option::Some(i);
        }
        i = i + 1;
    }
    Option::None
}

} // verus!
