//! Hexadecimal color parsing.
//!
//! `parse_color` turns a configured accent-color string such as `"#5865F2"`
//! into its numeric value, falling back to a caller-supplied default when the
//! string is not a hexadecimal number or does not fit in 32 bits.  The exact
//! grammar accepted after the leading `#` characters are stripped: an
//! optional sign, then one or more hexadecimal digits; a `-` sign is only
//! accepted for the value zero.

use vstd::prelude::*;

verus! {

/// Whether `c` is a hexadecimal digit.
pub open spec fn is_hex_digit(c: char) -> bool {
    ('0' as u32 <= c as u32 && c as u32 <= '9' as u32) || ('a' as u32 <= c as u32 && c as u32
        <= 'f' as u32) || ('A' as u32 <= c as u32 && c as u32 <= 'F' as u32)
}

/// The numeric value of a hexadecimal digit.
pub open spec fn hex_digit_value(c: char) -> int {
    if '0' as u32 <= c as u32 && c as u32 <= '9' as u32 {
        c as u32 - '0' as u32
    } else if 'a' as u32 <= c as u32 && c as u32 <= 'f' as u32 {
        c as u32 - 'a' as u32 + 10
    } else {
        c as u32 - 'A' as u32 + 10
    }
}

/// Whether every character of `s` is a hexadecimal digit.
pub open spec fn all_hex(s: Seq<char>) -> bool {
    forall|i: int| 0 <= i < s.len() ==> is_hex_digit(s[i])
}

/// The value of a sequence of hexadecimal digits, most significant first.
pub open spec fn hex_value(s: Seq<char>) -> int
    decreases s.len(),
{
    if s.len() == 0 {
        0
    } else {
        hex_value(s.drop_last()) * 16 + hex_digit_value(s.last())
    }
}

/// `s` with every leading `#` removed.
pub open spec fn strip_hashes(s: Seq<char>) -> Seq<char>
    decreases s.len(),
{
    if s.len() > 0 && s[0] == '#' {
        strip_hashes(s.skip(1))
    } else {
        s
    }
}

/// The 32-bit number a string parses to as base-16, if any: an optional
/// sign followed by at least one hexadecimal digit, with the value in range;
/// a `-` sign is only accepted for the value zero.
pub open spec fn parse_radix16_u32(s: Seq<char>) -> Option<int> {
    let neg = s.len() > 0 && s[0] == '-';
    let digits = if s.len() > 0 && (s[0] == '+' || s[0] == '-') {
        s.skip(1)
    } else {
        s
    };
    if digits.len() > 0 && all_hex(digits) {
        if neg {
            if hex_value(digits) == 0 {
                Some(0)
            } else {
                Option::<int>::None
            }
        } else if hex_value(digits) <= u32::MAX as int {
            Some(hex_value(digits))
        } else {
            Option::<int>::None
        }
    } else {
        Option::<int>::None
    }
}

proof fn lemma_strip_hashes_at(s: Seq<char>, k: int)
    requires
        0 <= k <= s.len(),
        forall|j: int| 0 <= j < k ==> s[j] == '#',
        k < s.len() ==> s[k] != '#',
    ensures
        strip_hashes(s) == s.skip(k),
    decreases k,
{
    if k == 0 {
        assert(s.skip(0) =~= s);
    } else {
        assert(s[0] == '#');
        lemma_strip_hashes_at(s.skip(1), k - 1);
        assert(s.skip(1).skip(k - 1) =~= s.skip(k));
    }
}

proof fn lemma_hex_value_nonneg(s: Seq<char>)
    requires
        all_hex(s),
    ensures
        hex_value(s) >= 0,
    decreases s.len(),
{
    if s.len() > 0 {
        assert(all_hex(s.drop_last()));
        lemma_hex_value_nonneg(s.drop_last());
        assert(is_hex_digit(s.last()));
        assert(hex_digit_value(s.last()) >= 0);
        assert(hex_value(s) == hex_value(s.drop_last()) * 16 + hex_digit_value(s.last()));
    }
}

proof fn lemma_hex_value_take_le(s: Seq<char>, k: int)
    requires
        all_hex(s),
        0 <= k <= s.len(),
    ensures
        hex_value(s.take(k)) <= hex_value(s),
    decreases s.len() - k,
{
    if k == s.len() {
        assert(s.take(k) =~= s);
    } else {
        lemma_hex_value_take_le(s, k + 1);
        let t = s.take(k + 1);
        assert(t.drop_last() =~= s.take(k));
        assert(all_hex(s.take(k)));
        lemma_hex_value_nonneg(s.take(k));
        assert(t.last() == s[k]);
        assert(is_hex_digit(t.last()));
        assert(hex_digit_value(t.last()) >= 0);
        assert(hex_value(t) == hex_value(s.take(k)) * 16 + hex_digit_value(t.last()));
        assert(hex_value(s.take(k)) <= hex_value(t));
    }
}

/// Parses a hexadecimal color string, with any number of leading `#`
/// characters stripped first, and returns `fallback` when what remains is
/// not a base-16 number that fits in 32 bits.
pub fn parse_color(hex: &str, fallback: u32) -> (r: u32)
    ensures
        r as int == (match parse_radix16_u32(strip_hashes(hex@)) {
            Some(v) => v,
            None => fallback as int,
        }),
{
    let n = hex.unicode_len();
    let mut start: usize = 0;
    while start < n && hex.get_char(start) == '#'
        invariant
            n == hex@.len(),
            0 <= start <= n,
            forall|j: int| 0 <= j < start ==> hex@[j] == '#',
        decreases n - start,
    {
        start += 1;
    }
    proof {
        lemma_strip_hashes_at(hex@, start as int);
    }
    let ghost stripped = hex@.skip(start as int);
    let mut i: usize = start;
    let mut neg = false;
    if i < n {
        let c = hex.get_char(i);
        if c == '+' {
            i += 1;
        } else if c == '-' {
            neg = true;
            i += 1;
        }
    }
    let ghost d0 = i as int;
    let ghost digits = hex@.subrange(d0, n as int);
    proof {
        assert(digits =~= if stripped.len() > 0 && (stripped[0] == '+' || stripped[0]
            == '-') {
            stripped.skip(1)
        } else {
            stripped
        });
    }
    proof {
        if stripped.len() > 0 {
            assert(stripped[0] == hex@[start as int]);
        }
    }
    if i == n {
        // no digits at all
        return fallback;
    }
    let mut value: u64 = 0;
    while i < n
        invariant
            n == hex@.len(),
            0 <= d0 <= i as int <= n,
            digits == hex@.subrange(d0, n as int),
            stripped == strip_hashes(hex@),
            neg == (stripped.len() > 0 && stripped[0] == '-'),
            digits == (if stripped.len() > 0 && (stripped[0] == '+' || stripped[0] == '-') {
                stripped.skip(1)
            } else {
                stripped
            }),
            digits.len() > 0,
            all_hex(digits.take(i - d0)),
            value as int == hex_value(digits.take(i - d0)),
            value <= 0xFFFF_FFFFu64,
        decreases n - i,
    {
        let c = hex.get_char(i);
        let u = c as u32;
        let d: u32 = if 48 <= u && u <= 57 {
            u - 48
        } else if 97 <= u && u <= 102 {
            u - 87
        } else if 65 <= u && u <= 70 {
            u - 55
        } else {
            // not a hexadecimal digit: the whole string is rejected
            assert(digits[i - d0] == c);
            assert(!all_hex(digits));
            return fallback;
        };
        proof {
            let t = digits.take(i - d0 + 1);
            assert(t.drop_last() =~= digits.take(i - d0));
            assert(t.last() == digits[i - d0]);
            assert(digits[i - d0] == c);
            assert(is_hex_digit(c));
            assert(d as int == hex_digit_value(c));
        }
        value = value * 16 + d as u64;
        i += 1;
        if value > 0xFFFF_FFFF {
            // the value can only grow from here: reject
            proof {
                if all_hex(digits) {
                    lemma_hex_value_take_le(digits, i - d0);
                    assert(hex_value(digits) > u32::MAX as int);
                }
            }
            return fallback;
        }
    }
    proof {
        assert(digits.take(n - d0) =~= digits);
    }
    if neg {
        if value > 0 {
            fallback
        } else {
            0
        }
    } else {
        value as u32
    }
}

} // verus!
