//! Meaning and parsing of explicit hexadecimal base-address overrides.
//!
//! An override is written as a `0x`-prefixed hexadecimal string. The leading
//! `0x` markers are stripped (each repetition of the marker is discarded), and
//! what remains must be a nonempty string of hexadecimal digits whose value
//! fits in 64 bits; anything else is malformed.

use vstd::prelude::*;

verus! {

/// The override text with every leading `0x` marker discarded.
pub open spec fn strip_hex_marker(s: Seq<char>) -> Seq<char>
    decreases s.len(),
{
    if s.len() >= 2 && s[0] == '0' && s[1] == 'x' {
        strip_hex_marker(s.skip(2))
    } else {
        s
    }
}

/// `c` is a hexadecimal digit, in either case.
pub open spec fn is_hex_digit(c: char) -> bool {
    (('0' as u32) <= (c as u32) && (c as u32) <= ('9' as u32)) || (('a' as u32) <= (c as u32)
        && (c as u32) <= ('f' as u32)) || (('A' as u32) <= (c as u32) && (c as u32) <= ('F'
        as u32))
}

/// The numeric value of a hexadecimal digit.
pub open spec fn hex_digit_value(c: char) -> int {
    if ('0' as u32) <= (c as u32) && (c as u32) <= ('9' as u32) {
        (c as u32) - ('0' as u32)
    } else if ('a' as u32) <= (c as u32) && (c as u32) <= ('f' as u32) {
        10 + (c as u32) - ('a' as u32)
    } else {
        10 + (c as u32) - ('A' as u32)
    }
}

pub open spec fn all_hex_digits(s: Seq<char>) -> bool {
    forall|i: int| 0 <= i < s.len() ==> is_hex_digit(#[trigger] s[i])
}

/// The value of a hexadecimal digit string, most significant digit first.
pub open spec fn hex_value(s: Seq<char>) -> int
    decreases s.len(),
{
    if s.len() == 0 {
        0
    } else {
        16 * hex_value(s.drop_last()) + hex_digit_value(s.last())
    }
}

/// What an override means: `Some(v)` exactly when, after stripping the `0x`
/// markers, a nonempty all-hexadecimal digit string of value `v <= u64::MAX`
/// remains; `None` when the override is malformed.
pub open spec fn parse_hex_override(s: Seq<char>) -> Option<u64> {
    let t = strip_hex_marker(s);
    if t.len() > 0 && all_hex_digits(t) && hex_value(t) <= u64::MAX {
        Some(hex_value(t) as u64)
    } else {
        None
    }
}

pub proof fn lemma_hex_value_nonneg(s: Seq<char>)
    requires
        all_hex_digits(s),
    ensures
        hex_value(s) >= 0,
    decreases s.len(),
{
    if s.len() > 0 {
        assert(all_hex_digits(s.drop_last())) by {
            assert(forall|i: int|
                0 <= i < s.drop_last().len() ==> s.drop_last()[i] == #[trigger] s[i]);
        }
        lemma_hex_value_nonneg(s.drop_last());
        assert(is_hex_digit(s.last()));
    }
}

/// Once a prefix of an all-hexadecimal string exceeds a bound, the whole
/// string's value exceeds it too: appending digits never shrinks the value.
pub proof fn lemma_hex_value_prefix_le(s: Seq<char>, j: int)
    requires
        all_hex_digits(s),
        0 <= j <= s.len(),
    ensures
        hex_value(s.subrange(0, j)) <= hex_value(s),
    decreases s.len() - j,
{
    if j < s.len() {
        lemma_hex_value_prefix_le(s, j + 1);
        let p = s.subrange(0, j + 1);
        assert(p.drop_last() =~= s.subrange(0, j));
        assert(all_hex_digits(s.subrange(0, j))) by {
            assert(forall|i: int|
                0 <= i < j ==> s.subrange(0, j)[i] == #[trigger] s[i]);
        }
        lemma_hex_value_nonneg(s.subrange(0, j));
        assert(is_hex_digit(p.last())) by {
            assert(p.last() == s[j]);
        }
        assert(hex_value(p) == 16 * hex_value(s.subrange(0, j)) + hex_digit_value(s[j]));
    } else {
        assert(s.subrange(0, j) =~= s);
    }
}

/// The numeric value of a hexadecimal digit character, or `None` when the
/// character is no such digit.
fn hex_digit_of(c: char) -> (r: Option<u8>)
    ensures
        r matches Some(d) ==> is_hex_digit(c) && d == hex_digit_value(c),
        r is None ==> !is_hex_digit(c),
{
    let u = c as u32;
    if ('0' as u32) <= u && u <= ('9' as u32) {
        Some((u - ('0' as u32)) as u8)
    } else if ('a' as u32) <= u && u <= ('f' as u32) {
        Some((10 + u - ('a' as u32)) as u8)
    } else if ('A' as u32) <= u && u <= ('F' as u32) {
        Some((10 + u - ('A' as u32)) as u8)
    } else {
        None
    }
}

/// Parses an explicit base-address override, returning its value, or `None`
/// exactly when the override is malformed: no digit is left after the `0x`
/// markers, a character is no hexadecimal digit, or the value does not fit in
/// 64 bits.
pub fn parse_override(s: &str) -> (r: Option<u64>)
    ensures
        r == parse_hex_override(s@),
{
    let n = s.unicode_len();
    let mut start: usize = 0;
    proof {
        assert(s@.skip(0) =~= s@);
    }
    while n - start >= 2 && s.get_char(start) == '0' && s.get_char(start + 1) == 'x'
        invariant
            n == s@.len(),
            start <= n,
            strip_hex_marker(s@) == strip_hex_marker(s@.skip(start as int)),
        decreases n - start,
    {
        proof {
            let t = s@.skip(start as int);
            assert(t.len() >= 2 && t[0] == '0' && t[1] == 'x');
            assert(t.skip(2) =~= s@.skip(start as int + 2));
        }
        start += 2;
    }
    proof {
        let t = s@.skip(start as int);
        assert(!(t.len() >= 2 && t[0] == '0' && t[1] == 'x'));
        assert(strip_hex_marker(s@) == t);
    }
    let ghost t = s@.skip(start as int);
    if start == n {
        assert(t.len() == 0);
        return None;
    }
    let mut acc: u64 = 0;
    let mut i: usize = start;
    while i < n
        invariant
            n == s@.len(),
            t == s@.skip(start as int),
            t == strip_hex_marker(s@),
            start < n,
            start <= i <= n,
            all_hex_digits(t.subrange(0, i - start)),
            acc == hex_value(t.subrange(0, i - start)),
        decreases n - i,
    {
        let c = s.get_char(i);
        proof {
            assert(t[i - start] == s@[i as int]);
        }
        match hex_digit_of(c) {
            None => {
                assert(!all_hex_digits(t));
                return None;
            },
            Some(d) => {
                let ghost pre = t.subrange(0, i - start);
                let ghost ext = t.subrange(0, i - start + 1);
                proof {
                    assert(ext.drop_last() =~= pre);
                    assert(ext.last() == t[i - start]);
                    assert(hex_value(ext) == 16 * acc + hex_digit_value(c));
                    assert(all_hex_digits(ext));
                }
                let du = d as u64;
                if acc > (u64::MAX - du) / 16 {
                    proof {
                        vstd::arithmetic::div_mod::lemma_fundamental_div_mod(
                            (u64::MAX - du) as int,
                            16,
                        );
                        assert(16 * acc + du > u64::MAX);
                        if all_hex_digits(t) {
                            lemma_hex_value_prefix_le(t, i - start + 1);
                            assert(hex_value(t) > u64::MAX);
                        }
                    }
                    return None;
                }
                proof {
                    vstd::arithmetic::div_mod::lemma_fundamental_div_mod(
                        (u64::MAX - du) as int,
                        16,
                    );
                    assert(16 * acc + du <= u64::MAX);
                }
                acc = acc * 16 + du;
            },
        }
        i += 1;
    }
    proof {
        assert(t.subrange(0, n - start) =~= t);
    }
    Some(acc)
}

} // verus!
