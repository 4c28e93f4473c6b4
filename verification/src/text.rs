use vstd::prelude::*;
use vstd::string::is_ascii_spec_bytes;

verus! {

/// Whether `c` is one of the ten decimal digits.
pub open spec fn is_digit(c: char) -> bool {
    '0' <= c <= '9'
}

/// The number that the digit `c` stands for.
pub open spec fn digit_value(c: char) -> int {
    c as int - 48
}

/// The number that a run of decimal digits denotes, most significant first.
pub open spec fn decimal_value(s: Seq<char>) -> int
    decreases s.len(),
{
    if s.len() == 0 {
        0
    } else {
        10 * decimal_value(s.drop_last()) + digit_value(s.last())
    }
}

/// Whether `s` is a non-empty run of decimal digits.
pub open spec fn is_literal(s: Seq<char>) -> bool {
    s.len() > 0 && forall|i: int| 0 <= i < s.len() ==> is_digit(#[trigger] s[i])
}

/// The value of a number literal: defined for non-empty runs of decimal
/// digits, whatever their length.
pub open spec fn literal_value(s: Seq<char>) -> Option<int> {
    if is_literal(s) {
        Some(decimal_value(s))
    } else {
        None
    }
}

/// The value of a literal that fits under `max`, and nothing otherwise.
pub open spec fn bounded_literal(s: Seq<char>, max: int) -> Option<int> {
    match literal_value(s) {
        Some(v) => if v <= max {
            Some(v)
        } else {
            None
        },
        None => None,
    }
}

/// A run of digits is worth at least as much as each of its prefixes.
pub proof fn lemma_decimal_value_prefix(s: Seq<char>, n: int)
    requires
        0 <= n <= s.len(),
        forall|i: int| 0 <= i < s.len() ==> is_digit(#[trigger] s[i]),
    ensures
        0 <= decimal_value(s.take(n)) <= decimal_value(s),
    decreases s.len() - n,
{
    if n == s.len() {
        assert(s.take(n) =~= s);
        lemma_decimal_value_nonnegative(s);
    } else {
        lemma_decimal_value_prefix(s, n + 1);
        let t = s.take(n + 1);
        assert(t.drop_last() =~= s.take(n));
        assert(t.last() == s[n]);
        lemma_decimal_value_nonnegative(s.take(n));
    }
}

/// A run of digits denotes a natural number.
pub proof fn lemma_decimal_value_nonnegative(s: Seq<char>)
    requires
        forall|i: int| 0 <= i < s.len() ==> is_digit(#[trigger] s[i]),
    ensures
        0 <= decimal_value(s),
    decreases s.len(),
{
    if s.len() > 0 {
        lemma_decimal_value_nonnegative(s.drop_last());
    }
}

/// Reads a number literal that must not exceed `max`.
pub fn parse_literal(s: &str, max: u64) -> (r: Option<u64>)
    ensures
        match bounded_literal(s@, max as int) {
            Some(v) => 0 <= v <= max && r == Some(v as u64),
            None => r is None,
        },
{
    proof {
        if is_literal(s@) {
            lemma_decimal_value_nonnegative(s@);
        }
    }
    if !s.is_ascii() {
        proof {
            if is_literal(s@) {
                let i = choose|i: int| 0 <= i < s@.len() && !('\0' <= #[trigger] s@[i] <= '\u{7f}');
                assert(is_digit(s@[i]));
            }
        }
        return None;
    }
    let bytes = s.as_bytes();
    proof {
        is_ascii_spec_bytes(s);
    }
    let n = bytes.len();
    if n == 0 {
        return None;
    }
    let mut acc: u64 = 0;
    let mut i: usize = 0;
    while i < n
        invariant
            0 <= i <= n,
            n == bytes@.len(),
            n == s@.len(),
            n > 0,
            forall|k: int| 0 <= k < n ==> bytes@[k] == s@[k] as u8,
            forall|k: int| 0 <= k < n ==> '\0' <= #[trigger] s@[k] <= '\u{7f}',
            forall|k: int| 0 <= k < i ==> is_digit(#[trigger] s@[k]),
            acc == decimal_value(s@.take(i as int)),
            acc <= max,
        decreases n - i,
    {
        let b = bytes[i];
        if b < 48 || b > 57 {
            assert(!is_digit(s@[i as int]));
            return None;
        }
        let d: u64 = (b - 48) as u64;
        proof {
            let t = s@.take(i + 1);
            assert(t.drop_last() =~= s@.take(i as int));
            assert(t.last() == s@[i as int]);
            assert(digit_value(s@[i as int]) == d);
            assert(decimal_value(t) == 10 * acc + d);
        }
        if d > max || acc > (max - d) / 10 {
            proof {
                assert(10 * acc + d > max);
                if is_literal(s@) {
                    lemma_decimal_value_prefix(s@, i + 1);
                }
            }
            return None;
        }
        acc = acc * 10 + d;
        i += 1;
    }
    proof {
        assert(s@.take(n as int) =~= s@);
    }
    Some(acc)
}

} // verus!
