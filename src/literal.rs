//! Conversion of numeric literal text.
use vstd::prelude::*;

verus! {

pub open spec fn is_decimal_digit(c: char) -> bool {
    '0' <= c && c <= '9'
}

pub open spec fn digit_value(c: char) -> int {
    (c as u32) as int - 48
}

/// The value of a run of decimal digits, most significant first.
pub open spec fn digits_value(s: Seq<char>) -> int
    decreases s.len(),
{
    if s.len() == 0 {
        0
    } else {
        digits_value(s.drop_last()) * 10 + digit_value(s.last())
    }
}

pub open spec fn all_digits(s: Seq<char>) -> bool {
    forall|i: int| 0 <= i < s.len() ==> is_decimal_digit(#[trigger] s[i])
}

/// The length of an integer literal's sign: one where it starts with `+`
/// or `-`, else zero.
pub open spec fn sign_len(s: Seq<char>) -> int {
    if s.len() > 0 && (s[0] == '+' || s[0] == '-') {
        1
    } else {
        0
    }
}

/// The digits of an integer literal, after its sign.
pub open spec fn magnitude_digits(s: Seq<char>) -> Seq<char> {
    s.subrange(sign_len(s), s.len() as int)
}

/// What an integer literal stands for: an optional `+` or `-` followed by a
/// non-empty run of decimal digits, whose signed value fits in `i64`.
pub open spec fn integer_value(s: Seq<char>) -> Option<i64> {
    let d = magnitude_digits(s);
    let v = if s.len() > 0 && s[0] == '-' {
        -digits_value(d)
    } else {
        digits_value(d)
    };
    if d.len() > 0 && all_digits(d) && i64::MIN <= v <= i64::MAX {
        Some(v as i64)
    } else {
        None
    }
}

/// Whether a float literal is well formed: decimal digits, at least one of
/// them, with at most one `.` among them. This is the language's own rule.
/// On the texts the scanner makes (digits, `_` and `.`, starting with a
/// digit) it accepts exactly what `f64`'s parser accepts; on other texts it
/// is stricter, rejecting forms such as `1e5`, `+1.5` or `inf`.
pub open spec fn float_well_formed(s: Seq<char>) -> bool {
    &&& forall|i: int| 0 <= i < s.len() ==> is_decimal_digit(#[trigger] s[i]) || s[i] == '.'
    &&& exists|i: int| 0 <= i < s.len() && is_decimal_digit(#[trigger] s[i])
    &&& forall|i: int, j: int| 0 <= i < j < s.len() && #[trigger] s[i] == '.' ==> #[trigger] s[j] != '.'
}

proof fn lemma_digits_value_grows(s: Seq<char>, i: int)
    requires
        all_digits(s),
        0 <= i <= s.len(),
    ensures
        0 <= digits_value(s.subrange(0, i)) <= digits_value(s),
    decreases s.len() - i,
{
    if i < s.len() {
        lemma_digits_value_grows(s, i + 1);
        let p = s.subrange(0, i + 1);
        assert(p.drop_last() =~= s.subrange(0, i));
    } else {
        assert(s.subrange(0, i) =~= s);
    }
    lemma_digits_value_nonneg(s.subrange(0, i));
}

proof fn lemma_digits_value_nonneg(s: Seq<char>)
    requires
        all_digits(s),
    ensures
        digits_value(s) >= 0,
    decreases s.len(),
{
    if s.len() > 0 {
        lemma_digits_value_nonneg(s.drop_last());
    }
}

/// Converts integer literal text to its value; `None` where the text is not
/// an optional sign followed by decimal digits, or its value does not fit
/// in `i64`.
pub fn parse_integer(text: &str) -> (r: Option<i64>)
    ensures
        r == integer_value(text@),
{
    let cs = crate::text::chars_of(text);
    let n = cs.len();
    let neg = n > 0 && cs[0] == '-';
    let start: usize = if n > 0 && (cs[0] == '+' || cs[0] == '-') {
        1
    } else {
        0
    };
    let ghost d = magnitude_digits(text@);
    proof {
        assert(d =~= cs@.subrange(start as int, n as int));
    }
    if start == n {
        return None;
    }
    let limit: u64 = if neg {
        9223372036854775808u64
    } else {
        9223372036854775807u64
    };
    let mut i: usize = start;
    let mut acc: u64 = 0;
    proof {
        assert(cs@.subrange(start as int, start as int) =~= Seq::<char>::empty());
    }
    while i < n
        invariant
            cs@ == text@,
            n == cs@.len(),
            start <= i <= n,
            d == cs@.subrange(start as int, n as int),
            d == magnitude_digits(text@),
            neg == (text@.len() > 0 && text@[0] == '-'),
            limit == if neg {
                9223372036854775808u64
            } else {
                9223372036854775807u64
            },
            all_digits(cs@.subrange(start as int, i as int)),
            acc as int == digits_value(cs@.subrange(start as int, i as int)),
            acc <= limit,
        decreases n - i,
    {
        let c = cs[i];
        if !('0' <= c && c <= '9') {
            assert(!all_digits(d)) by {
                assert(d[i - start] == c);
            }
            return None;
        }
        let digit = (c as u32 - 48) as u64;
        proof {
            let p = cs@.subrange(start as int, i + 1);
            assert(p.drop_last() =~= cs@.subrange(start as int, i as int));
        }
        let bound = (limit - digit) / 10;
        if acc > bound {
            proof {
                assert(acc * 10 + digit > limit) by (nonlinear_arith)
                    requires
                        acc > bound,
                        bound == (limit - digit) / 10,
                        0 <= digit <= 9,
                        digit <= limit,
                ;
                if all_digits(d) {
                    lemma_digits_value_grows(d, i + 1 - start);
                    assert(d.subrange(0, i + 1 - start) =~= cs@.subrange(start as int, i + 1));
                }
            }
            return None;
        }
        assert(acc * 10 + digit <= limit) by (nonlinear_arith)
            requires
                acc <= bound,
                bound == (limit - digit) / 10,
                0 <= digit <= 9,
                digit <= limit,
        ;
        acc = acc * 10 + digit;
        i = i + 1;
    }
    proof {
        assert(cs@.subrange(start as int, n as int) == d);
    }
    if neg {
        if acc == 9223372036854775808u64 {
            Some(i64::MIN)
        } else {
            Some(-(acc as i64))
        }
    } else {
        Some(acc as i64)
    }
}

/// Whether float literal text is well formed.
pub fn float_literal_ok(text: &str) -> (r: bool)
    ensures
        r == float_well_formed(text@),
{
    let cs = crate::text::chars_of(text);
    let n = cs.len();
    let mut i: usize = 0;
    let mut dot: Option<usize> = None;
    let mut digit = false;
    while i < n
        invariant
            cs@ == text@,
            n == cs@.len(),
            i <= n,
            forall|k: int| 0 <= k < i ==> is_decimal_digit(#[trigger] cs@[k]) || cs@[k] == '.',
            digit == exists|k: int| 0 <= k < i && is_decimal_digit(#[trigger] cs@[k]),
            dot is None ==> forall|k: int| 0 <= k < i ==> cs@[k] != '.',
            dot is Some ==> dot->0 < i && cs@[dot->0 as int] == '.' && forall|k: int|
                0 <= k < i && k != dot->0 ==> cs@[k] != '.',
        decreases n - i,
    {
        let c = cs[i];
        if '0' <= c && c <= '9' {
            digit = true;
        } else if c == '.' {
            if dot.is_some() {
                let j = dot.unwrap();
                assert(cs@[j as int] == '.' && cs@[i as int] == '.');
                return false;
            }
            dot = Some(i);
        } else {
            return false;
        }
        i = i + 1;
    }
    digit
}

} // verus!
