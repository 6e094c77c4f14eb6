//! Parsing of one input line as a signed 32-bit mass.
//!
//! A line is accepted exactly when it is an optional leading `+` or `-`
//! sign followed by at least one ASCII decimal digit, and the signed value
//! of the digits lies in the range of `i32`.  Anything else — an empty
//! line, a lone sign, any other character, a value out of range — is a
//! parse failure for the whole line.

use vstd::prelude::*;

verus! {

/// `c` is an ASCII decimal digit.
pub open spec fn is_digit(c: char) -> bool {
    48 <= c as int <= 57
}

/// Numeric value of an ASCII decimal digit.
pub open spec fn digit_val(c: char) -> int {
    c as int - 48
}

/// Every character of `s` is an ASCII decimal digit.
pub open spec fn all_digits(s: Seq<char>) -> bool {
    forall|i: int| 0 <= i < s.len() ==> is_digit(#[trigger] s[i])
}

/// Value of a digit string, most significant digit first.
pub open spec fn digits_value(s: Seq<char>) -> int
    decreases s.len(),
{
    if s.len() == 0 {
        0
    } else {
        digits_value(s.drop_last()) * 10 + digit_val(s.last())
    }
}

/// The digit part of a literal: everything after an optional leading sign.
pub open spec fn digits_of(s: Seq<char>) -> Seq<char> {
    if s.len() > 0 && (s[0] == '+' || s[0] == '-') {
        s.subrange(1, s.len() as int)
    } else {
        s
    }
}

/// `s` has the shape of a signed decimal integer literal: an optional
/// leading sign followed by at least one ASCII decimal digit.
pub open spec fn is_integer_literal(s: Seq<char>) -> bool {
    digits_of(s).len() > 0 && all_digits(digits_of(s))
}

/// Signed mathematical value of a well-shaped literal.
pub open spec fn literal_value(s: Seq<char>) -> int {
    if s.len() > 0 && s[0] == '-' {
        -digits_value(digits_of(s))
    } else {
        digits_value(digits_of(s))
    }
}

/// `s` parses as an `i32` mass: well shaped, and the value is in range.
pub open spec fn parses_as_i32(s: Seq<char>) -> bool {
    &&& is_integer_literal(s)
    &&& i32::MIN <= literal_value(s) <= i32::MAX
}

/// The value of a digit string is never negative.
pub proof fn lemma_digits_value_nonneg(s: Seq<char>)
    requires
        all_digits(s),
    ensures
        digits_value(s) >= 0,
    decreases s.len(),
{
    if s.len() > 0 {
        assert(all_digits(s.drop_last()));
        lemma_digits_value_nonneg(s.drop_last());
    }
}

/// Dropping trailing digits cannot increase the value of a digit string.
pub proof fn lemma_digits_value_prefix_le(s: Seq<char>, n: int)
    requires
        all_digits(s),
        0 <= n <= s.len(),
    ensures
        digits_value(s.subrange(0, n)) <= digits_value(s),
    decreases s.len() - n,
{
    if n == s.len() {
        assert(s.subrange(0, n) =~= s);
    } else {
        let t = s.drop_last();
        assert(all_digits(t));
        assert(s.subrange(0, n) =~= t.subrange(0, n));
        lemma_digits_value_prefix_le(t, n);
        lemma_digits_value_nonneg(t);
    }
}

/// Parses one line as a mass.  Returns `Some` exactly when the line is an
/// optional sign followed by decimal digits whose signed value fits in an
/// `i32`, and then returns that value.
pub fn parse_mass(line: &str) -> (r: Option<i32>)
    ensures
        r is Some <==> parses_as_i32(line@),
        r is Some ==> r->0 as int == literal_value(line@),
{
    let ghost s = line@;
    let len = line.unicode_len();
    if len == 0 {
        return None;
    }
    let first = line.get_char(0);
    let neg = first == '-';
    let start: usize = if first == '-' || first == '+' {
        1
    } else {
        0
    };
    proof {
        assert(digits_of(s) =~= s.subrange(start as int, len as int));
    }
    if start >= len {
        // a lone sign has no digits
        return None;
    }
    let mut i = start;
    let mut acc: i64 = 0;
    while i < len
        invariant
            s == line@,
            len == s.len(),
            start <= i <= len,
            start <= 1,
            digits_of(s) =~= s.subrange(start as int, len as int),
            neg <==> (s.len() > 0 && s[0] == '-'),
            all_digits(s.subrange(start as int, i as int)),
            acc == digits_value(s.subrange(start as int, i as int)),
            0 <= acc <= 0x8000_0000,
        decreases len - i,
    {
        let c = line.get_char(i);
        let u = c as u32;
        if u < 48 || u > 57 {
            // a non-digit character makes the whole line unparseable
            proof {
                assert(!is_digit(digits_of(s)[i - start]));
            }
            return None;
        }
        let d = (u - 48) as i64;
        let ghost prefix = s.subrange(start as int, i as int);
        proof {
            assert(s.subrange(start as int, i as int + 1) =~= prefix.push(s[i as int]));
            assert(prefix.push(s[i as int]).drop_last() =~= prefix);
        }
        acc = acc * 10 + d;
        i = i + 1;
        if acc > 0x8000_0000 {
            // the digits seen so far already exceed the magnitude any i32
            // can hold, and further digits only grow the value
            proof {
                if is_integer_literal(s) {
                    lemma_digits_value_prefix_le(digits_of(s), i - start);
                    assert(digits_of(s).subrange(0, i - start)
                        =~= s.subrange(start as int, i as int));
                }
            }
            return None;
        }
    }
    proof {
        assert(s.subrange(start as int, i as int) =~= digits_of(s));
    }
    if neg {
        Some((-acc) as i32)
    } else if acc > 0x7fff_ffff {
        // the unsigned value is exactly 2^31: one past the largest i32
        None
    } else {
        Some(acc as i32)
    }
}

} // verus!
