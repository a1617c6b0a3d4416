//! Decimal numerals: rendering an id as a decimal string and parsing a
//! path segment back into a row id.

use vstd::prelude::*;

verus! {

/// The character for a single decimal digit value.
pub open spec fn digit_char(d: int) -> char {
    if d == 0 {
        '0'
    } else if d == 1 {
        '1'
    } else if d == 2 {
        '2'
    } else if d == 3 {
        '3'
    } else if d == 4 {
        '4'
    } else if d == 5 {
        '5'
    } else if d == 6 {
        '6'
    } else if d == 7 {
        '7'
    } else if d == 8 {
        '8'
    } else {
        '9'
    }
}

/// Decimal digits of a non-negative number, most significant first.
pub open spec fn dec_digits(n: int) -> Seq<char>
    decreases n,
{
    if n < 10 {
        seq![digit_char(n)]
    } else {
        dec_digits(n / 10).push(digit_char(n % 10))
    }
}

/// Decimal rendering of a signed number.
pub open spec fn dec_str(n: int) -> Seq<char> {
    if n < 0 {
        seq!['-'] + dec_digits(-n)
    } else {
        dec_digits(n)
    }
}

/// Whether `c` is an ASCII decimal digit.
pub open spec fn is_digit(c: char) -> bool {
    '0' as int <= c as int <= '9' as int
}

/// The numeric value of a decimal digit character.
pub open spec fn digit_val(c: char) -> int {
    c as int - '0' as int
}

/// Whether every character of `s` is a decimal digit.
pub open spec fn all_digits(s: Seq<char>) -> bool {
    forall|i: int| 0 <= i < s.len() ==> is_digit(#[trigger] s[i])
}

/// The number denoted by a sequence of decimal digits, most significant
/// first.
pub open spec fn dec_value(s: Seq<char>) -> int
    decreases s.len(),
{
    if s.len() == 0 {
        0
    } else {
        dec_value(s.drop_last()) * 10 + digit_val(s.last())
    }
}

/// Whether `s` is an optionally signed run of decimal digits, the shape
/// accepted when parsing an integer.
pub open spec fn int_literal_ok(s: Seq<char>) -> bool {
    if s.len() == 0 {
        false
    } else if s[0] == '+' || s[0] == '-' {
        s.len() >= 2 && all_digits(s.subrange(1, s.len() as int))
    } else {
        all_digits(s)
    }
}

/// The value denoted by an optionally signed run of decimal digits.
pub open spec fn int_literal_value(s: Seq<char>) -> int {
    if s.len() == 0 {
        0
    } else if s[0] == '-' {
        -dec_value(s.subrange(1, s.len() as int))
    } else if s[0] == '+' {
        dec_value(s.subrange(1, s.len() as int))
    } else {
        dec_value(s)
    }
}

/// Whether `s` parses as an `i32`: well shaped and within range.
pub open spec fn parse_i32_ok(s: Seq<char>) -> bool {
    int_literal_ok(s) && -0x8000_0000 <= int_literal_value(s) <= 0x7fff_ffff
}

/// A one-character string for a decimal digit value.
fn digit_str(d: u32) -> (r: &'static str)
    requires
        d < 10,
    ensures
        r@ == seq![digit_char(d as int)],
{
    proof {
        reveal_strlit("0");
        reveal_strlit("1");
        reveal_strlit("2");
        reveal_strlit("3");
        reveal_strlit("4");
        reveal_strlit("5");
        reveal_strlit("6");
        reveal_strlit("7");
        reveal_strlit("8");
        reveal_strlit("9");
    }
    let r: &'static str = if d == 0 {
        "0"
    } else if d == 1 {
        "1"
    } else if d == 2 {
        "2"
    } else if d == 3 {
        "3"
    } else if d == 4 {
        "4"
    } else if d == 5 {
        "5"
    } else if d == 6 {
        "6"
    } else if d == 7 {
        "7"
    } else if d == 8 {
        "8"
    } else {
        "9"
    };
    proof {
        assert(r@ =~= seq![digit_char(d as int)]);
    }
    r
}

/// Renders a non-negative number in decimal.
pub fn u32_to_string(n: u32) -> (r: String)
    ensures
        r@ == dec_digits(n as int),
    decreases n,
{
    if n < 10 {
        String::from_str(digit_str(n))
    } else {
        let mut s = u32_to_string(n / 10);
        s.append(digit_str(n % 10));
        proof {
            assert(s@ =~= dec_digits(n as int));
        }
        s
    }
}

/// Renders a signed number in decimal, as `i32::to_string` does.
pub fn i32_to_string(n: i32) -> (r: String)
    ensures
        r@ == dec_str(n as int),
{
    proof {
        reveal_strlit("-");
    }
    if n < 0 {
        let magnitude: u32 = (-(n as i64)) as u32;
        let mut s = String::from_str("-");
        let digits = u32_to_string(magnitude);
        s.append(digits.as_str());
        proof {
            assert(s@ =~= dec_str(n as int));
        }
        s
    } else {
        u32_to_string(n as u32)
    }
}

proof fn lemma_dec_value_nonneg(s: Seq<char>)
    requires
        all_digits(s),
    ensures
        dec_value(s) >= 0,
    decreases s.len(),
{
    if s.len() > 0 {
        assert(all_digits(s.drop_last()));
        lemma_dec_value_nonneg(s.drop_last());
    }
}

/// The value of a digit string only grows as digits are appended.
proof fn lemma_dec_value_prefix(s: Seq<char>, i: int)
    requires
        all_digits(s),
        0 <= i <= s.len(),
    ensures
        dec_value(s.subrange(0, i)) <= dec_value(s),
    decreases s.len() - i,
{
    if i == s.len() {
        assert(s.subrange(0, i) =~= s);
    } else {
        let p = s.subrange(0, i);
        let q = s.subrange(0, i + 1);
        assert(q.drop_last() =~= p);
        assert(all_digits(p));
        lemma_dec_value_nonneg(p);
        assert(dec_value(q) == dec_value(p) * 10 + digit_val(q.last()));
        lemma_dec_value_prefix(s, i + 1);
    }
}

/// Parses a decimal integer as `str::parse::<i32>` does: an optional sign
/// followed by at least one digit, rejected on any other character or when
/// the value does not fit in an `i32`.
pub fn parse_i32(s: &str) -> (r: Option<i32>)
    ensures
        match r {
            Some(v) => parse_i32_ok(s@) && v as int == int_literal_value(s@),
            None => !parse_i32_ok(s@),
        },
{
    let len = s.unicode_len();
    if len == 0 {
        return None;
    }
    let first = s.get_char(0);
    let negative = first == '-';
    let has_sign = negative || first == '+';
    let start: usize = if has_sign {
        1
    } else {
        0
    };
    if start == len {
        // a bare sign has no digits
        return None;
    }
    let ghost digits = s@.subrange(start as int, len as int);
    let mut acc: u64 = 0;
    let mut i: usize = start;
    while i < len
        invariant
            start <= i <= len,
            len == s@.len(),
            1 <= len,
            has_sign <==> (s@[0] == '+' || s@[0] == '-'),
            negative <==> s@[0] == '-',
            start == (if has_sign { 1int } else { 0int }),
            digits == s@.subrange(start as int, len as int),
            all_digits(s@.subrange(start as int, i as int)),
            acc == dec_value(s@.subrange(start as int, i as int)),
            acc <= 0x8000_0000,
        decreases len - i,
    {
        let c = s.get_char(i);
        let cv = c as u32;
        proof {
            assert(s@.subrange(start as int, (i + 1) as int).drop_last() =~= s@.subrange(
                start as int,
                i as int,
            ));
        }
        if cv < 48 || cv > 57 {
            proof {
                assert(digits[i - start] == s@[i as int]);
                assert(!is_digit(s@[i as int]));
                assert(!all_digits(digits));
                if has_sign {
                    assert(s@.subrange(1, s@.len() as int) == digits);
                } else {
                    assert(s@ =~= digits);
                    assert(!all_digits(s@));
                }
            }
            return None;
        }
        acc = acc * 10 + (cv - 48) as u64;
        i = i + 1;
        if acc > 0x8000_0000 {
            proof {
                let p = s@.subrange(start as int, i as int);
                if all_digits(digits) {
                    assert(p =~= digits.subrange(0, i - start));
                    lemma_dec_value_prefix(digits, i - start);
                    lemma_dec_value_nonneg(digits);
                    if has_sign {
                        assert(s@.subrange(1, s@.len() as int) == digits);
                        assert(int_literal_value(s@) == dec_value(digits) || int_literal_value(s@)
                            == -dec_value(digits));
                    } else {
                        assert(s@ =~= digits);
                        assert(s@[0] != '+' && s@[0] != '-');
                        assert(int_literal_value(s@) == dec_value(s@));
                        assert(dec_value(s@) == dec_value(digits));
                    }
                } else {
                    if !has_sign {
                        assert(s@ =~= digits);
                    }
                }
            }
            return None;
        }
    }
    proof {
        assert(s@.subrange(start as int, i as int) =~= digits);
        if has_sign {
            assert(s@.subrange(1, s@.len() as int) =~= digits);
        } else {
            assert(s@.subrange(0, s@.len() as int) =~= s@);
        }
    }
    if negative {
        Some((-(acc as i64)) as i32)
    } else {
        if acc > 0x7fff_ffff {
            return None;
        }
        Some(acc as i32)
    }
}

} // verus!
