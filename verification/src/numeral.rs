//! Decimal numerals: parsing a signed 64-bit recipient identifier from its
//! textual form, and rendering a signed 64-bit value back to text. Both
//! directions are specified exactly over sequences of characters.

use vstd::prelude::*;
use vstd::string::*;

verus! {

/// `c` is an ASCII decimal digit.
pub open spec fn spec_is_digit(c: char) -> bool {
    48 <= c as u32 <= 57
}

/// The numeric value of an ASCII decimal digit.
pub open spec fn spec_digit_value(c: char) -> int {
    c as u32 - 48
}

/// The ASCII decimal digit for a value below ten.
pub open spec fn spec_digit_char(d: int) -> char {
    if d == 0 {
        '0'
    } else if d == 1 {
        '1'
    } else if d == 2 {
        '2'
    } else if d == 3 {
        '3'
    } else if d == 4 {
        '4'
    } else if d == 5 {
        '5'
    } else if d == 6 {
        '6'
    } else if d == 7 {
        '7'
    } else if d == 8 {
        '8'
    } else {
        '9'
    }
}

/// Every character of `s` is an ASCII decimal digit.
pub open spec fn spec_all_digits(s: Seq<char>) -> bool {
    forall|i: int| 0 <= i < s.len() ==> spec_is_digit(#[trigger] s[i])
}

/// The value of a sequence of decimal digits, most significant first.
pub open spec fn spec_digits_value(s: Seq<char>) -> int
    decreases s.len(),
{
    if s.len() == 0 {
        0
    } else {
        spec_digits_value(s.drop_last()) * 10 + spec_digit_value(s.last())
    }
}

/// The value of an unsigned numeral: at least one digit, digits only.
pub open spec fn spec_unsigned_value(s: Seq<char>) -> Option<int> {
    if s.len() == 0 || !spec_all_digits(s) {
        None
    } else {
        Some(spec_digits_value(s))
    }
}

/// The value of a signed numeral: an optional leading sign, then an
/// unsigned numeral.
pub open spec fn spec_signed_value(s: Seq<char>) -> Option<int> {
    if s.len() > 0 && s[0] == '-' {
        match spec_unsigned_value(s.drop_first()) {
            Some(v) => Some(-v),
            None => None,
        }
    } else if s.len() > 0 && s[0] == '+' {
        spec_unsigned_value(s.drop_first())
    } else {
        spec_unsigned_value(s)
    }
}

/// What parsing `s` as a signed 64-bit integer yields: the signed numeral's
/// value when it exists and fits, nothing otherwise.
pub open spec fn spec_parse_i64(s: Seq<char>) -> Option<int> {
    match spec_signed_value(s) {
        Some(v) => if i64::MIN <= v <= i64::MAX {
            Some(v)
        } else {
            None
        },
        None => None,
    }
}

/// A digit sequence has a non-negative value.
pub proof fn lemma_digits_value_nonneg(s: Seq<char>)
    requires
        spec_all_digits(s),
    ensures
        spec_digits_value(s) >= 0,
    decreases s.len(),
{
    if s.len() > 0 {
        assert forall|i: int| 0 <= i < s.drop_last().len() implies spec_is_digit(
            #[trigger] s.drop_last()[i],
        ) by {
            assert(s.drop_last()[i] == s[i]);
        }
        lemma_digits_value_nonneg(s.drop_last());
    }
}

/// Extending a digit sequence never lowers its value: the value of a prefix
/// is at most the value of the whole.
pub proof fn lemma_digits_value_prefix(s: Seq<char>, k: int)
    requires
        spec_all_digits(s),
        0 <= k <= s.len(),
    ensures
        spec_digits_value(s.subrange(0, k)) <= spec_digits_value(s),
    decreases s.len() - k,
{
    if k == s.len() {
        assert(s.subrange(0, k) =~= s);
    } else {
        let p = s.subrange(0, k);
        let q = s.subrange(0, k + 1);
        assert(q.drop_last() =~= p);
        assert(q.last() == s[k]);
        assert forall|i: int| 0 <= i < p.len() implies spec_is_digit(#[trigger] p[i]) by {
            assert(p[i] == s[i]);
        }
        lemma_digits_value_nonneg(p);
        assert(spec_digits_value(q) == spec_digits_value(p) * 10 + spec_digit_value(s[k]));
        assert(spec_digits_value(p) * 10 >= spec_digits_value(p));
        lemma_digits_value_prefix(s, k + 1);
    }
}

/// Parses `s` as a signed 64-bit decimal integer: an optional `+` or `-`
/// sign, then at least one ASCII digit and nothing else, with the value in
/// the 64-bit signed range. Returns exactly the value `spec_parse_i64`
/// assigns to `s`, and nothing on exactly the inputs it rejects.
pub fn parse_i64(s: &str) -> (r: Option<i64>)
    ensures
        match spec_parse_i64(s@) {
            Some(v) => r == Some(v as i64),
            None => r is None,
        },
{
    let len = s.unicode_len();
    let mut start: usize = 0;
    let mut neg = false;
    if len > 0 {
        let c0 = s.get_char(0);
        if c0 == '-' {
            neg = true;
            start = 1;
        } else if c0 == '+' {
            start = 1;
        }
    }
    if start >= len {
        return None;
    }
    let ghost digits: Seq<char> = s@.subrange(start as int, len as int);
    let q: u64 = 922337203685477580;
    let rlim: u64 = if neg {
        8
    } else {
        7
    };
    let ghost limit: int = if neg {
        0x8000000000000000int
    } else {
        0x7fffffffffffffffint
    };
    let mut acc: u64 = 0;
    let mut i: usize = start;
    while i < len
        invariant
            start <= i <= len,
            0 < len == s@.len(),
            start < len,
            start == 0 || start == 1,
            digits == s@.subrange(start as int, len as int),
            start == 1 ==> s@[0] == '-' || s@[0] == '+',
            neg <==> (start == 1 && s@[0] == '-'),
            start == 0 ==> s@[0] != '-' && s@[0] != '+',
            q == 922337203685477580u64,
            rlim == (if neg {
                8u64
            } else {
                7u64
            }),
            limit == (if neg {
                0x8000000000000000int
            } else {
                0x7fffffffffffffffint
            }),
            spec_all_digits(s@.subrange(start as int, i as int)),
            acc == spec_digits_value(s@.subrange(start as int, i as int)),
            acc <= limit,
        decreases len - i,
    {
        let c = s.get_char(i);
        let cv = c as u32;
        if cv < 48 || cv > 57 {
            proof {
                assert(digits[i - start] == s@[i as int]);
                assert(!spec_all_digits(digits));
                if start == 1 {
                    assert(s@.drop_first() =~= digits);
                } else {
                    assert(s@ =~= digits);
                }
                assert(spec_signed_value(s@) is None);
            }
            return None;
        }
        let d: u64 = (cv - 48) as u64;
        proof {
            assert(spec_is_digit(s@[i as int]));
            assert(d == spec_digit_value(s@[i as int]));
        }
        if acc > q || (acc == q && d > rlim) {
            proof {
                if start == 1 {
                    assert(s@.drop_first() =~= digits);
                } else {
                    assert(s@ =~= digits);
                }
                if spec_all_digits(digits) {
                    let j = i - start + 1;
                    let p = digits.subrange(0, j);
                    assert(p =~= s@.subrange(start as int, i + 1));
                    assert(p.drop_last() =~= s@.subrange(start as int, i as int));
                    assert(p.last() == s@[i as int]);
                    assert(spec_digits_value(p) == acc * 10 + d);
                    assert(spec_digits_value(p) > limit);
                    lemma_digits_value_prefix(digits, j);
                    assert(spec_digits_value(digits) > limit);
                    if neg {
                        assert(spec_signed_value(s@) == Some(-spec_digits_value(digits)));
                        assert(-spec_digits_value(digits) < i64::MIN);
                    } else {
                        assert(spec_signed_value(s@) == Some(spec_digits_value(digits)));
                        assert(spec_digits_value(digits) > i64::MAX);
                    }
                } else {
                    assert(spec_signed_value(s@) is None);
                }
            }
            return None;
        }
        acc = acc * 10 + d;
        proof {
            let ext = s@.subrange(start as int, i + 1);
            assert(ext.drop_last() =~= s@.subrange(start as int, i as int));
            assert(ext.last() == s@[i as int]);
            assert forall|k: int| 0 <= k < ext.len() implies spec_is_digit(#[trigger] ext[k]) by {
                if k < ext.len() - 1 {
                    assert(ext[k] == s@.subrange(start as int, i as int)[k]);
                }
            }
        }
        i += 1;
    }
    proof {
        assert(digits =~= s@.subrange(start as int, i as int));
        assert(spec_unsigned_value(digits) == Some(acc as int));
        if start == 1 {
            assert(s@.drop_first() =~= digits);
        } else {
            assert(s@ =~= digits);
        }
        if neg {
            assert(spec_signed_value(s@) == Some(-(acc as int)));
        } else {
            assert(spec_signed_value(s@) == Some(acc as int));
        }
    }
    if neg {
        if acc == 9223372036854775808u64 {
            Some(i64::MIN)
        } else {
            Some(-(acc as i64))
        }
    } else {
        Some(acc as i64)
    }
}

/// The decimal digits of a non-negative value, most significant first,
/// without sign and without leading zeros (a lone zero for zero).
pub open spec fn spec_nat_digits(n: int) -> Seq<char>
    decreases n,
{
    if n < 10 {
        seq![spec_digit_char(n)]
    } else {
        spec_nat_digits(n / 10).push(spec_digit_char(n % 10))
    }
}

/// The decimal text of a signed value: a `-` sign before the digits of the
/// magnitude when negative, the bare digits otherwise.
pub open spec fn spec_i64_digits(n: int) -> Seq<char> {
    if n < 0 {
        seq!['-'] + spec_nat_digits(-n)
    } else {
        spec_nat_digits(n)
    }
}

/// The one-character text of a decimal digit value.
fn digit_str(d: u64) -> (s: &'static str)
    requires
        d < 10,
    ensures
        s@ == seq![spec_digit_char(d as int)],
{
    if d == 0 {
        proof {
            reveal_strlit("0");
            assert("0"@ =~= seq![spec_digit_char(d as int)]);
        }
        "0"
    } else if d == 1 {
        proof {
            reveal_strlit("1");
            assert("1"@ =~= seq![spec_digit_char(d as int)]);
        }
        "1"
    } else if d == 2 {
        proof {
            reveal_strlit("2");
            assert("2"@ =~= seq![spec_digit_char(d as int)]);
        }
        "2"
    } else if d == 3 {
        proof {
            reveal_strlit("3");
            assert("3"@ =~= seq![spec_digit_char(d as int)]);
        }
        "3"
    } else if d == 4 {
        proof {
            reveal_strlit("4");
            assert("4"@ =~= seq![spec_digit_char(d as int)]);
        }
        "4"
    } else if d == 5 {
        proof {
            reveal_strlit("5");
            assert("5"@ =~= seq![spec_digit_char(d as int)]);
        }
        "5"
    } else if d == 6 {
        proof {
            reveal_strlit("6");
            assert("6"@ =~= seq![spec_digit_char(d as int)]);
        }
        "6"
    } else if d == 7 {
        proof {
            reveal_strlit("7");
            assert("7"@ =~= seq![spec_digit_char(d as int)]);
        }
        "7"
    } else if d == 8 {
        proof {
            reveal_strlit("8");
            assert("8"@ =~= seq![spec_digit_char(d as int)]);
        }
        "8"
    } else {
        proof {
            reveal_strlit("9");
            assert("9"@ =~= seq![spec_digit_char(d as int)]);
        }
        "9"
    }
}

/// Renders an unsigned 64-bit value as its decimal digits.
pub fn u64_to_string(n: u64) -> (s: String)
    ensures
        s@ == spec_nat_digits(n as int),
    decreases n,
{
    if n < 10 {
        digit_str(n).to_owned()
    } else {
        let mut s = u64_to_string(n / 10);
        s.append(digit_str(n % 10));
        proof {
            assert(s@ =~= spec_nat_digits((n / 10) as int) + seq![
                spec_digit_char((n % 10) as int),
            ]);
            assert(spec_nat_digits(n as int) =~= spec_nat_digits((n / 10) as int) + seq![
                spec_digit_char((n % 10) as int),
            ]);
        }
        s
    }
}

/// Renders a signed 64-bit value as decimal text, `spec_i64_digits` exactly.
pub fn i64_to_string(n: i64) -> (s: String)
    ensures
        s@ == spec_i64_digits(n as int),
{
    if n >= 0 {
        u64_to_string(n as u64)
    } else {
        let mag: u64 = if n == i64::MIN {
            9223372036854775808u64
        } else {
            (-n) as u64
        };
        let mut s = "-".to_owned();
        let ds = u64_to_string(mag);
        s.append(ds.as_str());
        proof {
            reveal_strlit("-");
            assert(s@ =~= seq!['-'] + spec_nat_digits(-(n as int)));
        }
        s
    }
}

/// The digits of a non-negative value are digits indeed, and their value is
/// the value they were rendered from.
pub proof fn lemma_nat_digits_value(n: int)
    requires
        n >= 0,
    ensures
        spec_all_digits(spec_nat_digits(n)),
        spec_digits_value(spec_nat_digits(n)) == n,
        spec_nat_digits(n).len() >= 1,
    decreases n,
{
    if n < 10 {
        let s = spec_nat_digits(n);
        assert(s.drop_last() =~= Seq::<char>::empty());
        assert(s.last() == spec_digit_char(n));
        assert(spec_digits_value(Seq::<char>::empty()) == 0);
        assert(spec_digits_value(s) == spec_digits_value(s.drop_last()) * 10 + spec_digit_value(
            s.last(),
        ));
        assert(spec_digit_value(spec_digit_char(n)) == n);
    } else {
        lemma_nat_digits_value(n / 10);
        let p = spec_nat_digits(n / 10);
        let s = spec_nat_digits(n);
        assert(s == p.push(spec_digit_char(n % 10)));
        assert(s.drop_last() =~= p);
        assert(s.last() == spec_digit_char(n % 10));
        assert(spec_digit_value(spec_digit_char(n % 10)) == n % 10);
        assert forall|i: int| 0 <= i < s.len() implies spec_is_digit(#[trigger] s[i]) by {
            if i < s.len() - 1 {
                assert(s[i] == p[i]);
            }
        }
    }
}

/// Rendering a signed 64-bit value and parsing the text back yields the
/// value itself: the two directions agree on every value.
pub proof fn lemma_numeral_round_trip(n: i64)
    ensures
        spec_parse_i64(spec_i64_digits(n as int)) == Some(n as int),
{
    if n >= 0 {
        lemma_nat_digits_value(n as int);
        let s = spec_i64_digits(n as int);
        assert(spec_is_digit(s[0]));
        assert(s[0] != '-' && s[0] != '+');
        assert(spec_signed_value(s) == Some(n as int));
    } else {
        lemma_nat_digits_value(-(n as int));
        let d = spec_nat_digits(-(n as int));
        let s = spec_i64_digits(n as int);
        assert(s == seq!['-'] + d);
        assert(s[0] == '-');
        assert(s.drop_first() =~= d);
        assert(spec_unsigned_value(d) == Some(-(n as int)));
        assert(spec_signed_value(s) == Some(n as int));
    }
}

} // verus!
