//! Decimal text for 64-bit ids: rendering (as `{}` prints an `i64`) and
//! parsing (as `str::parse::<i64>` reads one).
use vstd::prelude::*;

verus! {

/// The character of a decimal digit `0 <= d < 10`.
pub open spec fn digit_char(d: int) -> char {
    if d == 0 {
        '0'
    } else if d == 1 {
        '1'
    } else if d == 2 {
        '2'
    } else if d == 3 {
        '3'
    } else if d == 4 {
        '4'
    } else if d == 5 {
        '5'
    } else if d == 6 {
        '6'
    } else if d == 7 {
        '7'
    } else if d == 8 {
        '8'
    } else {
        '9'
    }
}

/// The decimal digits of a natural number, most significant first, without
/// leading zeros ("0" for zero).
pub open spec fn nat_decimal(n: nat) -> Seq<char>
    decreases n,
{
    if n < 10 {
        seq![digit_char(n as int)]
    } else {
        nat_decimal(n / 10) + seq![digit_char((n % 10) as int)]
    }
}

/// The decimal text of an integer: a '-' before the digits of a negative one.
pub open spec fn int_decimal(n: int) -> Seq<char> {
    if n < 0 {
        seq!['-'] + nat_decimal((-n) as nat)
    } else {
        nat_decimal(n as nat)
    }
}

pub open spec fn is_digit(c: char) -> bool {
    '0' <= c && c <= '9'
}

pub open spec fn digit_value(c: char) -> int {
    (c as int) - ('0' as int)
}

pub open spec fn all_digits(s: Seq<char>) -> bool {
    forall|i: int| 0 <= i < s.len() ==> #[trigger] is_digit(s[i])
}

/// The value of a string of decimal digits, most significant first.
pub open spec fn digits_value(s: Seq<char>) -> int
    decreases s.len(),
{
    if s.len() == 0 {
        0
    } else {
        digits_value(s.drop_last()) * 10 + digit_value(s.last())
    }
}

/// Whether the text starts with a sign character.
pub open spec fn has_sign(s: Seq<char>) -> bool {
    s.len() > 0 && (s[0] == '-' || s[0] == '+')
}

/// The digits after an optional leading sign.
pub open spec fn unsigned_part(s: Seq<char>) -> Seq<char> {
    if has_sign(s) {
        s.skip(1)
    } else {
        s
    }
}

/// What `str::parse::<i64>` reads from a text: an optional '+' or '-', then at
/// least one ASCII digit and nothing else, of a value in the range of `i64`.
pub open spec fn parsed_i64(s: Seq<char>) -> Option<int> {
    let body = unsigned_part(s);
    if body.len() == 0 || !all_digits(body) {
        None
    } else {
        let v = if s[0] == '-' {
            -digits_value(body)
        } else {
            digits_value(body)
        };
        if i64::MIN <= v && v <= i64::MAX {
            Some(v)
        } else {
            None
        }
    }
}

fn digit_str(d: u64) -> (s: &'static str)
    requires
        d < 10,
    ensures
        s@ == seq![digit_char(d as int)],
{
    if d == 0 {
        proof {
            reveal_strlit("0");
        }
        "0"
    } else if d == 1 {
        proof {
            reveal_strlit("1");
        }
        "1"
    } else if d == 2 {
        proof {
            reveal_strlit("2");
        }
        "2"
    } else if d == 3 {
        proof {
            reveal_strlit("3");
        }
        "3"
    } else if d == 4 {
        proof {
            reveal_strlit("4");
        }
        "4"
    } else if d == 5 {
        proof {
            reveal_strlit("5");
        }
        "5"
    } else if d == 6 {
        proof {
            reveal_strlit("6");
        }
        "6"
    } else if d == 7 {
        proof {
            reveal_strlit("7");
        }
        "7"
    } else if d == 8 {
        proof {
            reveal_strlit("8");
        }
        "8"
    } else {
        proof {
            reveal_strlit("9");
        }
        "9"
    }
}

fn append_nat_decimal(out: &mut String, n: u64)
    ensures
        final(out)@ == old(out)@ + nat_decimal(n as nat),
    decreases n,
{
    if n >= 10 {
        append_nat_decimal(out, n / 10);
        out.append(digit_str(n % 10));
        assert(out@ =~= old(out)@ + (nat_decimal((n / 10) as nat) + seq![
            digit_char((n % 10) as int),
        ]));
    } else {
        out.append(digit_str(n));
    }
}

/// The decimal text of `n`, as `format!("{}", n)` writes it.
pub fn i64_to_decimal(n: i64) -> (s: String)
    ensures
        s@ == int_decimal(n as int),
{
    let mut out = String::new();
    if n < 0 {
        proof {
            reveal_strlit("-");
        }
        out.append("-");
        let magnitude: u64 = (0i128 - n as i128) as u64;
        append_nat_decimal(&mut out, magnitude);
    } else {
        append_nat_decimal(&mut out, n as u64);
    }
    out
}

/// `prefix ++ decimal(n)`, the way `format!("{prefix}{n}")` builds it.
pub fn prefixed_decimal(prefix: &str, n: i64) -> (s: String)
    ensures
        s@ == prefix@ + int_decimal(n as int),
{
    let mut out = String::from_str(prefix);
    let digits = i64_to_decimal(n);
    out.append(digits.as_str());
    out
}

proof fn lemma_digits_value_nonneg(s: Seq<char>)
    requires
        all_digits(s),
    ensures
        digits_value(s) >= 0,
    decreases s.len(),
{
    if s.len() > 0 {
        assert(is_digit(s[s.len() - 1]));
        lemma_digits_value_nonneg(s.drop_last());
    }
}

/// The value of an all-digit string is at least that of each of its prefixes.
proof fn lemma_digits_value_prefix(s: Seq<char>, k: int)
    requires
        all_digits(s),
        0 <= k <= s.len(),
    ensures
        digits_value(s.take(k)) <= digits_value(s),
    decreases s.len(),
{
    if k < s.len() {
        let t = s.drop_last();
        assert(is_digit(s[s.len() - 1]));
        lemma_digits_value_nonneg(t);
        lemma_digits_value_prefix(t, k);
        assert(t.take(k) =~= s.take(k));
    } else {
        assert(s.take(k) =~= s);
    }
}

/// Reads a signed decimal `i64` as `str::parse::<i64>` does; `None` where that
/// returns an error.
pub fn parse_i64(s: &str) -> (r: Option<i64>)
    ensures
        r is Some <==> parsed_i64(s@) is Some,
        r matches Some(v) ==> parsed_i64(s@) == Some(v as int),
{
    let len = s.unicode_len();
    if len == 0 {
        return None;
    }
    let first = s.get_char(0);
    let neg = first == '-';
    let start: usize = if first == '-' || first == '+' {
        1
    } else {
        0
    };
    let ghost body = unsigned_part(s@);
    assert(body =~= s@.skip(start as int));
    if start == len {
        return None;
    }
    let mut acc: i64 = 0;
    let mut i: usize = start;
    while i < len
        invariant
            start <= i <= len,
            len == s@.len(),
            0 <= start <= 1,
            start < len,
            body == s@.skip(start as int),
            body == unsigned_part(s@),
            neg == (s@[0] == '-'),
            all_digits(body.take(i - start)),
            acc == (if neg {
                -digits_value(body.take(i - start))
            } else {
                digits_value(body.take(i - start))
            }),
        decreases len - i,
    {
        let c = s.get_char(i);
        if !('0' <= c && c <= '9') {
            assert(body[i - start] == c);
            assert(!is_digit(body[i - start]));
            assert(!all_digits(body));
            assert(body.len() > 0);
            assert(parsed_i64(s@) is None);
            return None;
        }
        let d: i128 = (c as u32 - '0' as u32) as i128;
        let ghost k: int = i - start;
        assert(body.take(k + 1).drop_last() =~= body.take(k));
        assert(body.take(k + 1).last() == c);
        assert(all_digits(body.take(k + 1))) by {
            assert forall|j: int| 0 <= j < k + 1 implies #[trigger] is_digit(
                body.take(k + 1)[j],
            ) by {
                if j < k {
                    assert(body.take(k + 1)[j] == body.take(k)[j]);
                }
            }
        }
        let next: i128 = if neg {
            acc as i128 * 10 - d
        } else {
            acc as i128 * 10 + d
        };
        if next < i64::MIN as i128 || next > i64::MAX as i128 {
            proof {
                if all_digits(body) {
                    lemma_digits_value_prefix(body, k + 1);
                    lemma_digits_value_nonneg(body.take(k + 1));
                    assert(body.len() > 0);
                    assert(parsed_i64(s@) is None);
                }
            }
            return None;
        }
        acc = next as i64;
        i = i + 1;
    }
    assert(body.take(len - start) =~= body);
    Some(acc)
}

proof fn lemma_nat_decimal_digits(n: nat)
    ensures
        nat_decimal(n).len() > 0,
        all_digits(nat_decimal(n)),
        digits_value(nat_decimal(n)) == n,
    decreases n,
{
    if n < 10 {
        let s = nat_decimal(n);
        assert(s.drop_last() =~= Seq::<char>::empty());
        assert(digits_value(Seq::<char>::empty()) == 0);
        assert(digit_value(digit_char(n as int)) == n);
        assert(s.last() == digit_char(n as int));
        assert(is_digit(s[0]));
    } else {
        lemma_nat_decimal_digits(n / 10);
        let s = nat_decimal(n);
        let d = n % 10;
        assert(s.drop_last() =~= nat_decimal(n / 10));
        assert(s.last() == digit_char(d as int));
        assert(digit_value(digit_char(d as int)) == d);
        assert(n == (n / 10) * 10 + d);
        assert forall|i: int| 0 <= i < s.len() implies #[trigger] is_digit(s[i]) by {
            if i < s.len() - 1 {
                assert(s[i] == nat_decimal(n / 10)[i]);
            }
        }
    }
}

/// Reading back the decimal text of an `i64` gives the number again, so a
/// value stored with `i64_to_decimal` is read back unchanged by `parse_i64`.
pub proof fn lemma_decimal_round_trip(n: i64)
    ensures
        parsed_i64(int_decimal(n as int)) == Some(n as int),
{
    let s = int_decimal(n as int);
    if n < 0 {
        let m = (-(n as int)) as nat;
        lemma_nat_decimal_digits(m);
        assert(s.skip(1) =~= nat_decimal(m));
        assert(has_sign(s));
    } else {
        lemma_nat_decimal_digits(n as nat);
        assert(is_digit(s[0]));
        assert(!has_sign(s));
    }
}

} // verus!
