//! Decimal numbers in text: reading them as `str::parse` does, and writing them
//! as `Display` does.
use vstd::prelude::*;
use crate::text::{chars_of, push_char};

verus! {

pub open spec fn is_digit(c: char) -> bool {
    '0' <= c && c <= '9'
}

pub open spec fn all_digits(s: Seq<char>) -> bool {
    forall|i: int| 0 <= i < s.len() ==> is_digit(#[trigger] s[i])
}

pub open spec fn digit_value(c: char) -> int {
    (c as int) - ('0' as int)
}

/// The value of a run of decimal digits.
pub open spec fn digits_value(s: Seq<char>) -> int
    decreases s.len(),
{
    if s.len() == 0 {
        0
    } else {
        digits_value(s.drop_last()) * 10 + digit_value(s.last())
    }
}

/// The integer a text spells, as the standard integer parsers read it: an optional
/// sign (`-` only where `signed`) followed by at least one decimal digit and nothing else.
pub open spec fn parse_integer(s: Seq<char>, signed: bool) -> Option<int> {
    if s.len() > 0 && (s[0] == '+' || (signed && s[0] == '-')) {
        let d = s.drop_first();
        if d.len() > 0 && all_digits(d) {
            Some(if s[0] == '-' { -digits_value(d) } else { digits_value(d) })
        } else {
            None
        }
    } else if s.len() > 0 && all_digits(s) {
        Some(digits_value(s))
    } else {
        None
    }
}

/// What `s.parse::<i32>()` gives.
pub open spec fn parse_i32_spec(s: Seq<char>) -> Option<i32> {
    match parse_integer(s, true) {
        Some(v) => if i32::MIN <= v && v <= i32::MAX {
            Some(v as i32)
        } else {
            None
        },
        None => None,
    }
}

/// What `s.parse::<u32>()` gives.
pub open spec fn parse_u32_spec(s: Seq<char>) -> Option<u32> {
    match parse_integer(s, false) {
        Some(v) => if 0 <= v && v <= u32::MAX {
            Some(v as u32)
        } else {
            None
        },
        None => None,
    }
}

pub proof fn lemma_digits_value_nonneg(s: Seq<char>)
    requires
        all_digits(s),
    ensures
        digits_value(s) >= 0,
    decreases s.len(),
{
    if s.len() > 0 {
        assert(all_digits(s.drop_last())) by {
            assert forall|i: int| 0 <= i < s.drop_last().len() implies is_digit(
                #[trigger] s.drop_last()[i],
            ) by {
                assert(s.drop_last()[i] == s[i]);
            }
        }
        lemma_digits_value_nonneg(s.drop_last());
        assert(is_digit(s[s.len() - 1]));
    }
}

/// A longer run of digits is worth at least as much as its prefix.
pub proof fn lemma_digits_value_prefix(s: Seq<char>, k: int)
    requires
        all_digits(s),
        0 <= k <= s.len(),
    ensures
        digits_value(s.take(k)) <= digits_value(s),
    decreases s.len() - k,
{
    if k < s.len() {
        assert(all_digits(s.drop_last())) by {
            assert forall|i: int| 0 <= i < s.drop_last().len() implies is_digit(
                #[trigger] s.drop_last()[i],
            ) by {
                assert(s.drop_last()[i] == s[i]);
            }
        }
        assert(s.drop_last().take(k) =~= s.take(k));
        lemma_digits_value_prefix(s.drop_last(), k);
        lemma_digits_value_nonneg(s.drop_last());
        assert(is_digit(s[s.len() - 1]));
    } else {
        assert(s.take(k) =~= s);
    }
}

/// Reads the digits `v[from..]` as a magnitude no greater than `limit`.
fn parse_magnitude(v: &Vec<char>, from: usize, limit: u64) -> (r: Option<u64>)
    requires
        from <= v@.len(),
        limit <= u32::MAX + 1,
    ensures
        match r {
            Some(n) => from < v@.len() && all_digits(v@.skip(from as int)) && n == digits_value(
                v@.skip(from as int),
            ) && n <= limit,
            None => !(from < v@.len() && all_digits(v@.skip(from as int)) && digits_value(
                v@.skip(from as int),
            ) <= limit),
        },
{
    let ghost d = v@.skip(from as int);
    if from >= v.len() {
        return None;
    }
    let mut acc: u64 = 0;
    let mut i = from;
    while i < v.len()
        invariant
            from <= i <= v@.len(),
            d == v@.skip(from as int),
            all_digits(d.take(i - from)),
            acc == digits_value(d.take(i - from)),
            acc <= limit,
            limit <= u32::MAX + 1,
        decreases v@.len() - i,
    {
        let c = v[i];
        proof {
            assert(d[i - from] == c);
            assert(d.take(i - from + 1).drop_last() =~= d.take(i - from));
        }
        if !('0' <= c && c <= '9') {
            proof {
                assert(!is_digit(d[i - from]));
            }
            return None;
        }
        let digit = (c as u32 - '0' as u32) as u64;
        acc = acc * 10 + digit;
        i = i + 1;
        proof {
            assert(all_digits(d.take(i - from))) by {
                assert forall|j: int| 0 <= j < d.take(i - from).len() implies is_digit(
                    #[trigger] d.take(i - from)[j],
                ) by {
                    if j < i - 1 - from {
                        assert(d.take(i - from)[j] == d.take(i - 1 - from)[j]);
                    }
                }
            }
        }
        if acc > limit {
            proof {
                assert(d.take(i - from) =~= d.take(i - from));
                lemma_digits_value_prefix_all(d, i - from);
            }
            return None;
        }
    }
    proof {
        assert(d.take(i - from) =~= d);
    }
    Some(acc)
}

/// Once a prefix of a digit run is worth more than a bound, the run is worth more too,
/// whether or not the rest is made of digits.
proof fn lemma_digits_value_prefix_all(d: Seq<char>, k: int)
    requires
        0 <= k <= d.len(),
        all_digits(d.take(k)),
    ensures
        all_digits(d) ==> digits_value(d.take(k)) <= digits_value(d),
{
    if all_digits(d) {
        lemma_digits_value_prefix(d, k);
    }
}

/// Parses a decimal `i32` as `str::parse::<i32>` does.
pub fn parse_i32(s: &str) -> (r: Option<i32>)
    ensures
        r == parse_i32_spec(s@),
{
    let v = chars_of(s);
    if v.len() > 0 && (v[0] == '+' || v[0] == '-') {
        let negative = v[0] == '-';
        let limit: u64 = if negative { 2147483648 } else { 2147483647 };
        proof {
            assert(v@.skip(1) =~= v@.drop_first());
        }
        match parse_magnitude(&v, 1, limit) {
            Some(n) => {
                proof {
                    lemma_digits_value_nonneg(v@.drop_first());
                }
                if negative {
                    Some((0 - (n as i64)) as i32)
                } else {
                    Some(n as i32)
                }
            },
            None => None,
        }
    } else {
        proof {
            assert(v@.skip(0) =~= v@);
        }
        match parse_magnitude(&v, 0, 2147483647) {
            Some(n) => Some(n as i32),
            None => None,
        }
    }
}

/// Parses a decimal `u32` as `str::parse::<u32>` does.
pub fn parse_u32(s: &str) -> (r: Option<u32>)
    ensures
        r == parse_u32_spec(s@),
{
    let v = chars_of(s);
    if v.len() > 0 && v[0] == '+' {
        proof {
            assert(v@.skip(1) =~= v@.drop_first());
        }
        match parse_magnitude(&v, 1, 4294967295) {
            Some(n) => {
                proof {
                    lemma_digits_value_nonneg(v@.drop_first());
                }
                Some(n as u32)
            },
            None => None,
        }
    } else {
        proof {
            assert(v@.skip(0) =~= v@);
            if v@.len() > 0 && all_digits(v@) {
                lemma_digits_value_nonneg(v@);
            }
        }
        match parse_magnitude(&v, 0, 4294967295) {
            Some(n) => Some(n as u32),
            None => None,
        }
    }
}

/// The decimal digits of `n`, most significant first, as `Display` writes them.
pub open spec fn decimal(n: nat) -> Seq<char>
    decreases n,
{
    if n < 10 {
        seq![digit_char(n)]
    } else {
        decimal(n / 10).push(digit_char(n % 10))
    }
}

pub open spec fn digit_char(d: nat) -> char {
    if d == 0 {
        '0'
    } else if d == 1 {
        '1'
    } else if d == 2 {
        '2'
    } else if d == 3 {
        '3'
    } else if d == 4 {
        '4'
    } else if d == 5 {
        '5'
    } else if d == 6 {
        '6'
    } else if d == 7 {
        '7'
    } else if d == 8 {
        '8'
    } else {
        '9'
    }
}

fn digit_char_exec(d: u64) -> (c: char)
    requires
        d < 10,
    ensures
        c == digit_char(d as nat),
{
    if d == 0 {
        '0'
    } else if d == 1 {
        '1'
    } else if d == 2 {
        '2'
    } else if d == 3 {
        '3'
    } else if d == 4 {
        '4'
    } else if d == 5 {
        '5'
    } else if d == 6 {
        '6'
    } else if d == 7 {
        '7'
    } else if d == 8 {
        '8'
    } else {
        '9'
    }
}

/// `n` written in decimal, as `n.to_string()` gives it.
pub fn decimal_string(n: u64) -> (r: String)
    ensures
        r@ == decimal(n as nat),
    decreases n,
{
    if n < 10 {
        let mut r = String::new();
        push_char(&mut r, digit_char_exec(n));
        assert(r@ =~= decimal(n as nat));
        r
    } else {
        let mut r = decimal_string(n / 10);
        push_char(&mut r, digit_char_exec(n % 10));
        r
    }
}

/// `n` written in decimal, with a leading `-` when it is negative.
pub open spec fn signed_decimal(n: int) -> Seq<char> {
    if n < 0 {
        seq!['-'] + decimal((-n) as nat)
    } else {
        decimal(n as nat)
    }
}

/// `n` written in decimal, as `n.to_string()` gives it for an `i32`.
pub fn i32_string(n: i32) -> (r: String)
    ensures
        r@ == signed_decimal(n as int),
{
    if n < 0 {
        let mut r = String::new();
        push_char(&mut r, '-');
        let m = (0 - (n as i64)) as u64;
        let d = decimal_string(m);
        r.append(d.as_str());
        r
    } else {
        decimal_string(n as u64)
    }
}


/// `n` written in decimal, for numbers wider than 64 bits.
pub fn decimal_string_wide(n: u128) -> (r: String)
    ensures
        r@ == decimal(n as nat),
    decreases n,
{
    if n < 10 {
        let mut r = String::new();
        push_char(&mut r, digit_char_exec((n % 10) as u64));
        assert(r@ =~= decimal(n as nat));
        r
    } else {
        let mut r = decimal_string_wide(n / 10);
        push_char(&mut r, digit_char_exec((n % 10) as u64));
        r
    }
}

} // verus!
