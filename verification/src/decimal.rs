//! Decimal integers as text: formatting (`Display` of the integer types) and
//! parsing (`FromStr` of the integer types).
use vstd::prelude::*;

verus! {

/// An ASCII decimal digit.
pub open spec fn is_digit(c: char) -> bool {
    48 <= (c as u32) <= 57
}

/// The value of an ASCII decimal digit.
pub open spec fn digit_value(c: char) -> int {
    (c as u32) - 48
}

/// The ASCII digit for `d` (`0 <= d < 10`).
pub open spec fn digit_char(d: int) -> char {
    if d <= 0 {
        '0'
    } else if d == 1 {
        '1'
    } else if d == 2 {
        '2'
    } else if d == 3 {
        '3'
    } else if d == 4 {
        '4'
    } else if d == 5 {
        '5'
    } else if d == 6 {
        '6'
    } else if d == 7 {
        '7'
    } else if d == 8 {
        '8'
    } else {
        '9'
    }
}

/// The decimal digits of `n`, most significant first, without leading zeros.
pub open spec fn dec_digits(n: nat) -> Seq<char>
    decreases n,
{
    if n < 10 {
        seq![digit_char(n as int)]
    } else {
        dec_digits(n / 10).push(digit_char((n % 10) as int))
    }
}

/// `i` written in decimal, with a leading `-` when negative (the `Display`
/// of Rust's integer types).
pub open spec fn int_text(i: int) -> Seq<char> {
    if i < 0 {
        seq!['-'] + dec_digits((-i) as nat)
    } else {
        dec_digits(i as nat)
    }
}

/// Every character of `s` is an ASCII digit.
pub open spec fn all_digits(s: Seq<char>) -> bool {
    forall|i: int| 0 <= i < s.len() ==> is_digit(#[trigger] s[i])
}

/// The number that the digits `s` denote.
pub open spec fn digits_value(s: Seq<char>) -> nat
    decreases s.len(),
{
    if s.len() == 0 {
        0
    } else {
        (digits_value(s.drop_last()) * 10 + digit_value(s.last())) as nat
    }
}

/// The integer that `s` denotes in the syntax of Rust's `FromStr` for signed
/// integers: an optional `+` or `-` followed by at least one ASCII digit,
/// nothing else.  `None` when `s` has another form.  The value is not bounded.
pub open spec fn parse_int(s: Seq<char>) -> Option<int> {
    let neg = s.len() > 0 && s[0] == '-';
    let body = if s.len() > 0 && (s[0] == '-' || s[0] == '+') {
        s.drop_first()
    } else {
        s
    };
    if body.len() > 0 && all_digits(body) {
        Some(
            if neg {
                -digits_value(body)
            } else {
                digits_value(body) as int
            },
        )
    } else {
        None
    }
}

/// What `s.parse::<i64>()` gives: the parsed value when it is in range.
pub open spec fn parse_i64(s: Seq<char>) -> Option<i64> {
    match parse_int(s) {
        Some(v) => if i64::MIN <= v <= i64::MAX {
            Some(v as i64)
        } else {
            None
        },
        None => None,
    }
}

/// What `s.parse::<i32>()` gives: the parsed value when it is in range.
pub open spec fn parse_i32(s: Seq<char>) -> Option<i32> {
    match parse_int(s) {
        Some(v) => if i32::MIN <= v <= i32::MAX {
            Some(v as i32)
        } else {
            None
        },
        None => None,
    }
}

/// The ASCII digit for `d`.
pub fn digit_to_char(d: u64) -> (c: char)
    requires
        d < 10,
    ensures
        c == digit_char(d as int),
        is_digit(c),
        digit_value(c) == d,
{
    if d == 0 {
        '0'
    } else if d == 1 {
        '1'
    } else if d == 2 {
        '2'
    } else if d == 3 {
        '3'
    } else if d == 4 {
        '4'
    } else if d == 5 {
        '5'
    } else if d == 6 {
        '6'
    } else if d == 7 {
        '7'
    } else if d == 8 {
        '8'
    } else {
        '9'
    }
}

/// Appends the decimal digits of `n` to `out`.
pub fn push_dec_digits(n: u64, out: &mut Vec<char>)
    ensures
        final(out)@ == old(out)@ + dec_digits(n as nat),
    decreases n,
{
    if n >= 10 {
        push_dec_digits(n / 10, out);
    }
    let c = digit_to_char(n % 10);
    out.push(c);
    assert(final(out)@ =~= old(out)@ + dec_digits(n as nat));
}

/// The decimal text of `i` (its `Display`), as characters.
pub fn i64_text_chars(i: i64) -> (out: Vec<char>)
    ensures
        out@ == int_text(i as int),
{
    let mut out: Vec<char> = Vec::new();
    if i < 0 {
        out.push('-');
        let m: u64 = if i == i64::MIN {
            9223372036854775808u64
        } else {
            (-i) as u64
        };
        push_dec_digits(m, &mut out);
        assert(out@ =~= int_text(i as int));
    } else {
        push_dec_digits(i as u64, &mut out);
        assert(out@ =~= int_text(i as int));
    }
    out
}

/// The decimal text of `n` (`n.to_string()`).
pub fn usize_to_string(n: usize) -> (s: String)
    ensures
        s@ == int_text(n as int),
{
    let mut out: Vec<char> = Vec::new();
    push_dec_digits(n as u64, &mut out);
    assert(out@ =~= int_text(n as int));
    crate::text::string_from_chars(&out)
}

/// The decimal text of `i` (`i.to_string()`).
pub fn i64_to_string(i: i64) -> (s: String)
    ensures
        s@ == int_text(i as int),
{
    let v = i64_text_chars(i);
    crate::text::string_from_chars(&v)
}

/// The value of the digit string `s`, or `CAP` when it is `CAP` or more.
pub open spec fn capped_value(s: Seq<char>) -> nat {
    if digits_value(s) < 18446744073709551616 {
        digits_value(s)
    } else {
        18446744073709551616
    }
}

/// Reads the digits `v[from..to]`: `None` unless there is at least one and all
/// are digits; otherwise their value, capped at 2^64.
fn read_digits(v: &Vec<char>, from: usize, to: usize) -> (r: Option<u128>)
    requires
        from <= to <= v.len(),
    ensures
        ({
            let body = v@.subrange(from as int, to as int);
            match r {
                Some(x) => body.len() > 0 && all_digits(body) && x == capped_value(body),
                None => !(body.len() > 0 && all_digits(body)),
            }
        }),
{
    if from == to {
        return None;
    }
    let mut acc: u128 = 0;
    let mut i = from;
    while i < to
        invariant
            from <= i <= to <= v.len(),
            all_digits(v@.subrange(from as int, i as int)),
            acc == capped_value(v@.subrange(from as int, i as int)),
        decreases to - i,
    {
        let c = v[i];
        let u = c as u32;
        if u < 48 || u > 57 {
            assert(v@.subrange(from as int, to as int)[i - from] == c);
            return None;
        }
        let ghost pre = v@.subrange(from as int, i as int);
        let ghost post = v@.subrange(from as int, i + 1);
        assert(post.drop_last() =~= pre);
        assert(post.last() == c);
        let d = (u - 48) as u128;
        let next = acc * 10 + d;
        acc = if next >= 18446744073709551616u128 {
            18446744073709551616u128
        } else {
            next
        };
        i += 1;
        assert(all_digits(post)) by {
            assert forall|k: int| 0 <= k < post.len() implies is_digit(#[trigger] post[k]) by {
                if k < pre.len() {
                    assert(post[k] == pre[k]);
                }
            }
        }
    }
    Some(acc)
}

/// `v` parsed as an `i64` (`str::parse::<i64>`): `None` exactly when Rust's
/// parser reports an error.
pub fn parse_i64_chars(v: &Vec<char>) -> (r: Option<i64>)
    ensures
        r == parse_i64(v@),
{
    let n = v.len();
    let mut start: usize = 0;
    let mut neg = false;
    if n > 0 && (v[0] == '-' || v[0] == '+') {
        neg = v[0] == '-';
        start = 1;
    }
    let ghost body = if v@.len() > 0 && (v@[0] == '-' || v@[0] == '+') {
        v@.drop_first()
    } else {
        v@
    };
    assert(body =~= v@.subrange(start as int, n as int));
    match read_digits(v, start, n) {
        None => None,
        Some(x) => {
            if neg {
                if x <= 9223372036854775808u128 {
                    let r: i64 = if x == 9223372036854775808u128 {
                        i64::MIN
                    } else {
                        -(x as i64)
                    };
                    Some(r)
                } else {
                    None
                }
            } else {
                if x <= 9223372036854775807u128 {
                    Some(x as i64)
                } else {
                    None
                }
            }
        },
    }
}

/// `v` parsed as an `i32` (`str::parse::<i32>`): `None` exactly when Rust's
/// parser reports an error.
pub fn parse_i32_chars(v: &Vec<char>) -> (r: Option<i32>)
    ensures
        r == parse_i32(v@),
{
    match parse_i64_chars(v) {
        None => None,
        Some(x) => {
            if -2147483648 <= x && x <= 2147483647 {
                Some(x as i32)
            } else {
                None
            }
        },
    }
}

/// The digit string `v` (at least one digit, digits only) parsed as a `u64`:
/// `None` exactly when its value does not fit.
pub fn parse_u64_digits(v: &Vec<char>) -> (r: Option<u64>)
    requires
        v.len() > 0,
        all_digits(v@),
    ensures
        match r {
            Some(x) => x == digits_value(v@),
            None => digits_value(v@) > u64::MAX,
        },
{
    assert(v@.subrange(0, v.len() as int) =~= v@);
    match read_digits(v, 0, v.len()) {
        None => None,
        Some(x) => {
            if x <= 18446744073709551615u128 {
                Some(x as u64)
            } else {
                None
            }
        },
    }
}


/// The digit character of `d` denotes `d`.
pub proof fn lemma_digit_char(d: int)
    requires
        0 <= d < 10,
    ensures
        is_digit(digit_char(d)),
        digit_value(digit_char(d)) == d,
{
}

/// The digits of `n` are a non-empty string of ASCII digits that denotes `n`.
pub proof fn lemma_dec_digits(n: nat)
    ensures
        dec_digits(n).len() > 0,
        all_digits(dec_digits(n)),
        digits_value(dec_digits(n)) == n,
    decreases n,
{
    if n < 10 {
        let s = dec_digits(n);
        lemma_digit_char(n as int);
        assert(s.drop_last() =~= Seq::<char>::empty());
        assert(digits_value(s.drop_last()) == 0);
        assert(digits_value(s) == digits_value(s.drop_last()) * 10 + digit_value(s.last()));
    } else {
        lemma_dec_digits(n / 10);
        lemma_digit_char((n % 10) as int);
        assert((n / 10) * 10 + n % 10 == n);
        let s = dec_digits(n);
        let p = dec_digits(n / 10);
        assert(s.drop_last() =~= p);
        assert(s.last() == digit_char((n % 10) as int));
        assert(digits_value(s) == digits_value(p) * 10 + digit_value(s.last()));
        assert forall|k: int| 0 <= k < s.len() implies is_digit(#[trigger] s[k]) by {
            if k < p.len() {
                assert(s[k] == p[k]);
            }
        }
    }
}

/// Parsing the decimal text of an integer gives the integer back.
pub proof fn lemma_parse_int_text(i: int)
    ensures
        parse_int(int_text(i)) == Some(i),
{
    if i < 0 {
        let d = dec_digits((-i) as nat);
        lemma_dec_digits((-i) as nat);
        let t = int_text(i);
        assert(t.drop_first() =~= d);
        assert(t[0] == '-');
    } else {
        let d = dec_digits(i as nat);
        lemma_dec_digits(i as nat);
        assert(is_digit(d[0]));
    }
}

} // verus!
