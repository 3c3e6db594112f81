//! Decimal numbers in text: parsing as `str::parse::<u64>()` /
//! `str::parse::<i64>()` do, and printing as `u32::to_string` does.
use vstd::prelude::*;

verus! {

pub open spec fn is_digit(c: char) -> bool {
    '0' <= c && c <= '9'
}

pub open spec fn digit_value(c: char) -> nat {
    (c as u32 - '0' as u32) as nat
}

pub open spec fn all_digits(s: Seq<char>) -> bool {
    forall|i: int| 0 <= i < s.len() ==> is_digit(#[trigger] s[i])
}

/// Value of a string of decimal digits.
pub open spec fn digits_value(s: Seq<char>) -> nat
    decreases s.len(),
{
    if s.len() == 0 {
        0
    } else {
        digits_value(s.drop_last()) * 10 + digit_value(s.last())
    }
}

/// `s.parse::<u64>()`: an optional `+`, then at least one decimal digit, and
/// a value that fits.
pub open spec fn parse_u64_spec(s: Seq<char>) -> Option<u64> {
    let body = if s.len() > 0 && s[0] == '+' { s.drop_first() } else { s };
    if body.len() == 0 || !all_digits(body) || digits_value(body) > u64::MAX {
        None
    } else {
        Some(digits_value(body) as u64)
    }
}

/// `s.parse::<i64>()`: an optional sign, then at least one decimal digit,
/// and a value in range.
pub open spec fn parse_i64_spec(s: Seq<char>) -> Option<i64> {
    let neg = s.len() > 0 && s[0] == '-';
    let body = if s.len() > 0 && (s[0] == '+' || s[0] == '-') { s.drop_first() } else { s };
    if body.len() == 0 || !all_digits(body) {
        None
    } else if neg {
        if digits_value(body) > 0x8000_0000_0000_0000 {
            None
        } else {
            Some((0 - digits_value(body)) as i64)
        }
    } else if digits_value(body) > i64::MAX {
        None
    } else {
        Some(digits_value(body) as i64)
    }
}

proof fn lemma_digits_value_mono(s: Seq<char>)
    requires
        s.len() > 0,
    ensures
        digits_value(s) >= digits_value(s.drop_last()) * 10,
{
}

/// Value of `cs[from..to]` when all are digits, or `None` when it exceeds
/// `u64::MAX` (or a character is not a digit).
fn digits_u64(cs: &Vec<char>, from: usize, to: usize) -> (r: Option<u64>)
    requires
        from <= to <= cs.len(),
    ensures
        r matches Some(v) ==> all_digits(cs@.subrange(from as int, to as int)) && v
            == digits_value(cs@.subrange(from as int, to as int)),
        r is None ==> !all_digits(cs@.subrange(from as int, to as int)) || digits_value(
            cs@.subrange(from as int, to as int),
        ) > u64::MAX,
{
    let mut acc: u64 = 0;
    let mut i = from;
    while i < to
        invariant
            from <= i <= to <= cs.len(),
            all_digits(cs@.subrange(from as int, i as int)),
            acc == digits_value(cs@.subrange(from as int, i as int)),
        decreases to - i,
    {
        let c = cs[i];
        let ghost prev = cs@.subrange(from as int, i as int);
        let ghost next = cs@.subrange(from as int, i + 1);
        assert(next.drop_last() =~= prev);
        assert(next.last() == c);
        if !('0' <= c && c <= '9') {
            assert(!is_digit(cs@.subrange(from as int, to as int)[i - from]));
            return None;
        }
        let d = (c as u32 - '0' as u32) as u64;
        match acc.checked_mul(10) {
            None => {
                proof {
                    lemma_rest_bound(cs@.subrange(from as int, to as int), (i + 1 - from) as int);
                    assert(cs@.subrange(from as int, to as int).take((i + 1 - from) as int)
                        =~= next);
                }
                return None;
            },
            Some(m) => match m.checked_add(d) {
                None => {
                    proof {
                        lemma_rest_bound(
                            cs@.subrange(from as int, to as int),
                            (i + 1 - from) as int,
                        );
                        assert(cs@.subrange(from as int, to as int).take((i + 1 - from) as int)
                            =~= next);
                    }
                    return None;
                },
                Some(v) => {
                    acc = v;
                },
            },
        }
        i = i + 1;
    }
    Some(acc)
}

/// A digit string is worth at least any of its prefixes (when all are digits).
proof fn lemma_rest_bound(s: Seq<char>, k: int)
    requires
        0 <= k <= s.len(),
    ensures
        all_digits(s) ==> digits_value(s) >= digits_value(s.take(k)),
    decreases s.len() - k,
{
    if k < s.len() {
        lemma_rest_bound(s, k + 1);
        assert(s.take(k + 1).drop_last() =~= s.take(k));
    } else {
        assert(s.take(k) =~= s);
    }
}

/// `s.parse::<u64>()` over the characters `cs`.
pub fn parse_u64(cs: &Vec<char>) -> (r: Option<u64>)
    ensures
        r == parse_u64_spec(cs@),
{
    let from: usize = if cs.len() > 0 && cs[0] == '+' { 1 } else { 0 };
    proof {
        if from == 1 {
            assert(cs@.drop_first() =~= cs@.subrange(1, cs@.len() as int));
        } else {
            assert(cs@ =~= cs@.subrange(0, cs@.len() as int));
        }
    }
    if from == cs.len() {
        return None;
    }
    digits_u64(cs, from, cs.len())
}

/// `s.parse::<i64>()` over the characters `cs`.
pub fn parse_i64(cs: &Vec<char>) -> (r: Option<i64>)
    ensures
        r == parse_i64_spec(cs@),
{
    let signed = cs.len() > 0 && (cs[0] == '+' || cs[0] == '-');
    let neg = cs.len() > 0 && cs[0] == '-';
    let from: usize = if signed { 1 } else { 0 };
    proof {
        if from == 1 {
            assert(cs@.drop_first() =~= cs@.subrange(1, cs@.len() as int));
        } else {
            assert(cs@ =~= cs@.subrange(0, cs@.len() as int));
        }
    }
    if from == cs.len() {
        return None;
    }
    match digits_u64(cs, from, cs.len()) {
        None => None,
        Some(v) => {
            if neg {
                if v > 0x8000_0000_0000_0000u64 {
                    None
                } else if v == 0x8000_0000_0000_0000u64 {
                    Some(i64::MIN)
                } else {
                    Some(0 - (v as i64))
                }
            } else if v > 0x7fff_ffff_ffff_ffffu64 {
                None
            } else {
                Some(v as i64)
            }
        },
    }
}

/// Decimal digits of `n` (`n.to_string()`).
pub open spec fn decimal(n: nat) -> Seq<char>
    decreases n,
{
    if n < 10 {
        seq![(n + '0' as u32) as char]
    } else {
        decimal(n / 10).push(((n % 10) + '0' as u32) as char)
    }
}

fn digit_char(d: u32) -> (c: char)
    requires
        d < 10,
    ensures
        c == ((d + '0' as u32) as char),
{
    match d {
        0 => '0',
        1 => '1',
        2 => '2',
        3 => '3',
        4 => '4',
        5 => '5',
        6 => '6',
        7 => '7',
        8 => '8',
        _ => '9',
    }
}

/// `n.to_string()`.
pub fn u64_to_string(n: u64) -> (s: String)
    ensures
        s@ == decimal(n as nat),
{
    let mut digits: Vec<char> = Vec::new();
    let mut m = n;
    // digits of n, least significant first
    while m >= 10
        invariant
            decimal(n as nat) == decimal(m as nat) + digits@.reverse(),
        decreases m,
    {
        let d = (m % 10) as u32;
        let c = digit_char(d);
        proof {
            assert(decimal(m as nat) == decimal((m / 10) as nat).push(c));
            assert(digits@.push(c).reverse() =~= seq![c] + digits@.reverse());
        }
        digits.push(c);
        m = m / 10;
    }
    let c0 = digit_char(m as u32);
    digits.push(c0);
    proof {
        assert(digits@.reverse() =~= seq![c0] + digits@.drop_last().reverse());
    }
    let mut s = String::new();
    let mut k = digits.len();
    while k > 0
        invariant
            k <= digits.len(),
            s@ =~= digits@.subrange(k as int, digits@.len() as int).reverse(),
        decreases k,
    {
        k = k - 1;
        crate::text::string_push(&mut s, digits[k]);
        assert(digits@.subrange(k as int, digits@.len() as int).reverse() =~= digits@.subrange(
            k + 1,
            digits@.len() as int,
        ).reverse().push(digits@[k as int]));
    }
    assert(digits@.subrange(0, digits@.len() as int) =~= digits@);
    s
}

/// `n.to_string()`.
pub fn u32_to_string(n: u32) -> (s: String)
    ensures
        s@ == decimal(n as nat),
{
    u64_to_string(n as u64)
}

/// Decimal text of a signed integer: a `-` before the digits of a negative one.
pub open spec fn decimal_int(n: int) -> Seq<char> {
    if n < 0 {
        seq!['-'] + decimal((0 - n) as nat)
    } else {
        decimal(n as nat)
    }
}

/// `n.to_string()`.
pub fn i64_to_string(n: i64) -> (s: String)
    ensures
        s@ == decimal_int(n as int),
{
    if n < 0 {
        let mag: u64 = if n == i64::MIN {
            0x8000_0000_0000_0000u64
        } else {
            (0 - n) as u64
        };
        let digits = u64_to_string(mag);
        let mut s = String::new();
        crate::text::string_push(&mut s, '-');
        s.append(digits.as_str());
        s
    } else {
        u64_to_string(n as u64)
    }
}

/// The digits of `n` are decimal digits, there is at least one, and their
/// value is `n`.
pub proof fn lemma_decimal_digits(n: nat)
    ensures
        decimal(n).len() > 0,
        all_digits(decimal(n)),
        digits_value(decimal(n)) == n,
    decreases n,
{
    if n < 10 {
        assert(digit_value(decimal(n)[0]) == n);
        assert(decimal(n).drop_last() =~= Seq::<char>::empty());
        assert(digits_value(Seq::<char>::empty()) == 0);
        assert(digits_value(decimal(n)) == digits_value(decimal(n).drop_last()) * 10
            + digit_value(decimal(n).last()));
    } else {
        lemma_decimal_digits(n / 10);
        let d = decimal(n);
        assert(d.drop_last() =~= decimal(n / 10));
        assert(digit_value(d.last()) == n % 10);
        assert((n / 10) * 10 + n % 10 == n);
        assert(digits_value(d) == digits_value(d.drop_last()) * 10 + digit_value(d.last()));
        assert forall|i: int| 0 <= i < d.len() implies is_digit(#[trigger] d[i]) by {
            if i < d.len() - 1 {
                assert(d[i] == decimal(n / 10)[i]);
            }
        }
    }
}

/// Reading back what `i64::to_string` printed gives the number again.
pub proof fn lemma_parse_i64_decimal(n: i64)
    ensures
        parse_i64_spec(decimal_int(n as int)) == Some(n),
{
    let s = decimal_int(n as int);
    if n < 0 {
        let m = (0 - n) as nat;
        lemma_decimal_digits(m);
        assert(s.drop_first() =~= decimal(m));
    } else {
        lemma_decimal_digits(n as nat);
        assert(s[0] != '+' && s[0] != '-') by {
            assert(is_digit(decimal(n as nat)[0]));
        }
    }
}

} // verus!
