//! Decimal numbers and string comparison on `&str`.

use vstd::prelude::*;
use vstd::std_specs::iter::IteratorSpec;
use vstd::string::*;

verus! {

/// The character that writes the digit `d`.
pub open spec fn digit_char(d: nat) -> char
    recommends
        d < 10,
{
    ('0' as nat + d) as char
}

/// Whether `c` is one of `'0'..='9'`.
pub open spec fn is_digit(c: char) -> bool {
    '0' as nat <= c as nat && c as nat <= '9' as nat
}

/// The number a digit stands for; zero for any other character.
pub open spec fn digit_value(c: char) -> nat {
    if is_digit(c) {
        (c as nat - '0' as nat) as nat
    } else {
        0
    }
}

/// `n` written in base ten, without sign and without leading zeros.
pub open spec fn decimal(n: nat) -> Seq<char>
    decreases n,
{
    if n < 10 {
        seq![digit_char(n)]
    } else {
        decimal(n / 10).push(digit_char(n % 10))
    }
}

/// Whether every character of `s` is a digit.
pub open spec fn all_digits(s: Seq<char>) -> bool {
    forall|i: int| 0 <= i < s.len() ==> is_digit(#[trigger] s[i])
}

/// The number that a sequence of digits writes in base ten.
pub open spec fn digits_value(s: Seq<char>) -> nat
    decreases s.len(),
{
    if s.len() == 0 {
        0
    } else {
        digits_value(s.drop_last()) * 10 + digit_value(s.last())
    }
}

/// `s` without one leading `'+'`, if it has one.
pub open spec fn without_plus(s: Seq<char>) -> Seq<char> {
    if s.len() > 0 && s[0] == '+' {
        s.drop_first()
    } else {
        s
    }
}

/// The `u32` that `s` writes: an optional `'+'`, then one or more digits
/// whose value fits. Anything else writes no number.
pub open spec fn parse_u32_spec(s: Seq<char>) -> Option<u32> {
    let d = without_plus(s);
    if d.len() > 0 && all_digits(d) && digits_value(d) <= u32::MAX {
        Some(digits_value(d) as u32)
    } else {
        None
    }
}

/// Whether `s` writes a `u32`.
pub open spec fn is_numeric(s: Seq<char>) -> bool {
    parse_u32_spec(s) is Some
}

/// A character is its code: a number that is not negative.
proof fn lemma_char_code(c: char)
    ensures
        0 <= c as int <= 0x10ffff,
{
}

/// A prefix of a digit sequence never writes a larger number than the whole.
pub proof fn lemma_digits_value_prefix(s: Seq<char>, k: int)
    requires
        0 <= k <= s.len(),
    ensures
        digits_value(s.subrange(0, k)) <= digits_value(s),
    decreases s.len(),
{
    if k == s.len() {
        assert(s.subrange(0, k) =~= s);
    } else {
        assert(s.drop_last().subrange(0, k) =~= s.subrange(0, k));
        lemma_digits_value_prefix(s.drop_last(), k);
    }
}

fn digit_str(d: u64) -> (s: &'static str)
    requires
        d < 10,
    ensures
        s@ == seq![digit_char(d as nat)],
{
    proof {
        reveal_strlit("0");
        reveal_strlit("1");
        reveal_strlit("2");
        reveal_strlit("3");
        reveal_strlit("4");
        reveal_strlit("5");
        reveal_strlit("6");
        reveal_strlit("7");
        reveal_strlit("8");
        reveal_strlit("9");
    }
    if d == 0 {
        "0"
    } else if d == 1 {
        "1"
    } else if d == 2 {
        "2"
    } else if d == 3 {
        "3"
    } else if d == 4 {
        "4"
    } else if d == 5 {
        "5"
    } else if d == 6 {
        "6"
    } else if d == 7 {
        "7"
    } else if d == 8 {
        "8"
    } else {
        "9"
    }
}

/// Writes `n` in base ten.
pub fn decimal_string(n: u64) -> (s: String)
    ensures
        s@ == decimal(n as nat),
    decreases n,
{
    if n < 10 {
        digit_str(n).to_owned()
    } else {
        let mut s = decimal_string(n / 10);
        s.append(digit_str(n % 10));
        s
    }
}

/// Reads a `u32` written in base ten.
pub fn parse_u32(s: &str) -> (r: Option<u32>)
    ensures
        r == parse_u32_spec(s@),
{
    let ghost d = without_plus(s@);
    let ghost sign: int = s@.len() - d.len();
    let mut acc: u64 = 0;
    let mut first = true;
    let mut any = false;
    for c in it: s.chars()
        invariant
            it.seq() == s@,
            d == without_plus(s@),
            sign == s@.len() - d.len(),
            first == (it.index() == 0),
            !first ==> sign <= it.index(),
            first ==> acc == 0 && !any,
            !first ==> any == (sign < it.index()),
            !first ==> acc == digits_value(d.subrange(0, it.index() - sign)),
            !first ==> all_digits(d.subrange(0, it.index() - sign)),
            acc <= u32::MAX,
    {
        let ghost i = it.index() as int;
        if first && c == '+' {
            assert(d.subrange(0, 0) =~= Seq::<char>::empty());
        } else {
            let ghost before = d.subrange(0, i - sign);
            let ghost after = d.subrange(0, i + 1 - sign);
            assert(d[i - sign] == c);
            assert(after.drop_last() =~= before);
            assert(after.last() == c);
            proof {
                lemma_char_code(c);
            }
            let digit = '0' <= c && c <= '9';
            if !digit {
                assert(!is_digit(d[i - sign]));
                return None;
            }
            let v: u64 = (c as u32 - '0' as u32) as u64;
            acc = acc * 10 + v;
            if acc > 0xffff_ffff {
                proof {
                    assert(acc == digits_value(after));
                    lemma_digits_value_prefix(d, i + 1 - sign);
                }
                return None;
            }
            any = true;
        }
        first = false;
    }
    if !any {
        return None;
    }
    assert(d.subrange(0, s@.len() - sign) =~= d);
    Some(acc as u32)
}

/// Whether two strings hold the same characters.
pub fn str_eq(a: &str, b: &str) -> (r: bool)
    ensures
        r == (a@ == b@),
{
    let mut rest_a = a.chars();
    let mut rest_b = b.chars();
    let ghost mut i: int = 0;
    loop
        invariant
            0 <= i <= a@.len(),
            i <= b@.len(),
            rest_a.remaining() == a@.skip(i),
            rest_b.remaining() == b@.skip(i),
            forall|j: int| 0 <= j < i ==> a@[j] == b@[j],
        decreases a@.len() - i,
    {
        match (rest_a.next(), rest_b.next()) {
            (Some(c), Some(d)) => {
                if c != d {
                    return false;
                }
            },
            (None, None) => {
                assert(a@ =~= b@);
                return true;
            },
            _ => {
                return false;
            },
        }
        proof {
            i = i + 1;
        }
    }
}

/// Whether `s` begins with `prefix`.
pub fn starts_with(s: &str, prefix: &str) -> (r: bool)
    ensures
        r == prefix@.is_prefix_of(s@),
{
    let mut rest = s.chars();
    let mut wanted = prefix.chars();
    let ghost mut i: int = 0;
    loop
        invariant
            0 <= i <= prefix@.len(),
            i <= s@.len(),
            rest.remaining() == s@.skip(i),
            wanted.remaining() == prefix@.skip(i),
            forall|j: int| 0 <= j < i ==> s@[j] == prefix@[j],
        decreases prefix@.len() - i,
    {
        match wanted.next() {
            None => {
                assert(prefix@ =~= s@.subrange(0, i));
                return true;
            },
            Some(d) => match rest.next() {
                None => {
                    return false;
                },
                Some(c) => {
                    if c != d {
                        proof {
                            if prefix@.len() <= s@.len() {
                                assert(s@.subrange(0, prefix@.len() as int)[i] != prefix@[i]);
                            }
                        }
                        return false;
                    }
                },
            },
        }
        proof {
            i = i + 1;
        }
    }
}

} // verus!
