//! Numbers as decimal text.

use vstd::prelude::*;
use vstd::string::{StrSliceExecFns, StringExecFns};

verus! {

/// The character of a decimal digit.
pub open spec fn digit_char(d: int) -> char {
    if d == 0 {
        '0'
    } else if d == 1 {
        '1'
    } else if d == 2 {
        '2'
    } else if d == 3 {
        '3'
    } else if d == 4 {
        '4'
    } else if d == 5 {
        '5'
    } else if d == 6 {
        '6'
    } else if d == 7 {
        '7'
    } else if d == 8 {
        '8'
    } else {
        '9'
    }
}

/// The decimal digits of `n`, the most significant first, without leading
/// zeros.
pub open spec fn decimal(n: nat) -> Seq<char>
    decreases n,
{
    if n < 10 {
        seq![digit_char(n as int)]
    } else {
        decimal(n / 10).push(digit_char((n % 10) as int))
    }
}

/// `count` zeros.
pub open spec fn zeros(count: int) -> Seq<char> {
    Seq::new(
        if count > 0 {
            count as nat
        } else {
            0
        },
        |i: int| '0',
    )
}

/// The decimal digits of `n`, with zeros in front up to `width` characters.
pub open spec fn zero_padded(n: nat, width: nat) -> Seq<char> {
    zeros(width - decimal(n).len()) + decimal(n)
}

/// The text of one decimal digit.
fn digit_text(d: u32) -> (r: &'static str)
    requires
        d < 10,
    ensures
        r@ == seq![digit_char(d as int)],
{
    proof {
        reveal_strlit("0");
        reveal_strlit("1");
        reveal_strlit("2");
        reveal_strlit("3");
        reveal_strlit("4");
        reveal_strlit("5");
        reveal_strlit("6");
        reveal_strlit("7");
        reveal_strlit("8");
        reveal_strlit("9");
    }
    let r = if d == 0 {
        "0"
    } else if d == 1 {
        "1"
    } else if d == 2 {
        "2"
    } else if d == 3 {
        "3"
    } else if d == 4 {
        "4"
    } else if d == 5 {
        "5"
    } else if d == 6 {
        "6"
    } else if d == 7 {
        "7"
    } else if d == 8 {
        "8"
    } else {
        "9"
    };
    assert(r@ =~= seq![digit_char(d as int)]);
    r
}

/// The decimal digits of `n`.
pub fn decimal_text(n: u32) -> (r: String)
    ensures
        r@ == decimal(n as nat),
    decreases n,
{
    if n < 10 {
        digit_text(n).to_owned()
    } else {
        let mut s = decimal_text(n / 10);
        s.append(digit_text(n % 10));
        s
    }
}

/// The decimal digits of `n`, with zeros in front up to `width` characters.
pub fn zero_pad(n: u32, width: usize) -> (r: String)
    ensures
        r@ == zero_padded(n as nat, width as nat),
{
    let digits = decimal_text(n);
    let len = digits.as_str().unicode_len();
    let mut s = String::new();
    let mut k: usize = len;
    proof {
        reveal_strlit("0");
    }
    assert(s@ =~= zeros(0));
    while k < width
        invariant
            len == digits@.len(),
            len <= k,
            k < width ==> s@ == zeros(k - len),
            k >= width ==> s@ == zeros(width - len),
            "0"@ == seq!['0'],
        decreases width - k,
    {
        s.append("0");
        k += 1;
        assert(s@ =~= zeros(k - len));
    }
    s.append(digits.as_str());
    s
}

/// A date and a time of day as text: `YYYY-MM-DD hh:mm:ss`.
pub open spec fn stamp(year: nat, month: nat, day: nat, hour: nat, minute: nat, second: nat)
    -> Seq<char> {
    zero_padded(year, 4) + seq!['-'] + zero_padded(month, 2) + seq!['-'] + zero_padded(day, 2)
        + seq![' '] + zero_padded(hour, 2) + seq![':'] + zero_padded(minute, 2) + seq![':']
        + zero_padded(second, 2)
}

/// A date and a time of day as text.
pub fn stamp_text(year: u32, month: u32, day: u32, hour: u32, minute: u32, second: u32) -> (r:
    String)
    ensures
        r@ == stamp(
            year as nat,
            month as nat,
            day as nat,
            hour as nat,
            minute as nat,
            second as nat,
        ),
{
    proof {
        reveal_strlit("-");
        reveal_strlit(" ");
        reveal_strlit(":");
    }
    let mut s = zero_pad(year, 4);
    s.append("-");
    s.append(zero_pad(month, 2).as_str());
    s.append("-");
    s.append(zero_pad(day, 2).as_str());
    s.append(" ");
    s.append(zero_pad(hour, 2).as_str());
    s.append(":");
    s.append(zero_pad(minute, 2).as_str());
    s.append(":");
    s.append(zero_pad(second, 2).as_str());
    assert("-"@ =~= seq!['-']);
    assert(" "@ =~= seq![' ']);
    assert(":"@ =~= seq![':']);
    s
}

/// Whether a character is a decimal digit.
pub open spec fn is_digit(c: char) -> bool {
    '0' <= c <= '9'
}

/// The number that a run of decimal digits stands for.
pub open spec fn digits_value(s: Seq<char>) -> nat
    decreases s.len(),
{
    if s.len() == 0 {
        0
    } else {
        (digits_value(s.drop_last()) * 10 + (s.last() as int - '0' as int)) as nat
    }
}

/// The number that a text of one to nine decimal digits stands for; `None`
/// for any other text.
pub open spec fn number_of(s: Seq<char>) -> Option<nat> {
    if 1 <= s.len() <= 9 && (forall|k: int| 0 <= k < s.len() ==> is_digit(#[trigger] s[k])) {
        Some(digits_value(s))
    } else {
        None
    }
}

/// The number that a text of one to nine decimal digits stands for.
pub fn parse_number(text: &str) -> (r: Option<u32>)
    ensures
        match r {
            Some(n) => number_of(text@) == Some(n as nat),
            None => number_of(text@) is None,
        },
{
    let v = crate::text::chars_of(text);
    if v.len() == 0 || v.len() > 9 {
        return None;
    }
    let mut n: u32 = 0;
    let mut k: usize = 0;
    assert(v@.take(0) =~= seq![]);
    while k < v.len()
        invariant
            v@ == text@,
            k <= v@.len() <= 9,
            forall|j: int| 0 <= j < k ==> is_digit(#[trigger] v@[j]),
            n == digits_value(v@.take(k as int)),
            n < pow10(k as nat),
        decreases v@.len() - k,
    {
        let c = v[k];
        if c < '0' || c > '9' {
            return None;
        }
        assert(v@.take(k + 1).drop_last() =~= v@.take(k as int));
        assert(v@.take(k + 1).last() == c);
        proof {
            assert(pow10((k + 1) as nat) == 10 * pow10(k as nat));
            assert(pow10(9) == 1_000_000_000) by {
                reveal_with_fuel(pow10, 10);
            }
            lemma_pow10_grows((k + 1) as nat, 9);
        }
        n = n * 10 + (c as u32 - '0' as u32);
        k += 1;
    }
    assert(v@.take(k as int) =~= v@);
    Some(n)
}

/// Ten to the power of `e`.
pub open spec fn pow10(e: nat) -> nat
    decreases e,
{
    if e == 0 {
        1
    } else {
        10 * pow10((e - 1) as nat)
    }
}

/// Powers of ten grow with the exponent.
proof fn lemma_pow10_grows(a: nat, b: nat)
    requires
        a <= b,
    ensures
        pow10(a) <= pow10(b),
    decreases b - a,
{
    if a < b {
        lemma_pow10_grows(a, (b - 1) as nat);
    }
}

} // verus!
