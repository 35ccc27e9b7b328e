//! Text: comparing, cutting and writing it out.
use vstd::prelude::*;

verus! {

/// The characters of an optional text.
pub open spec fn opt_text(text: Option<String>) -> Option<Seq<char>> {
    match text {
        Some(text) => Some(text@),
        None => None,
    }
}

/// A copy of an optional text.
pub fn clone_opt(text: &Option<String>) -> (copy: Option<String>)
    ensures
        copy == *text,
{
    match text {
        Some(text) => Some(text.clone()),
        None => None,
    }
}

/// Whether two texts are the same.
pub fn same(a: &str, b: &str) -> (r: bool)
    ensures
        r == (a@ == b@),
{
    let a = a.to_string();
    let b = b.to_string();
    a == b
}

/// The decimal digit `d`.
pub open spec fn digit(d: int) -> char {
    ('0' as int + d) as char
}

/// A natural number in decimal digits, without leading zeros.
pub open spec fn decimal_digits(n: nat) -> Seq<char>
    decreases n,
{
    if n < 10 {
        seq![digit(n as int)]
    } else {
        decimal_digits(n / 10).push(digit((n % 10) as int))
    }
}

/// An integer in decimal, with a sign where it is negative.
pub open spec fn decimal(n: int) -> Seq<char> {
    if n < 0 {
        seq!['-'] + decimal_digits((-n) as nat)
    } else {
        decimal_digits(n as nat)
    }
}

fn digit_text(d: u64) -> (text: &'static str)
    requires
        d < 10,
    ensures
        text@ == seq![digit(d as int)],
{
    proof {
        reveal_strlit("0");
        reveal_strlit("1");
        reveal_strlit("2");
        reveal_strlit("3");
        reveal_strlit("4");
        reveal_strlit("5");
        reveal_strlit("6");
        reveal_strlit("7");
        reveal_strlit("8");
        reveal_strlit("9");
    }
    let text = match d {
        0 => "0",
        1 => "1",
        2 => "2",
        3 => "3",
        4 => "4",
        5 => "5",
        6 => "6",
        7 => "7",
        8 => "8",
        _ => "9",
    };
    assert(text@ =~= seq![digit(d as int)]);
    text
}

/// Writes a natural number in decimal.
pub fn unsigned_text(n: u64) -> (text: String)
    ensures
        text@ == decimal(n as int),
    decreases n,
{
    if n < 10 {
        digit_text(n).to_string()
    } else {
        let mut text = unsigned_text(n / 10);
        text.append(digit_text(n % 10));
        assert(text@ =~= decimal(n as int));
        text
    }
}

/// Writes an integer in decimal.
pub fn signed_text(n: i64) -> (text: String)
    ensures
        text@ == decimal(n as int),
{
    if n < 0 {
        let magnitude: u64 = (-(n as i128)) as u64;
        let mut text = "-".to_string();
        proof {
            reveal_strlit("-");
        }
        text.append(unsigned_text(magnitude).as_str());
        assert(text@ =~= decimal(n as int));
        text
    } else {
        unsigned_text(n as u64)
    }
}

/// Two texts joined.
pub fn join(a: &str, b: &str) -> (text: String)
    ensures
        text@ == a@ + b@,
{
    let mut text = a.to_string();
    text.append(b);
    text
}

/// Three texts joined.
pub fn join3(a: &str, b: &str, c: &str) -> (text: String)
    ensures
        text@ == a@ + b@ + c@,
{
    let mut text = a.to_string();
    text.append(b);
    text.append(c);
    text
}

/// Whether `part` stands in `text` from place `at` on.
pub open spec fn stands_at(text: Seq<char>, part: Seq<char>, at: int) -> bool {
    0 <= at && at + part.len() <= text.len() && text.subrange(at, at + part.len()) == part
}

/// Whether `part` stands somewhere in `text`.
pub open spec fn contains_part(text: Seq<char>, part: Seq<char>) -> bool {
    exists|at: int| stands_at(text, part, at)
}

fn check_at(text: &str, part: &str, at: usize) -> (r: bool)
    requires
        at + part@.len() <= text@.len(),
    ensures
        r == stands_at(text@, part@, at as int),
{
    let n: usize = part.unicode_len();
    let total: usize = text.unicode_len();
    let ghost window = text@.subrange(at as int, at + part@.len());
    let mut i: usize = 0;
    while i < n
        invariant
            i <= n,
            n == part@.len(),
            at + n <= text@.len(),
            window == text@.subrange(at as int, at + part@.len()),
            forall|j: int| 0 <= j < i ==> window[j] == part@[j],
            text@.len() == total,
        decreases n - i,
    {
        if text.get_char(at + i) != part.get_char(i) {
            assert(window[i as int] != part@[i as int]);
            return false;
        }
        i = i + 1;
    }
    assert(window =~= part@);
    true
}

/// Whether a text begins with `prefix`.
pub fn has_prefix(text: &str, prefix: &str) -> (r: bool)
    ensures
        r == stands_at(text@, prefix@, 0),
{
    prefix.unicode_len() <= text.unicode_len() && check_at(text, prefix, 0)
}

/// What follows `prefix`, where a text begins with it.
pub open spec fn stripped(text: Seq<char>, prefix: Seq<char>) -> Option<Seq<char>> {
    if stands_at(text, prefix, 0) {
        Some(text.subrange(prefix.len() as int, text.len() as int))
    } else {
        None
    }
}

/// What follows `prefix`, where a text begins with it.
pub fn strip_prefix(text: &str, prefix: &str) -> (rest: Option<String>)
    ensures
        opt_text(rest) == stripped(text@, prefix@),
{
    if has_prefix(text, prefix) {
        let rest = text.substring_char(prefix.unicode_len(), text.unicode_len());
        Some(rest.to_string())
    } else {
        None
    }
}

/// Whether `part` stands somewhere in a text.
pub fn has_part(text: &str, part: &str) -> (r: bool)
    ensures
        r == contains_part(text@, part@),
{
    let n: usize = text.unicode_len();
    let m: usize = part.unicode_len();
    if m > n {
        return false;
    }
    let mut at: usize = 0;
    while at <= n - m
        invariant
            n == text@.len(),
            m == part@.len(),
            m <= n,
            at <= n - m + 1,
            forall|i: int| 0 <= i < at ==> !stands_at(text@, part@, i),
        decreases n - m + 1 - at,
    {
        if check_at(text, part, at) {
            return true;
        }
        if at == n - m {
            return false;
        }
        at = at + 1;
    }
    false
}

/// An ASCII letter in lower case; every other character as it is.
pub open spec fn ascii_lower(c: char) -> char {
    if 'A' <= c && c <= 'Z' {
        (c as int + 32) as char
    } else {
        c
    }
}

/// Whether two texts differ at most in the case of ASCII letters.
pub open spec fn same_ignoring_case(a: Seq<char>, b: Seq<char>) -> bool {
    a.map_values(|c: char| ascii_lower(c)) == b.map_values(|c: char| ascii_lower(c))
}

fn lower_code(c: char) -> (code: u32)
    ensures
        code == ascii_lower(c) as u32,
{
    if 'A' <= c && c <= 'Z' {
        c as u32 + 32
    } else {
        c as u32
    }
}

/// Whether two texts differ at most in the case of ASCII letters.
pub fn eq_ignore_ascii_case(a: &str, b: &str) -> (r: bool)
    ensures
        r == same_ignoring_case(a@, b@),
{
    let n: usize = a.unicode_len();
    let ghost low_a = a@.map_values(|c: char| ascii_lower(c));
    let ghost low_b = b@.map_values(|c: char| ascii_lower(c));
    if n != b.unicode_len() {
        assert(low_a.len() != low_b.len());
        return false;
    }
    let mut i: usize = 0;
    while i < n
        invariant
            i <= n,
            n == a@.len(),
            n == b@.len(),
            low_a == a@.map_values(|c: char| ascii_lower(c)),
            low_b == b@.map_values(|c: char| ascii_lower(c)),
            forall|j: int| 0 <= j < i ==> low_a[j] == low_b[j],
        decreases n - i,
    {
        if lower_code(a.get_char(i)) != lower_code(b.get_char(i)) {
            assert(low_a[i as int] != low_b[i as int]);
            return false;
        }
        assert(low_a[i as int] == low_b[i as int]);
        i = i + 1;
    }
    assert(low_a =~= low_b);
    true
}

/// Whether every character is a decimal digit.
pub open spec fn all_digits(s: Seq<char>) -> bool {
    forall|i: int| 0 <= i < s.len() ==> '0' <= #[trigger] s[i] && s[i] <= '9'
}

/// The number that decimal digits write.
pub open spec fn digits_value(s: Seq<char>) -> nat
    decreases s.len(),
{
    if s.len() == 0 {
        0
    } else {
        10 * digits_value(s.drop_last()) + (s.last() as int - '0' as int) as nat
    }
}

/// The digits of a numeral: what follows an optional plus sign.
pub open spec fn numeral_digits(s: Seq<char>) -> Seq<char> {
    if s.len() > 0 && s[0] == '+' {
        s.subrange(1, s.len() as int)
    } else {
        s
    }
}

/// The 16-bit number that a numeral writes: an optional plus sign and one or
/// more decimal digits, whose value fits.
pub open spec fn u16_of(s: Seq<char>) -> Option<u16> {
    let digits = numeral_digits(s);
    if digits.len() > 0 && all_digits(digits) && digits_value(digits) <= u16::MAX {
        Some(digits_value(digits) as u16)
    } else {
        None
    }
}

/// Reads a 16-bit number.
pub fn parse_u16(text: &str) -> (number: Option<u16>)
    ensures
        number == u16_of(text@),
{
    let n: usize = text.unicode_len();
    let ghost digits = numeral_digits(text@);
    let start: usize = if n > 0 && text.get_char(0) == '+' {
        1
    } else {
        0
    };
    if start == n {
        return None;
    }
    let mut value: u32 = 0;
    let mut over = false;
    let mut i: usize = start;
    while i < n
        invariant
            start <= i <= n,
            n == text@.len(),
            digits == numeral_digits(text@),
            digits == text@.subrange(start as int, n as int),
            all_digits(digits.take(i - start)),
            over ==> digits_value(digits.take(i - start)) > u16::MAX,
            !over ==> digits_value(digits.take(i - start)) == value,
            value <= u16::MAX,
        decreases n - i,
    {
        let c = text.get_char(i);
        let ghost k = i - start;
        assert(digits[k] == c);
        assert(digits.take(k + 1).drop_last() =~= digits.take(k));
        if c < '0' || c > '9' {
            assert(!('0' <= digits[k] && digits[k] <= '9'));
            return None;
        }
        if !over {
            value = value * 10 + (c as u32 - '0' as u32);
            if value > 65535 {
                over = true;
                value = 0;
            }
        }
        i = i + 1;
    }
    assert(digits.take(n - start) =~= digits);
    if over {
        None
    } else {
        Some(value as u16)
    }
}

} // verus!
