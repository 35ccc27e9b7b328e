//! What holds of the handling of text.
use crate::text;
use vstd::prelude::*;

verus! {

/// The character of a decimal digit.
pub open spec fn digit_char(d: int) -> char {
    if d == 0 {
        '0'
    } else if d == 1 {
        '1'
    } else if d == 2 {
        '2'
    } else if d == 3 {
        '3'
    } else if d == 4 {
        '4'
    } else if d == 5 {
        '5'
    } else if d == 6 {
        '6'
    } else if d == 7 {
        '7'
    } else if d == 8 {
        '8'
    } else {
        '9'
    }
}

/// A number of one digit is written as that digit.
pub proof fn law_one_digit_is_written(n: u64, written: String)
    requires
        call_ensures(text::unsigned_text, (n,), written),
        n < 10,
    ensures
        written@ == seq![digit_char(n as int)],
{
}

/// A longer number is written as the number without its last digit, and then
/// that digit.
pub proof fn law_more_digits_are_written(n: u64, written: String, shorter: String)
    requires
        call_ensures(text::unsigned_text, (n,), written),
        call_ensures(text::unsigned_text, ((n / 10) as u64,), shorter),
        n >= 10,
    ensures
        written@ == shorter@ + seq![digit_char((n % 10) as int)],
{
    assert(written@ =~= shorter@ + seq![digit_char((n % 10) as int)]);
}

/// A signed number is written as its magnitude, behind a minus sign where it is
/// negative.
pub proof fn law_signs_are_written(n: i64, magnitude: u64, written: String, unsigned: String)
    requires
        call_ensures(text::signed_text, (n,), written),
        call_ensures(text::unsigned_text, (magnitude,), unsigned),
        n as int == magnitude || n as int == -(magnitude as int),
    ensures
        n >= 0 ==> written@ == unsigned@,
        n < 0 ==> written@ == seq!['-'] + unsigned@,
{
}

/// Joined texts stand one behind the other.
pub proof fn law_joined_texts_follow_each_other(
    a: &str,
    b: &str,
    c: &str,
    two: String,
    three: String,
)
    requires
        call_ensures(text::join, (a, b), two),
        call_ensures(text::join3, (a, b, c), three),
    ensures
        two@ == a@ + b@,
        three@ == a@ + b@ + c@,
{
}

/// Two texts are the same where their characters are.
pub proof fn law_same_is_equality(a: &str, b: &str, r: bool)
    requires
        call_ensures(text::same, (a, b), r),
    ensures
        r <==> a@ == b@,
{
}

/// A text has a prefix where it is the prefix and something behind it.
pub proof fn law_prefix_begins_the_text(s: &str, prefix: &str, r: bool)
    requires
        call_ensures(text::has_prefix, (s, prefix), r),
    ensures
        r <==> exists|rest: Seq<char>| s@ == #[trigger] (prefix@ + rest),
{
    lemma_stands_first(s@, prefix@);
}

/// What is left of a text behind a prefix is what makes up the text with it.
pub proof fn law_stripped_text_completes_the_prefix(s: &str, prefix: &str, rest: Option<String>)
    requires
        call_ensures(text::strip_prefix, (s, prefix), rest),
    ensures
        rest matches Some(rest) ==> s@ == prefix@ + rest@,
        rest is None ==> forall|other: Seq<char>| s@ != #[trigger] (prefix@ + other),
{
    lemma_stands_first(s@, prefix@);
    lemma_stripped(s@, prefix@);
}

/// A prefix stands at the start where the text is it and something behind it.
pub proof fn lemma_stands_first(s: Seq<char>, prefix: Seq<char>)
    ensures
        text::stands_at(s, prefix, 0) <==> exists|rest: Seq<char>| s == #[trigger] (prefix + rest),
{
    if text::stands_at(s, prefix, 0) {
        assert(s =~= prefix + s.subrange(prefix.len() as int, s.len() as int));
    }
    if exists|rest: Seq<char>| s == #[trigger] (prefix + rest) {
        let rest = choose|rest: Seq<char>| s == #[trigger] (prefix + rest);
        assert(s.subrange(0, prefix.len() as int) =~= prefix);
    }
}

/// What is left behind a prefix is what makes up the text with it.
pub proof fn lemma_stripped(s: Seq<char>, prefix: Seq<char>)
    ensures
        text::stripped(s, prefix) matches Some(rest) ==> s == prefix + rest,
        text::stripped(s, prefix) is None ==> forall|rest: Seq<char>| s != #[trigger] (prefix
            + rest),
        forall|rest: Seq<char>|
            s == #[trigger] (prefix + rest) ==> text::stripped(s, prefix) == Some(rest),
{
    lemma_stands_first(s, prefix);
    if text::stands_at(s, prefix, 0) {
        assert(s =~= prefix + s.subrange(prefix.len() as int, s.len() as int));
    }
    assert forall|rest: Seq<char>| s == #[trigger] (prefix + rest) implies text::stripped(s, prefix)
        == Some(rest) by {
        assert(s.subrange(prefix.len() as int, s.len() as int) =~= rest);
    }
}

/// A part stands in a text where something before it and something behind it
/// make up the text.
pub proof fn law_part_stands_somewhere(s: &str, part: &str, r: bool)
    requires
        call_ensures(text::has_part, (s, part), r),
    ensures
        r <==> exists|before: Seq<char>, after: Seq<char>| s@ == #[trigger] (before + part@
            + after),
{
    if r {
        let at = choose|at: int| text::stands_at(s@, part@, at);
        let before = s@.subrange(0, at);
        let after = s@.subrange(at + part@.len(), s@.len() as int);
        assert(s@ =~= before + part@ + after);
    }
    if exists|before: Seq<char>, after: Seq<char>| s@ == #[trigger] (before + part@ + after) {
        let (before, after) = choose|before: Seq<char>, after: Seq<char>|
            s@ == #[trigger] (before + part@ + after);
        let at = before.len() as int;
        assert(s@.subrange(at, at + part@.len()) =~= part@);
        assert(text::stands_at(s@, part@, at));
    }
}

/// Whether two characters are the same, or the same ASCII letter in two cases.
pub open spec fn same_letter(a: char, b: char) -> bool {
    ||| a == b
    ||| 'A' <= a && a <= 'Z' && b as int == a as int + 32
    ||| 'A' <= b && b <= 'Z' && a as int == b as int + 32
}

/// Two texts are the same but for the case of ASCII letters where they are as
/// long as each other and the same letter by letter.
pub proof fn law_case_is_ignored_letter_by_letter(a: &str, b: &str, r: bool)
    requires
        call_ensures(text::eq_ignore_ascii_case, (a, b), r),
    ensures
        r <==> same_letters(a@, b@),
{
    lemma_same_letters(a@, b@);
}

/// Whether two texts are the same letter by letter.
pub open spec fn same_letters(a: Seq<char>, b: Seq<char>) -> bool {
    &&& a.len() == b.len()
    &&& forall|i: int| 0 <= i < a.len() ==> same_letter(#[trigger] a[i], b[i])
}

/// Lower case is the same where the letters are.
pub proof fn lemma_same_letters(a: Seq<char>, b: Seq<char>)
    ensures
        text::same_ignoring_case(a, b) <==> same_letters(a, b),
{
    let low_a = a.map_values(|c: char| text::ascii_lower(c));
    let low_b = b.map_values(|c: char| text::ascii_lower(c));
    if text::same_ignoring_case(a, b) {
        assert(low_a.len() == low_b.len());
        assert forall|i: int| 0 <= i < a.len() implies same_letter(#[trigger] a[i], b[i]) by {
            assert(low_a[i] == low_b[i]);
            lemma_same_letter(a[i], b[i]);
        }
    }
    if same_letters(a, b) {
        assert forall|i: int| 0 <= i < a.len() implies low_a[i] == low_b[i] by {
            assert(same_letter(a[i], b[i]));
            lemma_same_letter(a[i], b[i]);
        }
        assert(low_a =~= low_b);
    }
}

proof fn lemma_same_letter(a: char, b: char)
    ensures
        text::ascii_lower(a) == text::ascii_lower(b) <==> same_letter(a, b),
{
}

/// Whether a character is a decimal digit.
pub open spec fn is_digit_char(c: char) -> bool {
    '0' <= c && c <= '9'
}

/// A numeral is worth ten times the numeral without its last digit, and that
/// digit.
pub proof fn law_digits_count_by_place(digits: Seq<char>, d: int)
    requires
        0 <= d < 10,
    ensures
        text::digits_value(Seq::empty()) == 0,
        text::digits_value(digits + seq![digit_char(d)]) == 10 * text::digits_value(digits) + d,
{
    let longer = digits + seq![digit_char(d)];
    assert(longer.drop_last() =~= digits);
    assert(longer.last() == digit_char(d));
}

/// Whether a text writes a 16-bit number: digits, at least one, behind an
/// optional plus sign.
pub open spec fn writes_u16(s: Seq<char>, digits: Seq<char>, n: u16) -> bool {
    &&& s == digits || s == seq!['+'] + digits
    &&& digits.len() > 0
    &&& forall|i: int| 0 <= i < digits.len() ==> is_digit_char(#[trigger] digits[i])
    &&& text::digits_value(digits) == n
}

/// A 16-bit number is read from a text exactly where the text writes it.
pub proof fn law_numbers_are_read_as_written(s: &str, number: Option<u16>)
    requires
        call_ensures(text::parse_u16, (s,), number),
    ensures
        number matches Some(n) ==> exists|digits: Seq<char>| writes_u16(s@, digits, n),
        number is None ==> forall|digits: Seq<char>, n: u16| !writes_u16(s@, digits, n),
{
    lemma_u16(s@);
}

/// A 16-bit number is what a text writes.
pub proof fn lemma_u16(s: Seq<char>)
    ensures
        text::u16_of(s) matches Some(n) ==> exists|digits: Seq<char>| writes_u16(s, digits, n),
        forall|digits: Seq<char>, n: u16| #[trigger]
            writes_u16(s, digits, n) ==> text::u16_of(s) == Some(n),
{
    if let Some(n) = text::u16_of(s) {
        let digits = text::numeral_digits(s);
        assert(s =~= digits || s =~= seq!['+'] + digits);
        assert(writes_u16(s, digits, n));
    }
    assert forall|digits: Seq<char>, n: u16| #[trigger] writes_u16(s, digits, n) implies
        text::u16_of(s) == Some(n) by {
        assert(is_digit_char(digits[0]));
        if s == seq!['+'] + digits {
            assert(s[0] == '+');
            assert(s.subrange(1, s.len() as int) =~= digits);
        } else {
            assert(s[0] != '+');
        }
    }
}

} // verus!
