//! Text: equality, prefixes, trailing slashes, and numbers in decimal.

use vstd::prelude::*;
use vstd::std_specs::iter::*;
use vstd::string::*;

verus! {

broadcast use vstd::string::group_string_axioms;

/// Whether a text starts with another.
pub fn starts_with(text: &str, prefix: &str) -> (starts: bool)
    ensures
        starts == prefix@.is_prefix_of(text@),
{
    let mut left = text.chars();
    let mut right = prefix.chars();
    let ghost mut k: int = 0;
    loop
        invariant
            0 <= k <= prefix@.len(),
            k <= text@.len(),
            IteratorSpec::remaining(&left) == text@.skip(k),
            IteratorSpec::remaining(&right) == prefix@.skip(k),
            forall|i: int| 0 <= i < k ==> text@[i] == prefix@[i],
        decreases prefix@.len() - k,
    {
        match right.next() {
            None => {
                assert(prefix@ =~= text@.subrange(0, prefix@.len() as int));
                return true;
            },
            Some(c) => {
                assert(c == prefix@[k]);
                match left.next() {
                    None => {
                        return false;
                    },
                    Some(d) => {
                        assert(d == text@[k]);
                        if c != d {
                            assert(text@.subrange(0, prefix@.len() as int)[k] != prefix@[k]
                                || prefix@.len() > text@.len());
                            return false;
                        }
                        proof {
                            assert(text@.skip(k).drop_first() == text@.skip(k + 1));
                            assert(prefix@.skip(k).drop_first() == prefix@.skip(k + 1));
                            k = k + 1;
                        }
                    },
                }
            },
        }
    }
}

/// Whether two texts are the same.
pub fn same_text(a: &str, b: &str) -> (same: bool)
    ensures
        same == (a@ == b@),
{
    let same = a.unicode_len() == b.unicode_len() && starts_with(a, b);
    proof {
        if same {
            assert(a@.subrange(0, b@.len() as int) == a@);
        } else if a@ == b@ {
            assert(a@.subrange(0, b@.len() as int) == a@);
        }
    }
    same
}

/// The characters of a text.
pub fn characters(text: &str) -> (list: Vec<char>)
    ensures
        list@ == text@,
{
    let mut list: Vec<char> = Vec::new();
    let mut rest = text.chars();
    let ghost mut k: int = 0;
    loop
        invariant
            0 <= k <= text@.len(),
            IteratorSpec::remaining(&rest) == text@.skip(k),
            list@ == text@.take(k),
        decreases text@.len() - k,
    {
        match rest.next() {
            None => {
                assert(text@.take(k) == text@);
                return list;
            },
            Some(c) => {
                assert(c == text@[k]);
                list.push(c);
                proof {
                    assert(text@.skip(k).drop_first() == text@.skip(k + 1));
                    assert(text@.take(k + 1) == text@.take(k).push(c));
                    k = k + 1;
                }
            },
        }
    }
}

/// A text without the slashes at its end.
pub open spec fn without_end_slashes(text: Seq<char>) -> Seq<char>
    decreases text.len(),
{
    if text.len() > 0 && text.last() == '/' {
        without_end_slashes(text.drop_last())
    } else {
        text
    }
}

/// Cuts the slashes at the end of a text.
pub fn trim_end_slashes<'a>(text: &'a str) -> (trimmed: &'a str)
    ensures
        trimmed@ == without_end_slashes(text@),
{
    let mut n: usize = text.unicode_len();
    assert(text@.take(n as int) == text@);
    while n > 0 && text.get_char(n - 1) == '/'
        invariant
            n <= text@.len(),
            without_end_slashes(text@) == without_end_slashes(text@.take(n as int)),
        decreases n,
    {
        assert(text@.take(n as int).drop_last() == text@.take(n - 1));
        n = n - 1;
    }
    assert(text@.take(n as int) == text@.subrange(0, n as int));
    text.substring_char(0, n)
}

// ---------------------------------------------------------------------------
// Decimal numbers
// ---------------------------------------------------------------------------

/// The character of a decimal digit.
pub open spec fn digit(d: nat) -> char {
    ('0' as u32 + d) as char
}

/// A number in decimal, without leading zeros.
pub open spec fn decimal(n: nat) -> Seq<char>
    decreases n,
{
    if n < 10 {
        seq![digit(n)]
    } else {
        decimal(n / 10).push(digit(n % 10))
    }
}

fn digit_text(d: u32) -> (text: &'static str)
    requires
        d < 10,
    ensures
        text@ == seq![digit(d as nat)],
{
    proof {
        reveal_strlit("0");
        reveal_strlit("1");
        reveal_strlit("2");
        reveal_strlit("3");
        reveal_strlit("4");
        reveal_strlit("5");
        reveal_strlit("6");
        reveal_strlit("7");
        reveal_strlit("8");
        reveal_strlit("9");
    }
    match d {
        0 => "0",
        1 => "1",
        2 => "2",
        3 => "3",
        4 => "4",
        5 => "5",
        6 => "6",
        7 => "7",
        8 => "8",
        _ => "9",
    }
}

/// Writes a number in decimal.
pub fn decimal_text(n: u32) -> (text: String)
    ensures
        text@ == decimal(n as nat),
    decreases n,
{
    if n < 10 {
        digit_text(n).to_owned()
    } else {
        let mut text = decimal_text(n / 10);
        text.append(digit_text(n % 10));
        text
    }
}

/// A character from `0` to `9`.
pub open spec fn is_digit(c: char) -> bool {
    '0' <= c <= '9'
}

/// The number that a row of digits writes.
pub open spec fn digits_value(digits: Seq<char>) -> nat
    decreases digits.len(),
{
    if digits.len() == 0 {
        0
    } else {
        (digits_value(digits.drop_last()) * 10 + (digits.last() as nat - '0' as nat)) as nat
    }
}

/// A text without the plus sign that it may start with.
pub open spec fn without_plus(text: Seq<char>) -> Seq<char> {
    if text.len() > 0 && text[0] == '+' {
        text.drop_first()
    } else {
        text
    }
}

/// The number that a text writes as a row of digits, with or without a plus sign in front.
pub open spec fn unsigned_value(text: Seq<char>) -> Option<nat> {
    let digits = without_plus(text);
    if digits.len() > 0 && forall|i: int| 0 <= i < digits.len() ==> is_digit(#[trigger] digits[i]) {
        Some(digits_value(digits))
    } else {
        None
    }
}

/// More digits write no smaller number.
proof fn lemma_digits_grow(digits: Seq<char>, k: int)
    requires
        0 <= k <= digits.len(),
        forall|i: int| 0 <= i < digits.len() ==> is_digit(#[trigger] digits[i]),
    ensures
        digits_value(digits.take(k)) <= digits_value(digits),
    decreases digits.len(),
{
    if k == digits.len() {
        assert(digits.take(k) == digits);
    } else {
        lemma_digits_grow(digits.drop_last(), k);
        assert(digits.drop_last().take(k) == digits.take(k));
        assert(is_digit(digits[digits.len() - 1]));
    }
}

/// Reads a number of at most `max` from a text of digits, with or without a plus sign in front.
pub fn parse_unsigned(text: &str, max: u32) -> (number: Option<u32>)
    ensures
        match number {
            Some(n) => n <= max && unsigned_value(text@) == Some(n as nat),
            None => unsigned_value(text@) is None || unsigned_value(text@)->0 > max,
        },
{
    let length: usize = text.unicode_len();
    let start: usize = if length > 0 && text.get_char(0) == '+' {
        1
    } else {
        0
    };
    let ghost digits = without_plus(text@);
    assert(digits == text@.skip(start as int));
    if start == length {
        return None;
    }
    let mut rest = text.substring_char(start, length).chars();
    let mut value: u64 = 0;
    let ghost mut k: int = 0;
    assert(text@.subrange(start as int, length as int) == digits.skip(0));
    loop
        invariant
            digits == without_plus(text@),
            digits.len() > 0,
            0 <= k <= digits.len(),
            IteratorSpec::remaining(&rest) == digits.skip(k),
            forall|i: int| 0 <= i < k ==> is_digit(#[trigger] digits[i]),
            value == digits_value(digits.take(k)),
            value <= max,
        decreases digits.len() - k,
    {
        match rest.next() {
            None => {
                assert(digits.take(k) == digits);
                return Some(value as u32);
            },
            Some(c) => {
                assert(c == digits[k]);
                if c < '0' || c > '9' {
                    assert(!is_digit(digits[k]));
                    return None;
                }
                value = value * 10 + (c as u64 - '0' as u64);
                assert(digits.take(k + 1).drop_last() == digits.take(k));
                if value > max as u64 {
                    proof {
                        if unsigned_value(text@) is Some {
                            lemma_digits_grow(digits, k + 1);
                        }
                    }
                    return None;
                }
                proof {
                    assert(digits.skip(k).drop_first() == digits.skip(k + 1));
                    k = k + 1;
                }
            },
        }
    }
}

/// A number in decimal consists of digits, and they write that number.
pub proof fn law_decimal_reads_back(n: nat)
    ensures
        unsigned_value(decimal(n)) == Some(n),
{
    lemma_decimal_digits(n);
    assert(is_digit(decimal(n)[0]));
    assert(without_plus(decimal(n)) == decimal(n));
}

proof fn lemma_decimal_digits(n: nat)
    ensures
        decimal(n).len() > 0,
        forall|i: int| 0 <= i < decimal(n).len() ==> is_digit(#[trigger] decimal(n)[i]),
        digits_value(decimal(n)) == n,
    decreases n,
{
    if n < 10 {
        assert(decimal(n).drop_last() == Seq::<char>::empty());
        assert(digits_value(Seq::<char>::empty()) == 0);
        assert(decimal(n).last() == digit(n));
        assert(digit(n) as nat == '0' as nat + n);
    } else {
        lemma_decimal_digits(n / 10);
        assert(decimal(n).drop_last() == decimal(n / 10));
        assert(decimal(n).last() == digit(n % 10));
        assert(digit(n % 10) as nat == '0' as nat + n % 10);
        assert forall|i: int| 0 <= i < decimal(n).len() implies is_digit(#[trigger] decimal(n)[i]) by {
            if i < decimal(n).len() - 1 {
                assert(decimal(n)[i] == decimal(n / 10)[i]);
            }
        }
    }
}

/// What is left of a text whose end slashes were cut is the start of the text, does not end in a
/// slash, and was followed by nothing but slashes.
pub proof fn law_only_end_slashes_cut(text: Seq<char>)
    ensures
        without_end_slashes(text).is_prefix_of(text),
        without_end_slashes(text).len() > 0 ==> without_end_slashes(text).last() != '/',
        forall|i: int| without_end_slashes(text).len() <= i < text.len() ==> #[trigger] text[i] == '/',
    decreases text.len(),
{
    if text.len() > 0 && text.last() == '/' {
        let front = text.drop_last();
        law_only_end_slashes_cut(front);
        let cut = without_end_slashes(text);
        assert(cut =~= text.subrange(0, cut.len() as int)) by {
            assert(cut =~= front.subrange(0, cut.len() as int));
        }
        assert forall|i: int| cut.len() <= i < text.len() implies #[trigger] text[i] == '/' by {
            if i < front.len() {
                assert(front[i] == '/');
            }
        }
    } else {
        assert(text =~= text.subrange(0, text.len() as int));
    }
}

/// Slashes behind a text that does not end in one are all cut, however many they are.
pub proof fn law_any_end_slashes_cut(text: Seq<char>, slashes: nat)
    requires
        text.len() == 0 || text.last() != '/',
    ensures
        without_end_slashes(text + Seq::new(slashes, |i: int| '/')) == text,
    decreases slashes,
{
    let ended = text + Seq::new(slashes, |i: int| '/');
    if slashes == 0 {
        assert(ended =~= text);
    } else {
        let fewer = (slashes - 1) as nat;
        law_any_end_slashes_cut(text, fewer);
        assert(ended.drop_last() =~= text + Seq::new(fewer, |i: int| '/'));
        assert(ended.last() == '/');
    }
}

/// A number in decimal ends in the digit of its remainder by ten, behind the decimal of its tenth;
/// a number below ten is one digit, and no larger one begins with a zero.
pub proof fn law_decimal_by_digits(n: nat)
    ensures
        n < 10 ==> decimal(n) == seq![(48 + n) as char],
        n >= 10 ==> decimal(n) == decimal(n / 10).push((48 + n % 10) as char),
        n > 0 ==> decimal(n)[0] != '0',
    decreases n,
{
    lemma_decimal_digits(n);
    if n >= 10 {
        lemma_decimal_digits(n / 10);
        law_decimal_by_digits(n / 10);
        assert(decimal(n)[0] == decimal(n / 10)[0]);
    }
}

/// A text writes a number exactly where it is a row of one or more digits, or a plus sign and such
/// a row.
pub proof fn law_what_is_a_number(text: Seq<char>)
    ensures
        unsigned_value(text) is Some <==> {
            ||| text.len() > 0 && forall|i: int| 0 <= i < text.len() ==> '0' <= #[trigger] text[i] <= '9'
            ||| text.len() > 1 && text[0] == '+' && forall|i: int|
                1 <= i < text.len() ==> '0' <= #[trigger] text[i] <= '9'
        },
{
    let digits = without_plus(text);
    if text.len() > 0 && text[0] == '+' {
        assert forall|i: int| 0 <= i < digits.len() implies digits[i] == #[trigger] text[i + 1] by {}
        if forall|i: int| 0 <= i < digits.len() ==> is_digit(#[trigger] digits[i]) {
            assert forall|i: int| 1 <= i < text.len() implies '0' <= #[trigger] text[i] <= '9' by {
                assert(is_digit(digits[i - 1]));
            }
        }
        if forall|i: int| 1 <= i < text.len() ==> '0' <= #[trigger] text[i] <= '9' {
            assert forall|i: int| 0 <= i < digits.len() implies is_digit(#[trigger] digits[i]) by {
                assert('0' <= text[i + 1] <= '9');
            }
        }
    } else {
        if forall|i: int| 0 <= i < digits.len() ==> is_digit(#[trigger] digits[i]) {
            assert forall|i: int| 0 <= i < text.len() implies '0' <= #[trigger] text[i] <= '9' by {
                assert(is_digit(digits[i]));
            }
        }
    }
}

/// One digit more makes ten times the number and that digit; a plus sign in front makes no
/// difference.
pub proof fn law_number_by_digits(digits: Seq<char>, c: char)
    requires
        forall|i: int| 0 <= i < digits.len() ==> '0' <= #[trigger] digits[i] <= '9',
        '0' <= c <= '9',
    ensures
        digits.len() == 0 ==> unsigned_value(digits.push(c)) == Some((c as nat - 48) as nat),
        digits.len() > 0 ==> unsigned_value(digits) is Some && unsigned_value(digits.push(c)) == Some(
            (unsigned_value(digits)->0 * 10 + c as nat - 48) as nat,
        ),
        unsigned_value(seq!['+'] + digits.push(c)) == unsigned_value(digits.push(c)),
{
    let more = digits.push(c);
    assert(more.drop_last() =~= digits);
    assert(without_plus(more) == more) by {
        assert(more[0] != '+');
    }
    assert((seq!['+'] + more).drop_first() =~= more);
    assert forall|i: int| 0 <= i < more.len() implies is_digit(#[trigger] more[i]) by {
        if i < digits.len() {
            assert('0' <= digits[i] <= '9');
        }
    }
    if digits.len() > 0 {
        assert('0' <= digits[0] <= '9');
        assert(without_plus(digits) == digits);
        assert forall|i: int| 0 <= i < digits.len() implies is_digit(#[trigger] digits[i]) by {
            assert('0' <= digits[i] <= '9');
        }
    } else {
        assert(digits_value(digits) == 0);
    }
}

} // verus!
