//! Searching, comparing and reading text.

use vstd::prelude::*;

verus! {

/// Whether `needle` stands in `text` from position `at` on.
pub open spec fn occurs_at(text: Seq<char>, needle: Seq<char>, at: int) -> bool {
    &&& 0 <= at
    &&& at + needle.len() <= text.len()
    &&& text.subrange(at, at + needle.len()) == needle
}

/// Whether `needle` stands anywhere in `text`.
pub open spec fn occurs(text: Seq<char>, needle: Seq<char>) -> bool {
    exists|at: int| occurs_at(text, needle, at)
}

/// Whether `c` is one of the ten decimal digits.
pub open spec fn is_digit(c: char) -> bool {
    '0' <= c <= '9'
}

/// The number that a run of decimal digits writes down.
pub open spec fn decimal(digits: Seq<char>) -> nat
    decreases digits.len(),
{
    if digits.len() == 0 {
        0
    } else {
        decimal(digits.drop_last()) * 10 + (digits.last() as nat - '0' as nat) as nat
    }
}

/// The digits of a number in text: what follows an optional leading `+`.
pub open spec fn digits_of(text: Seq<char>) -> Seq<char> {
    if text.len() > 0 && text[0] == '+' {
        text.drop_first()
    } else {
        text
    }
}

/// The 64-bit number that `text` writes down: an optional `+` and at least one
/// decimal digit, nothing else, and no more than the type holds.
pub open spec fn number(text: Seq<char>) -> Option<u64> {
    let digits = digits_of(text);
    if digits.len() > 0 && (forall|i: int| 0 <= i < digits.len() ==> is_digit(#[trigger] digits[i]))
        && decimal(digits) <= u64::MAX {
        Some(decimal(digits) as u64)
    } else {
        None
    }
}

/// The characters of `text`, one by one.
pub fn chars_of(text: &str) -> (chars: Vec<char>)
    ensures
        chars@ == text@,
{
    let mut chars: Vec<char> = Vec::new();
    for c in it: text.chars()
        invariant
            chars@ == it.seq().take(it.index()),
            it.seq() == text@,
    {
        chars.push(c);
    }
    chars
}

/// Whether two texts are the same, character by character.
pub fn same(left: &str, right: &str) -> (res: bool)
    ensures
        res == (left@ == right@),
{
    let a: Vec<char> = chars_of(left);
    let b: Vec<char> = chars_of(right);
    if a.len() != b.len() {
        return false;
    }
    let mut i: usize = 0;
    while i < a.len()
        invariant
            i <= a.len(),
            a.len() == b.len(),
            a@ == left@,
            b@ == right@,
            a@.take(i as int) == b@.take(i as int),
        decreases a.len() - i,
    {
        if a[i] != b[i] {
            assert(left@[i as int] != right@[i as int]);
            return false;
        }
        assert(a@.take(i + 1) == a@.take(i as int).push(a@[i as int]));
        assert(b@.take(i + 1) == b@.take(i as int).push(b@[i as int]));
        i += 1;
    }
    assert(a@.take(i as int) == a@);
    assert(b@.take(i as int) == b@);
    true
}

/// Whether `needle` stands in `text` from position `at` on.
fn stands_at(text: &Vec<char>, needle: &Vec<char>, at: usize) -> (res: bool)
    requires
        at + needle.len() <= text.len(),
    ensures
        res == occurs_at(text@, needle@, at as int),
{
    let mut i: usize = 0;
    while i < needle.len()
        invariant
            i <= needle.len(),
            at + needle.len() <= text.len(),
            forall|j: int| 0 <= j < i ==> text@[at + j] == #[trigger] needle@[j],
        decreases needle.len() - i,
    {
        if text[at + i] != needle[i] {
            assert(text@.subrange(at as int, at + needle.len())[i as int] != needle@[i as int]);
            return false;
        }
        i += 1;
    }
    assert(text@.subrange(at as int, at + needle.len()) =~= needle@);
    true
}

/// Whether `needle` stands anywhere in `text`.
pub fn contains(text: &str, needle: &str) -> (res: bool)
    ensures
        res == occurs(text@, needle@),
{
    let hay: Vec<char> = chars_of(text);
    let pin: Vec<char> = chars_of(needle);
    if pin.len() > hay.len() {
        return false;
    }
    let last: usize = hay.len() - pin.len();
    let mut at: usize = 0;
    loop
        invariant
            hay@ == text@,
            pin@ == needle@,
            last == hay.len() - pin.len(),
            at <= last,
            forall|j: int| 0 <= j < at ==> !occurs_at(text@, needle@, j),
        decreases last - at,
    {
        if stands_at(&hay, &pin, at) {
            return true;
        }
        if at == last {
            return false;
        }
        at += 1;
    }
}

/// The value of a run of digits is no less than that of any of its beginnings.
proof fn lemma_decimal_grows(digits: Seq<char>, n: int)
    requires
        0 <= n <= digits.len(),
    ensures
        decimal(digits.take(n)) <= decimal(digits),
    decreases digits.len() - n,
{
    if n < digits.len() {
        lemma_decimal_grows(digits, n + 1);
        assert(digits.take(n + 1).drop_last() == digits.take(n));
    } else {
        assert(digits.take(n) == digits);
    }
}

/// Reads the 64-bit number that `text` writes down.
pub fn parse_number(text: &str) -> (res: Option<u64>)
    ensures
        res == number(text@),
{
    let chars: Vec<char> = chars_of(text);
    let start: usize = if chars.len() > 0 && chars[0] == '+' {
        1
    } else {
        0
    };
    let ghost digits = digits_of(text@);
    assert(digits == chars@.skip(start as int));
    if start == chars.len() {
        return None;
    }
    let mut value: u64 = 0;
    let mut i: usize = start;
    while i < chars.len()
        invariant
            start <= i <= chars.len(),
            start < chars.len(),
            digits == digits_of(text@),
            digits == chars@.skip(start as int),
            forall|j: int| 0 <= j < i - start ==> is_digit(#[trigger] digits[j]),
            value == decimal(digits.take(i - start)),
        decreases chars.len() - i,
    {
        let c: char = chars[i];
        assert(c == digits[i - start]);
        if !('0' <= c && c <= '9') {
            assert(!is_digit(digits[i - start]));
            return None;
        }
        let digit: u64 = (c as u64) - ('0' as u64);
        assert(digits.take(i - start + 1).drop_last() == digits.take(i - start));
        proof {
            lemma_decimal_grows(digits, i - start + 1);
        }
        match value.checked_mul(10) {
            None => {
                return None;
            },
            Some(shifted) => match shifted.checked_add(digit) {
                None => {
                    return None;
                },
                Some(next) => {
                    value = next;
                },
            },
        }
        i += 1;
    }
    assert(digits.take(i - start) == digits);
    Some(value)
}

/// A text holds whatever it was put together around.
pub proof fn law_text_holds_its_middle(before: Seq<char>, needle: Seq<char>, behind: Seq<char>)
    ensures
        occurs(before + needle + behind, needle),
{
    let text = before + needle + behind;
    assert(text.subrange(before.len() as int, (before.len() + needle.len()) as int) =~= needle);
    assert(occurs_at(text, needle, before.len() as int));
}

/// A text that holds another one is put together around it.
pub proof fn law_held_text_is_in_the_middle(text: Seq<char>, needle: Seq<char>) -> (sides: (
    Seq<char>,
    Seq<char>,
))
    requires
        occurs(text, needle),
    ensures
        text == sides.0 + needle + sides.1,
{
    let at = choose|at: int| occurs_at(text, needle, at);
    let sides = (text.take(at), text.skip(at + needle.len()));
    assert(text =~= sides.0 + text.subrange(at, at + needle.len()) + sides.1);
    sides
}

/// Another digit at the end makes a number ten times as large, and larger by
/// the digit, as long as it fits; a digit alone, or behind a `+`, is a number;
/// and nothing else is one: no text without a digit, none with another
/// character, and none that does not fit.
pub proof fn law_numbers_grow_by_digits(text: Seq<char>, c: char)
    ensures
        number(Seq::empty()) is None,
        number(text.push(c)) == if '0' <= c <= '9' {
            let digit = c as nat - '0' as nat;
            match number(text) {
                Some(n) => if n * 10 + digit <= 0xffff_ffff_ffff_ffff {
                    Some((n * 10 + digit) as u64)
                } else {
                    None
                },
                None => if text =~= Seq::empty() || text =~= seq!['+'] {
                    Some(digit as u64)
                } else {
                    None
                },
            }
        } else {
            None
        },
{
    let longer = text.push(c);
    let digits = digits_of(text);
    if text.len() == 0 {
        assert(longer =~= seq![c]);
        assert(seq![c].drop_first() =~= Seq::empty());
        assert(seq![c].drop_last() =~= Seq::empty());
        assert(decimal(Seq::empty()) == 0);
    } else {
        assert(longer[0] == text[0]);
        assert(digits_of(longer) =~= digits.push(c));
        assert(digits.push(c).drop_last() =~= digits);
        let all = digits.push(c);
        assert(all[digits.len() as int] == c);
        if forall|i: int| 0 <= i < all.len() ==> is_digit(#[trigger] all[i]) {
            assert forall|i: int| 0 <= i < digits.len() implies is_digit(#[trigger] digits[i]) by {
                assert(all[i] == digits[i]);
            }
        }
        if digits.len() == 0 {
            assert(text =~= seq!['+']);
        } else {
            assert(!(text =~= seq!['+']));
        }
    }
}

/// What is asked of a text is answered by all of its characters.
pub proof fn law_answers_about_texts(
    text: &str,
    other: &str,
    chars: Vec<char>,
    alike: bool,
    held: bool,
    read: Option<u64>,
)
    requires
        call_ensures(chars_of, (text,), chars),
        call_ensures(same, (text, other), alike),
        call_ensures(contains, (text, other), held),
        call_ensures(parse_number, (text,), read),
    ensures
        chars@ == text@,
        alike <==> text@ == other@,
        held <==> occurs(text@, other@),
        read == number(text@),
{
}

} // verus!
