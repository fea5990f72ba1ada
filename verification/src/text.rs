//! Text as sequences of characters: conversion from and to strings, decimal
//! digits, and the tests for a leading and a trailing part.

use vstd::prelude::*;

verus! {

/// `str::chars` collected into a vector. Not proved: that the characters are
/// those of the string, in order.
#[verifier::external_body]
pub(crate) fn chars_of(s: &str) -> (chars: Vec<char>)
    ensures
        chars@ == s@,
{
    s.chars().collect()
}

/// `String::from_iter` on the characters of a vector. Not proved: that the
/// string holds those characters, in order.
#[verifier::external_body]
pub(crate) fn string_of(chars: &Vec<char>) -> (s: String)
    ensures
        s@ == chars@,
{
    String::from_iter(chars.iter())
}

/// The character of a decimal digit.
pub open spec fn digit_char(d: int) -> char {
    if d == 0 {
        '0'
    } else if d == 1 {
        '1'
    } else if d == 2 {
        '2'
    } else if d == 3 {
        '3'
    } else if d == 4 {
        '4'
    } else if d == 5 {
        '5'
    } else if d == 6 {
        '6'
    } else if d == 7 {
        '7'
    } else if d == 8 {
        '8'
    } else {
        '9'
    }
}

/// The value of a decimal digit, or -1 for any other character.
pub open spec fn digit_value(c: char) -> int {
    if c == '0' {
        0
    } else if c == '1' {
        1
    } else if c == '2' {
        2
    } else if c == '3' {
        3
    } else if c == '4' {
        4
    } else if c == '5' {
        5
    } else if c == '6' {
        6
    } else if c == '7' {
        7
    } else if c == '8' {
        8
    } else if c == '9' {
        9
    } else {
        -1
    }
}

/// Whether the character is a decimal digit.
pub open spec fn is_digit(c: char) -> bool {
    digit_value(c) >= 0
}

/// A number below 100 as two decimal digits.
pub open spec fn two_digits(n: int) -> Seq<char> {
    seq![digit_char(n / 10), digit_char(n % 10)]
}

/// A number below 10000 as four decimal digits.
pub open spec fn four_digits(n: int) -> Seq<char> {
    seq![
        digit_char(n / 1000),
        digit_char((n / 100) % 10),
        digit_char((n / 10) % 10),
        digit_char(n % 10),
    ]
}

/// The number that the `count` digits of `text` from `start` on spell.
pub open spec fn number_at(text: Seq<char>, start: int, count: int) -> int
    decreases count,
{
    if count <= 0 {
        0
    } else {
        number_at(text, start, count - 1) * 10 + digit_value(text[start + count - 1])
    }
}

/// Whether the `count` characters of `text` from `start` on are digits.
pub open spec fn digits_at(text: Seq<char>, start: int, count: int) -> bool {
    forall|i: int| start <= i < start + count ==> is_digit(#[trigger] text[i])
}

/// Whether `text` begins with `head`.
pub open spec fn starts_with(text: Seq<char>, head: Seq<char>) -> bool {
    head.len() <= text.len() && text.subrange(0, head.len() as int) == head
}

/// Whether `text` ends with `tail`.
pub open spec fn ends_with(text: Seq<char>, tail: Seq<char>) -> bool {
    tail.len() <= text.len() && text.subrange(text.len() - tail.len(), text.len() as int) == tail
}

/// The character of a decimal digit.
pub(crate) fn digit_to_char(d: u32) -> (c: char)
    requires
        d < 10,
    ensures
        c == digit_char(d as int),
        digit_value(c) == d,
{
    if d == 0 {
        '0'
    } else if d == 1 {
        '1'
    } else if d == 2 {
        '2'
    } else if d == 3 {
        '3'
    } else if d == 4 {
        '4'
    } else if d == 5 {
        '5'
    } else if d == 6 {
        '6'
    } else if d == 7 {
        '7'
    } else if d == 8 {
        '8'
    } else {
        '9'
    }
}

/// The value of a decimal digit, or `None` for any other character.
pub fn char_to_digit(c: char) -> (d: Option<u32>)
    ensures
        d.is_some() == is_digit(c),
        d.is_some() ==> d.unwrap() == digit_value(c) && d.unwrap() < 10,
{
    if c == '0' {
        Some(0)
    } else if c == '1' {
        Some(1)
    } else if c == '2' {
        Some(2)
    } else if c == '3' {
        Some(3)
    } else if c == '4' {
        Some(4)
    } else if c == '5' {
        Some(5)
    } else if c == '6' {
        Some(6)
    } else if c == '7' {
        Some(7)
    } else if c == '8' {
        Some(8)
    } else if c == '9' {
        Some(9)
    } else {
        None
    }
}

/// Appends the two decimal digits of a number below 100.
pub(crate) fn push_two_digits(out: &mut Vec<char>, n: u32)
    requires
        n < 100,
    ensures
        final(out)@ == old(out)@ + two_digits(n as int),
{
    let ghost before = out@;
    out.push(digit_to_char(n / 10));
    out.push(digit_to_char(n % 10));
    assert(out@ =~= before + two_digits(n as int));
}

/// Appends the four decimal digits of a number below 10000.
pub(crate) fn push_four_digits(out: &mut Vec<char>, n: u32)
    requires
        n < 10000,
    ensures
        final(out)@ == old(out)@ + four_digits(n as int),
{
    let ghost before = out@;
    out.push(digit_to_char(n / 1000));
    out.push(digit_to_char((n / 100) % 10));
    out.push(digit_to_char((n / 10) % 10));
    out.push(digit_to_char(n % 10));
    assert(out@ =~= before + four_digits(n as int));
}

/// Appends the characters of `more`.
pub fn push_all(out: &mut Vec<char>, more: &Vec<char>)
    ensures
        final(out)@ == old(out)@ + more@,
{
    let ghost before = out@;
    let mut i: usize = 0;
    while i < more.len()
        invariant
            i <= more@.len(),
            out@ == before + more@.subrange(0, i as int),
        decreases more.len() - i,
    {
        out.push(more[i]);
        assert(out@ =~= before + more@.subrange(0, i + 1));
        i += 1;
    }
    assert(more@.subrange(0, more@.len() as int) =~= more@);
}

/// Reads `count` digits of `text` from `start` on as a number, or `None`
/// where one of them is no digit or the text is too short.
pub(crate) fn read_number(text: &Vec<char>, start: usize, count: usize) -> (n: Option<u32>)
    requires
        count <= 4,
        start + count <= usize::MAX,
    ensures
        n.is_some() == (start + count <= text@.len() && digits_at(text@, start as int, count as int)),
        n.is_some() ==> n.unwrap() == number_at(text@, start as int, count as int),
        n.is_some() ==> n.unwrap() < 10000,
{
    if start + count > text.len() {
        return None;
    }
    let mut value: u32 = 0;
    let mut i: usize = 0;
    while i < count
        invariant
            i <= count <= 4,
            start + count <= text@.len() <= usize::MAX,
            digits_at(text@, start as int, i as int),
            value == number_at(text@, start as int, i as int),
            i == 0 ==> value == 0,
            i == 1 ==> value < 10,
            i == 2 ==> value < 100,
            i == 3 ==> value < 1000,
            i == 4 ==> value < 10000,
        decreases count - i,
    {
        match char_to_digit(text[start + i]) {
            None => {
                assert(!is_digit(text@[start + i]));
                return None;
            },
            Some(d) => {
                value = value * 10 + d;
            },
        }
        i += 1;
    }
    Some(value)
}

/// Whether `text` holds `part` from `start` on.
pub fn has_at(text: &Vec<char>, start: usize, part: &Vec<char>) -> (res: bool)
    ensures
        res == (start + part@.len() <= text@.len() && text@.subrange(
            start as int,
            start + part@.len(),
        ) == part@),
{
    if part.len() > text.len() || start > text.len() - part.len() {
        return false;
    }
    let mut i: usize = 0;
    while i < part.len()
        invariant
            i <= part@.len(),
            start + part@.len() <= text@.len() <= usize::MAX,
            forall|j: int| 0 <= j < i ==> text@[start + j] == part@[j],
        decreases part.len() - i,
    {
        if text[start + i] != part[i] {
            assert(text@.subrange(start as int, start + part@.len())[i as int] != part@[i as int]);
            return false;
        }
        i += 1;
    }
    assert(text@.subrange(start as int, start + part@.len()) =~= part@);
    true
}

} // verus!
