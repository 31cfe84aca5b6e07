//! The area letters and the two-digit numbers they stand for.

use vstd::prelude::*;

verus! {

/// Whether `c` is an area letter: an upper-case ASCII letter.
pub open spec fn is_area_letter(c: char) -> bool {
    'A' <= c && c <= 'Z'
}

/// Whether `c` is an ASCII decimal digit.
pub open spec fn is_digit_char(c: char) -> bool {
    '0' <= c && c <= '9'
}

/// The value of the decimal digit `c`.
pub open spec fn digit_value(c: char) -> int
    recommends
        is_digit_char(c),
{
    c as int - '0' as int
}

/// The character that writes the digit `d`.
pub open spec fn digit_char(d: int) -> char
    recommends
        0 <= d <= 9,
{
    ('0' as int + d) as char
}

/// The number that the national scheme assigns to each area letter. The
/// numbers follow the alphabet from 10 on, except that `I`, `O`, `W`, `X`,
/// `Y` and `Z` stand out of line.
pub open spec fn area_number(letter: char) -> int
    recommends
        is_area_letter(letter),
{
    if letter == 'A' {
        10
    } else if letter == 'B' {
        11
    } else if letter == 'C' {
        12
    } else if letter == 'D' {
        13
    } else if letter == 'E' {
        14
    } else if letter == 'F' {
        15
    } else if letter == 'G' {
        16
    } else if letter == 'H' {
        17
    } else if letter == 'I' {
        34
    } else if letter == 'J' {
        18
    } else if letter == 'K' {
        19
    } else if letter == 'L' {
        20
    } else if letter == 'M' {
        21
    } else if letter == 'N' {
        22
    } else if letter == 'O' {
        35
    } else if letter == 'P' {
        23
    } else if letter == 'Q' {
        24
    } else if letter == 'R' {
        25
    } else if letter == 'S' {
        26
    } else if letter == 'T' {
        27
    } else if letter == 'U' {
        28
    } else if letter == 'V' {
        29
    } else if letter == 'W' {
        32
    } else if letter == 'X' {
        30
    } else if letter == 'Y' {
        31
    } else {
        33
    }
}

/// The two digits of an area letter's number, tens first.
pub open spec fn area_digits(letter: char) -> Seq<u8>
    recommends
        is_area_letter(letter),
{
    seq![(area_number(letter) / 10) as u8, (area_number(letter) % 10) as u8]
}

/// Looks up the two digits that an area letter stands for.
pub fn code_map(c: char) -> (pair: [u8; 2])
    requires
        is_area_letter(c),
    ensures
        pair@ == area_digits(c),
        pair[0] == area_number(c) / 10,
        pair[1] == area_number(c) % 10,
        1 <= pair[0] <= 3,
        pair[1] <= 9,
{
    let numbers: [u8; 26] = [
        10, 11, 12, 13, 14, 15, 16, 17, 34, 18, 19, 20, 21,
        22, 35, 23, 24, 25, 26, 27, 28, 29, 32, 30, 31, 33,
    ];
    let offset: u8 = c as u8 - 'A' as u8;
    let number: u8 = numbers[offset as usize];
    let pair: [u8; 2] = [number / 10, number % 10];
    assert(pair@ =~= area_digits(c));
    pair
}

} // verus!
