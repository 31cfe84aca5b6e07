//! Reading an identification number from text and deciding whether it is
//! valid.

use crate::checksum::{passes_checksum, weighted_sum};
use crate::table::{area_digits, code_map, digit_value, is_area_letter, is_digit_char};
use vstd::prelude::*;
use vstd::utf8::{encode_utf8, is_ascii_chars, is_ascii_chars_encode_utf8};

verus! {

/// Whether `s` begins as an identification number does: the first
/// character, if there is one, is an area letter, and every further
/// character is an ASCII decimal digit.
pub open spec fn well_shaped(s: Seq<char>) -> bool {
    &&& s.len() >= 1 ==> is_area_letter(s[0])
    &&& forall|i: int| 1 <= i < s.len() ==> is_digit_char(#[trigger] s[i])
}

/// The digits that a well-shaped text stands for: the two digits of its area
/// letter, then its written digits in order. For a whole identification
/// number these are the eleven positions of its expansion.
pub open spec fn expansion(s: Seq<char>) -> Seq<u8>
    recommends
        well_shaped(s),
{
    if s.len() == 0 {
        Seq::empty()
    } else {
        area_digits(s[0]) + Seq::new(
            (s.len() - 1) as nat,
            |i: int| digit_value(s[i + 1]) as u8,
        )
    }
}

/// Whether `s` is a valid identification number: ten characters, an area
/// letter and nine digits, whose expansion has a weighted sum divisible by
/// ten.
pub open spec fn valid_id(s: Seq<char>) -> bool {
    &&& s.len() == 10
    &&& well_shaped(s)
    &&& weighted_sum(expansion(s)) % 10 == 0
}

/// A text of one area letter stands for that letter's two digits.
pub proof fn lemma_expansion_of_letter(letter: char)
    ensures
        expansion(seq![letter]) == area_digits(letter),
{
    assert(expansion(seq![letter]) =~= area_digits(letter));
}

/// Writing one more character after a non-empty text adds its digit value
/// to the end of what the text stands for.
pub proof fn lemma_expansion_push(s: Seq<char>, c: char)
    requires
        s.len() >= 1,
    ensures
        expansion(s.push(c)) == expansion(s).push(digit_value(c) as u8),
        expansion(s).len() == s.len() + 1,
{
    assert(expansion(s.push(c)) =~= expansion(s).push(digit_value(c) as u8));
}

/// A well-shaped text holds ASCII characters only, so it has as many bytes
/// as characters, and each byte is the number of its character.
pub proof fn lemma_well_shaped_is_ascii(s: Seq<char>)
    requires
        well_shaped(s),
    ensures
        is_ascii_chars(s),
        encode_utf8(s).len() == s.len(),
        forall|i: int| 0 <= i < s.len() ==> #[trigger] encode_utf8(s)[i] == s[i] as u8,
{
    assert forall|i: int| 0 <= i < s.len() implies '\0' <= #[trigger] s[i] <= '\u{7f}' by {
        if i == 0 {
            assert(is_area_letter(s[0]));
        } else {
            assert(is_digit_char(s[i]));
        }
    }
    is_ascii_chars_encode_utf8(s);
}

/// Reads the digits that `text` stands for, or finds that it is not well
/// shaped.
pub fn expand(text: &str) -> (digits: Option<Vec<u8>>)
    ensures
        digits is Some <==> well_shaped(text@),
        digits matches Some(d) ==> d@ == expansion(text@),
{
    proof {
        if well_shaped(text@) {
            lemma_well_shaped_is_ascii(text@);
        }
    }
    if !text.is_ascii() {
        return None;
    }
    let bytes: &[u8] = text.as_bytes();
    proof {
        is_ascii_chars_encode_utf8(text@);
    }
    let n: usize = bytes.len();
    let mut digits: Vec<u8> = Vec::new();
    if n == 0 {
        assert(digits@ =~= expansion(text@));
        return Some(digits);
    }
    let first: u8 = bytes[0];
    if !('A' as u8 <= first && first <= 'Z' as u8) {
        return None;
    }
    let letter: char = first as char;
    assert(letter == text@[0]);
    let pair: [u8; 2] = code_map(letter);
    digits.push(pair[0]);
    digits.push(pair[1]);
    proof {
        lemma_expansion_of_letter(letter);
        assert(text@.take(1) =~= seq![letter]);
    }
    let mut i: usize = 1;
    while i < n
        invariant
            1 <= i <= n,
            n == text@.len(),
            n == bytes@.len(),
            is_ascii_chars(text@),
            forall|k: int| 0 <= k < n ==> text@[k] as u8 == #[trigger] bytes@[k],
            well_shaped(text@.take(i as int)),
            digits@ == expansion(text@.take(i as int)),
        decreases n - i,
    {
        let b: u8 = bytes[i];
        let ghost c: char = text@[i as int];
        assert(b == c as u8 && c <= '\u{7f}');
        if !('0' as u8 <= b && b <= '9' as u8) {
            return None;
        }
        proof {
            lemma_expansion_push(text@.take(i as int), c);
            assert(text@.take(i + 1) =~= text@.take(i as int).push(c));
        }
        digits.push(b - '0' as u8);
        i = i + 1;
    }
    assert(text@.take(i as int) =~= text@);
    Some(digits)
}

/// Decides whether `id` is a valid identification number. Every text gets an
/// answer, and the answer depends on the characters of `id` alone. A text
/// with characters outside ASCII is rejected whatever its length: a valid
/// number has ten characters in ten bytes.
pub fn is_valid(id: &str) -> (valid: bool)
    ensures
        valid == valid_id(id@),
{
    proof {
        if well_shaped(id@) {
            lemma_well_shaped_is_ascii(id@);
        }
    }
    if id.as_bytes().len() != 10 {
        return false;
    }
    match expand(id) {
        Some(digits) => passes_checksum(digits.as_slice()),
        None => false,
    }
}

} // verus!
