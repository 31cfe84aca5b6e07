//! Making valid identification numbers, at random or from given draws.

use crate::checksum::{check_digit, lemma_check_digit_settles, solve_check_digit, weighted_sum};
use crate::random::random_between;
use crate::table::{code_map, digit_char, is_area_letter, is_digit_char};
use crate::validate::{
    expand, expansion, lemma_expansion_of_letter, lemma_expansion_push, valid_id, well_shaped,
};
use rand::rngs::ThreadRng;
use vstd::prelude::*;
use vstd::string::{StrSliceExecFns, StringExecFns};

verus! {

/// Why a text cannot begin an identification number.
#[derive(Clone, Copy, Debug, PartialEq, Eq, Structural)]
pub enum PrefixError {
    /// The text has more than nine characters, so no place is left for the
    /// check digit.
    TooLong,
    /// The first character is not an area letter, or a later one is not a
    /// decimal digit.
    BadShape,
}

/// Whether `p` can begin an identification number and leaves the check digit
/// open: at most nine characters, an area letter first and digits after it.
pub open spec fn valid_prefix(p: Seq<char>) -> bool {
    p.len() <= 9 && well_shaped(p)
}

/// The numbers that may be drawn for position `pos` of an identification
/// number: one of 26 for the area letter, 1 or 2 for the category digit that
/// follows it, and a decimal digit elsewhere.
pub open spec fn draw_in_range(pos: int, draw: u8) -> bool {
    if pos == 0 {
        draw < 26
    } else if pos == 1 {
        1 <= draw <= 2
    } else {
        draw <= 9
    }
}

/// The character that a draw puts at position `pos`: the letter that many
/// places after `A` at the front, the digit itself elsewhere.
pub open spec fn draw_char(pos: int, draw: u8) -> char {
    if pos == 0 {
        ('A' as int + draw) as char
    } else {
        digit_char(draw as int)
    }
}

/// Whether `draws` holds one admissible draw for each position from
/// `prefix_len` up to the last one before the check digit.
pub open spec fn valid_draws(prefix_len: int, draws: Seq<u8>) -> bool {
    &&& prefix_len + draws.len() == 9
    &&& forall|j: int| 0 <= j < draws.len() ==> draw_in_range(prefix_len + j, #[trigger] draws[j])
}

/// `prefix` followed by the characters of the draws.
pub open spec fn extended(prefix: Seq<char>, draws: Seq<u8>) -> Seq<char> {
    prefix + Seq::new(draws.len(), |j: int| draw_char(prefix.len() + j, draws[j]))
}

/// The identification number that begins with `prefix`, goes on with the
/// draws, and ends with the check digit that these nine characters call for.
pub open spec fn completed(prefix: Seq<char>, draws: Seq<u8>) -> Seq<char> {
    let body = extended(prefix, draws);
    body.push(digit_char(check_digit(expansion(body))))
}

/// Why `p`, which is no valid prefix, is refused: for its length where that
/// is over nine, for its shape otherwise.
pub open spec fn refusal(p: Seq<char>) -> PrefixError
    recommends
        !valid_prefix(p),
{
    if p.len() > 9 {
        PrefixError::TooLong
    } else {
        PrefixError::BadShape
    }
}

/// Nine well-shaped characters followed by the check digit they call for
/// are a valid identification number.
pub proof fn lemma_check_digit_completes(body: Seq<char>)
    requires
        body.len() == 9,
        well_shaped(body),
    ensures
        valid_id(body.push(digit_char(check_digit(expansion(body))))),
{
    let check = check_digit(expansion(body));
    lemma_expansion_push(body, digit_char(check));
    lemma_check_digit_settles(expansion(body));
}

/// For every area letter and every nine digits written after it, the first
/// ten positions of the expansion followed by their check digit have a
/// weighted sum divisible by ten; so the text with its last digit replaced
/// by that check digit is a valid identification number.
pub proof fn lemma_solved_expansion_passes(letter: char, digits: Seq<char>)
    requires
        is_area_letter(letter),
        digits.len() == 9,
        forall|i: int| 0 <= i < 9 ==> is_digit_char(#[trigger] digits[i]),
    ensures
        ({
            let partial = expansion(seq![letter] + digits).take(10);
            &&& 0 <= check_digit(partial) <= 9
            &&& weighted_sum(partial.push(check_digit(partial) as u8)) % 10 == 0
            &&& valid_id((seq![letter] + digits).update(9, digit_char(check_digit(partial))))
        }),
{
    let text = seq![letter] + digits;
    let body = text.take(9);
    let partial = expansion(text).take(10);
    assert(well_shaped(body));
    assert(expansion(body) =~= partial);
    lemma_check_digit_settles(partial);
    lemma_check_digit_completes(body);
    assert(body.push(digit_char(check_digit(partial))) =~= text.update(
        9,
        digit_char(check_digit(partial)),
    ));
}

/// Tells whether `prefix` can begin an identification number, and if not,
/// why.
pub fn check_prefix(prefix: &str) -> (outcome: Result<(), PrefixError>)
    ensures
        outcome is Ok <==> valid_prefix(prefix@),
        outcome matches Err(e) ==> e == refusal(prefix@),
{
    if prefix.unicode_len() > 9 {
        return Err(PrefixError::TooLong);
    }
    match expand(prefix) {
        Some(_) => Ok(()),
        None => Err(PrefixError::BadShape),
    }
}

/// Completes `prefix` to an identification number with the given draws, one
/// for each position that the prefix leaves open before the check digit.
pub fn complete(prefix: &str, draws: &[u8]) -> (id: String)
    requires
        valid_prefix(prefix@),
        valid_draws(prefix@.len() as int, draws@),
    ensures
        id@ == completed(prefix@, draws@),
        valid_id(id@),
        prefix@.is_prefix_of(id@),
{
    let n: usize = prefix.unicode_len();
    let mut digits: Vec<u8> = expand(prefix).unwrap();
    let mut id: String = String::from_str(prefix);
    assert(id@ =~= extended(prefix@, draws@.take(0)));
    let mut j: usize = 0;
    while j < draws.len()
        invariant
            j <= draws@.len(),
            n == prefix@.len(),
            n + draws@.len() == 9,
            valid_draws(n as int, draws@),
            id@ == extended(prefix@, draws@.take(j as int)),
            well_shaped(id@),
            digits@ == expansion(id@),
        decreases draws@.len() - j,
    {
        let draw: u8 = draws[j];
        let ghost before = id@;
        assert(draw_in_range(n + j, draw));
        if n + j == 0 {
            let letter: char = ('A' as u8 + draw) as char;
            let pair: [u8; 2] = code_map(letter);
            digits.push(pair[0]);
            digits.push(pair[1]);
            id.push(letter);
            proof {
                lemma_expansion_of_letter(letter);
                assert(id@ =~= seq![letter]);
            }
        } else {
            let c: char = ('0' as u8 + draw) as char;
            proof {
                lemma_expansion_push(before, c);
            }
            digits.push(draw);
            id.push(c);
        }
        assert(id@ =~= extended(prefix@, draws@.take(j + 1)));
        j = j + 1;
    }
    assert(draws@.take(j as int) =~= draws@);
    proof {
        lemma_check_digit_completes(id@);
    }
    let check: u8 = solve_check_digit(digits.as_slice());
    id.push(('0' as u8 + check) as char);
    assert(prefix@.is_prefix_of(id@));
    id
}

/// Makes a random identification number that begins with `prefix`. A
/// missing area letter is drawn from all 26, a missing category digit from 1
/// and 2, and every other missing digit from 0 to 9; the check digit is then
/// computed.
pub fn generate_prefix(prefix: &str) -> (id: String)
    requires
        valid_prefix(prefix@),
    ensures
        valid_id(id@),
        prefix@.is_prefix_of(id@),
        exists|draws: Seq<u8>|
            valid_draws(prefix@.len() as int, draws) && id@ == completed(prefix@, draws),
        prefix@.len() <= 1 ==> id@[1] == '1' || id@[1] == '2',
{
    let n: usize = prefix.unicode_len();
    let mut rng: ThreadRng = rand::thread_rng();
    let mut draws: Vec<u8> = Vec::new();
    let mut pos: usize = n;
    while pos < 9
        invariant
            n <= pos <= 9,
            draws@.len() == pos - n,
            forall|j: int| 0 <= j < draws@.len() ==> draw_in_range(n + j, #[trigger] draws@[j]),
        decreases 9 - pos,
    {
        let draw: u8 = if pos == 0 {
            random_between(&mut rng, 0, 26)
        } else if pos == 1 {
            random_between(&mut rng, 1, 3)
        } else {
            random_between(&mut rng, 0, 10)
        };
        draws.push(draw);
        pos = pos + 1;
    }
    let id: String = complete(prefix, draws.as_slice());
    proof {
        lemma_category_of_completed(prefix@, draws@);
    }
    id
}

/// Where the prefix leaves the category digit open, the completed number has
/// 1 or 2 there.
pub proof fn lemma_category_of_completed(prefix: Seq<char>, draws: Seq<u8>)
    requires
        valid_prefix(prefix),
        valid_draws(prefix.len() as int, draws),
    ensures
        prefix.len() <= 1 ==> completed(prefix, draws)[1] == '1' || completed(prefix, draws)[1]
            == '2',
{
    if prefix.len() <= 1 {
        let j = 1 - prefix.len();
        assert(draw_in_range(1, draws[j]));
        assert(completed(prefix, draws)[1] == draw_char(1, draws[j]));
    }
}

/// Makes a random identification number with nothing given: what
/// `generate_prefix` makes of the empty prefix.
pub fn generate() -> (id: String)
    ensures
        valid_id(id@),
        exists|draws: Seq<u8>| valid_draws(0, draws) && id@ == completed(Seq::empty(), draws),
        id@[1] == '1' || id@[1] == '2',
{
    proof {
        reveal_strlit("");
        assert(""@ =~= Seq::<char>::empty());
    }
    generate_prefix("")
}

/// Makes a random identification number that begins with `prefix`, or says
/// why none can.
pub fn try_generate_prefix(prefix: &str) -> (outcome: Result<String, PrefixError>)
    ensures
        outcome is Ok <==> valid_prefix(prefix@),
        outcome matches Ok(id) ==> valid_id(id@) && prefix@.is_prefix_of(id@),
        outcome matches Ok(id) ==> exists|draws: Seq<u8>|
            valid_draws(prefix@.len() as int, draws) && id@ == completed(prefix@, draws),
        outcome matches Ok(id) ==> (prefix@.len() <= 1 ==> id@[1] == '1' || id@[1] == '2'),
        outcome matches Err(e) ==> e == refusal(prefix@),
{
    match check_prefix(prefix) {
        Ok(_) => Ok(generate_prefix(prefix)),
        Err(e) => Err(e),
    }
}

} // verus!
