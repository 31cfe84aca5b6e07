//! The weighted sum over an expansion, and the check digit that settles it.

use vstd::prelude::*;

verus! {

/// The multiplier of each position of an expansion.
pub open spec fn weights() -> Seq<int> {
    seq![1int, 9, 8, 7, 6, 5, 4, 3, 2, 1, 1]
}

/// The sum of the first `n` digits of `digits`, each multiplied by the
/// weight of its position.
pub open spec fn weighted_sum_to(digits: Seq<u8>, n: int) -> int
    recommends
        0 <= n <= digits.len() <= 11,
    decreases n,
{
    if n <= 0 {
        0
    } else {
        weighted_sum_to(digits, n - 1) + digits[n - 1] * weights()[n - 1]
    }
}

/// The sum of all of `digits`, each multiplied by the weight of its
/// position.
pub open spec fn weighted_sum(digits: Seq<u8>) -> int
    recommends
        digits.len() <= 11,
{
    weighted_sum_to(digits, digits.len() as int)
}

/// The digit that, appended to the first ten positions of an expansion,
/// makes the weighted sum of the whole divisible by ten.
pub open spec fn check_digit(partial: Seq<u8>) -> int
    recommends
        partial.len() == 10,
{
    (10 - weighted_sum(partial) % 10) % 10
}

/// The weight of position `i`, for executable code.
fn weight_at(i: usize) -> (w: u16)
    requires
        i < 11,
    ensures
        w == weights()[i as int],
        1 <= w <= 9,
{
    let table: [u16; 11] = [1, 9, 8, 7, 6, 5, 4, 3, 2, 1, 1];
    table[i]
}

/// The weighted sum of at most eleven digits, counted from the first
/// position of an expansion.
pub fn sum(ary: &[u8]) -> (total: u16)
    requires
        ary@.len() <= 11,
    ensures
        total == weighted_sum(ary@),
{
    let mut total: u16 = 0;
    let mut i: usize = 0;
    while i < ary.len()
        invariant
            i <= ary@.len() <= 11,
            total == weighted_sum_to(ary@, i as int),
            total <= 2295 * i,
        decreases ary@.len() - i,
    {
        let w: u16 = weight_at(i);
        let d: u16 = ary[i] as u16;
        assert(d * w <= 2295) by (nonlinear_arith)
            requires
                d <= 255,
                w <= 9,
        ;
        total = total + d * w;
        i = i + 1;
    }
    total
}

/// Whether the weighted sum of an expansion is divisible by ten.
pub fn passes_checksum(expansion: &[u8]) -> (ok: bool)
    requires
        expansion@.len() <= 11,
    ensures
        ok == (weighted_sum(expansion@) % 10 == 0),
{
    sum(expansion) % 10 == 0
}

/// The weighted sum of a sequence depends only on the digits that are
/// counted: two sequences that agree on their first `n` digits have the same
/// sum over them.
pub proof fn lemma_weighted_sum_agrees(a: Seq<u8>, b: Seq<u8>, n: int)
    requires
        0 <= n <= a.len(),
        n <= b.len(),
        forall|i: int| 0 <= i < n ==> a[i] == b[i],
    ensures
        weighted_sum_to(a, n) == weighted_sum_to(b, n),
    decreases n,
{
    if n > 0 {
        lemma_weighted_sum_agrees(a, b, n - 1);
    }
}

/// Written out for a whole expansion, the weighted sum is the first digit,
/// nine times the second, eight times the third and so on down to the tenth
/// digit once, and the eleventh once more.
pub proof fn lemma_weighted_sum_of_expansion(e: Seq<u8>)
    requires
        e.len() == 11,
    ensures
        weighted_sum(e) == e[0] + 9 * e[1] + 8 * e[2] + 7 * e[3] + 6 * e[4] + 5 * e[5] + 4 * e[6]
            + 3 * e[7] + 2 * e[8] + e[9] + e[10],
{
    let w = weights();
    assert(w[0] == 1 && w[1] == 9 && w[2] == 8 && w[3] == 7 && w[4] == 6 && w[5] == 5);
    assert(w[6] == 4 && w[7] == 3 && w[8] == 2 && w[9] == 1 && w[10] == 1);
    assert(weighted_sum_to(e, 0) == 0);
    assert(weighted_sum_to(e, 1) == weighted_sum_to(e, 0) + e[0] * 1);
    assert(weighted_sum_to(e, 2) == weighted_sum_to(e, 1) + e[1] * 9);
    assert(weighted_sum_to(e, 3) == weighted_sum_to(e, 2) + e[2] * 8);
    assert(weighted_sum_to(e, 4) == weighted_sum_to(e, 3) + e[3] * 7);
    assert(weighted_sum_to(e, 5) == weighted_sum_to(e, 4) + e[4] * 6);
    assert(weighted_sum_to(e, 6) == weighted_sum_to(e, 5) + e[5] * 5);
    assert(weighted_sum_to(e, 7) == weighted_sum_to(e, 6) + e[6] * 4);
    assert(weighted_sum_to(e, 8) == weighted_sum_to(e, 7) + e[7] * 3);
    assert(weighted_sum_to(e, 9) == weighted_sum_to(e, 8) + e[8] * 2);
    assert(weighted_sum_to(e, 10) == weighted_sum_to(e, 9) + e[9] * 1);
    assert(weighted_sum_to(e, 11) == weighted_sum_to(e, 10) + e[10] * 1);
}

/// Appending the check digit of `partial` to it gives a sequence whose
/// weighted sum is divisible by ten, and no other digit does.
pub proof fn lemma_check_digit_settles(partial: Seq<u8>)
    requires
        partial.len() == 10,
    ensures
        0 <= check_digit(partial) <= 9,
        weighted_sum(partial.push(check_digit(partial) as u8)) % 10 == 0,
        forall|d: u8|
            d <= 9 && weighted_sum(#[trigger] partial.push(d)) % 10 == 0 ==> d == check_digit(
                partial,
            ),
{
    assert forall|d: u8| weighted_sum(#[trigger] partial.push(d)) == weighted_sum(partial) + d by {
        let whole = partial.push(d);
        lemma_weighted_sum_agrees(whole, partial, 10);
        assert(weights()[10] == 1);
        assert(weighted_sum_to(whole, 11) == weighted_sum_to(whole, 10) + whole[10] * 1);
    }
}

/// Computes the check digit for the first ten positions of an expansion.
pub fn solve_check_digit(partial: &[u8]) -> (digit: u8)
    requires
        partial@.len() == 10,
    ensures
        digit == check_digit(partial@),
        digit <= 9,
        weighted_sum(partial@.push(digit)) % 10 == 0,
{
    proof {
        lemma_check_digit_settles(partial@);
    }
    let rest: u16 = sum(partial) % 10;
    ((10 - rest) % 10) as u8
}

} // verus!
