//! The demo counters: each paints an ever-increasing decimal number near the
//! top-right corner of the screen, redrawing only the digits that changed.
//!
//! One call here computes one display update — the digits of the new value
//! and the cells to redraw; the driving loop (waiting out timer ticks,
//! pushing pixels) runs outside this crate.

use vstd::prelude::*;

verus! {

/// Digit cells a counter owns on screen; values up to sixteen decimal digits
/// fit.
pub const DIGIT_CELLS: usize = 16;

/// Largest value with at most `DIGIT_CELLS` decimal digits, plus one.
pub const COUNTER_LIMIT: u64 = 10000000000000000;

/// The decimal digits of `n`, least significant first; empty for zero.
pub open spec fn spec_digits(n: int) -> Seq<u8>
    decreases n,
{
    if n <= 0 {
        Seq::empty()
    } else {
        seq![(n % 10) as u8] + spec_digits(n / 10)
    }
}

/// Ten to the `k`.
pub open spec fn pow10(k: nat) -> int
    decreases k,
{
    if k == 0 {
        1
    } else {
        10 * pow10((k - 1) as nat)
    }
}

/// A number below ten to the `k` has at most `k` decimal digits.
pub proof fn lemma_digits_len(n: int, k: nat)
    requires
        0 <= n < pow10(k),
    ensures
        spec_digits(n).len() <= k,
    decreases k,
{
    if n > 0 {
        assert(k > 0) by {
            if k == 0 {
                assert(pow10(0) == 1);
            }
        }
        assert(pow10(k) == 10 * pow10((k - 1) as nat));
        assert(n / 10 < pow10((k - 1) as nat)) by (nonlinear_arith)
            requires
                0 < n < 10 * pow10((k - 1) as nat),
        ;
        assert(n / 10 >= 0) by (nonlinear_arith)
            requires n > 0,
        ;
        lemma_digits_len(n / 10, (k - 1) as nat);
    }
}

/// One digit cell to redraw: the glyph for `digit` at terminal column `col`
/// of the top row.
#[derive(Debug, Clone, Copy, PartialEq, Eq, Structural)]
pub struct DigitDraw {
    pub col: usize,
    pub digit: u8,
}

/// The cells a counter redraws: among the first `count` digit positions,
/// those whose digit differs from the previous frame, lowest digit first;
/// digit `d` lives at column `base_col - d`.
pub open spec fn spec_draws(digits: Seq<u8>, prev: Seq<u8>, base_col: int, count: int) -> Seq<
    DigitDraw,
>
    decreases count,
{
    if count <= 0 {
        Seq::empty()
    } else {
        spec_draws(digits, prev, base_col, count - 1) + if digits[count - 1] != prev[count - 1] {
            seq![DigitDraw { col: (base_col - (count - 1)) as usize, digit: digits[count - 1] }]
        } else {
            Seq::empty()
        }
    }
}

/// One display update of a counter at value `n`: the new digit cells
/// (low digit first, zero-padded) and the redraws against the previous
/// frame's digits.
pub fn simple_counter_args(n: u64, prev_digits: &Vec<u8>, base_col: usize) -> (r: (
    Vec<u8>,
    Vec<DigitDraw>,
))
    requires
        prev_digits@.len() == DIGIT_CELLS,
        n < COUNTER_LIMIT,
        base_col >= DIGIT_CELLS,
    ensures
        r.0@.len() == DIGIT_CELLS,
        r.0@.subrange(0, spec_digits(n as int).len() as int) == spec_digits(n as int),
        forall|d: int|
            spec_digits(n as int).len() <= d < DIGIT_CELLS ==> #[trigger] r.0@[d] == 0,
        r.1@ == spec_draws(
            r.0@,
            prev_digits@,
            base_col as int,
            spec_digits(n as int).len() as int,
        ),
{
    proof {
        reveal_with_fuel(pow10, 17);
        assert(pow10(16) == COUNTER_LIMIT);
        lemma_digits_len(n as int, 16);
    }
    let mut digits: Vec<u8> = Vec::new();
    while digits.len() < DIGIT_CELLS
        invariant
            digits@.len() <= DIGIT_CELLS,
            forall|d: int| 0 <= d < digits@.len() ==> #[trigger] digits@[d] == 0,
        decreases DIGIT_CELLS - digits@.len(),
    {
        digits.push(0);
    }
    let mut count: usize = 0;
    let mut i: u64 = n;
    while i > 0
        invariant
            digits@.len() == DIGIT_CELLS,
            spec_digits(n as int).len() <= DIGIT_CELLS,
            count + spec_digits(i as int).len() == spec_digits(n as int).len(),
            spec_digits(n as int) =~= digits@.subrange(0, count as int) + spec_digits(i as int),
            forall|d: int| count <= d < DIGIT_CELLS ==> #[trigger] digits@[d] == 0,
        decreases i,
    {
        proof {
            assert(spec_digits(i as int).len() >= 1);
        }
        let digit = (i % 10) as u8;
        let ghost pre = digits@;
        digits.set(count, digit);
        proof {
            let ghost di = spec_digits(i as int);
            assert(di == seq![(i as int % 10) as u8] + spec_digits(i as int / 10));
            assert(digits@.subrange(0, count + 1) =~= digits@.subrange(0, count as int)
                + seq![digit]);
            assert(digits@.subrange(0, count as int) =~= pre.subrange(0, count as int));
            assert(spec_digits(n as int) =~= digits@.subrange(0, count + 1) + spec_digits(
                i as int / 10,
            ));
        }
        i = i / 10;
        count = count + 1;
    }
    proof {
        assert(spec_digits(i as int) =~= Seq::<u8>::empty());
        assert(digits@.subrange(0, count as int) + spec_digits(i as int) =~= digits@.subrange(
            0,
            count as int,
        ));
        assert(digits@.subrange(0, count as int) =~= spec_digits(n as int));
    }
    let mut draws: Vec<DigitDraw> = Vec::new();
    let mut d: usize = 0;
    while d < count
        invariant
            digits@.len() == DIGIT_CELLS,
            prev_digits@.len() == DIGIT_CELLS,
            count <= DIGIT_CELLS,
            base_col >= DIGIT_CELLS,
            d <= count,
            draws@ == spec_draws(digits@, prev_digits@, base_col as int, d as int),
        decreases count - d,
    {
        if digits[d] != prev_digits[d] {
            draws.push(DigitDraw { col: base_col - d, digit: digits[d] });
        }
        proof {
            assert(draws@ =~= spec_draws(digits@, prev_digits@, base_col as int, d + 1));
        }
        d = d + 1;
    }
    (digits, draws)
}

/// One display update of the first demo counter, whose digits start at
/// column 79 of the top row.
pub fn simple_counter_1(n: u64, prev_digits: &Vec<u8>) -> (r: (Vec<u8>, Vec<DigitDraw>))
    requires
        prev_digits@.len() == DIGIT_CELLS,
        n < COUNTER_LIMIT,
    ensures
        r.0@.len() == DIGIT_CELLS,
        r.0@.subrange(0, spec_digits(n as int).len() as int) == spec_digits(n as int),
        r.1@ == spec_draws(r.0@, prev_digits@, 79, spec_digits(n as int).len() as int),
{
    simple_counter_args(n, prev_digits, 79)
}

/// One display update of the second demo counter, whose digits start at
/// column 69 of the top row.
pub fn simple_counter_2(n: u64, prev_digits: &Vec<u8>) -> (r: (Vec<u8>, Vec<DigitDraw>))
    requires
        prev_digits@.len() == DIGIT_CELLS,
        n < COUNTER_LIMIT,
    ensures
        r.0@.len() == DIGIT_CELLS,
        r.0@.subrange(0, spec_digits(n as int).len() as int) == spec_digits(n as int),
        r.1@ == spec_draws(r.0@, prev_digits@, 69, spec_digits(n as int).len() as int),
{
    simple_counter_args(n, prev_digits, 69)
}

} // verus!
