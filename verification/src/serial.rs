//! The serial debug sink's message text. The scheduler logs its key events
//! (a spawned thread's stack, the new table size) over the serial port,
//! independent of the graphical terminal; pushing the bytes out of the UART
//! is I/O and happens outside this crate, but every character of the
//! messages is computed and verified here.

use vstd::prelude::*;

verus! {

/// The digit characters of `n` in base `base`, least significant first;
/// empty for zero. Digits past nine use the lower-case letters.
pub open spec fn spec_digits_rev(n: int, base: int) -> Seq<char>
    decreases n,
    via spec_digits_rev_decreases
{
    if n <= 0 || base < 2 {
        Seq::empty()
    } else {
        seq![spec_digit_char(n % base)] + spec_digits_rev(n / base, base)
    }
}

#[via_fn]
proof fn spec_digits_rev_decreases(n: int, base: int) {
    if n > 0 && base >= 2 {
        assert(0 <= n / base < n) by (nonlinear_arith)
            requires
                n > 0,
                base >= 2,
        ;
    }
}

/// The character for one digit value.
pub open spec fn spec_digit_char(d: int) -> char {
    if d < 10 {
        ((48 + d) as u8) as char
    } else {
        ((87 + d) as u8) as char
    }
}

/// The text of `n` in base `base`: most significant digit first, a single
/// zero for zero.
pub open spec fn spec_number_text(n: int, base: int) -> Seq<char> {
    if n == 0 {
        seq!['0']
    } else {
        spec_digits_rev(n, base).reverse()
    }
}

/// The digit character for a value below the base.
fn digit_char(d: u64) -> (c: char)
    requires
        d < 16,
    ensures
        c == spec_digit_char(d as int),
{
    if d < 10 {
        (48 + d as u8) as char
    } else {
        (87 + d as u8) as char
    }
}

/// The characters of `n` written in base `base`.
pub fn number_chars(n: u64, base: u64) -> (v: Vec<char>)
    requires
        2 <= base <= 16,
    ensures
        v@ == spec_number_text(n as int, base as int),
{
    if n == 0 {
        let mut v: Vec<char> = Vec::new();
        v.push('0');
        proof {
            assert(v@ =~= spec_number_text(0, base as int));
        }
        return v;
    }
    let mut rev: Vec<char> = Vec::new();
    let mut i: u64 = n;
    while i > 0
        invariant
            2 <= base <= 16,
            rev@ + spec_digits_rev(i as int, base as int) =~= spec_digits_rev(
                n as int,
                base as int,
            ),
        decreases i,
    {
        let ghost pre = rev@;
        rev.push(digit_char(i % base));
        proof {
            assert(spec_digits_rev(i as int, base as int) == seq![
                spec_digit_char(i as int % (base as int)),
            ] + spec_digits_rev(i as int / (base as int), base as int));
            assert(rev@ + spec_digits_rev(i as int / (base as int), base as int)
                =~= spec_digits_rev(n as int, base as int));
        }
        i = i / base;
    }
    proof {
        assert(spec_digits_rev(0, base as int) =~= Seq::<char>::empty());
        assert(rev@ =~= spec_digits_rev(n as int, base as int));
    }
    let mut v: Vec<char> = Vec::new();
    let mut k: usize = rev.len();
    while k > 0
        invariant
            k <= rev@.len(),
            v@.len() == rev@.len() - k,
            forall|m: int| 0 <= m < v@.len() ==> #[trigger] v@[m] == rev@[rev@.len() - 1 - m],
        decreases k,
    {
        k = k - 1;
        v.push(rev[k]);
    }
    proof {
        assert(v@ =~= rev@.reverse());
    }
    v
}

/// The diagnostic line the spawn syscall logs for a fresh stack:
/// `new stack pointer: ` and the stack's top in hex.
pub fn spawn_stack_message(stack_end: u64) -> (v: Vec<char>)
    ensures
        v@ == "new stack pointer: "@ + spec_number_text(stack_end as int, 16) + seq!['\n'],
{
    let mut v: Vec<char> = Vec::new();
    let prefix = "new stack pointer: ";
    let prefix_len = prefix.unicode_len();
    let mut i: usize = 0;
    while i < prefix_len
        invariant
            i <= prefix_len,
            prefix_len == prefix@.len(),
            prefix@ == "new stack pointer: "@,
            v@ =~= prefix@.subrange(0, i as int),
        decreases prefix_len - i,
    {
        v.push(prefix.get_char(i));
        proof {
            assert(v@ =~= prefix@.subrange(0, i + 1));
        }
        i = i + 1;
    }
    proof {
        assert(prefix@.subrange(0, prefix@.len() as int) =~= prefix@);
    }
    let digits = number_chars(stack_end, 16);
    let mut d: usize = 0;
    while d < digits.len()
        invariant
            d <= digits@.len(),
            v@ =~= "new stack pointer: "@ + digits@.subrange(0, d as int),
        decreases digits@.len() - d,
    {
        v.push(digits[d]);
        proof {
            assert(digits@.subrange(0, d + 1) =~= digits@.subrange(0, d as int) + seq![
                digits@[d as int],
            ]);
        }
        d = d + 1;
    }
    v.push('\n');
    proof {
        assert(digits@.subrange(0, digits@.len() as int) =~= digits@);
        assert(v@ =~= "new stack pointer: "@ + digits@ + seq!['\n']);
    }
    v
}

/// The diagnostic line the spawn syscall logs for the grown table:
/// `tcount: ` and the new thread count in decimal.
pub fn thread_count_message(count: u64) -> (v: Vec<char>)
    ensures
        v@ == "tcount: "@ + spec_number_text(count as int, 10) + seq!['\n'],
{
    let mut v: Vec<char> = Vec::new();
    let prefix = "tcount: ";
    let prefix_len = prefix.unicode_len();
    let mut i: usize = 0;
    while i < prefix_len
        invariant
            i <= prefix_len,
            prefix_len == prefix@.len(),
            prefix@ == "tcount: "@,
            v@ =~= prefix@.subrange(0, i as int),
        decreases prefix_len - i,
    {
        v.push(prefix.get_char(i));
        proof {
            assert(v@ =~= prefix@.subrange(0, i + 1));
        }
        i = i + 1;
    }
    proof {
        assert(prefix@.subrange(0, prefix@.len() as int) =~= prefix@);
    }
    let digits = number_chars(count, 10);
    let mut d: usize = 0;
    while d < digits.len()
        invariant
            d <= digits@.len(),
            v@ =~= "tcount: "@ + digits@.subrange(0, d as int),
        decreases digits@.len() - d,
    {
        v.push(digits[d]);
        proof {
            assert(digits@.subrange(0, d + 1) =~= digits@.subrange(0, d as int) + seq![
                digits@[d as int],
            ]);
        }
        d = d + 1;
    }
    v.push('\n');
    proof {
        assert(digits@.subrange(0, digits@.len() as int) =~= digits@);
        assert(v@ =~= "tcount: "@ + digits@ + seq!['\n']);
    }
    v
}

} // verus!
