use vstd::arithmetic::div_mod::{lemma_mod_self_0, lemma_small_mod};
use vstd::prelude::*;

verus! {

/// Which of a checkerboard's two textures covers a square.
#[derive(Clone, Copy, Debug, PartialEq, Eq, Structural)]
pub enum CheckerSquare {
    /// Squares whose index is even.
    First,
    /// Squares whose index is odd.
    Second,
}

/// The texture of square number `square_number`, that is `floor(u) + floor(v)`:
/// even squares show the first texture, odd squares the second.
pub open spec fn square_texture(square_number: int) -> CheckerSquare {
    if square_number % 2 == 0 {
        CheckerSquare::First
    } else {
        CheckerSquare::Second
    }
}

/// Picks the texture of a checkerboard square from its number
/// `floor(u) + floor(v)`, for negative numbers too.
pub fn checker_square(square_number: i32) -> (r: CheckerSquare)
    ensures
        r == square_texture(square_number as int),
{
    if square_number % 2 == 0 {
        CheckerSquare::First
    } else {
        CheckerSquare::Second
    }
}

/// Moving one square along either axis switches texture; moving two comes
/// back to the same one, so the pattern repeats with a period of two squares.
pub proof fn lemma_checker_alternates(square_number: int)
    ensures
        square_texture(square_number + 1) != square_texture(square_number),
        square_texture(square_number + 2) == square_texture(square_number),
        square_texture(square_number - 1) != square_texture(square_number),
{
}

/// The two entries of a circular color ramp of `len` entries that
/// `base_index` falls between: `base_index` and the one after it, both taken
/// modulo `len`.
pub fn ramp_neighbours(base_index: usize, len: usize) -> (r: (usize, usize))
    requires
        len > 0,
    ensures
        r.0 == base_index % len,
        r.1 == (base_index as int + 1) % (len as int),
{
    let a = base_index % len;
    let b = if a + 1 == len {
        0
    } else {
        a + 1
    };
    let ghost (x, n) = (base_index as int, len as int);
    assert((x + 1) % n == (x % n + 1) % n) by (nonlinear_arith)
        requires n > 0;
    proof {
        if a + 1 == len {
            lemma_mod_self_0(n);
        } else {
            lemma_small_mod((a + 1) as nat, n as nat);
        }
    }
    (a, b)
}

} // verus!
