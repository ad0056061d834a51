//! Coordinate buffers: swapping the x and y ordinates of every coordinate.
use vstd::prelude::*;

verus! {

/// The position whose value lands at position `i` when the first two
/// ordinates of each coordinate of `dim` ordinates are swapped, in a buffer
/// of `len` values. A trailing coordinate without a second ordinate keeps its
/// value, and so does every position when `dim < 2`.
pub open spec fn flipped_source(i: int, dim: int, len: int) -> int {
    if dim < 2 {
        i
    } else if i % dim == 0 && i + 1 < len {
        i + 1
    } else if i % dim == 1 && i >= 1 {
        i - 1
    } else {
        i
    }
}

/// The interleaved buffer `coords`, whose coordinates have `dim` ordinates
/// each, with the x and y ordinates of every coordinate swapped; any further
/// ordinates (z, m) stay in place.
pub fn flip_interleaved<T: Copy>(coords: &Vec<T>, dim: usize) -> (r: Vec<T>)
    ensures
        r@.len() == coords@.len(),
        forall|i: int|
            0 <= i < r@.len() ==> r@[i] == coords@[flipped_source(
                i,
                dim as int,
                coords@.len() as int,
            )],
{
    let n = coords.len();
    let mut r: Vec<T> = Vec::with_capacity(n);
    let mut i: usize = 0;
    while i < n
        invariant
            n == coords@.len(),
            i <= n,
            r@.len() == i,
            forall|j: int|
                0 <= j < i ==> r@[j] == coords@[flipped_source(j, dim as int, n as int)],
        decreases n - i,
    {
        let src: usize = if dim < 2 {
            i
        } else if i % dim == 0 && i + 1 < n {
            i + 1
        } else if i % dim == 1 && i >= 1 {
            i - 1
        } else {
            i
        };
        r.push(coords[src]);
        i = i + 1;
    }
    r
}

/// Flipping twice gives the buffer back.
pub proof fn lemma_flip_involution(i: int, dim: int, len: int)
    requires
        0 <= i < len,
    ensures
        0 <= flipped_source(i, dim, len) < len,
        flipped_source(flipped_source(i, dim, len), dim, len) == i,
{
    if dim >= 2 {
        if i % dim == 0 && i + 1 < len {
            assert((i + 1) % dim == 1) by (nonlinear_arith)
                requires
                    i % dim == 0,
                    dim >= 2,
                    i >= 0,
            ;
        } else if i % dim == 1 && i >= 1 {
            assert((i - 1) % dim == 0) by (nonlinear_arith)
                requires
                    i % dim == 1,
                    dim >= 2,
                    i >= 1,
            ;
            assert(i < len);
        }
    }
}

} // verus!
