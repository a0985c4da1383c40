//! Wrap-around index arithmetic for one axis of the torus.

use vstd::prelude::*;
use vstd::arithmetic::div_mod::{
    lemma_add_mod_noop, lemma_mod_add_multiples_vanish, lemma_mod_bound,
    lemma_mod_sub_multiples_vanish, lemma_small_mod, lemma_sub_mod_noop,
};

verus! {

/// The position on an axis of `len` cells that the integer coordinate `i`
/// denotes: the axis closes on itself, so `-1` is the last cell and `len` is
/// the first.
pub open spec fn wrap(i: int, len: int) -> int {
    i % len
}

/// Every coordinate denotes a cell of the axis, a cell denotes itself, and
/// one full turn around the axis changes nothing.
pub proof fn lemma_wrap(i: int, len: int)
    requires
        len > 0,
    ensures
        0 <= wrap(i, len) < len,
        0 <= i < len ==> wrap(i, len) == i,
        wrap(i + len, len) == wrap(i, len),
        wrap(i - len, len) == wrap(i, len),
{
    lemma_mod_bound(i, len);
    if 0 <= i < len {
        lemma_small_mod(i as nat, len as nat);
    }
    lemma_mod_add_multiples_vanish(i, len);
    lemma_mod_sub_multiples_vanish(i, len);
}

/// The cell that `index` denotes on an axis of `len` cells.
pub fn wrap_index(index: usize, len: usize) -> (wrapped: usize)
    requires
        len > 0,
    ensures
        wrapped == wrap(index as int, len as int),
        wrapped < len,
{
    index % len
}

/// The cell `by` steps after `index` on an axis of `len` cells.
pub fn step_up(index: usize, by: usize, len: usize) -> (wrapped: usize)
    requires
        len > 0,
    ensures
        wrapped == wrap(index + by, len as int),
        wrapped < len,
{
    let start: usize = index % len;
    let stride: usize = by % len;
    proof {
        lemma_add_mod_noop(index as int, by as int, len as int);
        lemma_wrap(start + stride, len as int);
        lemma_wrap(start + stride - len, len as int);
    }
    if start >= len - stride {
        start - (len - stride)
    } else {
        start + stride
    }
}

/// The cell `by` steps before `index` on an axis of `len` cells.
pub fn step_down(index: usize, by: usize, len: usize) -> (wrapped: usize)
    requires
        len > 0,
    ensures
        wrapped == wrap(index - by, len as int),
        wrapped < len,
{
    let start: usize = index % len;
    let stride: usize = by % len;
    proof {
        lemma_sub_mod_noop(index as int, by as int, len as int);
        lemma_wrap(start - stride, len as int);
        lemma_wrap(start - stride + len, len as int);
    }
    if start >= stride {
        start - stride
    } else {
        start + (len - stride)
    }
}

} // verus!
