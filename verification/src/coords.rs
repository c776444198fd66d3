//! Row-major flat indexing and toroidal coordinate wrapping.

use vstd::prelude::*;
use vstd::arithmetic::div_mod::lemma_add_mod_noop_right;
use vstd::arithmetic::div_mod::lemma_fundamental_div_mod_converse;
use vstd::arithmetic::div_mod::lemma_mod_add_multiples_vanish;
use vstd::arithmetic::div_mod::lemma_mod_division_less_than_divisor;
use vstd::arithmetic::div_mod::lemma_small_mod;
use vstd::arithmetic::div_mod::lemma_sub_mod_noop_right;

verus! {

/// The flat, row-major position of `(row, col)` in a grid of the given width.
pub open spec fn flat_index(row: int, col: int, width: int) -> int {
    row * width + col
}

/// `pos` reduced into `[0, dim)`. Ghost `%` is the Euclidean remainder, so
/// this wraps negative positions upward rather than truncating toward zero.
pub open spec fn wrapped(pos: int, dim: int) -> int
    recommends
        0 < dim,
{
    pos % dim
}

/// An in-bounds flat index is strictly below the cell count.
pub proof fn lemma_flat_index_in_range(row: int, col: int, width: int, height: int)
    requires
        0 <= row < height,
        0 <= col < width,
    ensures
        0 <= flat_index(row, col, width) < width * height,
{
    assert(0 <= row * width + col < width * height) by (nonlinear_arith)
        requires
            0 <= row < height,
            0 <= col < width,
    ;
}

/// The product of two 32-bit values fits in 64 bits.
pub proof fn lemma_u32_mul_fits_u64(a: int, b: int)
    requires
        0 <= a < 0x1_0000_0000,
        0 <= b < 0x1_0000_0000,
    ensures
        0 <= a * b <= 0xffff_fffe_0000_0001,
{
    assert(0 <= a * b <= 0xffff_fffe_0000_0001) by (nonlinear_arith)
        requires
            0 <= a < 0x1_0000_0000,
            0 <= b < 0x1_0000_0000,
    ;
}

/// Row and column are recovered from a flat index by division and remainder:
/// the two directions of the row-major encoding are mutually inverse.
pub proof fn lemma_flat_index_roundtrip(row: int, col: int, width: int, height: int)
    requires
        0 <= row < height,
        0 <= col < width,
    ensures
        flat_index(row, col, width) / width == row,
        flat_index(row, col, width) % width == col,
        0 <= flat_index(row, col, width) < width * height,
{
    lemma_flat_index_in_range(row, col, width, height);
    lemma_fundamental_div_mod_converse(row * width + col, width, row, col);
}

/// The wrapped coordinate one step below `i` on a cycle of length `dim`.
pub open spec fn dec_wrapped(i: int, dim: int) -> int {
    if i == 0 {
        dim - 1
    } else {
        i - 1
    }
}

/// The wrapped coordinate one step above `i` on a cycle of length `dim`.
pub open spec fn inc_wrapped(i: int, dim: int) -> int {
    if i + 1 == dim {
        0
    } else {
        i + 1
    }
}

/// For an in-bounds coordinate, stepping down with wraparound agrees with the
/// Euclidean remainder of `i - 1`.
pub proof fn lemma_dec_wrapped_is_mod(i: int, dim: int)
    requires
        0 < dim,
        0 <= i < dim,
    ensures
        dec_wrapped(i, dim) == wrapped(i - 1, dim),
{
    if i == 0 {
        lemma_mod_add_multiples_vanish(-1, dim);
        lemma_small_mod((dim - 1) as nat, dim as nat);
    } else {
        lemma_small_mod((i - 1) as nat, dim as nat);
    }
}

/// For an in-bounds coordinate, stepping up with wraparound agrees with the
/// Euclidean remainder of `i + 1`.
pub proof fn lemma_inc_wrapped_is_mod(i: int, dim: int)
    requires
        0 < dim,
        0 <= i < dim,
    ensures
        inc_wrapped(i, dim) == wrapped(i + 1, dim),
{
    if i + 1 == dim {
        lemma_mod_add_multiples_vanish(0, dim);
        lemma_small_mod(0nat, dim as nat);
    } else {
        lemma_small_mod((i + 1) as nat, dim as nat);
    }
}

/// Steps an in-bounds coordinate down by one with wraparound.
pub fn dec_wrap(i: u32, dim: u32) -> (r: u32)
    requires
        0 < dim,
        i < dim,
    ensures
        r == dec_wrapped(i as int, dim as int),
        r < dim,
{
    if i == 0 {
        dim - 1
    } else {
        i - 1
    }
}

/// Steps an in-bounds coordinate up by one with wraparound.
pub fn inc_wrap(i: u32, dim: u32) -> (r: u32)
    requires
        0 < dim,
        i < dim,
    ensures
        r == inc_wrapped(i as int, dim as int),
        r < dim,
{
    if i + 1 == dim {
        0
    } else {
        i + 1
    }
}

/// Adds a signed offset to an in-bounds coordinate and wraps the result into
/// `[0, dim)` with floor-modulo semantics, so negative sums wrap upward.
pub fn wrap_add(base: u32, off: i64, dim: u32) -> (r: u32)
    requires
        0 < dim,
        -0x7fff_ffff_ffff <= off <= 0x7fff_ffff_ffff,
    ensures
        r == wrapped(base + off, dim as int),
        r < dim,
{
    let d: u64 = dim as u64;
    proof {
        lemma_mod_division_less_than_divisor(base + off, dim as int);
    }
    if off >= 0 {
        let om: u64 = (off as u64) % d;
        let t: u64 = base as u64 + om;
        proof {
            lemma_add_mod_noop_right(base as int, off as int, dim as int);
            lemma_mod_division_less_than_divisor(off as int, dim as int);
        }
        (t % d) as u32
    } else {
        let a: u64 = (-off) as u64;
        let om: u64 = a % d;
        let t: u64 = base as u64 + d - om;
        proof {
            lemma_sub_mod_noop_right(base as int, a as int, dim as int);
            lemma_mod_division_less_than_divisor(a as int, dim as int);
            lemma_mod_add_multiples_vanish(base - om, dim as int);
        }
        (t % d) as u32
    }
}

} // verus!
