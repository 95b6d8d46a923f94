//! Block geometry: how a stylized buffer is laid out as a grid of
//! fixed-size blocks, and where each block's sub-pixels live in it.
//!
//! The buffer is row-major, one byte per sub-pixel. A block is a
//! `block_width` by `block_height` tile; whole blocks tile the canvas, so the
//! block width divides the canvas width and whole block-rows (canvas width
//! times block height) tile the buffer exactly.

use vstd::prelude::*;

verus! {

use vstd::arithmetic::div_mod::{
    lemma_basic_div, lemma_div_by_self, lemma_div_is_ordered, lemma_div_multiples_vanish,
    lemma_div_nonincreasing, lemma_div_pos_is_pos, lemma_fundamental_div_mod,
    lemma_mod_division_less_than_divisor, lemma_mod_multiples_basic, lemma_multiply_divide_lt,
    lemma_small_mod,
};
use vstd::arithmetic::mul::{
    lemma_mul_inequality, lemma_mul_nonnegative, lemma_mul_strictly_positive, lemma_mul_upper_bound,
};

/// The size of one block, in sub-pixels.
pub open spec fn block_size(bw: int, bh: int) -> int {
    bw * bh
}

/// Number of blocks in one row of the canvas.
pub open spec fn blocks_per_row(cw: int, bw: int) -> int {
    cw / bw
}

/// Number of blocks the whole buffer decodes to.
pub open spec fn total_blocks(len: int, bw: int, bh: int) -> int {
    len / block_size(bw, bh)
}

/// The buffer length and the block dimensions line up: positive dimensions,
/// the block width divides the canvas width, and whole block-rows tile the
/// buffer exactly. This is what the addressing math needs; the canvas height
/// does not appear in it.
pub open spec fn valid_layout(len: int, cw: int, bw: int, bh: int) -> bool {
    &&& 0 <= len
    &&& 0 < cw && 0 < bw && 0 < bh
    &&& cw % bw == 0
    &&& len % (cw * bh) == 0
}

/// The full geometry check a caller's dimensions must pass: positive block
/// dimensions dividing the canvas dimensions, and a buffer of exactly canvas
/// width times canvas height bytes.
pub open spec fn valid_geometry(len: int, cw: int, ch: int, bw: int, bh: int) -> bool {
    &&& 0 < cw && 0 < bw && 0 < bh
    &&& cw % bw == 0
    &&& 0 <= ch
    &&& ch % bh == 0
    &&& len == cw * ch
}

/// Absolute byte position of sub-offset `s` of block `k`: the block's origin
/// (its row of blocks, then its column) plus the sub-pixel's offset within
/// the block.
pub open spec fn sub_position(cw: int, bw: int, bh: int, k: int, s: int) -> int {
    (k / blocks_per_row(cw, bw)) * cw * bh + (k % blocks_per_row(cw, bw)) * bw + (s / bw) * cw + s
        % bw
}

/// A full geometry implies the layout the addressing math relies on.
pub proof fn lemma_valid_geometry_implies_layout(len: int, cw: int, ch: int, bw: int, bh: int)
    requires
        valid_geometry(len, cw, ch, bw, bh),
    ensures
        valid_layout(len, cw, bw, bh),
{
    let q = ch / bh;
    lemma_fundamental_div_mod(ch, bh);
    assert(ch == bh * q);
    lemma_div_pos_is_pos(ch, bh);
    lemma_mul_nonnegative(cw, ch);
    lemma_mul_strictly_positive(cw, bh);
    assert(cw * (bh * q) == q * (cw * bh)) by (nonlinear_arith);
    lemma_mod_multiples_basic(q, cw * bh);
}

/// The number of blocks never exceeds the buffer length.
pub proof fn lemma_total_blocks_le_len(len: int, bw: int, bh: int)
    requires
        0 <= len,
        0 < bw,
        0 < bh,
    ensures
        0 <= total_blocks(len, bw, bh) <= len,
{
    lemma_mul_strictly_positive(bw, bh);
    lemma_div_nonincreasing(len, bw * bh);
    lemma_div_pos_is_pos(len, bw * bh);
}

/// A buffer with at least one block holds at least one whole block.
pub proof fn lemma_block_fits(len: int, bw: int, bh: int, k: int)
    requires
        0 <= len,
        0 < bw,
        0 < bh,
        0 <= k < total_blocks(len, bw, bh),
    ensures
        block_size(bw, bh) <= len,
{
    lemma_mul_strictly_positive(bw, bh);
    if len < bw * bh {
        lemma_basic_div(len, bw * bh);
    }
}

/// Every sub-position of every block lies inside the buffer; each summand of
/// the position is nonnegative and below the total, so the position can be
/// computed left to right in machine integers.
pub proof fn lemma_sub_position_bounds(len: int, cw: int, bw: int, bh: int, k: int, s: int)
    requires
        valid_layout(len, cw, bw, bh),
        0 <= k < total_blocks(len, bw, bh),
        0 <= s < block_size(bw, bh),
    ensures
        1 <= blocks_per_row(cw, bw),
        0 <= k / blocks_per_row(cw, bw),
        0 <= (k / blocks_per_row(cw, bw)) * cw,
        (k / blocks_per_row(cw, bw)) * cw <= (k / blocks_per_row(cw, bw)) * cw * bh,
        0 <= (k / blocks_per_row(cw, bw)) * cw * bh,
        0 <= (k % blocks_per_row(cw, bw)) * bw,
        0 <= (s / bw) * cw,
        0 <= s % bw,
        sub_position(cw, bw, bh, k, s) < len,
{
    let bpr = blocks_per_row(cw, bw);
    let bs = block_size(bw, bh);
    let cwbh = cw * bh;
    lemma_fundamental_div_mod(cw, bw);
    assert(cw == bw * bpr);
    assert(1 <= bpr) by {
        if bpr <= 0 {
            lemma_mul_inequality(bpr, 0, bw);
            vstd::arithmetic::mul::lemma_mul_is_commutative(bw, bpr);
        }
    }
    lemma_mul_strictly_positive(bw, bh);
    lemma_mul_strictly_positive(cw, bh);
    let q = len / cwbh;
    lemma_fundamental_div_mod(len, cwbh);
    assert(len == cwbh * q);
    lemma_div_pos_is_pos(len, cwbh);

    // The block count factors as blocks-per-row times block-rows.
    assert(cwbh * q == bs * (bpr * q)) by (nonlinear_arith)
        requires
            cw == bw * bpr,
            cwbh == cw * bh,
            bs == bw * bh,
    ;
    lemma_div_multiples_vanish(bpr * q, bs);
    assert(total_blocks(len, bw, bh) == bpr * q);

    let row = k / bpr;
    let col = k % bpr;
    let sy = s / bw;
    let sx = s % bw;
    lemma_div_pos_is_pos(k, bpr);
    lemma_multiply_divide_lt(k, bpr, q);
    lemma_mod_division_less_than_divisor(k, bpr);
    lemma_div_pos_is_pos(s, bw);
    lemma_multiply_divide_lt(s, bw, bh);
    lemma_mod_division_less_than_divisor(s, bw);

    lemma_mul_nonnegative(row, cw);
    lemma_mul_nonnegative(row * cw, bh);
    lemma_mul_nonnegative(col, bw);
    lemma_mul_nonnegative(sy, cw);
    assert(row * cw <= row * cw * bh) by (nonlinear_arith)
        requires
            0 <= row * cw,
            1 <= bh,
    ;
    assert(row * cw * bh + col * bw + sy * cw + sx < len) by (nonlinear_arith)
        requires
            0 <= row <= q - 1,
            0 <= col <= bpr - 1,
            0 <= sy <= bh - 1,
            0 <= sx <= bw - 1,
            cw == bw * bpr,
            len == cwbh * q,
            cwbh == cw * bh,
            0 < cw,
            0 < bw,
            0 < bh,
    ;
}

/// A positive buffer with a valid layout holds at least one block, and the
/// block size fits the buffer's machine-integer range.
pub proof fn lemma_positive_buffer_has_blocks(len: int, cw: int, ch: int, bw: int, bh: int)
    requires
        valid_geometry(len, cw, ch, bw, bh),
        0 < len,
    ensures
        bw * bh <= len,
        1 <= total_blocks(len, bw, bh),
{
    // A zero canvas height would force a zero-length buffer.
    assert(0 < ch) by {
        if ch == 0 {
            assert(cw * 0 == 0) by (nonlinear_arith);
        }
    }
    // The block dimensions cannot exceed the canvas dimensions they divide.
    assert(bw <= cw) by {
        if cw < bw {
            lemma_small_mod(cw as nat, bw as nat);
        }
    }
    assert(bh <= ch) by {
        if ch < bh {
            lemma_small_mod(ch as nat, bh as nat);
        }
    }
    lemma_mul_upper_bound(bw, cw, bh, ch);
    lemma_mul_strictly_positive(bw, bh);
    lemma_div_by_self(bw * bh);
    lemma_div_is_ordered(bw * bh, len, bw * bh);
}

} // verus!
