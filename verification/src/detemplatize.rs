//! Block detemplatization: collapses a stylized index buffer, in which every
//! logical pixel is rendered as a block of sub-pixel index values, back to
//! one majority-vote index per block.
//!
//! Block 0 is special: when a block holds more than one sub-pixel, the very
//! first sub-pixel of the canvas carries decorator metadata written by the
//! upstream encoder, so it is excluded from block 0's vote.

use vstd::prelude::*;

verus! {

use crate::SENTINEL;
use crate::geometry::{
    block_size, blocks_per_row, lemma_block_fits, lemma_positive_buffer_has_blocks,
    lemma_sub_position_bounds, lemma_total_blocks_le_len, lemma_valid_geometry_implies_layout,
    sub_position, total_blocks, valid_geometry, valid_layout,
};
use crate::vote::{is_block_vote, reduce_block};
use vstd::arithmetic::div_mod::{
    lemma_div_by_self, lemma_div_is_ordered, lemma_div_multiples_vanish,
    lemma_fundamental_div_mod, lemma_mod_multiples_basic,
};
use vstd::arithmetic::mul::{lemma_mul_basics_1, lemma_mul_is_commutative};

/// Why detemplatization can fail.
#[derive(Clone, Copy, PartialEq, Eq, Structural, Debug)]
pub enum DetemplatizeError {
    /// The canvas and block dimensions do not describe the buffer: a
    /// dimension is zero, a block dimension does not divide its canvas
    /// dimension, or the buffer's length is not canvas width times canvas
    /// height.
    GeometryMismatch,
}

/// First sub-offset of block `k` that takes part in the vote: block 0 skips
/// sub-offset 0 (the decorator artifact) when the block holds more than one
/// sub-pixel.
pub open spec fn vote_start(k: int, bw: int, bh: int) -> int {
    if k == 0 && block_size(bw, bh) > 1 {
        1
    } else {
        0
    }
}

/// The sub-pixel values of block `k` that take part in its vote, in
/// sub-offset order.
pub open spec fn block_votes(input: Seq<u8>, cw: int, bw: int, bh: int, k: int) -> Seq<u8> {
    Seq::new(
        (block_size(bw, bh) - vote_start(k, bw, bh)) as nat,
        |j: int| input[sub_position(cw, bw, bh, k, vote_start(k, bw, bh) + j)],
    )
}

/// `out` is the detemplatized form of `input`: one entry per block, each the
/// majority-vote reduction of that block's sub-pixels.
pub open spec fn unstylized(input: Seq<u8>, cw: int, bw: int, bh: int, out: Seq<u8>) -> bool {
    &&& out.len() == total_blocks(input.len() as int, bw, bh)
    &&& forall|k: int|
        0 <= k < out.len() ==> is_block_vote(block_votes(input, cw, bw, bh, k), #[trigger] out[k])
}

/// Relies on num_cpus::get: the number of logical CPUs of the machine,
/// documented to always be at least 1.
#[verifier::external_body]
fn worker_count() -> (n: usize)
    ensures
        n >= 1,
{
    num_cpus::get()
}

/// Collects the sub-pixel values of block `k` that take part in its vote.
fn gather_block(styled: &Vec<u8>, cw: usize, bw: usize, bh: usize, k: usize) -> (r: Vec<u8>)
    requires
        valid_layout(styled@.len() as int, cw as int, bw as int, bh as int),
        (k as int) < total_blocks(styled@.len() as int, bw as int, bh as int),
    ensures
        r@ == block_votes(styled@, cw as int, bw as int, bh as int, k as int),
{
    proof {
        vstd::std_specs::vec::axiom_spec_len(styled);
        vstd::arithmetic::mul::lemma_mul_strictly_positive(bw as int, bh as int);
        lemma_block_fits(styled@.len() as int, bw as int, bh as int, k as int);
        lemma_sub_position_bounds(
            styled@.len() as int,
            cw as int,
            bw as int,
            bh as int,
            k as int,
            0,
        );
    }
    let bs = bw * bh;
    let bpr = cw / bw;
    let row = k / bpr;
    let col = k % bpr;
    let origin = row * cw * bh + col * bw;
    let start: usize = if k == 0 && bs > 1 {
        1
    } else {
        0
    };
    let ghost gstart = vote_start(k as int, bw as int, bh as int);
    let mut out: Vec<u8> = Vec::new();
    let mut s: usize = start;
    while s < bs
        invariant
            valid_layout(styled@.len() as int, cw as int, bw as int, bh as int),
            (k as int) < total_blocks(styled@.len() as int, bw as int, bh as int),
            styled@.len() <= usize::MAX,
            bs == block_size(bw as int, bh as int),
            bpr == blocks_per_row(cw as int, bw as int),
            origin == (k as int / bpr as int) * (cw as int) * (bh as int) + (k as int % bpr as int)
                * (bw as int),
            gstart == vote_start(k as int, bw as int, bh as int),
            start == gstart,
            start <= s <= bs,
            out@.len() == s - start,
            forall|j: int|
                0 <= j < out@.len() ==> out@[j] == styled@[sub_position(
                    cw as int,
                    bw as int,
                    bh as int,
                    k as int,
                    gstart + j,
                )],
        decreases bs - s,
    {
        proof {
            lemma_sub_position_bounds(
                styled@.len() as int,
                cw as int,
                bw as int,
                bh as int,
                k as int,
                s as int,
            );
        }
        let sy = s / bw;
        let sx = s % bw;
        let pos = origin + sy * cw + sx;
        out.push(styled[pos]);
        s = s + 1;
    }
    proof {
        assert(out@ =~= block_votes(styled@, cw as int, bw as int, bh as int, k as int));
    }
    out
}

/// Detemplatizes the contiguous range of blocks `[start, start + count)`:
/// one majority-vote entry per block, in block order. This is the unit of
/// work a parallel driver hands to each worker; the result for a block does
/// not depend on how the block range was partitioned.
pub fn unstylize_chunk(
    styled: &Vec<u8>,
    canvas_width: usize,
    block_width: usize,
    block_height: usize,
    start: usize,
    count: usize,
) -> (r: Vec<u8>)
    requires
        valid_layout(
            styled@.len() as int,
            canvas_width as int,
            block_width as int,
            block_height as int,
        ),
        start + count <= total_blocks(styled@.len() as int, block_width as int, block_height as int),
    ensures
        r@.len() == count,
        forall|j: int|
            0 <= j < count ==> is_block_vote(
                block_votes(
                    styled@,
                    canvas_width as int,
                    block_width as int,
                    block_height as int,
                    start + j,
                ),
                #[trigger] r@[j],
            ),
{
    proof {
        vstd::std_specs::vec::axiom_spec_len(styled);
        lemma_total_blocks_le_len(styled@.len() as int, block_width as int, block_height as int);
    }
    let mut out: Vec<u8> = Vec::new();
    let mut j: usize = 0;
    while j < count
        invariant
            valid_layout(
                styled@.len() as int,
                canvas_width as int,
                block_width as int,
                block_height as int,
            ),
            start + count <= total_blocks(
                styled@.len() as int,
                block_width as int,
                block_height as int,
            ),
            total_blocks(styled@.len() as int, block_width as int, block_height as int)
                <= styled@.len() <= usize::MAX,
            j <= count,
            out@.len() == j,
            forall|i: int|
                0 <= i < j ==> is_block_vote(
                    block_votes(
                        styled@,
                        canvas_width as int,
                        block_width as int,
                        block_height as int,
                        start + i,
                    ),
                    #[trigger] out@[i],
                ),
        decreases count - j,
    {
        let block = gather_block(styled, canvas_width, block_width, block_height, start + j);
        let value = reduce_block(&block);
        out.push(value);
        j = j + 1;
    }
    out
}

/// Detemplatizes a stylized index buffer: checks the geometry, then reduces
/// every block to one index by majority vote. The work is split into
/// contiguous chunks of blocks, one per available worker; the output does
/// not depend on that split.
pub fn unstylize(
    styled: &Vec<u8>,
    canvas_width: usize,
    canvas_height: usize,
    block_width: usize,
    block_height: usize,
) -> (r: Result<Vec<u8>, DetemplatizeError>)
    ensures
        r is Ok <==> valid_geometry(
            styled@.len() as int,
            canvas_width as int,
            canvas_height as int,
            block_width as int,
            block_height as int,
        ),
        r matches Ok(out) ==> unstylized(
            styled@,
            canvas_width as int,
            block_width as int,
            block_height as int,
            out@,
        ),
        r matches Err(e) ==> e == DetemplatizeError::GeometryMismatch,
{
    let len = styled.len();
    if canvas_width == 0 || block_width == 0 || block_height == 0 {
        return Err(DetemplatizeError::GeometryMismatch);
    }
    if canvas_width % block_width != 0 || canvas_height % block_height != 0 {
        return Err(DetemplatizeError::GeometryMismatch);
    }
    if canvas_height == 0 {
        proof {
            lemma_mul_basics_1(canvas_width as int);
        }
        if len == 0 {
            proof {
                vstd::arithmetic::mul::lemma_mul_strictly_positive(
                    block_width as int,
                    block_height as int,
                );
                vstd::arithmetic::div_mod::lemma_div_of0(
                    block_size(block_width as int, block_height as int),
                );
            }
            return Ok(Vec::new());
        } else {
            return Err(DetemplatizeError::GeometryMismatch);
        }
    }
    // canvas_height > 0: the buffer length must be canvas width times canvas
    // height, checked by division so that no product can overflow.
    proof {
        lemma_fundamental_div_mod(len as int, canvas_height as int);
        lemma_mod_multiples_basic(canvas_width as int, canvas_height as int);
        lemma_div_multiples_vanish(canvas_width as int, canvas_height as int);
        lemma_mul_is_commutative(canvas_width as int, canvas_height as int);
    }
    if len % canvas_height != 0 || len / canvas_height != canvas_width {
        return Err(DetemplatizeError::GeometryMismatch);
    }
    assert(valid_geometry(
        len as int,
        canvas_width as int,
        canvas_height as int,
        block_width as int,
        block_height as int,
    ));
    proof {
        lemma_valid_geometry_implies_layout(
            len as int,
            canvas_width as int,
            canvas_height as int,
            block_width as int,
            block_height as int,
        );
    }
    if len == 0 {
        proof {
            vstd::arithmetic::mul::lemma_mul_strictly_positive(
                block_width as int,
                block_height as int,
            );
            vstd::arithmetic::div_mod::lemma_div_of0(
                block_size(block_width as int, block_height as int),
            );
        }
        return Ok(Vec::new());
    }
    proof {
        vstd::arithmetic::mul::lemma_mul_strictly_positive(
            block_width as int,
            block_height as int,
        );
        lemma_positive_buffer_has_blocks(
            len as int,
            canvas_width as int,
            canvas_height as int,
            block_width as int,
            block_height as int,
        );
        lemma_total_blocks_le_len(len as int, block_width as int, block_height as int);
    }
    let bs = block_width * block_height;
    let total = len / bs;
    let workers = worker_count();
    let active = if workers > total {
        total
    } else {
        workers
    };
    // Chunk size: the block count divided by the worker count, rounded up.
    proof {
        vstd::arithmetic::div_mod::lemma_div_nonincreasing(total as int, active as int);
        if total % active != 0 {
            // One worker would divide the block count evenly, so here at
            // least two share it and the rounded-up quotient still fits.
            vstd::arithmetic::mul::lemma_mul_basics(total as int);
            vstd::arithmetic::div_mod::lemma_mod_multiples_basic(total as int, 1);
            assert(active >= 2);
            vstd::arithmetic::div_mod::lemma_div_is_ordered_by_denominator(
                total as int,
                2,
                active as int,
            );
            vstd::arithmetic::div_mod::lemma_div_decreases(total as int, 2);
        }
    }
    let chunk = total / active + (if total % active == 0 {
        0
    } else {
        1
    });
    proof {
        if total % active == 0 {
            lemma_div_by_self(active as int);
            lemma_div_is_ordered(active as int, total as int, active as int);
        }
    }
    let ghost gcw = canvas_width as int;
    let ghost gbw = block_width as int;
    let ghost gbh = block_height as int;
    let mut out: Vec<u8> = Vec::new();
    let mut done: usize = 0;
    while done < total
        invariant
            valid_layout(styled@.len() as int, gcw, gbw, gbh),
            gcw == canvas_width as int,
            gbw == block_width as int,
            gbh == block_height as int,
            total == total_blocks(styled@.len() as int, gbw, gbh),
            total <= styled@.len() <= usize::MAX,
            1 <= chunk,
            done <= total,
            out@.len() == done,
            forall|k: int|
                0 <= k < done ==> is_block_vote(
                    block_votes(styled@, gcw, gbw, gbh, k),
                    #[trigger] out@[k],
                ),
        decreases total - done,
    {
        let remaining = total - done;
        let cnt = if chunk < remaining {
            chunk
        } else {
            remaining
        };
        let mut part = unstylize_chunk(
            styled,
            canvas_width,
            block_width,
            block_height,
            done,
            cnt,
        );
        out.append(&mut part);
        done = done + cnt;
    }
    Ok(out)
}

/// The decorator skip keeps block 0's vote blind to the canvas's first byte:
/// two buffers that agree everywhere but there give block 0 the same votes,
/// provided a block holds more than one sub-pixel.
pub proof fn lemma_block_zero_skips_decorator(a: Seq<u8>, b: Seq<u8>, cw: int, bw: int, bh: int)
    requires
        valid_layout(a.len() as int, cw, bw, bh),
        a.len() == b.len(),
        block_size(bw, bh) > 1,
        total_blocks(a.len() as int, bw, bh) > 0,
        forall|p: int| 1 <= p < a.len() ==> a[p] == b[p],
    ensures
        block_votes(a, cw, bw, bh, 0) == block_votes(b, cw, bw, bh, 0),
{
    assert forall|j: int| 0 <= j < block_size(bw, bh) - 1 implies block_votes(a, cw, bw, bh, 0)[j]
        == block_votes(b, cw, bw, bh, 0)[j] by {
        let s = 1 + j;
        lemma_sub_position_bounds(a.len() as int, cw, bw, bh, 0, s);
        let pos = sub_position(cw, bw, bh, 0, s);
        assert(pos >= 1) by {
            vstd::arithmetic::div_mod::lemma_basic_div(0, blocks_per_row(cw, bw));
            vstd::arithmetic::div_mod::lemma_small_mod(0nat, blocks_per_row(cw, bw) as nat);
            vstd::arithmetic::mul::lemma_mul_basics(cw);
            vstd::arithmetic::mul::lemma_mul_basics(bw);
            vstd::arithmetic::mul::lemma_mul_basics(bh);
            vstd::arithmetic::div_mod::lemma_mod_division_less_than_divisor(s, bw);
            vstd::arithmetic::div_mod::lemma_div_pos_is_pos(s, bw);
            vstd::arithmetic::mul::lemma_mul_nonnegative(s / bw, cw);
            lemma_fundamental_div_mod(s, bw);
            if s % bw == 0 {
                // A sub-offset on a row boundary sits at least one canvas row in.
                assert(s == bw * (s / bw));
                assert(s / bw >= 1);
                vstd::arithmetic::mul::lemma_mul_inequality(1, s / bw, cw);
            }
        }
    }
    assert(block_votes(a, cw, bw, bh, 0) =~= block_votes(b, cw, bw, bh, 0));
}

/// Changing only the canvas's first byte never changes block 0 of the
/// output, when a block holds more than one sub-pixel.
pub proof fn lemma_block_zero_output_ignores_first(
    a: Seq<u8>,
    b: Seq<u8>,
    cw: int,
    bw: int,
    bh: int,
    out_a: Seq<u8>,
    out_b: Seq<u8>,
)
    requires
        valid_layout(a.len() as int, cw, bw, bh),
        a.len() == b.len(),
        block_size(bw, bh) > 1,
        total_blocks(a.len() as int, bw, bh) > 0,
        forall|p: int| 1 <= p < a.len() ==> a[p] == b[p],
        unstylized(a, cw, bw, bh, out_a),
        unstylized(b, cw, bw, bh, out_b),
    ensures
        out_a[0] == out_b[0],
{
    lemma_block_zero_skips_decorator(a, b, cw, bw, bh);
    crate::vote::lemma_block_vote_unique(block_votes(a, cw, bw, bh, 0), out_a[0], out_b[0]);
}

/// The per-block contract pins the whole output: any two buffers that both
/// satisfy it are equal, however the blocks were partitioned among workers.
pub proof fn lemma_unstylize_deterministic(
    input: Seq<u8>,
    cw: int,
    bw: int,
    bh: int,
    out_a: Seq<u8>,
    out_b: Seq<u8>,
)
    requires
        unstylized(input, cw, bw, bh, out_a),
        unstylized(input, cw, bw, bh, out_b),
    ensures
        out_a == out_b,
{
    assert forall|k: int| 0 <= k < out_a.len() implies out_a[k] == out_b[k] by {
        crate::vote::lemma_block_vote_unique(
            block_votes(input, cw, bw, bh, k),
            out_a[k],
            out_b[k],
        );
    }
    assert(out_a =~= out_b);
}

} // verus!
