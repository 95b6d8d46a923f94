//! Conversions between raw RGBA pixel buffers and compact palette-indexed
//! buffers for a pixel-art canvas: a per-pixel palette quantizer and a
//! block-wise majority-vote downsampler that turns a stylized template
//! encoding back into a true indexed canvas.

mod detemplatize;
mod geometry;
mod palette;
mod quantize;
mod vote;

use vstd::prelude::*;

pub use detemplatize::{
    DetemplatizeError, block_votes, lemma_block_zero_output_ignores_first,
    lemma_block_zero_skips_decorator, lemma_unstylize_deterministic, unstylize, unstylize_chunk,
    unstylized, vote_start,
};
pub use geometry::{
    block_size, blocks_per_row, sub_position, total_blocks, valid_geometry, valid_layout,
};
pub use palette::{
    Color, Palette, PaletteError, lemma_lookup_in_range, lemma_lookup_is_last_match,
    lemma_lookup_none, lookup_spec,
};
pub use quantize::{
    QuantizeError, index, lemma_palette_hit, lemma_transparent_pixel, pixel_color,
    pixel_index_spec, BYTES_PER_PIXEL,
};
pub use vote::{
    count_votes, is_block_vote, is_vote_winner, lemma_all_sentinel_block, lemma_block_vote_unique,
    lemma_count_votes_positive, lemma_count_votes_uniform, lemma_unanimous_block,
    lemma_vote_winner_unique, reduce_block,
};

verus! {

/// Reserved index value meaning "transparent / unmapped / no vote".
pub const SENTINEL: u8 = 255;

} // verus!
