use canvas_codec::{reduce_block, unstylize, unstylize_chunk, DetemplatizeError, SENTINEL};

#[test]
fn unstylize_concrete_scenario() {
    // Four 2x1 blocks on a 4-wide canvas; block 0 skips its first sub-pixel,
    // block 1 is a tie resolved to the lowest value.
    let styled: Vec<u8> = vec![1, 1, 1, 2, 2, 2, 2, 2];
    let out = unstylize(&styled, 4, 2, 2, 1).unwrap();
    assert_eq!(out, vec![1, 1, 2, 2]);
}

#[test]
fn unstylize_output_length() {
    let styled: Vec<u8> = vec![0; 36];
    let out = unstylize(&styled, 6, 6, 3, 2).unwrap();
    assert_eq!(out.len(), 36 / (3 * 2));
}

#[test]
fn unstylize_unanimous_block_wins() {
    // Two 2x2 blocks stacked on a 2-wide canvas; the lower one is unanimous.
    let styled: Vec<u8> = vec![9, 7, 7, 7, 4, 4, 4, 4];
    let out = unstylize(&styled, 2, 4, 2, 2).unwrap();
    assert_eq!(out, vec![7, 4]);
}

#[test]
fn unstylize_all_sentinel_block_stays_sentinel() {
    let styled: Vec<u8> = vec![255, 255, 255, 255];
    let out = unstylize(&styled, 2, 2, 2, 2).unwrap();
    assert_eq!(out, vec![SENTINEL]);
}

#[test]
fn unstylize_sentinel_never_outvotes() {
    // One real vote beats any number of sentinel sub-pixels.
    let styled: Vec<u8> = vec![255, 255, 3, 255];
    let out = unstylize(&styled, 2, 2, 2, 2).unwrap();
    assert_eq!(out, vec![3]);
}

#[test]
fn unstylize_block_zero_ignores_first_sub_pixel() {
    let a: Vec<u8> = vec![200, 5, 5, 5, 5, 5, 1, 1];
    let b: Vec<u8> = vec![17, 5, 5, 5, 5, 5, 1, 1];
    let out_a = unstylize(&a, 4, 2, 2, 2).unwrap();
    let out_b = unstylize(&b, 4, 2, 2, 2).unwrap();
    assert_eq!(out_a, out_b);
    assert_eq!(out_a, vec![5, 1]);
}

#[test]
fn unstylize_single_sub_pixel_blocks_keep_everything() {
    // With 1x1 blocks there is no decorator skip and every value survives.
    let styled: Vec<u8> = vec![4, 255, 0, 9];
    let out = unstylize(&styled, 2, 2, 1, 1).unwrap();
    assert_eq!(out, styled);
}

#[test]
fn unstylize_empty_buffer() {
    let styled: Vec<u8> = Vec::new();
    let out = unstylize(&styled, 4, 0, 2, 1).unwrap();
    assert!(out.is_empty());
}

#[test]
fn unstylize_rejects_zero_dimensions() {
    let styled: Vec<u8> = vec![0; 4];
    assert_eq!(unstylize(&styled, 0, 2, 1, 1), Err(DetemplatizeError::GeometryMismatch));
    assert_eq!(unstylize(&styled, 2, 2, 0, 1), Err(DetemplatizeError::GeometryMismatch));
    assert_eq!(unstylize(&styled, 2, 2, 1, 0), Err(DetemplatizeError::GeometryMismatch));
}

#[test]
fn unstylize_rejects_indivisible_dimensions() {
    let styled: Vec<u8> = vec![0; 12];
    // Block width does not divide the canvas width.
    assert_eq!(unstylize(&styled, 4, 3, 3, 1), Err(DetemplatizeError::GeometryMismatch));
    // Block height does not divide the canvas height.
    assert_eq!(unstylize(&styled, 4, 3, 2, 2), Err(DetemplatizeError::GeometryMismatch));
}

#[test]
fn unstylize_rejects_wrong_buffer_length() {
    let styled: Vec<u8> = vec![0; 10];
    assert_eq!(unstylize(&styled, 4, 3, 2, 1), Err(DetemplatizeError::GeometryMismatch));
    let empty: Vec<u8> = Vec::new();
    assert_eq!(unstylize(&empty, 4, 3, 2, 1), Err(DetemplatizeError::GeometryMismatch));
}

#[test]
fn unstylize_matches_any_chunked_partition() {
    // The same canvas, detemplatized whole and in chunks of every size:
    // the partition must never show in the output.
    let styled: Vec<u8> = vec![
        3, 3, 1, 1, 255, 255, 2, 2, 3, 3, 1, 2, 255, 4, 2, 2, 5, 5, 5, 5, 6, 7, 8, 8,
    ];
    let canvas_width = 8;
    let canvas_height = 3;
    let block_width = 2;
    let block_height = 1;
    let whole = unstylize(&styled, canvas_width, canvas_height, block_width, block_height)
        .unwrap();
    let total = styled.len() / (block_width * block_height);
    for chunk in 1..=total {
        let mut pieced: Vec<u8> = Vec::new();
        let mut done = 0;
        while done < total {
            let count = chunk.min(total - done);
            let part = unstylize_chunk(
                &styled,
                canvas_width,
                block_width,
                block_height,
                done,
                count,
            );
            pieced.extend_from_slice(&part);
            done += count;
        }
        assert_eq!(pieced, whole);
    }
}

#[test]
fn reduce_block_majority_and_ties() {
    assert_eq!(reduce_block(&vec![3, 5]), 3);
    assert_eq!(reduce_block(&vec![5, 3]), 3);
    assert_eq!(reduce_block(&vec![2, 2, 1]), 2);
    assert_eq!(reduce_block(&vec![1, 2, 2]), 2);
    assert_eq!(reduce_block(&vec![255, 255]), 255);
    assert_eq!(reduce_block(&Vec::new()), 255);
    assert_eq!(reduce_block(&vec![255, 9, 255]), 9);
}
