use canvas_codec::{index, Color, Palette, PaletteError, QuantizeError, SENTINEL};

fn palette_of(triples: &[(u8, u8, u8)]) -> Palette {
    let colors: Vec<Color> = triples.iter().map(|&(r, g, b)| Color { r, g, b }).collect();
    Palette::from_colors(colors).expect("palette should fit below the sentinel")
}

#[test]
fn index_concrete_scenario() {
    let palette = palette_of(&[(255, 0, 0), (0, 255, 0)]);
    let pixels: Vec<u8> = vec![255, 0, 0, 255, 0, 0, 0, 0, 0, 255, 0, 10];
    let out = index(&pixels, &palette).unwrap();
    assert_eq!(out, vec![0, 255, 1]);
}

#[test]
fn index_output_length_is_quarter_of_input() {
    let palette = palette_of(&[(1, 2, 3)]);
    let pixels: Vec<u8> = vec![0; 40];
    let out = index(&pixels, &palette).unwrap();
    assert_eq!(out.len(), 10);
}

#[test]
fn index_empty_buffer() {
    let palette = palette_of(&[(1, 2, 3)]);
    let pixels: Vec<u8> = Vec::new();
    let out = index(&pixels, &palette).unwrap();
    assert!(out.is_empty());
}

#[test]
fn index_rejects_unaligned_length() {
    let palette = palette_of(&[(1, 2, 3)]);
    let pixels: Vec<u8> = vec![1, 2, 3];
    assert_eq!(index(&pixels, &palette), Err(QuantizeError::LengthNotPixelAligned));
}

#[test]
fn index_transparent_pixel_ignores_rgb() {
    let palette = palette_of(&[(255, 0, 0)]);
    let pixels: Vec<u8> = vec![255, 0, 0, 0];
    let out = index(&pixels, &palette).unwrap();
    assert_eq!(out, vec![SENTINEL]);
}

#[test]
fn index_unmapped_color_falls_back_to_sentinel() {
    let palette = palette_of(&[(1, 2, 3)]);
    let pixels: Vec<u8> = vec![9, 9, 9, 255];
    let out = index(&pixels, &palette).unwrap();
    assert_eq!(out, vec![SENTINEL]);
}

#[test]
fn index_low_alpha_still_opaque() {
    let palette = palette_of(&[(8, 8, 8)]);
    let pixels: Vec<u8> = vec![8, 8, 8, 1];
    let out = index(&pixels, &palette).unwrap();
    assert_eq!(out, vec![0]);
}

#[test]
fn index_duplicate_palette_entry_last_wins() {
    let palette = palette_of(&[(5, 5, 5), (7, 7, 7), (5, 5, 5)]);
    let pixels: Vec<u8> = vec![5, 5, 5, 255, 7, 7, 7, 255];
    let out = index(&pixels, &palette).unwrap();
    assert_eq!(out, vec![2, 1]);
}

#[test]
fn palette_rejects_sentinel_sized_list() {
    let colors: Vec<Color> = (0..255u16).map(|i| Color { r: i as u8, g: 0, b: 0 }).collect();
    assert!(matches!(Palette::from_colors(colors), Err(PaletteError::TooManyColors)));
}

#[test]
fn palette_accepts_largest_valid_list() {
    let colors: Vec<Color> = (0..254u16).map(|i| Color { r: i as u8, g: 0, b: 0 }).collect();
    let palette = Palette::from_colors(colors).unwrap();
    assert_eq!(palette.len(), 254);
}

#[test]
fn palette_lookup_hit_and_miss() {
    let palette = palette_of(&[(1, 2, 3), (4, 5, 6)]);
    assert_eq!(palette.lookup(Color { r: 4, g: 5, b: 6 }), Some(1));
    assert_eq!(palette.lookup(Color { r: 0, g: 0, b: 0 }), None);
}
