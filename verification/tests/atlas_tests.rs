use rendercore::atlas::{coverage_to_rgba, glyph_key, initial_atlas_pixels, normalized_rect, GlyphCache};

#[test]
fn shelf_packing_places_left_to_right_with_margin() {
    let mut atlas = GlyphCache::new(1);
    let r1 = atlas.reserve(100, 10).unwrap();
    let r2 = atlas.reserve(50, 20).unwrap();
    assert_eq!(r1, (0, 0, 100, 10));
    // One-pixel margin after the first glyph.
    assert_eq!(r2, (101, 0, 50, 20));
}

#[test]
fn exactly_filled_shelf_wraps_to_next_row_below_tallest() {
    let mut atlas = GlyphCache::new(1);
    let r1 = atlas.reserve(1024, 10).unwrap();
    // 1025 + 1023 = 2048: this glyph ends exactly at the right edge.
    let r2 = atlas.reserve(1023, 20).unwrap();
    assert_eq!(r1, (0, 0, 1024, 10));
    assert_eq!(r2, (1025, 0, 1023, 20));
    // The next glyph starts a new row at y = max height of the previous
    // row + 1.
    let r3 = atlas.reserve(10, 5).unwrap();
    assert_eq!(r3, (0, 21, 10, 5));
}

#[test]
fn glyph_too_tall_for_the_atlas_is_rejected() {
    let mut atlas = GlyphCache::new(1);
    let e = atlas.reserve(10, 3000).unwrap_err();
    assert_eq!(e.glyph_width, 10);
    assert_eq!(e.glyph_height, 3000);
    // The failed reservation moved nothing: the next fit still lands at
    // the origin.
    assert_eq!(atlas.reserve(10, 10).unwrap(), (0, 0, 10, 10));
}

#[test]
fn glyph_keys_pack_all_three_parts() {
    let k = glyph_key(1, 2, 3);
    assert_eq!(k, (3u64 << 32) | (2u64 << 16) | 1u64);
    assert_ne!(glyph_key(0, 7, 100), glyph_key(1, 7, 100));
    assert_ne!(glyph_key(0, 7, 100), glyph_key(0, 8, 100));
    assert_ne!(glyph_key(0, 7, 100), glyph_key(0, 7, 101));
}

#[test]
fn coverage_widens_to_white_with_alpha() {
    let rgba = coverage_to_rgba(&vec![0, 128, 255]);
    assert_eq!(
        rgba,
        vec![0xFF, 0xFF, 0xFF, 0, 0xFF, 0xFF, 0xFF, 128, 0xFF, 0xFF, 0xFF, 255]
    );
}

#[test]
fn initial_pixels_hold_the_debug_pattern() {
    let px = initial_atlas_pixels();
    assert_eq!(px.len(), 4 * 2048 * 2048);
    assert_eq!(&px[0..8], &[0xFF, 0, 0xFF, 0, 0xFF, 0, 0xFF, 0]);
}

#[test]
fn normalized_rect_divides_by_texture_dimensions() {
    let r = normalized_rect((1024, 512, 256, 128), 2048, 2048);
    assert_eq!(r[0], 0.5f32.to_bits());
    assert_eq!(r[1], 0.25f32.to_bits());
    assert_eq!(r[2], 0.125f32.to_bits());
    assert_eq!(r[3], 0.0625f32.to_bits());
}
