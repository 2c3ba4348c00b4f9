use font8x8::legacy::BASIC_LEGACY;
use shlog::scene::{
    basic_font, build_atlas, centred_start, create_atlas, draw_glyph, empty_pixels, font_scale,
    layout_text, passes, Layer, Pass, Vertex,
};

/// Whether a pixel of an image is opaque white, or else transparent black.
fn is_white(image: &[u8], w: usize, x: usize, y: usize) -> bool {
    let pixel = &image[(y * w + x) * 4..(y * w + x) * 4 + 4];
    assert!(pixel == [255; 4] || pixel == [0; 4]);
    pixel[0] == 255
}

#[test]
fn the_font_is_the_one_of_the_font_crate() {
    let font = basic_font();
    assert_eq!(font.len(), 128);
    for code in 0..128 {
        assert_eq!(font[code], BASIC_LEGACY[code]);
    }
    assert_ne!(font['A' as usize], [0; 8]);
}

#[test]
fn a_glyph_is_drawn_with_its_first_column_in_the_lowest_bit() {
    let mut image = vec![0u8; 10 * 9 * 4];
    let glyph = [0b0000_0011, 0, 0, 0, 0, 0, 0, 0b1000_0000];
    draw_glyph(&mut image, 10, 9, glyph, 1, 1, 1, [1, 2, 3, 4]);
    for y in 0..9 {
        for x in 0..10 {
            let expected: [u8; 4] = match (x, y) {
                (1, 1) | (2, 1) | (8, 8) => [1, 2, 3, 4],
                _ => [0; 4],
            };
            assert_eq!(image[(y * 10 + x) * 4..(y * 10 + x) * 4 + 4], expected);
        }
    }
}

#[test]
fn a_glyph_is_cut_at_the_edges() {
    let mut image = vec![0u8; 3 * 2 * 4];
    draw_glyph(&mut image, 3, 2, [0xff; 8], 1, 1, 2, [9; 4]);
    let expected: Vec<u8> = [0, 0, 0, 0, 9, 9].iter().flat_map(|&v| [v; 4]).collect();
    assert_eq!(image, expected);
}

#[test]
fn a_glyph_can_lie_far_out() {
    let mut image = vec![0u8; 4];
    draw_glyph(&mut image, 1, 1, [1, 0, 0, 0, 0, 0, 0, 0], usize::MAX, usize::MAX, 1, [9; 4]);
    draw_glyph(&mut image, 1, 1, [0; 8], 5, 5, usize::MAX, [9; 4]);
    draw_glyph(&mut image, 1, 1, [0xff; 8], usize::MAX, 0, 0, [9; 4]);
    assert_eq!(image, [0; 4]);
}

#[test]
fn enlarging_makes_squares() {
    let glyph = BASIC_LEGACY['g' as usize];
    let mut small = vec![0u8; 8 * 8 * 4];
    draw_glyph(&mut small, 8, 8, glyph, 0, 0, 1, [255; 4]);
    let mut large = vec![0u8; 24 * 24 * 4];
    draw_glyph(&mut large, 24, 24, glyph, 0, 0, 3, [255; 4]);
    for y in 0..24 {
        for x in 0..24 {
            assert_eq!(is_white(&large, 24, x, y), is_white(&small, 8, x / 3, y / 3));
        }
    }
}

#[test]
fn the_atlas_has_a_cell_for_each_character() {
    let atlas = create_atlas(2);
    assert_eq!((atlas.w, atlas.h), (256, 128));
    assert_eq!(atlas.rgba.len(), 256 * 128 * 4);
    for code in 0u8..128 {
        let glyph = atlas.get_glyph(code as char).unwrap();
        assert_eq!((glyph.w, glyph.h, glyph.advance_x), (16, 16, 16));
        assert_eq!(glyph.u0, code as usize % 16 * 16);
        assert_eq!(glyph.u1, glyph.u0 + 16);
        assert_eq!(glyph.v0, code as usize / 16 * 16);
        assert_eq!(glyph.v1, glyph.v0 + 16);
        for y in 0..16 {
            for x in 0..16 {
                let lit = (BASIC_LEGACY[code as usize][y / 2] >> (x / 2)) & 1 == 1;
                assert_eq!(is_white(&atlas.rgba, atlas.w, glyph.u0 + x, glyph.v0 + y), lit);
            }
        }
    }
    assert!(atlas.get_glyph('\u{80}').is_none());
    assert!(atlas.get_glyph('\u{e9}').is_none());
}

#[test]
fn an_atlas_shows_the_font_that_it_is_given() {
    let mut font = vec![[0u8; 8]; 128];
    font[17] = [1, 0, 0, 0, 0, 0, 0, 0];
    let atlas = build_atlas(&font, 1);
    for y in 0..atlas.h {
        for x in 0..atlas.w {
            assert_eq!(is_white(&atlas.rgba, atlas.w, x, y), (x, y) == (8, 8));
        }
    }
}

#[test]
fn an_atlas_of_no_size_is_empty() {
    let atlas = create_atlas(0);
    assert_eq!((atlas.w, atlas.h), (0, 0));
    assert!(atlas.rgba.is_empty());
    assert_eq!(atlas.get_glyph('a').unwrap().w, 0);
}

#[test]
fn a_text_is_laid_out_in_lines() {
    let atlas = create_atlas(1);
    let layout = layout_text("ab\n_", &atlas, 1);
    assert_eq!(layout.vertices.len(), 18);
    assert_eq!((layout.width, layout.height), (16, 36));
    let at = |i: usize| (layout.vertices[i].x, layout.vertices[i].y);
    let corners: Vec<(usize, usize)> = (0..6).map(at).collect();
    assert_eq!(corners, [(0, 0), (8, 0), (0, 8), (8, 0), (8, 8), (0, 8)]);
    assert_eq!(at(6), (8, 0));
    assert_eq!(at(12), (0, 28));
    assert_eq!(at(16), (8, 36));
    let code = 'a' as usize;
    assert_eq!(
        layout.vertices[0],
        Vertex {
            x: 0,
            y: 0,
            u: code % 16 * 8,
            v: code / 16 * 8,
            at_bottom: false,
            blink: false,
        }
    );
    assert_eq!(
        layout.vertices[4],
        Vertex {
            x: 8,
            y: 8,
            u: code % 16 * 8 + 8,
            v: code / 16 * 8 + 8,
            at_bottom: true,
            blink: false,
        }
    );
    assert!(!layout.vertices[11].blink);
    assert!(layout.vertices[12].blink);
}

#[test]
fn characters_without_a_glyph_take_no_room() {
    let atlas = create_atlas(1);
    let layout = layout_text("a\u{e9}b", &atlas, 1);
    assert_eq!(layout.vertices.len(), 12);
    assert_eq!(layout.vertices[6].x, 8);
    assert_eq!((layout.width, layout.height), (16, 8));
}

#[test]
fn an_empty_text_has_no_size() {
    let atlas = create_atlas(1);
    for text in ["", "\n", "\u{e9}\n\n"] {
        let layout = layout_text(text, &atlas, 1);
        assert!(layout.vertices.is_empty());
        assert_eq!((layout.width, layout.height), (0, 0));
    }
}

#[test]
fn the_height_ends_with_the_last_character() {
    let atlas = create_atlas(3);
    let layout = layout_text("abc\nd\n", &atlas, 3);
    assert_eq!((layout.width, layout.height), (72, 68));
}

#[test]
fn sizes_of_what_is_drawn() {
    assert_eq!(font_scale(72), 9);
    assert_eq!(font_scale(71), 8);
    assert_eq!(font_scale(7), 0);
    assert_eq!(empty_pixels(3, 2), vec![0u8; 24]);
    assert_eq!(centred_start(100, 41), 29);
    assert_eq!(centred_start(100, 101), 0);
}

#[test]
fn the_effect_comes_between_background_and_text() {
    assert_eq!(
        passes(false),
        [
            Pass::Background { to: Layer::Background },
            Pass::Text { to: Layer::Background },
            Pass::Post { from: Layer::Background, to: Layer::Screen },
        ]
    );
    assert_eq!(
        passes(true),
        [
            Pass::Background { to: Layer::Background },
            Pass::Effect { from: Layer::Background, to: Layer::Effect },
            Pass::Text { to: Layer::Effect },
            Pass::Post { from: Layer::Effect, to: Layer::Screen },
        ]
    );
}
