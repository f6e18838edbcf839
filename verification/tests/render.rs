use iv::ui::render::{
    blend_pixel, draw_char, draw_text, fill_rect, rgb, unpack_rgb, BG_COLOR, FONT_5X7,
};

const WHITE: (u8, u8, u8, u8) = (255, 255, 255, 255);

/// Offsets of the pixels that differ from `before`.
fn changed(before: &[u32], after: &[u32]) -> Vec<usize> {
    (0..before.len()).filter(|&i| before[i] != after[i]).collect()
}

#[test]
fn rgb_packs_red_green_blue() {
    assert_eq!(rgb(0x12, 0x34, 0x56), 0x0012_3456);
    assert_eq!(rgb(0, 0, 0), 0);
    assert_eq!(rgb(255, 255, 255), 0x00ff_ffff);
    assert_eq!(rgb(255, 0, 0), 0x00ff_0000);
    assert_eq!(rgb(0, 255, 0), 0x0000_ff00);
    assert_eq!(rgb(0, 0, 255), 0x0000_00ff);
}

#[test]
fn unpack_rgb_reads_the_three_bytes() {
    assert_eq!(unpack_rgb(0x0012_3456), (0x12, 0x34, 0x56));
    assert_eq!(unpack_rgb(0xab12_3456), (0x12, 0x34, 0x56));
    assert_eq!(unpack_rgb(0), (0, 0, 0));
}

#[test]
fn unpack_undoes_pack() {
    for r in [0u8, 1, 31, 128, 255] {
        for g in [0u8, 7, 200, 255] {
            for b in [0u8, 99, 254, 255] {
                assert_eq!(unpack_rgb(rgb(r, g, b)), (r, g, b));
            }
        }
    }
}

#[test]
fn background_is_dark_grey() {
    assert_eq!(BG_COLOR, [31, 31, 31, 255]);
    assert_eq!(rgb(BG_COLOR[0], BG_COLOR[1], BG_COLOR[2]), 0x001f_1f1f);
}

#[test]
fn fill_rect_paints_the_rectangle_and_nothing_else() {
    let mut buf = vec![0u32; 5 * 4];
    fill_rect(&mut buf, 5, 4, 1, 1, 3, 2, (10, 20, 30, 255));
    let c = rgb(10, 20, 30);
    let expected = vec![0, 0, 0, 0, 0, 0, c, c, c, 0, 0, c, c, c, 0, 0, 0, 0, 0, 0];
    assert_eq!(buf, expected);
}

#[test]
fn fill_rect_clips_at_every_edge() {
    let mut buf = vec![0u32; 3 * 3];
    fill_rect(&mut buf, 3, 3, -2, -1, 3, 2, WHITE);
    assert_eq!(changed(&[0; 9], &buf), vec![0]);

    let mut buf = vec![0u32; 3 * 3];
    fill_rect(&mut buf, 3, 3, 2, 2, 100, 100, WHITE);
    assert_eq!(changed(&[0; 9], &buf), vec![8]);

    let mut buf = vec![0u32; 3 * 3];
    fill_rect(&mut buf, 3, 3, 3, 0, 4, 4, WHITE);
    fill_rect(&mut buf, 3, 3, 0, 3, 4, 4, WHITE);
    fill_rect(&mut buf, 3, 3, -5, 0, 5, 3, WHITE);
    fill_rect(&mut buf, 3, 3, 0, 0, 0, 3, WHITE);
    fill_rect(&mut buf, 3, 3, 0, 0, 3, 0, WHITE);
    assert_eq!(buf, vec![0u32; 9]);

    let mut buf = vec![0u32; 3 * 3];
    fill_rect(&mut buf, 3, 3, i32::MIN, i32::MIN, 1 << 31, 1 << 31, WHITE);
    assert_eq!(buf, vec![0u32; 9]);
    fill_rect(&mut buf, 3, 3, i32::MIN, i32::MIN, (1 << 31) + 1, u32::MAX, WHITE);
    assert_eq!(changed(&[0; 9], &buf), vec![0, 3, 6]);
    fill_rect(&mut buf, 3, 3, -1, -1, u32::MAX, u32::MAX, WHITE);
    assert_eq!(buf, vec![0x00ff_ffff; 9]);
}

#[test]
fn fill_rect_leaves_the_rest_of_a_longer_buffer() {
    let mut buf = vec![5u32; 10];
    fill_rect(&mut buf, 2, 2, 0, 0, 2, 2, WHITE);
    assert_eq!(buf, vec![0xff_ffff, 0xff_ffff, 0xff_ffff, 0xff_ffff, 5, 5, 5, 5, 5, 5]);
}

#[test]
fn fill_rect_blends_by_the_alpha_byte() {
    let mut buf = vec![0u32; 1];
    fill_rect(&mut buf, 1, 1, 0, 0, 1, 1, (255, 0, 0, 128));
    assert_eq!(buf[0], rgb(128, 0, 0));

    let mut buf = vec![rgb(100, 200, 50); 1];
    fill_rect(&mut buf, 1, 1, 0, 0, 1, 1, (0, 0, 0, 200));
    assert_eq!(buf[0], rgb(21, 43, 10));

    let mut buf = vec![rgb(100, 200, 50); 1];
    fill_rect(&mut buf, 1, 1, 0, 0, 1, 1, (9, 9, 9, 0));
    assert_eq!(buf[0], rgb(100, 200, 50));

    let mut buf = vec![rgb(10, 20, 30); 1];
    fill_rect(&mut buf, 1, 1, 0, 0, 1, 1, (200, 100, 255, 178));
    assert_eq!(
        buf[0],
        rgb(
            ((200 * 178 + 10 * 77) / 255) as u8,
            ((100 * 178 + 20 * 77) / 255) as u8,
            ((255 * 178 + 30 * 77) / 255) as u8
        )
    );
}

#[test]
fn blend_pixel_weighs_by_opacity() {
    assert_eq!(blend_pixel((255, 0, 0, 128), 0), rgb(128, 0, 0));
    assert_eq!(blend_pixel((10, 20, 30, 255), rgb(200, 200, 200)), rgb(10, 20, 30));
    assert_eq!(blend_pixel((10, 20, 30, 255), 0xffff_ffff), rgb(10, 20, 30));
    assert_eq!(blend_pixel((10, 20, 30, 0), rgb(1, 2, 3)), rgb(1, 2, 3));
    assert_eq!(blend_pixel((0, 0, 0, 200), rgb(100, 200, 50)), rgb(21, 43, 10));
    assert_eq!(blend_pixel((255, 255, 255, 1), rgb(0, 0, 0)), rgb(1, 1, 1));
    assert_eq!(blend_pixel((254, 254, 254, 1), rgb(0, 0, 0)), rgb(0, 0, 0));
}

#[test]
fn font_has_a_glyph_for_each_printable_character() {
    assert_eq!(FONT_5X7.len(), 96);
    assert_eq!(FONT_5X7[0], [0, 0, 0, 0, 0]);
    assert_eq!(FONT_5X7[('!' as usize) - 32], [0x00, 0x00, 0x5F, 0x00, 0x00]);
    assert_eq!(FONT_5X7[('A' as usize) - 32], [0x7E, 0x11, 0x11, 0x11, 0x7E]);
    assert_eq!(FONT_5X7[('z' as usize) - 32], [0x44, 0x64, 0x54, 0x4C, 0x44]);
    assert_eq!(FONT_5X7[95], [0, 0, 0, 0, 0]);
}

#[test]
fn draw_char_sets_the_bits_of_the_glyph() {
    let mut buf = vec![0u32; 8 * 9];
    draw_char(&mut buf, 8, 9, '!', 1, 1, 1, WHITE);
    let lit = changed(&[0; 72], &buf);
    let expected: Vec<usize> = [0usize, 1, 2, 3, 4, 6].iter().map(|row| (row + 1) * 8 + 3).collect();
    assert_eq!(lit, expected);
    for off in expected {
        assert_eq!(buf[off], 0x00ff_ffff);
    }
}

#[test]
fn draw_char_scales_each_cell() {
    let mut buf = vec![0u32; 12 * 16];
    draw_char(&mut buf, 12, 16, '-', 0, 0, 2, WHITE);
    let mut expected = Vec::new();
    for y in 6..8 {
        for x in 0..10 {
            expected.push(y * 12 + x);
        }
    }
    assert_eq!(changed(&[0; 192], &buf), expected);
}

#[test]
fn draw_char_matches_the_font_table() {
    for ch in ['A', 'g', '#', '~', '0'] {
        let glyph = FONT_5X7[(ch as usize) - 32];
        let mut buf = vec![0u32; 5 * 7];
        draw_char(&mut buf, 5, 7, ch, 0, 0, 1, WHITE);
        for col in 0..5 {
            for row in 0..7 {
                let set = glyph[col] & (1 << row) != 0;
                assert_eq!(buf[row * 5 + col] != 0, set);
            }
        }
    }
}

#[test]
fn draw_char_clips_and_ignores_what_has_no_glyph() {
    let mut buf = vec![0u32; 4 * 4];
    draw_char(&mut buf, 4, 4, '-', -3, -2, 1, WHITE);
    assert_eq!(changed(&[0; 16], &buf), vec![4, 5]);

    let mut buf = vec![0u32; 4 * 4];
    draw_char(&mut buf, 4, 4, '\n', 0, 0, 1, WHITE);
    draw_char(&mut buf, 4, 4, '\u{7f}', 0, 0, 1, WHITE);
    draw_char(&mut buf, 4, 4, '\u{e9}', 0, 0, 1, WHITE);
    draw_char(&mut buf, 4, 4, ' ', 0, 0, 1, WHITE);
    draw_char(&mut buf, 4, 4, 'A', 0, 0, 0, WHITE);
    draw_char(&mut buf, 4, 4, 'A', 100, 0, 1, WHITE);
    draw_char(&mut buf, 4, 4, 'A', i32::MAX, i32::MAX, u32::MAX, WHITE);
    assert_eq!(buf, vec![0u32; 16]);
}

#[test]
fn draw_char_blends_over_what_is_there() {
    let mut buf = vec![rgb(0, 0, 200); 5 * 7];
    draw_char(&mut buf, 5, 7, '|', 0, 0, 1, (200, 0, 0, 128));
    for row in 0..7 {
        assert_eq!(buf[row * 5 + 2], rgb(100, 0, 99));
        assert_eq!(buf[row * 5 + 1], rgb(0, 0, 200));
    }
}

#[test]
fn draw_text_advances_six_cells_per_character() {
    let mut buf = vec![0u32; 40 * 10];
    assert_eq!(draw_text(&mut buf, 40, 10, "", 3, 1, 2, WHITE), 3);
    assert_eq!(buf, vec![0u32; 400]);
    assert_eq!(draw_text(&mut buf, 40, 10, "ab", 3, 1, 1, WHITE), 15);
    assert_eq!(draw_text(&mut buf, 40, 10, "Loading...", 10, 0, 2, WHITE), 130);
    assert_eq!(draw_text(&mut buf, 40, 10, "x", -20, 0, 3, WHITE), -2);
}

#[test]
fn draw_text_draws_each_character_in_its_place() {
    let mut text = vec![0u32; 20 * 7];
    draw_text(&mut text, 20, 7, "!|!", 0, 0, 1, WHITE);
    let mut chars = vec![0u32; 20 * 7];
    draw_char(&mut chars, 20, 7, '!', 0, 0, 1, WHITE);
    draw_char(&mut chars, 20, 7, '|', 6, 0, 1, WHITE);
    draw_char(&mut chars, 20, 7, '!', 12, 0, 1, WHITE);
    assert_eq!(text, chars);
    assert_eq!(text[2], 0x00ff_ffff);
    assert_eq!(text[8], 0x00ff_ffff);
    assert_eq!(text[5 * 20 + 8], 0x00ff_ffff);
    assert_eq!(text[5 * 20 + 14], 0);
    assert_eq!(text[6 * 20 + 14], 0x00ff_ffff);
}
