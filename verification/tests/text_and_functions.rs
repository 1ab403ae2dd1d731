use hayro::function::{read_samples, sample_strides, sample_table};
use hayro::text::{glyph_run_draws, is_ascii, show_glyphs, TextRenderingMode};

#[test]
fn glyph_run_draws_per_mode() {
    let d = glyph_run_draws(TextRenderingMode::Fill);
    assert!(d.fill && !d.stroke && !d.invisible && !d.clip);
    let d = glyph_run_draws(TextRenderingMode::FillStroke);
    assert!(d.fill && d.stroke && !d.clip);
    let d = glyph_run_draws(TextRenderingMode::Invisible);
    assert!(!d.fill && !d.stroke && d.invisible && !d.clip);
    let d = glyph_run_draws(TextRenderingMode::StrokeAndClip);
    assert!(!d.fill && d.stroke && d.clip);
    let d = glyph_run_draws(TextRenderingMode::FillAndStrokeAndClip);
    assert!(d.fill && d.stroke && d.clip);
    let d = glyph_run_draws(TextRenderingMode::Clip);
    assert!(!d.fill && !d.stroke && !d.invisible && d.clip);
}

#[test]
fn fallback_font_shows_only_ascii() {
    assert!(is_ascii(b"Hello"));
    assert!(!is_ascii(&[0x48, 0xe9]));
    assert!(show_glyphs(false, &[0xe9]));
    assert!(show_glyphs(true, b"abc"));
    assert!(!show_glyphs(true, &[0x61, 0x80]));
}

#[test]
fn samples_of_four_bits() {
    assert_eq!(read_samples(&[0x12, 0x34], 4), vec![1, 2, 3, 4]);
    assert_eq!(read_samples(&[0xab, 0xcd, 0xef], 16), vec![0xabcd]);
    assert_eq!(read_samples(&[0xff], 3), vec![7, 7]);
}

#[test]
fn strides_of_a_table() {
    assert_eq!(sample_strides(&[2, 3, 4], 2), Some((vec![2, 4, 12], 48)));
    assert_eq!(sample_strides(&[u32::MAX, u32::MAX, u32::MAX], usize::MAX / 2), None);
}

#[test]
fn sample_table_is_cut_to_its_size() {
    let t = sample_table(&[0x12, 0x34, 0x56], 4, &[2], 2).unwrap();
    assert_eq!(t.strides, vec![2]);
    assert_eq!(t.table, vec![1, 2, 3, 4]);
    let t = sample_table(&[0x12], 8, &[2], 2).unwrap();
    assert_eq!(t.table, vec![0x12]);
}

#[test]
fn sample_table_refusals() {
    assert!(sample_table(&[0], 3, &[1], 1).is_none());
    assert!(sample_table(&[0], 8, &[1], 0).is_none());
    assert!(sample_table(&[0], 8, &[u32::MAX, u32::MAX, u32::MAX], usize::MAX / 2).is_none());
}
