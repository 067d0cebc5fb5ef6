use yomu::ascii::{convert_to_ascii, render_ascii};
use yomu::error::YomuError;
use yomu::geometry::{panel_placement, PanelRect};

#[test]
fn brightness_maps_onto_the_ramp() {
    // 0 (black) is the densest glyph, 255 (white) is a blank
    assert_eq!(render_ascii(&vec![0], 1), "$");
    assert_eq!(render_ascii(&vec![255], 1), " ");
    // 128 * 69 / 255 = 34 -> 'n'; 64 * 69 / 255 = 17 -> 'q'
    assert_eq!(render_ascii(&vec![128], 1), "n");
    assert_eq!(render_ascii(&vec![64], 1), "q");
}

#[test]
fn rows_break_at_the_width_without_a_trailing_newline() {
    let pixels = vec![0, 255, 128, 64];
    assert_eq!(render_ascii(&pixels, 2), "$ \nnq");
    assert_eq!(render_ascii(&pixels, 4), "$ nq");
    assert_eq!(render_ascii(&pixels, 1), "$\n \nn\nq");
}

#[test]
fn empty_buffer_renders_empty() {
    assert_eq!(render_ascii(&Vec::new(), 3), "");
}

#[test]
fn decodes_a_tiny_image_into_text() {
    // a 2x2 grayscale image in the binary PGM format
    let mut bytes: Vec<u8> = b"P5\n2 2\n255\n".to_vec();
    bytes.extend_from_slice(&[0, 255, 255, 0]);
    let art = convert_to_ascii(&bytes, 2, 4).expect("a valid image converts");
    // two rows of two characters, separated by one newline
    assert_eq!(art.len(), 5);
    assert_eq!(art.lines().count(), 2);
    for line in art.lines() {
        assert_eq!(line.chars().count(), 2);
    }
}

#[test]
fn garbage_bytes_are_a_decode_error() {
    let r = convert_to_ascii(b"this is not an image", 10, 10);
    assert_eq!(r.err(), Some(YomuError::Decode));
}

#[test]
fn panels_align_to_the_spine_and_center_vertically() {
    let area = PanelRect::new(10, 5, 40, 20);
    // right panel: flush against the spine on its left edge
    let r = panel_placement(area, 30, 10, false);
    assert_eq!(r, PanelRect::new(10, 10, 30, 10));
    // left panel: flush against the spine on its right edge
    let l = panel_placement(area, 30, 10, true);
    assert_eq!(l, PanelRect::new(20, 10, 30, 10));
    // an image larger than the panel is not offset
    let big = panel_placement(area, 50, 30, true);
    assert_eq!(big, PanelRect::new(10, 5, 50, 30));
}

#[test]
fn same_size_ignores_position() {
    let a = PanelRect::new(0, 0, 12, 7);
    assert!(a.same_size(&PanelRect::new(99, 99, 12, 7)));
    assert!(!a.same_size(&PanelRect::new(0, 0, 12, 8)));
    assert!(!a.same_size(&PanelRect::new(0, 0, 11, 7)));
}
