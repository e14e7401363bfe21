//! Overlay placement, frame layout, colours and the X11 helpers.

use couchcord::render::{
    blit_coverage, blit_fits, display_name_of, display_number, distinct_sorted, find_argb_visual, frame_size, image_strips,
    placement_ok, rgba_to_bgra, theme_rgba, DepthVisuals,
};
use couchcord::{anchor_rect, Anchor, MenuView, Overlay, Roster, Row, RowState, Scene};

const SCREEN: (u32, u32) = (1920, 1080);
const WIN: (u32, u32) = (300, 200);
const PAD: u32 = 16;

fn at(a: Anchor) -> (i32, i32) {
    anchor_rect(a, WIN, SCREEN, PAD)
}

#[test]
fn corners_are_correct() {
    assert_eq!(at(Anchor::TopLeft), (16, 16));
    assert_eq!(at(Anchor::TopRight), (1920 - 300 - 16, 16));
    assert_eq!(at(Anchor::BottomLeft), (16, 1080 - 200 - 16));
    assert_eq!(at(Anchor::BottomRight), (1604, 864));
}

#[test]
fn edge_midpoints_are_centered_on_the_free_axis() {
    assert_eq!(at(Anchor::TopCenter), ((1920 - 300) / 2, 16));
    assert_eq!(at(Anchor::BottomCenter), (810, 864));
    assert_eq!(at(Anchor::MidLeft), (16, (1080 - 200) / 2));
    assert_eq!(at(Anchor::MidRight), (1604, 440));
}

#[test]
fn all_eight_positions_are_distinct() {
    let mut seen = std::collections::HashSet::new();
    for a in Anchor::ALL {
        assert!(seen.insert(at(a)), "anchor {a:?} collided with another position");
    }
    assert_eq!(seen.len(), 8);
}

#[test]
fn oversized_window_pins_to_origin_not_negative() {
    let (x, y) = anchor_rect(Anchor::BottomRight, (4000, 3000), SCREEN, PAD);
    assert!(x >= 0 && y >= 0, "never place the window off the top-left edge");
    assert_eq!((x, y), (0, 0));
}

#[test]
fn cycling_anchor_moves_the_window_each_step() {
    let mut a = Anchor::TopLeft;
    let mut prev = at(a);
    for _ in 0..8 {
        a = a.next();
        let pos = at(a);
        let _ = (prev, pos);
        prev = pos;
    }
}

#[test]
fn odd_free_space_centers_toward_zero() {
    assert_eq!(anchor_rect(Anchor::TopCenter, (301, 200), SCREEN, PAD), (809, 16));
    assert_eq!(anchor_rect(Anchor::MidLeft, (300, 201), SCREEN, PAD), (16, 439));
}

fn row(label: &str) -> Row {
    Row { label: label.into(), icon: None, state: RowState::Normal }
}

#[test]
fn frame_heights_follow_the_rows() {
    let menu = Scene {
        menu: Some(MenuView { title: "Servers".into(), rows: vec![row("a"), row("b")], selected: 1 }),
        overlay: None,
    };
    assert_eq!(frame_size(&menu), (440, 34 + 2 * 40 + 24));
    let overlay = Scene {
        menu: None,
        overlay: Some(Overlay {
            anchor: Anchor::TopRight,
            roster: Roster { channel_name: "General".into(), members: vec![] },
        }),
    };
    assert_eq!(frame_size(&overlay), (440, 34 + 40 + 24), "an empty roster is one row tall");
    assert_eq!(frame_size(&Scene::empty()), (440, 40 + 24), "never less than one padded row");
}

#[test]
fn theme_colours_parse_hex() {
    assert_eq!(theme_rgba("#66c0f4"), (0x66, 0xc0, 0xf4, 255));
    assert_eq!(theme_rgba("##1b2838"), (0x1b, 0x28, 0x38, 255));
    assert_eq!(theme_rgba("#fff"), (0, 0, 0, 255), "short forms are not colours");
    assert_eq!(theme_rgba("#zzzzzz"), (0, 0, 0, 255));
}

#[test]
fn bgra_swaps_red_and_blue() {
    assert_eq!(rgba_to_bgra(&[1, 2, 3, 4, 5, 6, 7, 8]), vec![3, 2, 1, 4, 7, 6, 5, 8]);
    assert_eq!(rgba_to_bgra(&[1, 2, 3]), vec![1, 2, 3], "a partial pixel is kept");
}

#[test]
fn image_strips_stay_under_the_request_limit() {
    // 440 px wide → 1760 bytes a row → 139 rows a strip.
    assert_eq!(image_strips(440, 300), vec![(0, 139), (139, 139), (278, 22)]);
    assert!(image_strips(0, 10).is_empty());
    assert_eq!(image_strips(65535, 3), vec![(0, 1), (1, 1), (2, 1)], "at least a row a strip");
}

#[test]
fn x_sockets_name_displays() {
    assert_eq!(display_number("X0"), Some(0));
    assert_eq!(display_number("X12"), Some(12));
    assert_eq!(display_number("X"), None);
    assert_eq!(display_number("Y1"), None);
    assert_eq!(display_name_of(1), ":1");
    assert_eq!(distinct_sorted(vec![3, 1, 3, 0, 1]), vec![0, 1, 3]);
}

#[test]
fn argb_visual_is_the_first_depth_32_visual() {
    let depths = vec![
        DepthVisuals { depth: 24, visuals: vec![33] },
        DepthVisuals { depth: 32, visuals: vec![] },
        DepthVisuals { depth: 32, visuals: vec![71, 72] },
    ];
    assert_eq!(find_argb_visual(&depths), Some((32, 71)));
    assert_eq!(find_argb_visual(&vec![DepthVisuals { depth: 24, visuals: vec![1] }]), None);
}

#[test]
fn glyph_coverage_blends_over_the_buffer_and_clips() {
    // 2 x 2 pixels, all transparent black.
    let mut px = vec![0u8; 2 * 2 * 4];
    // A 2 x 1 glyph placed at (-1, 1): only its right cell lands, on pixel (0, 1).
    blit_coverage(&mut px, 2, 2, &[255, 128], 2, 1, -1, 1, (10, 20, 30));
    assert_eq!(&px[8..12], &[5, 10, 15, 128], "half coverage over black");
    assert!(px[..8].iter().chain(px[12..].iter()).all(|b| *b == 0), "nothing else is touched");
    // Full coverage replaces the colour and makes the pixel opaque.
    let mut px = vec![100u8; 4];
    blit_coverage(&mut px, 1, 1, &[255], 1, 1, 0, 0, (1, 2, 3));
    assert_eq!(px, vec![1, 2, 3, 255]);
    // Zero coverage and fully clipped glyphs change nothing.
    let mut px = vec![7u8; 4];
    blit_coverage(&mut px, 1, 1, &[0], 1, 1, 0, 0, (1, 2, 3));
    blit_coverage(&mut px, 1, 1, &[255], 1, 1, 5, 5, (1, 2, 3));
    assert_eq!(px, vec![7, 7, 7, 7]);
}

#[test]
fn preconditions_are_checkable() {
    assert!(placement_ok((440, 500), (1280, 800), 16));
    assert!(placement_ok((4000, 3000), (1920, 1080), 16));
    assert!(!placement_ok((0, 0), (0x8000_0000, 10), 16), "a screen wider than i32 does not fit");
    assert!(blit_fits(440, 500, 12, 3, 4, 10, 10));
    assert!(!blit_fits(440, 500, 11, 3, 4, 10, 10), "bitmap shorter than its cells");
    assert!(!blit_fits(50_000, 50_000, 1, 1, 1, 0, 0), "buffer too large");
    assert!(!blit_fits(4, 4, 1, 1, 1, i32::MAX, 0), "far edge overflows");
}
