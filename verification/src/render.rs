//! The layout side of the gamescope external-overlay renderer: 8-anchor window
//! placement, the frame size a scene needs, theme colour parsing, the pixel
//! byte order the X server wants, how a frame is cut into request-sized
//! strips, and the display/visual choices. Rasterization and the X11 window
//! itself live outside the library.

use crate::model::Anchor;
use crate::scene::Scene;
use crate::text::{chars_of, decimal, parse_unsigned, push_decimal, spec_parse_unsigned};
use vstd::prelude::*;

verus! {

// ---------------------------------------------------------------------------
// Anchor geometry
// ---------------------------------------------------------------------------

/// `a / b` rounded toward zero, as Rust's integer division does.
pub open spec fn div_trunc(a: int, b: int) -> int {
    if a >= 0 {
        a / b
    } else {
        -((-a) / b)
    }
}

/// The unclamped top-left corner of a `ww`×`wh` window at `anchor` inside a
/// `sw`×`sh` screen, inset by `p`.
pub open spec fn anchor_origin(anchor: Anchor, ww: int, wh: int, sw: int, sh: int, p: int) -> (
    int,
    int,
) {
    let left = p;
    let center_x = div_trunc(sw - ww, 2);
    let right = sw - ww - p;
    let top = p;
    let middle_y = div_trunc(sh - wh, 2);
    let bottom = sh - wh - p;
    match anchor {
        Anchor::TopLeft => (left, top),
        Anchor::TopCenter => (center_x, top),
        Anchor::TopRight => (right, top),
        Anchor::MidLeft => (left, middle_y),
        Anchor::MidRight => (right, middle_y),
        Anchor::BottomLeft => (left, bottom),
        Anchor::BottomCenter => (center_x, bottom),
        Anchor::BottomRight => (right, bottom),
    }
}

/// `x`, but never negative.
pub open spec fn non_negative(x: int) -> int {
    if x < 0 {
        0
    } else {
        x
    }
}

/// The sizes as the placement arithmetic reads them (32-bit signed).
pub open spec fn as_i32(x: u32) -> int {
    (x as i32) as int
}

/// True when every intermediate of the placement fits a 32-bit signed integer
/// (outside this, the arithmetic overflows).
pub open spec fn placement_fits(win: (u32, u32), screen: (u32, u32), pad: u32) -> bool {
    let d_x = as_i32(screen.0) - as_i32(win.0);
    let d_y = as_i32(screen.1) - as_i32(win.1);
    &&& i32::MIN <= d_x <= i32::MAX
    &&& i32::MIN <= d_x - as_i32(pad) <= i32::MAX
    &&& i32::MIN <= d_y <= i32::MAX
    &&& i32::MIN <= d_y - as_i32(pad) <= i32::MAX
}

/// Where the window goes: the anchored origin, clamped to be non-negative.
pub open spec fn spec_anchor_rect(anchor: Anchor, win: (u32, u32), screen: (u32, u32), pad: u32) -> (
    int,
    int,
) {
    let o = anchor_origin(
        anchor,
        as_i32(win.0),
        as_i32(win.1),
        as_i32(screen.0),
        as_i32(screen.1),
        as_i32(pad),
    );
    (non_negative(o.0), non_negative(o.1))
}

fn half_toward_zero(a: i64) -> (r: i64)
    requires
        -0x1_0000_0000 <= a <= 0x1_0000_0000,
    ensures
        r == div_trunc(a as int, 2),
{
    if a >= 0 {
        a / 2
    } else {
        -((-a) / 2)
    }
}

/// Top-left `(x, y)` for an overlay window of size `win = (w, h)` anchored
/// within a `screen = (w, h)`, inset from the edges by `pad` pixels. Clamped to
/// be non-negative (a window larger than the screen pins to the origin).
pub fn anchor_rect(anchor: Anchor, win: (u32, u32), screen: (u32, u32), pad: u32) -> (r: (i32, i32))
    requires
        placement_fits(win, screen, pad),
    ensures
        (r.0 as int, r.1 as int) == spec_anchor_rect(anchor, win, screen, pad),
{
    let ww = win.0 as i32 as i64;
    let wh = win.1 as i32 as i64;
    let sw = screen.0 as i32 as i64;
    let sh = screen.1 as i32 as i64;
    let p = pad as i32 as i64;
    let left = p;
    let center_x = half_toward_zero(sw - ww);
    let right = sw - ww - p;
    let top = p;
    let middle_y = half_toward_zero(sh - wh);
    let bottom = sh - wh - p;
    let (x, y) = match anchor {
        Anchor::TopLeft => (left, top),
        Anchor::TopCenter => (center_x, top),
        Anchor::TopRight => (right, top),
        Anchor::MidLeft => (left, middle_y),
        Anchor::MidRight => (right, middle_y),
        Anchor::BottomLeft => (left, bottom),
        Anchor::BottomCenter => (center_x, bottom),
        Anchor::BottomRight => (right, bottom),
    };
    let x = if x < 0 {
        0
    } else {
        x
    };
    let y = if y < 0 {
        0
    } else {
        y
    };
    (x as i32, y as i32)
}

/// Whether [`anchor_rect`] can place a window of size `win` on `screen` with
/// inset `pad` (every intermediate fits a 32-bit signed integer).
pub fn placement_ok(win: (u32, u32), screen: (u32, u32), pad: u32) -> (b: bool)
    ensures
        b == placement_fits(win, screen, pad),
{
    let dx = screen.0 as i32 as i64 - win.0 as i32 as i64;
    let dy = screen.1 as i32 as i64 - win.1 as i32 as i64;
    let p = pad as i32 as i64;
    let lo = i32::MIN as i64;
    let hi = i32::MAX as i64;
    lo <= dx && dx <= hi && lo <= dx - p && dx - p <= hi && lo <= dy && dy <= hi && lo <= dy - p
        && dy - p <= hi
}

/// Anchored placement never puts the window off the top-left edge, and when the
/// screen has room for the window plus more than twice the inset on each axis,
/// the 8 anchors give 8 different positions.
pub proof fn lemma_anchor_positions(win: (u32, u32), screen: (u32, u32), pad: u32)
    requires
        placement_fits(win, screen, pad),
    ensures
        forall|a: Anchor| #![trigger spec_anchor_rect(a, win, screen, pad)]
            spec_anchor_rect(a, win, screen, pad).0 >= 0 && spec_anchor_rect(a, win, screen, pad).1 >= 0,
        as_i32(pad) >= 0 && as_i32(win.0) >= 0 && as_i32(win.1) >= 0
            && as_i32(screen.0) - as_i32(win.0) >= 2 * as_i32(pad) + 2
            && as_i32(screen.1) - as_i32(win.1) >= 2 * as_i32(pad) + 2 ==> forall|a: Anchor, b: Anchor|
            #![trigger spec_anchor_rect(a, win, screen, pad), spec_anchor_rect(b, win, screen, pad)]
            a != b ==> spec_anchor_rect(a, win, screen, pad) != spec_anchor_rect(b, win, screen, pad),
{
}

// ---------------------------------------------------------------------------
// Frame size
// ---------------------------------------------------------------------------

/// Width of every frame, in pixels.
pub const FRAME_WIDTH: u32 = 440;
/// Height of one row.
pub const ROW_H: u32 = 40;
/// Inset of the panel content.
pub const PAD: u32 = 12;
/// How far the overlay window sits from the screen edges, in pixels.
pub const OVERLAY_INSET: u32 = 16;

/// Height of the title line.
pub const TITLE_H: u32 = 34;

/// The panel height for `n` rows under a title.
pub open spec fn panel_height(n: nat) -> nat {
    (TITLE_H + n * ROW_H + PAD * 2) as nat
}

/// The frame size a scene needs: the menu dominates when open; otherwise the
/// overlay's compact roster (at least one row tall); never less than one
/// padded row. Heights beyond `u32::MAX` saturate.
pub open spec fn spec_frame_size(menu_rows: Option<nat>, overlay_members: Option<nat>) -> (u32, u32) {
    let h = match menu_rows {
        Some(n) => panel_height(n),
        None => match overlay_members {
            Some(k) => panel_height(if k == 0 { 1 } else { k }),
            None => 0,
        },
    };
    let h = if h < ROW_H + PAD * 2 { (ROW_H + PAD * 2) as nat } else { h };
    (FRAME_WIDTH, if h > u32::MAX { u32::MAX } else { h as u32 })
}

/// The frame is 440 pixels wide. An open menu of `n` rows is
/// `34 + 40n + 24` pixels tall (at least 64); with the menu closed, an
/// overlay of `k` members is `34 + 40k + 24` tall (one row for an empty
/// roster), so the overlay grows with its roster. Heights saturate at
/// `u32::MAX`.
pub proof fn lemma_frame_heights(n: nat, k: nat, overlay: Option<nat>)
    ensures
        spec_frame_size(Some(n), overlay) == (440u32, ({
            let h = 58 + 40 * n;
            if h < 64 {
                64u32
            } else if h > u32::MAX {
                u32::MAX
            } else {
                h as u32
            }
        })),
        spec_frame_size(None, Some(k)) == (440u32, ({
            let h = 58 + 40 * (if k == 0 {
                1
            } else {
                k
            });
            if h > u32::MAX {
                u32::MAX
            } else {
                h as u32
            }
        })),
        spec_frame_size(None, None) == (440u32, 64u32),
        k >= 1 && 58 + 40 * (k + 1) <= u32::MAX ==> spec_frame_size(None, Some(k + 1)).1
            == spec_frame_size(None, Some(k)).1 + 40,
{
}

/// The frame size `scene` needs, in pixels.
pub fn frame_size(scene: &Scene) -> (r: (u32, u32))
    ensures
        r == spec_frame_size(
            match scene.menu {
                Some(m) => Some(m.rows@.len()),
                None => None,
            },
            match scene.overlay {
                Some(o) => Some(o.roster.members@.len()),
                None => None,
            },
        ),
{
    let n: Option<u64> = match &scene.menu {
        Some(m) => Some(m.rows.len() as u64),
        None => match &scene.overlay {
            Some(o) => Some(
                if o.roster.members.len() == 0 {
                    1
                } else {
                    o.roster.members.len() as u64
                },
            ),
            None => None,
        },
    };
    let h: u64 = match n {
        Some(n) => {
            if n > 200_000_000 {
                u64::MAX
            } else {
                (TITLE_H as u64) + n * (ROW_H as u64) + (PAD as u64) * 2
            }
        },
        None => 0,
    };
    let h = if h < (ROW_H + PAD * 2) as u64 {
        (ROW_H + PAD * 2) as u64
    } else {
        h
    };
    (FRAME_WIDTH, if h > u32::MAX as u64 {
        u32::MAX
    } else {
        h as u32
    })
}

/// A rasterized frame: RGBA premultiplied pixels and its size.
pub struct Frame {
    pub width: u32,
    pub height: u32,
    /// RGBA premultiplied, `width * height * 4` bytes.
    pub pixels: Vec<u8>,
}

// ---------------------------------------------------------------------------
// Glyph coverage blending
// ---------------------------------------------------------------------------

/// One colour channel `src` laid over a premultiplied destination `dst` with
/// coverage `a` (of 255).
pub open spec fn blend_channel(src: int, a: int, dst: int) -> int {
    (src * a + dst * (255 - a)) / 255
}

/// The destination alpha after laying coverage `a` over alpha `dst`.
pub open spec fn blend_alpha(a: int, dst: int) -> int {
    let v = a + dst * (255 - a) / 255;
    if v < 255 {
        v
    } else {
        255
    }
}

/// The coverage a glyph bitmap (`cw` x `ch`, placed at `(ox, oy)`) gives the
/// pixel `(x, y)`: zero outside the bitmap.
pub open spec fn coverage_at(cov: Seq<u8>, cw: int, ch: int, ox: int, oy: int, x: int, y: int) -> int {
    let i = x - ox;
    let j = y - oy;
    if 0 <= i < cw && 0 <= j < ch {
        cov[j * cw + i] as int
    } else {
        0
    }
}

/// The pixel column of byte `k` in a 4-byte-per-pixel buffer `pw` wide.
pub open spec fn pixel_x(k: int, pw: int) -> int {
    (k / 4) % pw
}

/// The pixel row of byte `k` in a 4-byte-per-pixel buffer `pw` wide.
pub open spec fn pixel_y(k: int, pw: int) -> int {
    (k / 4) / pw
}

/// Byte `k` of an RGBA premultiplied buffer `pw` pixels wide after drawing
/// the glyph coverage in colour `rgb`: covered pixels get the colour laid
/// over them; all other bytes keep their value.
pub open spec fn blitted_byte(
    old: Seq<u8>,
    pw: int,
    cov: Seq<u8>,
    cw: int,
    ch: int,
    ox: int,
    oy: int,
    rgb: (u8, u8, u8),
    k: int,
) -> u8 {
    let a = coverage_at(cov, cw, ch, ox, oy, pixel_x(k, pw), pixel_y(k, pw));
    let c = k % 4;
    if a == 0 {
        old[k]
    } else if c == 0 {
        blend_channel(rgb.0 as int, a, old[k] as int) as u8
    } else if c == 1 {
        blend_channel(rgb.1 as int, a, old[k] as int) as u8
    } else if c == 2 {
        blend_channel(rgb.2 as int, a, old[k] as int) as u8
    } else {
        blend_alpha(a, old[k] as int) as u8
    }
}

proof fn lemma_blend_bounded(src: int, a: int, dst: int)
    requires
        0 <= src <= 255,
        0 <= a <= 255,
        0 <= dst <= 255,
    ensures
        0 <= blend_channel(src, a, dst) <= 255,
        0 <= blend_alpha(a, dst) <= 255,
        0 <= src * a <= 65025,
        0 <= dst * (255 - a) <= 65025,
{
    assert(0 <= src * a <= 65025) by (nonlinear_arith)
        requires
            0 <= src <= 255,
            0 <= a <= 255,
    ;
    assert(0 <= src * a + dst * (255 - a) <= 255 * 255) by (nonlinear_arith)
        requires
            0 <= src <= 255,
            0 <= a <= 255,
            0 <= dst <= 255,
    ;
    assert(0 <= dst * (255 - a) <= 65025) by (nonlinear_arith)
        requires
            0 <= a <= 255,
            0 <= dst <= 255,
    ;
}

/// Byte `k`'s position: its pixel's column and row, and back.
proof fn lemma_byte_position(k: int, pw: int, ph: int)
    requires
        pw > 0,
        0 <= k < pw * ph * 4,
    ensures
        0 <= pixel_x(k, pw) < pw,
        0 <= pixel_y(k, pw) < ph,
        k == (pixel_y(k, pw) * pw + pixel_x(k, pw)) * 4 + k % 4,
        0 <= k % 4 < 4,
{
    vstd::arithmetic::div_mod::lemma_fundamental_div_mod(k, 4);
    vstd::arithmetic::div_mod::lemma_fundamental_div_mod(k / 4, pw);
    assert(k / 4 >= 0);
    vstd::arithmetic::div_mod::lemma_div_pos_is_pos(k / 4, pw);
    vstd::arithmetic::mul::lemma_mul_is_commutative(pw, (k / 4) / pw);
    let y = pixel_y(k, pw);
    let x = pixel_x(k, pw);
    if y >= ph {
        assert((y * pw + x) * 4 + k % 4 >= pw * ph * 4) by (nonlinear_arith)
            requires
                y >= ph,
                pw > 0,
                x >= 0,
                k % 4 >= 0,
        ;
    }
}

/// The bytes of pixel `(x, y)` are exactly those whose position is `(x, y)`.
proof fn lemma_pixel_bytes(pw: int, ph: int, x: int, y: int, k: int)
    requires
        pw > 0,
        0 <= x < pw,
        0 <= y,
        0 <= k < pw * ph * 4,
    ensures
        (pixel_x(k, pw) == x && pixel_y(k, pw) == y) <==> ((y * pw + x) * 4 <= k < (y * pw + x)
            * 4 + 4),
{
    lemma_byte_position(k, pw, ph);
    let p = y * pw + x;
    if (y * pw + x) * 4 <= k < (y * pw + x) * 4 + 4 {
        vstd::arithmetic::div_mod::lemma_fundamental_div_mod_converse(k, 4, p, k - p * 4);
        vstd::arithmetic::div_mod::lemma_fundamental_div_mod_converse(p, pw, y, x);
    }
}

/// Whether the glyph loop has already visited the bitmap cell over byte `k`:
/// rows before `j`, or row `j` before column `i`.
pub open spec fn visited(k: int, pw: int, cw: int, ch: int, ox: int, oy: int, j: int, i: int) -> bool {
    let ci = pixel_x(k, pw) - ox;
    let cj = pixel_y(k, pw) - oy;
    0 <= ci < cw && 0 <= cj < ch && (cj < j || (cj == j && ci < i))
}

/// Whether [`blit_coverage`] can draw a `cw` x `ch` bitmap of `cov_len`
/// bytes at `(ox, oy)` into a `pw` x `ph` buffer: the buffer's byte count and
/// the bitmap's far edges fit a 32-bit signed integer, and the bitmap holds
/// all its cells.
pub fn blit_fits(pw: u32, ph: u32, cov_len: usize, cw: usize, ch: usize, ox: i32, oy: i32) -> (b: bool)
    ensures
        b == (pw as int * ph as int * 4 <= i32::MAX && cov_len >= cw as int * ch as int && ox + cw
            <= i32::MAX && oy + ch <= i32::MAX),
{
    proof {
        assert(pw as int * ph as int <= u32::MAX as int * u32::MAX as int) by (nonlinear_arith)
            requires
                pw <= u32::MAX,
                ph <= u32::MAX,
        ;
        assert(cw as int * ch as int <= usize::MAX as int * usize::MAX as int) by (nonlinear_arith)
            requires
                cw <= usize::MAX,
                ch <= usize::MAX,
        ;
    }
    let bytes = pw as u128 * ph as u128;
    let cells = cw as u128 * ch as u128;
    bytes * 4 <= i32::MAX as u128 && cov_len as u128 >= cells && ox as i128 + cw as i128
        <= i32::MAX as i128 && oy as i128 + ch as i128 <= i32::MAX as i128
}

/// Lay a glyph's coverage bitmap (`cw` x `ch` bytes, row-major, placed with
/// its top-left at `(ox, oy)`) in colour `rgb` over an RGBA premultiplied
/// buffer `pw` x `ph` pixels; the parts outside the buffer are clipped.
#[verifier::rlimit(60)]
pub fn blit_coverage(
    data: &mut [u8],
    pw: u32,
    ph: u32,
    cov: &[u8],
    cw: usize,
    ch: usize,
    ox: i32,
    oy: i32,
    rgb: (u8, u8, u8),
)
    requires
        old(data)@.len() == pw as int * ph as int * 4,
        pw as int * ph as int * 4 <= i32::MAX,
        cov@.len() >= cw as int * ch as int,
        ox + cw <= i32::MAX,
        oy + ch <= i32::MAX,
    ensures
        final(data)@.len() == old(data)@.len(),
        forall|k: int|
            0 <= k < old(data)@.len() ==> final(data)@[k] == blitted_byte(
                old(data)@,
                pw as int,
                cov@,
                cw as int,
                ch as int,
                ox as int,
                oy as int,
                rgb,
                k,
            ),
{
    let ghost orig = data@;
    let ghost n = orig.len();
    if pw == 0 || ph == 0 {
        assert(n == 0) by (nonlinear_arith)
            requires
                n == pw as int * ph as int * 4,
                pw == 0 || ph == 0,
        ;
        return;
    }
    let mut j: usize = 0;
    while j < ch
        invariant
            orig.len() == n,
            n == pw as int * ph as int * 4,
            pw > 0,
            ph > 0,
            pw as int * ph as int * 4 <= i32::MAX,
            cov@.len() >= cw as int * ch as int,
            ox + cw <= i32::MAX,
            oy + ch <= i32::MAX,
            j <= ch,
            data@.len() == n,
            forall|k: int|
                0 <= k < n ==> #[trigger] data@[k] == if visited(
                    k,
                    pw as int,
                    cw as int,
                    ch as int,
                    ox as int,
                    oy as int,
                    j as int,
                    0,
                ) {
                    blitted_byte(orig, pw as int, cov@, cw as int, ch as int, ox as int, oy as int, rgb, k)
                } else {
                    orig[k]
                },
        decreases ch - j,
    {
        let mut i: usize = 0;
        while i < cw
            invariant
                orig.len() == n,
                n == pw as int * ph as int * 4,
                pw > 0,
                ph > 0,
                pw as int * ph as int * 4 <= i32::MAX,
                cov@.len() >= cw as int * ch as int,
                ox + cw <= i32::MAX,
                oy + ch <= i32::MAX,
                j < ch,
                i <= cw,
                data@.len() == n,
                forall|k: int|
                    0 <= k < n ==> #[trigger] data@[k] == if visited(
                        k,
                        pw as int,
                        cw as int,
                        ch as int,
                        ox as int,
                        oy as int,
                        j as int,
                        i as int,
                    ) {
                        blitted_byte(orig, pw as int, cov@, cw as int, ch as int, ox as int, oy as int, rgb, k)
                    } else {
                        orig[k]
                    },
            decreases cw - i,
        {
            let cov_len = cov.len();
            proof {
                assert(j * cw + i < cw * ch && 0 <= j * cw) by (nonlinear_arith)
                    requires
                        j < ch,
                        i < cw,
                ;
            }
            let a = cov[j * cw + i];
            let px: i64 = ox as i64 + i as i64;
            let py: i64 = oy as i64 + j as i64;
            let ghost before = data@;
            if a != 0 && px >= 0 && py >= 0 && px < pw as i64 && py < ph as i64 {
                proof {
                    assert(py * pw + px < pw as int * ph as int) by (nonlinear_arith)
                        requires
                            0 <= px < pw,
                            0 <= py < ph,
                    ;
                }
                let idx: usize = ((py * pw as i64 + px) * 4) as usize;
                let ghost base = idx as int;
                proof {
                    lemma_blend_bounded(rgb.0 as int, a as int, orig[base] as int);
                    lemma_blend_bounded(rgb.1 as int, a as int, orig[base + 1] as int);
                    lemma_blend_bounded(rgb.2 as int, a as int, orig[base + 2] as int);
                    lemma_blend_bounded(0, a as int, orig[base + 3] as int);
                }
                assert(data@[base] == orig[base] && data@[base + 1] == orig[base + 1] && data@[base + 2]
                    == orig[base + 2] && data@[base + 3] == orig[base + 3]) by {
                    lemma_pixel_bytes(pw as int, ph as int, px as int, py as int, base);
                    lemma_pixel_bytes(pw as int, ph as int, px as int, py as int, base + 1);
                    lemma_pixel_bytes(pw as int, ph as int, px as int, py as int, base + 2);
                    lemma_pixel_bytes(pw as int, ph as int, px as int, py as int, base + 3);
                }
                let av = a as u32;
                let d0 = data[idx] as u32;
                data[idx] = ((rgb.0 as u32 * av + d0 * (255 - av)) / 255) as u8;
                let d1 = data[idx + 1] as u32;
                data[idx + 1] = ((rgb.1 as u32 * av + d1 * (255 - av)) / 255) as u8;
                let d2 = data[idx + 2] as u32;
                data[idx + 2] = ((rgb.2 as u32 * av + d2 * (255 - av)) / 255) as u8;
                let d3 = data[idx + 3] as u32;
                let alpha = av + d3 * (255 - av) / 255;
                data[idx + 3] = if alpha < 255 {
                    alpha as u8
                } else {
                    255
                };
                proof {
                    assert forall|k: int| 0 <= k < n implies #[trigger] data@[k] == if visited(
                        k,
                        pw as int,
                        cw as int,
                        ch as int,
                        ox as int,
                        oy as int,
                        j as int,
                        i + 1,
                    ) {
                        blitted_byte(orig, pw as int, cov@, cw as int, ch as int, ox as int, oy as int, rgb, k)
                    } else {
                        orig[k]
                    } by {
                        lemma_pixel_bytes(pw as int, ph as int, px as int, py as int, k);
                        lemma_byte_position(k, pw as int, ph as int);
                        if base <= k < base + 4 {
                            assert(pixel_x(k, pw as int) == px && pixel_y(k, pw as int) == py);
                            assert(k % 4 == k - base);
                            assert(coverage_at(
                                cov@,
                                cw as int,
                                ch as int,
                                ox as int,
                                oy as int,
                                px as int,
                                py as int,
                            ) == a);
                        } else {
                            assert(before[k] == data@[k]);
                        }
                    }
                }
            } else {
                proof {
                    assert forall|k: int| 0 <= k < n implies #[trigger] data@[k] == if visited(
                        k,
                        pw as int,
                        cw as int,
                        ch as int,
                        ox as int,
                        oy as int,
                        j as int,
                        i + 1,
                    ) {
                        blitted_byte(orig, pw as int, cov@, cw as int, ch as int, ox as int, oy as int, rgb, k)
                    } else {
                        orig[k]
                    } by {
                        lemma_byte_position(k, pw as int, ph as int);
                        if pixel_x(k, pw as int) - ox == i && pixel_y(k, pw as int) - oy == j {
                            assert(coverage_at(
                                cov@,
                                cw as int,
                                ch as int,
                                ox as int,
                                oy as int,
                                pixel_x(k, pw as int),
                                pixel_y(k, pw as int),
                            ) == a);
                        }
                    }
                }
            }
            i = i + 1;
        }
        j = j + 1;
    }
}

// ---------------------------------------------------------------------------
// Theme colours
// ---------------------------------------------------------------------------

/// `s` without all its leading `#` characters.
pub open spec fn strip_hashes(s: Seq<char>) -> Seq<char>
    decreases s.len(),
{
    if s.len() > 0 && s[0] == '#' {
        strip_hashes(s.drop_first())
    } else {
        s
    }
}

/// The opaque RGBA colour a theme string names: six hex digits after any
/// leading `#`s give red, green and blue; anything else is opaque black.
pub open spec fn spec_theme_rgba(c: Seq<char>) -> (u8, u8, u8, u8) {
    let s = strip_hashes(c);
    let n: nat = match spec_parse_unsigned(s, 16, u32::MAX as nat) {
        Some(v) => v,
        None => 0,
    };
    if s.len() == 6 {
        (((n / 65536) % 256) as u8, ((n / 256) % 256) as u8, (n % 256) as u8, 255)
    } else {
        (0, 0, 0, 255)
    }
}

/// Parse a `#rrggbb` theme colour into opaque RGBA bytes.
pub fn theme_rgba(c: &str) -> (r: (u8, u8, u8, u8))
    ensures
        r == spec_theme_rgba(c@),
{
    let cs = chars_of(c);
    let mut i: usize = 0;
    assert(cs@.subrange(0, cs@.len() as int) =~= c@);
    while i < cs.len() && cs[i] == '#'
        invariant
            cs@ == c@,
            i <= cs.len(),
            strip_hashes(c@) == strip_hashes(cs@.subrange(i as int, cs@.len() as int)),
        decreases cs.len() - i,
    {
        proof {
            let t = cs@.subrange(i as int, cs@.len() as int);
            assert(t.drop_first() =~= cs@.subrange(i + 1, cs@.len() as int));
        }
        i = i + 1;
    }
    let mut s = String::new();
    let mut j = i;
    while j < cs.len()
        invariant
            i <= j <= cs.len(),
            s@ == cs@.subrange(i as int, j as int),
        decreases cs.len() - j,
    {
        crate::text::push_char(&mut s, cs[j]);
        j = j + 1;
        assert(s@ =~= cs@.subrange(i as int, j as int));
    }
    proof {
        let t = cs@.subrange(i as int, cs@.len() as int);
        assert(s@ == t);
        if t.len() > 0 {
            assert(t[0] != '#');
        }
        assert(strip_hashes(t) == t);
    }
    let n: u32 = match parse_unsigned(s.as_str(), 16, u32::MAX as u64) {
        Some(v) => v as u32,
        None => 0,
    };
    if cs.len() - i == 6 {
        proof {
            assert((n >> 16) & 0xff == (n / 65536) % 256) by (bit_vector);
            assert((n >> 8) & 0xff == (n / 256) % 256) by (bit_vector);
            assert(n & 0xff == n % 256) by (bit_vector);
        }
        let r = ((n >> 16) & 0xff) as u8;
        let g = ((n >> 8) & 0xff) as u8;
        let b = (n & 0xff) as u8;
        (r, g, b, 255)
    } else {
        (0, 0, 0, 255)
    }
}

// ---------------------------------------------------------------------------
// Pixel byte order
// ---------------------------------------------------------------------------

/// Byte `i` of a buffer whose complete 4-byte pixels have their first and
/// third bytes swapped (RGBA ↔ BGRA); a trailing partial pixel is unchanged.
pub open spec fn swapped_byte(src: Seq<u8>, i: int) -> u8 {
    let whole = src.len() - src.len() % 4;
    if i < whole && i % 4 == 0 {
        src[i + 2]
    } else if i < whole && i % 4 == 2 {
        src[i - 2]
    } else {
        src[i]
    }
}

/// tiny-skia produces RGBA; an ARGB X visual on little-endian wants B,G,R,A.
pub fn rgba_to_bgra(rgba: &[u8]) -> (out: Vec<u8>)
    ensures
        out@.len() == rgba@.len(),
        forall|i: int| 0 <= i < rgba@.len() ==> out@[i] == #[trigger] swapped_byte(rgba@, i),
{
    let n = rgba.len();
    let whole = n - n % 4;
    let mut out: Vec<u8> = Vec::new();
    let mut i: usize = 0;
    while i < n
        invariant
            n == rgba@.len(),
            whole == n - n % 4,
            i <= n,
            out@.len() == i,
            forall|k: int| 0 <= k < i ==> out@[k] == #[trigger] swapped_byte(rgba@, k),
        decreases n - i,
    {
        let b = if i < whole && i % 4 == 0 {
            rgba[i + 2]
        } else if i < whole && i % 4 == 2 {
            rgba[i - 2]
        } else {
            rgba[i]
        };
        out.push(b);
        i = i + 1;
    }
    out
}

// ---------------------------------------------------------------------------
// Request-sized strips
// ---------------------------------------------------------------------------

/// The largest image payload sent in one X request, in bytes.
pub const MAX_REQUEST_BYTES: usize = 245760;

/// Rows per strip for a frame `w` pixels wide: as many whole rows as fit in a
/// request, but at least one.
pub open spec fn rows_per_strip(w: u16) -> nat {
    let row_bytes = (w as nat) * 4;
    if row_bytes == 0 {
        0
    } else if (MAX_REQUEST_BYTES as nat) / row_bytes >= 1 {
        (MAX_REQUEST_BYTES as nat) / row_bytes
    } else {
        1
    }
}

/// The strips covering rows `y..h`.
pub open spec fn spec_strips_from(rps: nat, h: nat, y: nat) -> Seq<(u16, u16)>
    decreases h - y,
{
    if rps == 0 || y >= h {
        seq![]
    } else {
        let k = if rps < h - y { rps } else { (h - y) as nat };
        seq![(y as u16, k as u16)] + spec_strips_from(rps, h, y + k)
    }
}

proof fn lemma_strips_from_tile(rps: nat, h: nat, y: nat)
    requires
        rps >= 1,
        y <= h,
        h <= u16::MAX,
    ensures
        ({
            let s = spec_strips_from(rps, h, y);
            &&& forall|i: int| 0 <= i < s.len() ==> 1 <= (#[trigger] s[i]).1 <= rps
            &&& y < h ==> s.len() > 0 && s[0].0 == y && s.last().0 + s.last().1 == h
            &&& y == h ==> s.len() == 0
            &&& forall|i: int| 0 <= i < s.len() - 1 ==> (#[trigger] s[i + 1]).0 == s[i].0 + s[i].1
        }),
    decreases h - y,
{
    if y < h {
        let k = if rps < h - y { rps } else { (h - y) as nat };
        lemma_strips_from_tile(rps, h, y + k);
        let rest = spec_strips_from(rps, h, y + k);
        let s = spec_strips_from(rps, h, y);
        assert(s == seq![(y as u16, k as u16)] + rest);
        assert forall|i: int| 0 <= i < s.len() - 1 implies (#[trigger] s[i + 1]).0 == s[i].0 + s[i].1 by {
            if i > 0 {
                let j = i - 1;
                assert(rest[j + 1].0 == rest[j].0 + rest[j].1);
                assert(s[i] == rest[j] && s[i + 1] == rest[j + 1]);
            } else {
                assert(s[0].0 == y && s[0].1 == k);
                assert(s[1] == rest[0]);
            }
        }
        assert forall|i: int| 0 <= i < s.len() implies 1 <= (#[trigger] s[i]).1 <= rps by {
            if i > 0 {
                assert(s[i] == rest[i - 1]);
            }
        }
    }
}

/// The strips tile the frame's rows in order (each begins where the one
/// before ends, the first at row 0, the last ending at row `h`), and no strip
/// carries more bytes than one request may unless a single row already does.
pub proof fn lemma_strips_tile_within_limit(w: u16, h: u16)
    requires
        w > 0,
    ensures
        ({
            let s = spec_strips_from(rows_per_strip(w), h as nat, 0);
            &&& h > 0 ==> s.len() > 0 && s[0].0 == 0 && s.last().0 + s.last().1 == h
            &&& h == 0 ==> s.len() == 0
            &&& forall|i: int| 0 <= i < s.len() - 1 ==> (#[trigger] s[i + 1]).0 == s[i].0 + s[i].1
            &&& forall|i: int|
                0 <= i < s.len() ==> (#[trigger] s[i]).1 >= 1 && ((s[i].1 as int) * (w as int) * 4
                    <= MAX_REQUEST_BYTES || s[i].1 == 1)
        }),
{
    let rb = (w as nat) * 4;
    let rps = rows_per_strip(w);
    lemma_strips_from_tile(rps, h as nat, 0);
    let s = spec_strips_from(rps, h as nat, 0);
    if (MAX_REQUEST_BYTES as nat) / rb >= 1 {
        vstd::arithmetic::div_mod::lemma_fundamental_div_mod(MAX_REQUEST_BYTES as int, rb as int);
        assert forall|i: int| 0 <= i < s.len() implies (#[trigger] s[i]).1 >= 1 && ((s[i].1 as int)
            * (w as int) * 4 <= MAX_REQUEST_BYTES || s[i].1 == 1) by {
            let k = s[i].1 as int;
            assert(k * (w as int) * 4 <= rps * rb) by (nonlinear_arith)
                requires
                    k <= rps,
                    rb == (w as int) * 4,
                    k >= 0,
                    w >= 0,
            ;
            assert(rps * rb <= MAX_REQUEST_BYTES) by (nonlinear_arith)
                requires
                    rps == (MAX_REQUEST_BYTES as int) / (rb as int),
                    MAX_REQUEST_BYTES as int == (rb as int) * ((MAX_REQUEST_BYTES as int) / (rb as int))
                        + (MAX_REQUEST_BYTES as int) % (rb as int),
                    (MAX_REQUEST_BYTES as int) % (rb as int) >= 0,
            ;
        }
    }
}

/// Cut a `w`×`h` frame into horizontal strips so no single image request
/// exceeds the server's request size; an empty-width frame needs none.
pub fn image_strips(w: u16, h: u16) -> (r: Vec<(u16, u16)>)
    ensures
        r@ == spec_strips_from(rows_per_strip(w), h as nat, 0),
{
    let row_bytes = w as usize * 4;
    if row_bytes == 0 {
        return Vec::new();
    }
    let rps = if MAX_REQUEST_BYTES / row_bytes >= 1 {
        MAX_REQUEST_BYTES / row_bytes
    } else {
        1
    };
    let mut strips: Vec<(u16, u16)> = Vec::new();
    let mut y: usize = 0;
    while y < h as usize
        invariant
            rps == rows_per_strip(w),
            rps >= 1,
            y <= h,
            strips@ + spec_strips_from(rps as nat, h as nat, y as nat) == spec_strips_from(
                rps as nat,
                h as nat,
                0,
            ),
        decreases h - y,
    {
        let k = if rps < h as usize - y {
            rps
        } else {
            h as usize - y
        };
        let ghost before = strips@;
        strips.push((y as u16, k as u16));
        proof {
            assert(spec_strips_from(rps as nat, h as nat, y as nat) == seq![(y as u16, k as u16)]
                + spec_strips_from(rps as nat, h as nat, (y + k) as nat));
            assert(strips@ + spec_strips_from(rps as nat, h as nat, (y + k) as nat) =~= before
                + spec_strips_from(rps as nat, h as nat, y as nat));
        }
        y = y + k;
    }
    assert(strips@ =~= strips@ + spec_strips_from(rps as nat, h as nat, y as nat));
    strips
}

// ---------------------------------------------------------------------------
// Display and visual choice
// ---------------------------------------------------------------------------

/// The display number an X socket name (`X<n>` under `/tmp/.X11-unix`) names.
pub open spec fn spec_display_number(name: Seq<char>) -> Option<nat> {
    if name.len() > 0 && name[0] == 'X' {
        spec_parse_unsigned(name.drop_first(), 10, u32::MAX as nat)
    } else {
        None
    }
}

/// The display number of an X socket name such as `X0`, if it is one.
pub fn display_number(name: &str) -> (r: Option<u32>)
    ensures
        match spec_display_number(name@) {
            Some(n) => r == Some(n as u32),
            None => r is None,
        },
{
    let cs = chars_of(name);
    if cs.len() == 0 || cs[0] != 'X' {
        return None;
    }
    let mut rest = String::new();
    let mut j: usize = 1;
    while j < cs.len()
        invariant
            1 <= j <= cs.len(),
            rest@ == cs@.subrange(1, j as int),
        decreases cs.len() - j,
    {
        crate::text::push_char(&mut rest, cs[j]);
        j = j + 1;
        assert(rest@ =~= cs@.subrange(1, j as int));
    }
    assert(rest@ =~= name@.drop_first());
    match parse_unsigned(rest.as_str(), 10, u32::MAX as u64) {
        Some(v) => Some(v as u32),
        None => None,
    }
}

/// True when `v` is strictly ascending.
pub open spec fn strictly_ascending(v: Seq<u32>) -> bool {
    forall|i: int, j: int| 0 <= i < j < v.len() ==> v[i] < v[j]
}

/// The display numbers in ascending order, each once.
pub fn distinct_sorted(v: Vec<u32>) -> (r: Vec<u32>)
    ensures
        strictly_ascending(r@),
        r@.to_set() == v@.to_set(),
{
    let mut r: Vec<u32> = Vec::new();
    let mut i: usize = 0;
    while i < v.len()
        invariant
            i <= v.len(),
            strictly_ascending(r@),
            r@.to_set() == v@.take(i as int).to_set(),
        decreases v.len() - i,
    {
        let x = v[i];
        // find the insertion point
        let mut k: usize = 0;
        while k < r.len() && r[k] < x
            invariant
                k <= r.len(),
                forall|j: int| 0 <= j < k ==> r@[j] < x,
            decreases r.len() - k,
        {
            k = k + 1;
        }
        let ghost old_r = r@;
        if k < r.len() && r[k] == x {
            // already present
        } else {
            r.insert(k, x);
            proof {
                assert(r@ =~= old_r.subrange(0, k as int).push(x) + old_r.subrange(
                    k as int,
                    old_r.len() as int,
                ));
                assert forall|a: int, b: int| 0 <= a < b < r@.len() implies r@[a] < r@[b] by {
                    if a < k && b == k {
                    } else if a == k && b > k {
                        assert(r@[b] == old_r[b - 1]);
                        assert(old_r[k as int] >= x);
                        if b - 1 > k {
                            assert(old_r[k as int] < old_r[b - 1]);
                        }
                    } else if a < k && b > k {
                        assert(r@[b] == old_r[b - 1]);
                    } else if a > k {
                        assert(r@[a] == old_r[a - 1] && r@[b] == old_r[b - 1]);
                    }
                }
            }
        }
        proof {
            assert(v@.take(i + 1) =~= v@.take(i as int).push(x));
            v@.take(i as int).lemma_push_to_set_commute(x);
            assert(r@.to_set() =~= old_r.to_set().insert(x)) by {
                assert forall|y: u32| r@.to_set().contains(y) <==> old_r.to_set().insert(x).contains(y) by {
                    if r@.contains(y) {
                        let j = choose|j: int| 0 <= j < r@.len() && r@[j] == y;
                        if !(k < old_r.len() && old_r[k as int] == x) {
                            if j < k {
                                assert(old_r[j] == y);
                            } else if j > k {
                                assert(old_r[j - 1] == y);
                            }
                        } else {
                            assert(old_r.contains(y));
                        }
                    }
                    if old_r.contains(y) {
                        let j = choose|j: int| 0 <= j < old_r.len() && old_r[j] == y;
                        if !(k < old_r.len() && old_r[k as int] == x) {
                            if j < k {
                                assert(r@[j] == y);
                            } else {
                                assert(r@[j + 1] == y);
                            }
                        } else {
                            assert(r@[j] == y);
                        }
                    }
                    if y == x {
                        if !(k < old_r.len() && old_r[k as int] == x) {
                            assert(r@[k as int] == x);
                        } else {
                            assert(r@[k as int] == x);
                        }
                    }
                }
            }
        }
        i = i + 1;
    }
    assert(v@.take(v.len() as int) =~= v@);
    r
}

/// The X display name of display number `n`: `:n`.
pub open spec fn display_name(n: u32) -> Seq<char> {
    ":"@ + decimal(n as nat)
}

/// The X display name of display number `n`.
pub fn display_name_of(n: u32) -> (s: String)
    ensures
        s@ == display_name(n),
{
    let mut s = String::from_str(":");
    push_decimal(&mut s, n as u64);
    s
}

/// A screen's allowed depth: its bit depth and the ids of its visuals.
pub struct DepthVisuals {
    pub depth: u8,
    pub visuals: Vec<u32>,
}

/// Index of the first depth-32 entry that has a visual, if any.
pub open spec fn first_argb(depths: Seq<DepthVisuals>) -> Option<int> {
    if exists|i: int| 0 <= i < depths.len() && (#[trigger] depths[i]).depth == 32 && depths[i].visuals@.len() > 0 {
        Some(choose|i: int|
            0 <= i < depths.len() && (#[trigger] depths[i]).depth == 32 && depths[i].visuals@.len() > 0
                && forall|j: int|
                0 <= j < i ==> !((#[trigger] depths[j]).depth == 32 && depths[j].visuals@.len() > 0))
    } else {
        None
    }
}

/// A 32-bit TrueColor visual for ARGB composition: the first visual of the
/// first depth-32 entry that has one.
pub fn find_argb_visual(depths: &Vec<DepthVisuals>) -> (r: Option<(u8, u32)>)
    ensures
        match first_argb(depths@) {
            Some(i) => r == Some((32u8, depths@[i].visuals@[0])),
            None => r is None,
        },
{
    let mut i: usize = 0;
    while i < depths.len()
        invariant
            i <= depths.len(),
            forall|j: int| 0 <= j < i ==> !((#[trigger] depths@[j]).depth == 32 && depths@[j].visuals@.len() > 0),
        decreases depths.len() - i,
    {
        if depths[i].depth == 32 && depths[i].visuals.len() > 0 {
            proof {
                let k = i as int;
                let w = choose|w: int|
                    0 <= w < depths@.len() && (#[trigger] depths@[w]).depth == 32 && depths@[w].visuals@.len() > 0
                        && forall|j: int|
                        0 <= j < w ==> !((#[trigger] depths@[j]).depth == 32 && depths@[j].visuals@.len() > 0);
                assert(0 <= k < depths@.len() && depths@[k].depth == 32 && depths@[k].visuals@.len() > 0);
                if w < k {
                    assert(!(depths@[w].depth == 32 && depths@[w].visuals@.len() > 0));
                } else if w > k {
                    assert(!(depths@[k].depth == 32 && depths@[k].visuals@.len() > 0));
                }
            }
            return Some((32, depths[i].visuals[0]));
        }
        i = i + 1;
    }
    None
}

} // verus!
