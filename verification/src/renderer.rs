//! The camera-relative sprite compositor.
//!
//! World coordinates are integers with y growing upward; screen coordinates
//! have their origin at the top-left with y growing downward. A sprite is
//! painted by walking the world coordinates of its visible rectangle,
//! mapping each to a sprite pixel and to a screen pixel relative to the
//! camera anchor, skipping transparent pixels and anything off screen, and
//! optionally darkening a shadow silhouette displaced by a fixed offset.
//!
//! The functions `blit_step`, `blit_row` and `blit_rows` state the painting
//! procedure exactly, pixel write by pixel write, in iteration order; the
//! executable code is proved to produce precisely that frame.

use crate::bitmap::{Bitmap, BitmapView, Pixel};
use crate::render_utils::{bg_view, init_frame_spec, make_init_frame};
use crate::scene::{is_render_list, EntryView};
use crate::scene_manager::SceneManager;
use crate::Resolution;
use vstd::prelude::*;

verus! {

/// The background color a frame is filled with when no background bitmap
/// is available.
pub const DEFAULT_BACKGROUND_COLOR: (u8, u8, u8, u8) = (98, 96, 96, 255);

/// World-space displacement of a sprite's drop shadow: to the right and
/// downward on screen.
pub const OFFSET: (i32, i32) = (10, -10);

/// Opacity of a drop shadow, out of 255: how far a shadowed pixel is
/// darkened toward black.
pub const SHADOW_OPAQUENESS: u8 = 80;

/// An axis-aligned world-space rectangle: `top_left` holds the lesser x
/// and the greater y, `bot_right` the greater x and the lesser y.
pub struct Rectangle {
    pub top_left: (i32, i32),
    pub bot_right: (i32, i32),
}

/// All the inputs of one sprite-painting pass, as abstract values: the
/// sprite, the world rectangle to walk, the sprite anchor, the camera
/// anchor, the frame size, and the shadow flag.
pub struct BlitParams {
    /// The sprite's pixels.
    pub sprite: BitmapView,
    /// Least world x walked (inclusive).
    pub left: int,
    /// Greatest world y walked (exclusive).
    pub top: int,
    /// Greatest world x walked (exclusive).
    pub right: int,
    /// Least world y walked (inclusive).
    pub bottom: int,
    /// World x of the sprite's top-left pixel.
    pub px: int,
    /// World y of the sprite's top-left pixel.
    pub py: int,
    /// World x of the camera anchor.
    pub cx: int,
    /// World y of the camera anchor.
    pub cy: int,
    /// Frame width in pixels.
    pub fw: int,
    /// Frame height in pixels.
    pub fh: int,
    /// Whether a drop shadow is painted under each sprite pixel.
    pub shadow: bool,
}

impl BlitParams {
    /// The sprite is well formed and the frame size is meaningful.
    pub open spec fn wf(self) -> bool {
        &&& self.sprite.wf()
        &&& 0 <= self.fw
        &&& 0 <= self.fh
    }
}

/// Saturating subtraction on one color channel.
pub open spec fn sat_sub(a: u8, b: u8) -> u8 {
    if a >= b {
        (a - b) as u8
    } else {
        0u8
    }
}

/// One channel darkened by the fixed shadow opacity: a linear blend toward
/// black with truncating integer division.
pub open spec fn shade_channel(v: u8) -> u8 {
    ((v as int) * (255 - SHADOW_OPAQUENESS as int) / 255) as u8
}

/// A whole pixel darkened by the shadow blend; alpha is left fully opaque.
pub open spec fn shade_pixel(p: Pixel) -> Pixel {
    (shade_channel(p.0), shade_channel(p.1), shade_channel(p.2), 255u8)
}

/// How one source pixel lands on one destination pixel: a pure-black
/// source with partial alpha darkens the destination by subtracting its
/// alpha from each channel (a pre-multiplied shadow-silhouette encoding
/// baked into certain sprites); any other source overwrites outright.
pub open spec fn write_color(dst: Pixel, src: Pixel) -> Pixel {
    if src.0 == 0 && src.1 == 0 && src.2 == 0 && src.3 != 255 {
        (sat_sub(dst.0, src.3), sat_sub(dst.1, src.3), sat_sub(dst.2, src.3), src.3)
    } else {
        src
    }
}

/// Whether world coordinate `(wx, wy)` maps into the sprite's pixel grid.
pub open spec fn covered(p: BlitParams, wx: int, wy: int) -> bool {
    &&& wx >= p.px
    &&& wy <= p.py
    &&& wx - p.px < p.sprite.width
    &&& p.py - wy < p.sprite.height
}

/// The sprite pixel that world coordinate `(wx, wy)` maps to.
pub open spec fn src_pixel(p: BlitParams, wx: int, wy: int) -> Pixel {
    p.sprite.pixel_at(wx - p.px, p.py - wy)
}

/// Whether screen coordinate `(sx, sy)` lies on the frame.
pub open spec fn on_screen(p: BlitParams, sx: int, sy: int) -> bool {
    0 <= sx < p.fw && 0 <= sy < p.fh
}

/// The row-major frame index of screen coordinate `(sx, sy)`.
pub open spec fn screen_index(p: BlitParams, sx: int, sy: int) -> int {
    sy * p.fw + sx
}

/// The color write of one covered, non-transparent world coordinate:
/// projected relative to the camera anchor and clipped hard to the frame.
pub open spec fn color_write_step(p: BlitParams, f: Seq<Pixel>, wx: int, wy: int) -> Seq<Pixel> {
    let sx = wx - p.cx;
    let sy = p.cy - wy;
    if on_screen(p, sx, sy) {
        let idx = screen_index(p, sx, sy);
        f.update(idx, write_color(f[idx], src_pixel(p, wx, wy)))
    } else {
        f
    }
}

/// The full effect of visiting one world coordinate: nothing for uncovered
/// or fully transparent pixels; with the shadow flag set, first the shadow
/// blend at the displaced screen coordinate — a pixel whose shadow falls
/// off screen is skipped entirely — then the color write.
pub open spec fn blit_step(p: BlitParams, f: Seq<Pixel>, wx: int, wy: int) -> Seq<Pixel> {
    if !covered(p, wx, wy) || src_pixel(p, wx, wy).3 == 0 {
        f
    } else if p.shadow {
        let sxs = wx + OFFSET.0 - p.cx;
        let sys = p.cy - wy + OFFSET.1;
        if !on_screen(p, sxs, sys) {
            f
        } else {
            let idx = screen_index(p, sxs, sys);
            color_write_step(p, f.update(idx, shade_pixel(f[idx])), wx, wy)
        }
    } else {
        color_write_step(p, f, wx, wy)
    }
}

/// How many world columns one row walks.
pub open spec fn row_width(p: BlitParams) -> nat {
    if p.right >= p.left {
        (p.right - p.left) as nat
    } else {
        0
    }
}

/// How many world rows the pass walks.
pub open spec fn col_height(p: BlitParams) -> nat {
    if p.top >= p.bottom {
        (p.top - p.bottom) as nat
    } else {
        0
    }
}

/// The frame after the first `n` world columns of row `wy`, walked left to
/// right from `p.left`.
pub open spec fn blit_row(p: BlitParams, f: Seq<Pixel>, wy: int, n: nat) -> Seq<Pixel>
    decreases n,
{
    if n == 0 {
        f
    } else {
        blit_step(p, blit_row(p, f, wy, (n - 1) as nat), p.left + n - 1, wy)
    }
}

/// The frame after the first `k` world rows, walked bottom to top from
/// `p.bottom`, each row in full.
pub open spec fn blit_rows(p: BlitParams, f: Seq<Pixel>, k: nat) -> Seq<Pixel>
    decreases k,
{
    if k == 0 {
        f
    } else {
        blit_row(p, blit_rows(p, f, (k - 1) as nat), p.bottom + k - 1, row_width(p))
    }
}

/// The frame after one whole sprite-painting pass.
pub open spec fn blit_spec(p: BlitParams, f: Seq<Pixel>) -> Seq<Pixel> {
    blit_rows(p, f, col_height(p))
}

/// Greatest magnitude of a world coordinate the painting pass accepts;
/// roomy enough for any 32-bit position displaced by any 32-bit offset.
pub const COORD_BOUND: i64 = 0x100_0000_0000;

/// Bundles painting-pass inputs into their abstract value.
pub open spec fn params_from(
    sprite: BitmapView,
    left: int,
    top: int,
    right: int,
    bottom: int,
    px: int,
    py: int,
    cx: int,
    cy: int,
    fw: int,
    fh: int,
    shadow: bool,
) -> BlitParams {
    BlitParams { sprite, left, top, right, bottom, px, py, cx, cy, fw, fh, shadow }
}

/// One blit step never changes the frame's length.
pub proof fn lemma_blit_step_len(p: BlitParams, f: Seq<Pixel>, wx: int, wy: int)
    requires
        p.wf(),
        f.len() == p.fw * p.fh,
    ensures
        blit_step(p, f, wx, wy).len() == f.len(),
{
    assert forall|sx: int, sy: int| on_screen(p, sx, sy) implies 0 <= screen_index(p, sx, sy)
        < p.fw * p.fh by {
        assert(sy * p.fw + sx < p.fw * p.fh && 0 <= sy * p.fw + sx) by (nonlinear_arith)
            requires
                0 <= sx < p.fw,
                0 <= sy < p.fh,
        ;
    }
}

/// A row of blit steps never changes the frame's length.
pub proof fn lemma_blit_row_len(p: BlitParams, f: Seq<Pixel>, wy: int, n: nat)
    requires
        p.wf(),
        f.len() == p.fw * p.fh,
    ensures
        blit_row(p, f, wy, n).len() == f.len(),
    decreases n,
{
    if n > 0 {
        lemma_blit_row_len(p, f, wy, (n - 1) as nat);
        lemma_blit_step_len(p, blit_row(p, f, wy, (n - 1) as nat), p.left + n - 1, wy);
    }
}

/// A whole pass never changes the frame's length.
pub proof fn lemma_blit_rows_len(p: BlitParams, f: Seq<Pixel>, k: nat)
    requires
        p.wf(),
        f.len() == p.fw * p.fh,
    ensures
        blit_rows(p, f, k).len() == f.len(),
    decreases k,
{
    if k > 0 {
        lemma_blit_rows_len(p, f, (k - 1) as nat);
        lemma_blit_row_len(p, blit_rows(p, f, (k - 1) as nat), p.bottom + k - 1, row_width(p));
    }
}

/// The world x that projects to frame column `idx % fw`.
pub open spec fn preimage_wx(p: BlitParams, idx: int) -> int {
    p.cx + idx % p.fw
}

/// The world y that projects to frame row `idx / fw`.
pub open spec fn preimage_wy(p: BlitParams, idx: int) -> int {
    p.cy - idx / p.fw
}

/// What one whole shadowless pass leaves at frame index `idx`: the
/// projection is a bijection between world and screen coordinates, so
/// each frame pixel is written at most once, by its unique preimage.
pub open spec fn pixel_result(p: BlitParams, old_pixel: Pixel, idx: int) -> Pixel {
    let wx = preimage_wx(p, idx);
    let wy = preimage_wy(p, idx);
    if p.left <= wx < p.right && p.bottom <= wy < p.top && covered(p, wx, wy) && src_pixel(
        p,
        wx,
        wy,
    ).3 != 0 {
        write_color(old_pixel, src_pixel(p, wx, wy))
    } else {
        old_pixel
    }
}

/// What the first `n` columns of row `wy` leave at frame index `idx`.
spec fn row_result(p: BlitParams, old_pixel: Pixel, idx: int, wy: int, n: nat) -> Pixel {
    let wx = preimage_wx(p, idx);
    if preimage_wy(p, idx) == wy && p.left <= wx < p.left + n && covered(p, wx, wy) && src_pixel(
        p,
        wx,
        wy,
    ).3 != 0 {
        write_color(old_pixel, src_pixel(p, wx, wy))
    } else {
        old_pixel
    }
}

/// What the first `k` rows leave at frame index `idx`.
spec fn rows_result(p: BlitParams, old_pixel: Pixel, idx: int, k: nat) -> Pixel {
    let wx = preimage_wx(p, idx);
    let wy = preimage_wy(p, idx);
    if p.bottom <= wy < p.bottom + k && p.left <= wx < p.right && covered(p, wx, wy) && src_pixel(
        p,
        wx,
        wy,
    ).3 != 0 {
        write_color(old_pixel, src_pixel(p, wx, wy))
    } else {
        old_pixel
    }
}

/// A frame index under `fw * fh` decomposes into a row under `fh` and a
/// column under `fw`.
proof fn lemma_index_decomp(fw: int, fh: int, idx: int)
    requires
        0 < fw,
        0 <= fh,
        0 <= idx < fw * fh,
    ensures
        0 <= idx % fw < fw,
        0 <= idx / fw < fh,
        idx == (idx / fw) * fw + (idx % fw),
{
    vstd::arithmetic::div_mod::lemma_fundamental_div_mod(idx, fw);
    vstd::arithmetic::div_mod::lemma_mod_bound(idx, fw);
    vstd::arithmetic::div_mod::lemma_div_pos_is_pos(idx, fw);
    assert(idx == (idx / fw) * fw + (idx % fw)) by (nonlinear_arith)
        requires
            idx == fw * (idx / fw) + (idx % fw),
    ;
    if idx / fw >= fh {
        assert(false) by (nonlinear_arith)
            requires
                idx / fw >= fh,
                fw > 0,
                fh >= 0,
                idx < fw * fh,
                idx == fw * (idx / fw) + (idx % fw),
                idx % fw >= 0,
        ;
    }
}

/// Row and column recover themselves from a composed frame index.
proof fn lemma_index_compose(fw: int, sx: int, sy: int)
    requires
        0 <= sx < fw,
    ensures
        (sy * fw + sx) / fw == sy,
        (sy * fw + sx) % fw == sx,
{
    vstd::arithmetic::div_mod::lemma_fundamental_div_mod_converse(sy * fw + sx, fw, sy, sx);
}

/// Pointwise description of one row of a shadowless pass.
proof fn lemma_row_pointwise(p: BlitParams, f: Seq<Pixel>, wy: int, n: nat)
    requires
        p.wf(),
        !p.shadow,
        p.fw > 0,
        f.len() == p.fw * p.fh,
    ensures
        blit_row(p, f, wy, n).len() == f.len(),
        forall|idx: int|
            0 <= idx < f.len() ==> blit_row(p, f, wy, n)[idx] == row_result(
                p,
                f[idx],
                idx,
                wy,
                n,
            ),
    decreases n,
{
    lemma_blit_row_len(p, f, wy, n);
    if n > 0 {
        lemma_row_pointwise(p, f, wy, (n - 1) as nat);
        let g = blit_row(p, f, wy, (n - 1) as nat);
        let result = blit_row(p, f, wy, n);
        let wxn = p.left + n - 1;
        assert(result == blit_step(p, g, wxn, wy));
        assert forall|idx: int| 0 <= idx < f.len() implies result[idx] == row_result(
            p,
            f[idx],
            idx,
            wy,
            n,
        ) by {
            lemma_index_decomp(p.fw, p.fh, idx);
            let sx = idx % p.fw;
            let sy = idx / p.fw;
            if covered(p, wxn, wy) && src_pixel(p, wxn, wy).3 != 0 {
                let sxw = wxn - p.cx;
                let syw = p.cy - wy;
                if on_screen(p, sxw, syw) {
                    let idx0 = screen_index(p, sxw, syw);
                    lemma_index_compose(p.fw, sxw, syw);
                    assert(0 <= idx0 < p.fw * p.fh) by (nonlinear_arith)
                        requires
                            0 <= sxw < p.fw,
                            0 <= syw < p.fh,
                            idx0 == syw * p.fw + sxw,
                    ;
                    if idx == idx0 {
                        assert(preimage_wx(p, idx) == wxn);
                        assert(preimage_wy(p, idx) == wy);
                        assert(!(p.left <= wxn < p.left + n - 1));
                        assert(g[idx] == f[idx]);
                        assert(result[idx] == write_color(g[idx], src_pixel(p, wxn, wy)));
                    } else {
                        assert(result[idx] == g[idx]);
                        if preimage_wy(p, idx) == wy && preimage_wx(p, idx) == wxn {
                            assert(sx == sxw && sy == syw);
                            assert(idx == sy * p.fw + sx);
                            assert(false);
                        }
                    }
                } else {
                    assert(result[idx] == g[idx]);
                    if preimage_wy(p, idx) == wy && preimage_wx(p, idx) == wxn {
                        assert(sx == sxw && sy == syw);
                        assert(on_screen(p, sxw, syw));
                        assert(false);
                    }
                }
            } else {
                assert(result[idx] == g[idx]);
            }
        }
    }
}

/// Pointwise description of the first `k` rows of a shadowless pass.
proof fn lemma_rows_pointwise(p: BlitParams, f: Seq<Pixel>, k: nat)
    requires
        p.wf(),
        !p.shadow,
        p.fw > 0,
        f.len() == p.fw * p.fh,
    ensures
        blit_rows(p, f, k).len() == f.len(),
        forall|idx: int|
            0 <= idx < f.len() ==> blit_rows(p, f, k)[idx] == rows_result(p, f[idx], idx, k),
    decreases k,
{
    lemma_blit_rows_len(p, f, k);
    if k > 0 {
        lemma_rows_pointwise(p, f, (k - 1) as nat);
        let g = blit_rows(p, f, (k - 1) as nat);
        let result = blit_rows(p, f, k);
        let wyk = p.bottom + k - 1;
        lemma_row_pointwise(p, g, wyk, row_width(p));
        assert(result == blit_row(p, g, wyk, row_width(p)));
        assert forall|idx: int| 0 <= idx < f.len() implies result[idx] == rows_result(
            p,
            f[idx],
            idx,
            k,
        ) by {
            lemma_index_decomp(p.fw, p.fh, idx);
            assert(result[idx] == row_result(p, g[idx], idx, wyk, row_width(p)));
            if preimage_wy(p, idx) == wyk {
                assert(g[idx] == f[idx]);
                assert(p.left + row_width(p) == if p.right >= p.left {
                    p.right
                } else {
                    p.left
                });
            } else {
                assert(result[idx] == g[idx]);
            }
        }
    }
}

/// Pointwise theorem for shadowless sprite painting: every frame pixel of
/// the pass's result is exactly the color-write rule applied at that
/// pixel's unique world preimage — or the untouched old pixel where the
/// preimage is outside the walked rectangle, outside the sprite, or fully
/// transparent.
pub proof fn lemma_blit_pointwise(p: BlitParams, f: Seq<Pixel>)
    requires
        p.wf(),
        !p.shadow,
        p.fw > 0,
        f.len() == p.fw * p.fh,
    ensures
        blit_spec(p, f).len() == f.len(),
        forall|idx: int|
            0 <= idx < f.len() ==> blit_spec(p, f)[idx] == pixel_result(p, f[idx], idx),
{
    lemma_rows_pointwise(p, f, col_height(p));
    assert forall|idx: int| 0 <= idx < f.len() implies blit_spec(p, f)[idx] == pixel_result(
        p,
        f[idx],
        idx,
    ) by {
        assert(p.bottom + col_height(p) == if p.top >= p.bottom {
            p.top
        } else {
            p.bottom
        });
    }
}

/// Whether the sprite of entry `e` paints frame index `idx`: the index's
/// unique world preimage lies in the entry's walked rectangle, maps into
/// the sprite, and meets a pixel that is not fully transparent.
pub open spec fn entry_covers(e: EntryView, cx: int, cy: int, fw: int, fh: int, idx: int) -> bool {
    let p = entry_params(e, cx, cy, fw, fh);
    let wx = preimage_wx(p, idx);
    let wy = preimage_wy(p, idx);
    &&& p.left <= wx < p.right
    &&& p.bottom <= wy < p.top
    &&& covered(p, wx, wy)
    &&& src_pixel(p, wx, wy).3 != 0
}

/// The sprite pixel with which entry `e` paints frame index `idx`.
pub open spec fn entry_src(e: EntryView, cx: int, cy: int, fw: int, fh: int, idx: int) -> Pixel {
    let p = entry_params(e, cx, cy, fw, fh);
    src_pixel(p, preimage_wx(p, idx), preimage_wy(p, idx))
}

/// Compositing entries never changes the frame's length.
pub proof fn lemma_composite_len(
    f0: Seq<Pixel>,
    entries: Seq<EntryView>,
    cx: int,
    cy: int,
    fw: int,
    fh: int,
    n: nat,
)
    requires
        0 <= fw,
        0 <= fh,
        f0.len() == fw * fh,
        forall|j: int| 0 <= j < entries.len() ==> (#[trigger] entries[j]).image.wf(),
        n <= entries.len(),
    ensures
        composite_upto(f0, entries, cx, cy, fw, fh, n).len() == f0.len(),
    decreases n,
{
    if n > 0 {
        lemma_composite_len(f0, entries, cx, cy, fw, fh, (n - 1) as nat);
        let p = entry_params(entries[n - 1], cx, cy, fw, fh);
        lemma_blit_rows_len(
            p,
            composite_upto(f0, entries, cx, cy, fw, fh, (n - 1) as nat),
            col_height(p),
        );
    }
}

/// A frame pixel that no entry of a suffix paints keeps its value across
/// that suffix of shadowless painting passes.
proof fn lemma_composite_untouched(
    f0: Seq<Pixel>,
    entries: Seq<EntryView>,
    cx: int,
    cy: int,
    fw: int,
    fh: int,
    k: int,
    idx: int,
    n: int,
)
    requires
        0 < fw,
        0 <= fh,
        f0.len() == fw * fh,
        0 <= idx < f0.len(),
        forall|j: int| 0 <= j < entries.len() ==> !(#[trigger] entries[j]).has_shadow,
        forall|j: int| 0 <= j < entries.len() ==> (#[trigger] entries[j]).image.wf(),
        0 <= k,
        k <= n <= entries.len(),
        forall|j: int| k <= j < entries.len() ==> !entry_covers(#[trigger] entries[j], cx, cy, fw, fh, idx),
    ensures
        composite_upto(f0, entries, cx, cy, fw, fh, n as nat)[idx] == composite_upto(
            f0,
            entries,
            cx,
            cy,
            fw,
            fh,
            k as nat,
        )[idx],
    decreases n - k,
{
    if n > k {
        lemma_composite_untouched(f0, entries, cx, cy, fw, fh, k, idx, n - 1);
        let g = composite_upto(f0, entries, cx, cy, fw, fh, (n - 1) as nat);
        lemma_composite_len(f0, entries, cx, cy, fw, fh, (n - 1) as nat);
        let p = entry_params(entries[n - 1], cx, cy, fw, fh);
        lemma_blit_pointwise(p, g);
        assert(composite_upto(f0, entries, cx, cy, fw, fh, n as nat)[idx] == pixel_result(
            p,
            g[idx],
            idx,
        ));
    }
}

/// Depth order law: entries are painted in list order, so at a frame
/// pixel the last entry that paints it wins. With the renderable list in
/// ascending depth order and without shadows, the entry winning at a
/// pixel is the one with the greatest `z` among those covering it — and
/// the main object’s entries, appended after the sorted list, always win
/// regardless of their own `z`. The winning pixel lands through the
/// color-write rule; in particular an ordinary (not pure-black
/// partial-alpha) sprite pixel lands unchanged.
pub proof fn lemma_depth_order(
    f0: Seq<Pixel>,
    entries: Seq<EntryView>,
    cx: int,
    cy: int,
    fw: int,
    fh: int,
    k: int,
    idx: int,
)
    requires
        0 < fw,
        0 <= fh,
        f0.len() == fw * fh,
        0 <= idx < f0.len(),
        forall|j: int| 0 <= j < entries.len() ==> !(#[trigger] entries[j]).has_shadow,
        forall|j: int| 0 <= j < entries.len() ==> (#[trigger] entries[j]).image.wf(),
        0 <= k < entries.len(),
        entry_covers(entries[k], cx, cy, fw, fh, idx),
        forall|j: int| k < j < entries.len() ==> !entry_covers(#[trigger] entries[j], cx, cy, fw, fh, idx),
    ensures
        composite_spec(f0, entries, cx, cy, fw, fh)[idx] == write_color(
            composite_upto(f0, entries, cx, cy, fw, fh, k as nat)[idx],
            entry_src(entries[k], cx, cy, fw, fh, idx),
        ),
        ({
            let src = entry_src(entries[k], cx, cy, fw, fh, idx);
            !(src.0 == 0 && src.1 == 0 && src.2 == 0 && src.3 != 255) ==> composite_spec(
                f0,
                entries,
                cx,
                cy,
                fw,
                fh,
            )[idx] == src
        }),
{
    let g = composite_upto(f0, entries, cx, cy, fw, fh, k as nat);
    lemma_composite_len(f0, entries, cx, cy, fw, fh, k as nat);
    let p = entry_params(entries[k], cx, cy, fw, fh);
    lemma_blit_pointwise(p, g);
    assert(composite_upto(f0, entries, cx, cy, fw, fh, (k + 1) as nat)[idx] == pixel_result(
        p,
        g[idx],
        idx,
    ));
    lemma_composite_len(f0, entries, cx, cy, fw, fh, (k + 1) as nat);
    assert forall|j: int| k + 1 <= j < entries.len() implies !entry_covers(
        #[trigger] entries[j],
        cx,
        cy,
        fw,
        fh,
        idx,
    ) by {}
    lemma_composite_untouched(
        f0,
        entries.subrange(0, entries.len() as int),
        cx,
        cy,
        fw,
        fh,
        k + 1,
        idx,
        entries.len() as int,
    );
    assert(entries.subrange(0, entries.len() as int) =~= entries);
}

/// Depth order law in its depth form: with the renderable list in
/// ascending z order and shadows off, a pixel covered by several entries
/// shows the paint of the covering entry with the strictly greatest z
/// (the nearest object). The main object's entries stand after the sorted
/// list, so `lemma_depth_order` applies to them directly: they win
/// whatever their z.
pub proof fn lemma_depth_order_sorted(
    f0: Seq<Pixel>,
    entries: Seq<EntryView>,
    cx: int,
    cy: int,
    fw: int,
    fh: int,
    k: int,
    idx: int,
)
    requires
        0 < fw,
        0 <= fh,
        f0.len() == fw * fh,
        0 <= idx < f0.len(),
        forall|j: int| 0 <= j < entries.len() ==> !(#[trigger] entries[j]).has_shadow,
        forall|j: int| 0 <= j < entries.len() ==> (#[trigger] entries[j]).image.wf(),
        crate::scene::sorted_by_z(entries),
        0 <= k < entries.len(),
        entry_covers(entries[k], cx, cy, fw, fh, idx),
        forall|j: int|
            0 <= j < entries.len() && j != k && entry_covers(#[trigger] entries[j], cx, cy, fw, fh, idx)
                ==> entries[j].position.z < entries[k].position.z,
    ensures
        composite_spec(f0, entries, cx, cy, fw, fh)[idx] == write_color(
            composite_upto(f0, entries, cx, cy, fw, fh, k as nat)[idx],
            entry_src(entries[k], cx, cy, fw, fh, idx),
        ),
{
    assert forall|j: int| k < j < entries.len() implies !entry_covers(
        #[trigger] entries[j],
        cx,
        cy,
        fw,
        fh,
        idx,
    ) by {
        if entry_covers(entries[j], cx, cy, fw, fh, idx) {
            assert(entries[k].position.z <= entries[j].position.z);
            assert(entries[j].position.z < entries[k].position.z);
        }
    }
    lemma_depth_order(f0, entries, cx, cy, fw, fh, k, idx);
}

/// Transparency law: a fully transparent sprite pixel never alters the
/// destination, whatever the destination holds. At any frame index whose
/// world preimage meets a sprite pixel with alpha 0 — or no sprite pixel
/// at all — a shadowless pass leaves the old frame pixel untouched.
pub proof fn lemma_transparency_skip(p: BlitParams, f: Seq<Pixel>, idx: int)
    requires
        p.wf(),
        !p.shadow,
        0 < p.fw,
        f.len() == p.fw * p.fh,
        0 <= idx < f.len(),
        covered(p, preimage_wx(p, idx), preimage_wy(p, idx)) ==> src_pixel(
            p,
            preimage_wx(p, idx),
            preimage_wy(p, idx),
        ).3 == 0,
    ensures
        blit_spec(p, f)[idx] == f[idx],
{
    lemma_blit_pointwise(p, f);
}

/// A sprite all of whose pixels are fully transparent alters nothing at
/// all, shadow pass included.
pub proof fn lemma_transparent_sprite_identity(p: BlitParams, f: Seq<Pixel>)
    requires
        forall|x: int, y: int|
            0 <= x < p.sprite.width && 0 <= y < p.sprite.height ==> (#[trigger] p.sprite.pixel_at(
                x,
                y,
            )).3 == 0,
    ensures
        blit_spec(p, f) == f,
{
    lemma_transparent_rows(p, f, col_height(p));
}

proof fn lemma_transparent_rows(p: BlitParams, f: Seq<Pixel>, k: nat)
    requires
        forall|x: int, y: int|
            0 <= x < p.sprite.width && 0 <= y < p.sprite.height ==> (#[trigger] p.sprite.pixel_at(
                x,
                y,
            )).3 == 0,
    ensures
        blit_rows(p, f, k) == f,
    decreases k,
{
    if k > 0 {
        lemma_transparent_rows(p, f, (k - 1) as nat);
        lemma_transparent_row(p, f, p.bottom + k - 1, row_width(p));
    }
}

proof fn lemma_transparent_row(p: BlitParams, f: Seq<Pixel>, wy: int, n: nat)
    requires
        forall|x: int, y: int|
            0 <= x < p.sprite.width && 0 <= y < p.sprite.height ==> (#[trigger] p.sprite.pixel_at(
                x,
                y,
            )).3 == 0,
    ensures
        blit_row(p, f, wy, n) == f,
    decreases n,
{
    if n > 0 {
        lemma_transparent_row(p, f, wy, (n - 1) as nat);
        let wx = p.left + n - 1;
        if covered(p, wx, wy) {
            assert(src_pixel(p, wx, wy).3 == 0);
        }
    }
}

/// Clipping law: a sprite whose world rectangle extends beyond the
/// camera-relative screen bounds paints only the in-bounds portion. The
/// frame’s length never changes — no out-of-range index is ever
/// produced — and, without shadows, every frame pixel whose world
/// preimage lies outside the walked world rectangle is left unchanged.
pub proof fn lemma_clipping(p: BlitParams, f: Seq<Pixel>, idx: int)
    requires
        p.wf(),
        !p.shadow,
        0 < p.fw,
        f.len() == p.fw * p.fh,
        0 <= idx < f.len(),
        !(p.left <= preimage_wx(p, idx) < p.right) || !(p.bottom <= preimage_wy(p, idx) < p.top),
    ensures
        blit_spec(p, f).len() == f.len(),
        blit_spec(p, f)[idx] == f[idx],
{
    lemma_blit_pointwise(p, f);
}

/// The shadow blend on one pixel: each color channel is darkened toward
/// black by the fixed shadow opacity, with truncating integer division;
/// alpha comes out fully opaque. Bit-for-bit reproducible.
pub fn shadow_blend(v: Pixel) -> (r: Pixel)
    ensures
        r == shade_pixel(v),
{
    let keep: u32 = 255 - (SHADOW_OPAQUENESS as u32);
    assert(keep == 175);
    let r0 = ((v.0 as u32) * keep / 255) as u8;
    let r1 = ((v.1 as u32) * keep / 255) as u8;
    let r2 = ((v.2 as u32) * keep / 255) as u8;
    (r0, r1, r2, 255)
}

/// The color-write rule on one pixel, executably.
fn write_color_exec(dst: Pixel, src: Pixel) -> (r: Pixel)
    ensures
        r == write_color(dst, src),
{
    if src.0 == 0 && src.1 == 0 && src.2 == 0 && src.3 != 255 {
        let r0 = if dst.0 >= src.3 {
            dst.0 - src.3
        } else {
            0
        };
        let r1 = if dst.1 >= src.3 {
            dst.1 - src.3
        } else {
            0
        };
        let r2 = if dst.2 >= src.3 {
            dst.2 - src.3
        } else {
            0
        };
        (r0, r1, r2, src.3)
    } else {
        src
    }
}

/// Paints one sprite into the frame: walks the world rectangle bottom to
/// top and left to right and performs, for each world coordinate, exactly
/// the writes that `blit_step` states.
#[verifier::loop_isolation(false)]
fn blit_core(
    frame: &mut Vec<Pixel>,
    sprite: &Bitmap,
    left: i64,
    top: i64,
    right: i64,
    bottom: i64,
    px: i64,
    py: i64,
    cx: i64,
    cy: i64,
    fw: i64,
    fh: i64,
    has_shadow: bool,
)
    requires
        old(frame)@.len() == fw * fh,
        0 <= fw <= i32::MAX,
        0 <= fh <= i32::MAX,
        -COORD_BOUND <= left <= COORD_BOUND,
        -COORD_BOUND <= top <= COORD_BOUND,
        -COORD_BOUND <= right <= COORD_BOUND,
        -COORD_BOUND <= bottom <= COORD_BOUND,
        -COORD_BOUND <= px <= COORD_BOUND,
        -COORD_BOUND <= py <= COORD_BOUND,
        -COORD_BOUND <= cx <= COORD_BOUND,
        -COORD_BOUND <= cy <= COORD_BOUND,
    ensures
        final(frame)@ == blit_spec(
            params_from(
                sprite@,
                left as int,
                top as int,
                right as int,
                bottom as int,
                px as int,
                py as int,
                cx as int,
                cy as int,
                fw as int,
                fh as int,
                has_shadow,
            ),
            old(frame)@,
        ),
        final(frame)@.len() == old(frame)@.len(),
{
    let ghost p = params_from(
        sprite@,
        left as int,
        top as int,
        right as int,
        bottom as int,
        px as int,
        py as int,
        cx as int,
        cy as int,
        fw as int,
        fh as int,
        has_shadow,
    );
    let ghost f0 = frame@;
    let mut wy: i64 = bottom;
    while wy < top
        invariant
            bottom <= wy,
            bottom <= top ==> wy <= top,
            bottom > top ==> wy == bottom,
            frame@ == blit_rows(p, f0, (wy - bottom) as nat),
            frame@.len() == f0.len(),
        decreases top - wy,
    {
        let ghost base = frame@;
        let mut wx: i64 = left;
        while wx < right
            invariant
                left <= wx,
                left <= right ==> wx <= right,
                left > right ==> wx == left,
                bottom <= wy < top,
                frame@ == blit_row(p, base, wy as int, (wx - left) as nat),
                frame@.len() == f0.len(),
            decreases right - wx,
        {
            let ghost prev = frame@;
            if wx >= px && wy <= py {
                let sprite_x: i64 = wx - px;
                let sprite_y: i64 = py - wy;
                if sprite_x < sprite.width() as i64 && sprite_y < sprite.height() as i64 {
                    let src = sprite.get_pixel(sprite_x as u32, sprite_y as u32);
                    if src.3 != 0 {
                        let mut skip = false;
                        if has_shadow {
                            let sxs: i64 = wx + (OFFSET.0 as i64) - cx;
                            let sys: i64 = cy - wy + (OFFSET.1 as i64);
                            if sxs >= 0 && sys >= 0 && sxs < fw && sys < fh {
                                proof {
                                    assert(0 <= sys * fw && 0 <= sys * fw + sxs && sys * fw + sxs
                                        < fw * fh && fw * fh < 0x8000_0000_0000_0000)
                                        by (nonlinear_arith)
                                        requires
                                            0 <= sxs < fw,
                                            0 <= sys < fh,
                                            fw <= 0x8000_0000,
                                            fh <= 0x8000_0000,
                                    ;
                                }
                                let _flen: usize = frame.len();
                                let idx: usize = (sys * fw + sxs) as usize;
                                let existing = frame[idx];
                                let blended = shadow_blend(existing);
                                frame[idx] = blended;
                            } else {
                                skip = true;
                            }
                        }
                        if !skip {
                            let sx: i64 = wx - cx;
                            let sy: i64 = cy - wy;
                            if sx >= 0 && sy >= 0 && sx < fw && sy < fh {
                                proof {
                                    assert(0 <= sy * fw && 0 <= sy * fw + sx && sy * fw + sx
                                        < fw * fh && fw * fh < 0x8000_0000_0000_0000)
                                        by (nonlinear_arith)
                                        requires
                                            0 <= sx < fw,
                                            0 <= sy < fh,
                                            fw <= 0x8000_0000,
                                            fh <= 0x8000_0000,
                                    ;
                                }
                                let _flen: usize = frame.len();
                                let idx: usize = (sy * fw + sx) as usize;
                                let dst = frame[idx];
                                let written = write_color_exec(dst, src);
                                frame[idx] = written;
                            }
                        }
                    }
                }
            }
            assert(frame@ == blit_step(p, prev, wx as int, wy as int));
            wx = wx + 1;
        }
        proof {
            if left > right {
                assert(blit_row(p, base, wy as int, row_width(p)) == base);
            }
            assert(frame@ == blit_rows(p, f0, (wy + 1 - bottom) as nat));
        }
        wy = wy + 1;
    }
}

/// The abstract painting-pass inputs of one renderable entry: the sprite
/// anchored at its world position displaced by its draw offset, walking
/// exactly the sprite's world rectangle.
pub open spec fn entry_params(e: EntryView, cx: int, cy: int, fw: int, fh: int) -> BlitParams {
    let wx = e.position.x + e.offset.0;
    let wy = e.position.y + e.offset.1;
    BlitParams {
        sprite: e.image,
        left: wx,
        top: wy,
        right: wx + e.image.width,
        bottom: wy - e.image.height,
        px: wx,
        py: wy,
        cx,
        cy,
        fw,
        fh,
        shadow: e.has_shadow,
    }
}

/// The frame after the first `n` entries have been painted, in order.
pub open spec fn composite_upto(
    f0: Seq<Pixel>,
    entries: Seq<EntryView>,
    cx: int,
    cy: int,
    fw: int,
    fh: int,
    n: nat,
) -> Seq<Pixel>
    decreases n,
{
    if n == 0 {
        f0
    } else {
        blit_spec(
            entry_params(entries[n - 1], cx, cy, fw, fh),
            composite_upto(f0, entries, cx, cy, fw, fh, (n - 1) as nat),
        )
    }
}

/// The frame after every entry has been painted, back to front.
pub open spec fn composite_spec(
    f0: Seq<Pixel>,
    entries: Seq<EntryView>,
    cx: int,
    cy: int,
    fw: int,
    fh: int,
) -> Seq<Pixel> {
    composite_upto(f0, entries, cx, cy, fw, fh, entries.len())
}

/// The abstract painting-pass inputs of one `blit_sprite` call.
pub open spec fn sprite_blit_params(
    sprite: BitmapView,
    visible_area: Rectangle,
    position: (i32, i32),
    camera_top: (i32, i32),
    frame_size: (i32, i32),
    has_shadow: bool,
) -> BlitParams {
    params_from(
        sprite,
        visible_area.top_left.0 as int,
        visible_area.top_left.1 as int,
        visible_area.bot_right.0 as int,
        visible_area.bot_right.1 as int,
        position.0 as int,
        position.1 as int,
        camera_top.0 as int,
        camera_top.1 as int,
        frame_size.0 as int,
        frame_size.1 as int,
        has_shadow,
    )
}

/// Copies a frame buffer pixel for pixel.
fn clone_frame(v: &Vec<Pixel>) -> (r: Vec<Pixel>)
    ensures
        r@ == v@,
{
    let mut out: Vec<Pixel> = Vec::new();
    let n: usize = v.len();
    let mut i: usize = 0;
    while i < n
        invariant
            i <= n,
            n == v@.len(),
            out@.len() == i,
            forall|j: int| 0 <= j < i ==> out@[j] == v@[j],
        decreases n - i,
    {
        out.push(v[i]);
        i = i + 1;
    }
    assert(out@ =~= v@);
    out
}

/// A struct describing entity for:
/// * Choosing which pixels to recolor based on info from the scene.
/// * Forming the recolored frame and handing it to the presentation layer.
pub struct Renderer {
    /// Target resolution of the composited frames.
    pub resolution: Resolution,
    /// Optional background bitmap sampled into every fresh frame.
    pub background: Option<Bitmap>,
    /// The most recently completed frame.
    pub prev_frame: Vec<Pixel>,
    /// Owns the scene being rendered.
    pub scene_manager: SceneManager,
}

impl Renderer {
    /// Creates a renderer: the first frame holds the background fill, so
    /// `emit` is meaningful before the first `render`.
    pub fn new(
        resolution: Resolution,
        background: Option<Bitmap>,
        scene_manager: SceneManager,
    ) -> (r: Self)
        requires
            resolution.width * resolution.height <= usize::MAX,
        ensures
            r.resolution == resolution,
            r.background == background,
            r.scene_manager == scene_manager,
            r.prev_frame@ == init_frame_spec(
                bg_view(background),
                resolution.width as int,
                resolution.height as int,
            ),
    {
        let init_frame = make_init_frame(&background, resolution);
        Renderer { resolution, background, prev_frame: init_frame, scene_manager }
    }

    /// Find intersection of two rectangles. Is used in render to find what
    /// part of an object (if any) should be rendered with the current
    /// camera position.
    pub fn _find_intersection(fst: &Rectangle, snd: &Rectangle) -> (r: Option<Rectangle>)
        ensures
            ({
                let left = if fst.top_left.0 >= snd.top_left.0 {
                    fst.top_left.0
                } else {
                    snd.top_left.0
                };
                let right = if fst.bot_right.0 <= snd.bot_right.0 {
                    fst.bot_right.0
                } else {
                    snd.bot_right.0
                };
                let top = if fst.top_left.1 <= snd.top_left.1 {
                    fst.top_left.1
                } else {
                    snd.top_left.1
                };
                let bot = if fst.bot_right.1 >= snd.bot_right.1 {
                    fst.bot_right.1
                } else {
                    snd.bot_right.1
                };
                if left < right && top > bot {
                    r matches Some(rect) && rect.top_left == (left, top) && rect.bot_right == (
                    right,
                    bot,
                    )
                } else {
                    r is None
                }
            }),
    {
        let left = if fst.top_left.0 >= snd.top_left.0 {
            fst.top_left.0
        } else {
            snd.top_left.0
        };
        let right = if fst.bot_right.0 <= snd.bot_right.0 {
            fst.bot_right.0
        } else {
            snd.bot_right.0
        };
        let top = if fst.top_left.1 <= snd.top_left.1 {
            fst.top_left.1
        } else {
            snd.top_left.1
        };
        let bot = if fst.bot_right.1 >= snd.bot_right.1 {
            fst.bot_right.1
        } else {
            snd.bot_right.1
        };
        if left < right && top > bot {
            return Some(Rectangle { top_left: (left, top), bot_right: (right, bot) });
        }
        None
    }

    /// Paints one sprite into a frame buffer. The frame holds exactly the
    /// result that `blit_spec` states; for a shadowless sprite each frame
    /// pixel is additionally described pointwise by `pixel_result`.
    pub fn blit_sprite(
        frame: &mut Vec<Pixel>,
        sprite: &Bitmap,
        visible_area: &Rectangle,
        position: (i32, i32),
        camera_top: (i32, i32),
        frame_size: (i32, i32),
        has_shadow: bool,
    )
        requires
            0 <= frame_size.0,
            0 <= frame_size.1,
            old(frame)@.len() == frame_size.0 * frame_size.1,
        ensures
            final(frame)@ == blit_spec(
                sprite_blit_params(
                    sprite@,
                    *visible_area,
                    position,
                    camera_top,
                    frame_size,
                    has_shadow,
                ),
                old(frame)@,
            ),
            final(frame)@.len() == old(frame)@.len(),
            !has_shadow ==> forall|idx: int|
                0 <= idx < old(frame)@.len() ==> final(frame)@[idx] == pixel_result(
                    sprite_blit_params(
                        sprite@,
                        *visible_area,
                        position,
                        camera_top,
                        frame_size,
                        has_shadow,
                    ),
                    old(frame)@[idx],
                    idx,
                ),
    {
        let ghost p = sprite_blit_params(
            sprite@,
            *visible_area,
            position,
            camera_top,
            frame_size,
            has_shadow,
        );
        let _sprite_dims = sprite.width();
        blit_core(
            frame,
            sprite,
            visible_area.top_left.0 as i64,
            visible_area.top_left.1 as i64,
            visible_area.bot_right.0 as i64,
            visible_area.bot_right.1 as i64,
            position.0 as i64,
            position.1 as i64,
            camera_top.0 as i64,
            camera_top.1 as i64,
            frame_size.0 as i64,
            frame_size.1 as i64,
            has_shadow,
        );
        proof {
            lemma_blit_rows_len(p, old(frame)@, col_height(p));
            if !has_shadow {
                if frame_size.0 > 0 {
                    lemma_blit_pointwise(p, old(frame)@);
                } else {
                    let ghost flen = old(frame)@.len() as int;
                    assert(flen == 0) by (nonlinear_arith)
                        requires
                            flen == frame_size.0 * frame_size.1,
                            frame_size.0 == 0,
                    ;
                }
            }
        }
    }

    /// Form a new frame from the current scene: start from the background
    /// fill, paint every renderable entry back to front relative to the
    /// main object's position, and publish the completed frame.
    #[verifier::loop_isolation(false)]
    pub fn render(&mut self)
        requires
            old(self).resolution.width * old(self).resolution.height <= usize::MAX,
            old(self).resolution.width <= i32::MAX,
            old(self).resolution.height <= i32::MAX,
        ensures
            final(self).resolution == old(self).resolution,
            final(self).background == old(self).background,
            final(self).scene_manager == old(self).scene_manager,
            final(self).prev_frame@.len() == old(self).resolution.width * old(
                self,
            ).resolution.height,
            exists|entries: Seq<EntryView>|
                {
                    &&& #[trigger] is_render_list(old(self).scene_manager.active_scene, entries)
                    &&& forall|j: int|
                        0 <= j < entries.len() ==> (#[trigger] entries[j]).image.wf()
                    &&& final(self).prev_frame@ == composite_spec(
                        init_frame_spec(
                            bg_view(old(self).background),
                            old(self).resolution.width as int,
                            old(self).resolution.height as int,
                        ),
                        entries,
                        old(self).scene_manager.active_scene.main_object.position.x as int,
                        old(self).scene_manager.active_scene.main_object.position.y as int,
                        old(self).resolution.width as int,
                        old(self).resolution.height as int,
                    )
                },
    {
        let cam_x: i64 = self.scene_manager.active_scene.main_object.position.x as i64;
        let cam_y: i64 = self.scene_manager.active_scene.main_object.position.y as i64;
        let fw: i64 = self.resolution.width as i64;
        let fh: i64 = self.resolution.height as i64;
        let mut frame = make_init_frame(&self.background, self.resolution);
        let ghost f0 = frame@;
        assert(f0.len() == fw * fh);
        let renderable = self.scene_manager.init_active_scene();
        let ghost entries = crate::scene::views_of(renderable@);
        let n: usize = renderable.len();
        let mut i: usize = 0;
        while i < n
            invariant
                i <= n,
                n == renderable@.len(),
                entries == crate::scene::views_of(renderable@),
                frame@ == composite_upto(
                    f0,
                    entries,
                    cam_x as int,
                    cam_y as int,
                    fw as int,
                    fh as int,
                    i as nat,
                ),
                frame@.len() == f0.len(),
            decreases n - i,
        {
            let e = &renderable[i];
            let im_w: i64 = e.image.width() as i64;
            let im_h: i64 = e.image.height() as i64;
            let pos_x: i64 = (e.position.x as i64) + (e.offset.0 as i64);
            let pos_y: i64 = (e.position.y as i64) + (e.offset.1 as i64);
            blit_core(
                &mut frame,
                &e.image,
                pos_x,
                pos_y,
                pos_x + im_w,
                pos_y - im_h,
                pos_x,
                pos_y,
                cam_x,
                cam_y,
                fw,
                fh,
                e.has_shadow,
            );
            proof {
                assert(entries[i as int] == e@);
                assert(params_from(
                    e.image@,
                    pos_x as int,
                    pos_y as int,
                    (pos_x + im_w) as int,
                    (pos_y - im_h) as int,
                    pos_x as int,
                    pos_y as int,
                    cam_x as int,
                    cam_y as int,
                    fw as int,
                    fh as int,
                    e.has_shadow,
                ) == entry_params(
                    entries[i as int],
                    cam_x as int,
                    cam_y as int,
                    fw as int,
                    fh as int,
                ));
            }
            i = i + 1;
        }
        self.prev_frame = frame;
    }

    /// Emit the most recently completed frame: a copy of the last frame
    /// `render` published, or of the initial background fill if no render
    /// has happened yet. Never blocks, never fails.
    pub fn emit(&mut self) -> (r: Option<Vec<Pixel>>)
        ensures
            *final(self) == *old(self),
            r matches Some(f) && f@ == old(self).prev_frame@,
    {
        Some(clone_frame(&self.prev_frame))
    }
}

} // verus!
