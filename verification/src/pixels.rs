//! Pixel effects on decoded RGBA cover images: the grayscale of a paused or
//! failed card, and the box blur behind a download banner.

use vstd::prelude::*;
use vstd::arithmetic::div_mod::{
    lemma_div_pos_is_pos, lemma_fundamental_div_mod, lemma_fundamental_div_mod_converse,
    lemma_mod_pos_bound,
};

verus! {

/// Channel weights of a grayscale conversion, in 256ths of a level.
#[derive(Debug, Clone, Copy, PartialEq, Eq, Structural)]
pub struct LumaWeights {
    pub red: u32,
    pub green: u32,
    pub blue: u32,
}

/// Weights whose sum keeps a gray level within a byte.
pub open spec fn weights_fit(w: LumaWeights) -> bool {
    w.red + w.green + w.blue <= 256
}

/// The weights the download banners use: 77, 150 and 29.
pub fn banner_luma() -> (w: LumaWeights)
    ensures
        w == (LumaWeights { red: 77, green: 150, blue: 29 }),
        weights_fit(w),
{
    LumaWeights { red: 77, green: 150, blue: 29 }
}

/// The weights the catalog cards use: 54, 183 and 19.
pub fn card_luma() -> (w: LumaWeights)
    ensures
        w == (LumaWeights { red: 54, green: 183, blue: 19 }),
        weights_fit(w),
{
    LumaWeights { red: 54, green: 183, blue: 19 }
}

/// The gray level of one pixel.
pub open spec fn gray_of(w: LumaWeights, r: u8, g: u8, b: u8) -> int {
    (r * w.red + g * w.green + b * w.blue) / 256
}

/// The pixels with each whole RGBA pixel's color channels set to its gray
/// level; alpha and a trailing partial pixel are kept.
pub open spec fn grayscaled(p: Seq<u8>, w: LumaWeights) -> Seq<u8> {
    Seq::new(
        p.len(),
        |i: int|
            if i < p.len() - p.len() % 4 && i % 4 != 3 {
                gray_of(w, p[i - i % 4], p[i - i % 4 + 1], p[i - i % 4 + 2]) as u8
            } else {
                p[i]
            },
    )
}

/// Turns each whole RGBA pixel gray with the given weights.
pub fn grayscale_rgba_in_place(pixels: &mut [u8], weights: LumaWeights)
    requires
        weights_fit(weights),
    ensures
        final(pixels)@ == grayscaled(old(pixels)@, weights),
{
    let n = pixels.len();
    let whole = n - n % 4;
    let ghost start = pixels@;
    let mut i: usize = 0;
    while i < whole
        invariant
            n == pixels@.len(),
            start.len() == n,
            start == old(pixels)@,
            whole == n - n % 4,
            i % 4 == 0,
            i <= whole,
            weights_fit(weights),
            forall|j: int| 0 <= j < i ==> pixels@[j] == #[trigger] grayscaled(start, weights)[j],
            forall|j: int| i <= j < n ==> pixels@[j] == start[j],
        decreases whole - i,
    {
        let r = pixels[i];
        let g = pixels[i + 1];
        let b = pixels[i + 2];
        assert(r * weights.red <= 255 * weights.red) by (nonlinear_arith)
            requires r <= 255;
        assert(g * weights.green <= 255 * weights.green) by (nonlinear_arith)
            requires g <= 255;
        assert(b * weights.blue <= 255 * weights.blue) by (nonlinear_arith)
            requires b <= 255;
        let sum: u32 = r as u32 * weights.red + g as u32 * weights.green + b as u32 * weights.blue;
        let gray = (sum / 256) as u8;
        pixels[i] = gray;
        pixels[i + 1] = gray;
        pixels[i + 2] = gray;
        proof {
            assert forall|j: int| 0 <= j < i + 4 implies pixels@[j] == #[trigger] grayscaled(
                start,
                weights,
            )[j] by {
                if j >= i {
                    assert(j - j % 4 == i);
                }
            }
        }
        i = i + 4;
    }
    proof {
        assert(pixels@ =~= grayscaled(start, weights));
    }
}

/// Turning an image gray twice gives what turning it gray once gives, for
/// weights that sum to a whole level.
pub proof fn lemma_grayscale_idempotent(p: Seq<u8>, w: LumaWeights)
    requires
        w.red + w.green + w.blue == 256,
    ensures
        grayscaled(grayscaled(p, w), w) == grayscaled(p, w),
{
    let g = grayscaled(p, w);
    assert forall|i: int| 0 <= i < p.len() implies #[trigger] grayscaled(g, w)[i] == g[i] by {
        if i < p.len() - p.len() % 4 && i % 4 != 3 {
            let base = i - i % 4;
            assert(base % 4 == 0);
            assert(g[base] == g[base + 1] && g[base + 1] == g[base + 2]);
            let v = g[base];
            assert(v * w.red + v * w.green + v * w.blue == v * 256) by (nonlinear_arith)
                requires
                    w.red + w.green + w.blue == 256,
            ;
        }
    }
    assert(grayscaled(g, w) =~= g);
}

// ---------------------------------------------------------------------------
// Box blur

/// Widest row or tallest column whose sums of bytes fit in a `u32`.
pub const MAX_BLUR_SIDE: usize = 16_843_009;

/// Where channel `ch` of pixel (`x`, `y`) lies in a row-major RGBA buffer
/// `w` pixels wide.
pub open spec fn pix_index(w: int, x: int, y: int, ch: int) -> int {
    (y * w + x) * 4 + ch
}

/// The channel of byte `j`.
pub open spec fn chan_of(j: int) -> int {
    j % 4
}

/// The column of byte `j`.
pub open spec fn col_of(w: int, j: int) -> int {
    (j / 4) % w
}

/// The row of byte `j`.
pub open spec fn row_of(w: int, j: int) -> int {
    (j / 4) / w
}

/// Sum of channel `ch` over columns `lo..hi` of row `y`.
pub open spec fn row_sum(p: Seq<u8>, w: int, y: int, ch: int, lo: int, hi: int) -> int
    decreases hi - lo,
{
    if hi <= lo {
        0
    } else {
        row_sum(p, w, y, ch, lo, hi - 1) + p[pix_index(w, hi - 1, y, ch)]
    }
}

/// Sum of channel `ch` over rows `lo..hi` of column `x`.
pub open spec fn col_sum(p: Seq<u8>, w: int, x: int, ch: int, lo: int, hi: int) -> int
    decreases hi - lo,
{
    if hi <= lo {
        0
    } else {
        col_sum(p, w, x, ch, lo, hi - 1) + p[pix_index(w, x, hi - 1, ch)]
    }
}

/// First position of the window of radius `r` around `c`.
pub open spec fn window_lo(c: int, r: int) -> int {
    if c >= r {
        c - r
    } else {
        0
    }
}

/// Last position of the window of radius `r` around `c` on a line of `n`.
pub open spec fn window_hi(c: int, r: int, n: int) -> int {
    if c + r < n - 1 {
        c + r
    } else {
        n - 1
    }
}

/// Mean of channel `ch` over the horizontal window around (`x`, `y`).
pub open spec fn row_mean(p: Seq<u8>, w: int, r: int, x: int, y: int, ch: int) -> int {
    row_sum(p, w, y, ch, window_lo(x, r), window_hi(x, r, w) + 1) / (window_hi(x, r, w) + 1
        - window_lo(x, r))
}

/// Mean of channel `ch` over the vertical window around (`x`, `y`).
pub open spec fn col_mean(p: Seq<u8>, w: int, h: int, r: int, x: int, y: int, ch: int) -> int {
    col_sum(p, w, x, ch, window_lo(y, r), window_hi(y, r, h) + 1) / (window_hi(y, r, h) + 1
        - window_lo(y, r))
}

/// The horizontal pass: each byte of the image is its row window's mean.
pub open spec fn rows_blurred(p: Seq<u8>, w: int, h: int, r: int) -> Seq<u8> {
    Seq::new(
        p.len(),
        |j: int|
            if j < w * h * 4 {
                row_mean(p, w, r, col_of(w, j), row_of(w, j), chan_of(j)) as u8
            } else {
                0u8
            },
    )
}

/// The blurred image: the vertical pass over the horizontal one. Bytes past
/// the image are kept; a zero radius or an empty image changes nothing.
pub open spec fn box_blurred(p: Seq<u8>, w: int, h: int, r: int) -> Seq<u8> {
    if r == 0 || w == 0 || h == 0 {
        p
    } else {
        Seq::new(
            p.len(),
            |j: int|
                if j < w * h * 4 {
                    col_mean(rows_blurred(p, w, h, r), w, h, r, col_of(w, j), row_of(w, j), chan_of(j)) as u8
                } else {
                    p[j]
                },
        )
    }
}

proof fn lemma_decode(w: int, h: int, j: int)
    requires
        0 < w,
        0 < h,
        0 <= j < w * h * 4,
    ensures
        0 <= col_of(w, j) < w,
        0 <= row_of(w, j) < h,
        0 <= chan_of(j) < 4,
        pix_index(w, col_of(w, j), row_of(w, j), chan_of(j)) == j,
{
    let q = j / 4;
    lemma_fundamental_div_mod(j, 4);
    lemma_mod_pos_bound(j, 4);
    lemma_div_pos_is_pos(j, 4);
    lemma_fundamental_div_mod(q, w);
    lemma_mod_pos_bound(q, w);
    lemma_div_pos_is_pos(q, w);
    let row = q / w;
    let col = q % w;
    assert(q < w * h);
    assert(row < h) by (nonlinear_arith)
        requires
            q == w * row + col,
            0 <= col,
            q < w * h,
            0 < w,
    ;
    assert(pix_index(w, col, row, j % 4) == j) by (nonlinear_arith)
        requires
            q == w * row + col,
            j == 4 * q + j % 4,
    ;
}

proof fn lemma_encode(w: int, h: int, x: int, y: int, ch: int)
    requires
        0 <= x < w,
        0 <= y < h,
        0 <= ch < 4,
    ensures
        0 <= pix_index(w, x, y, ch) < w * h * 4,
        col_of(w, pix_index(w, x, y, ch)) == x,
        row_of(w, pix_index(w, x, y, ch)) == y,
        chan_of(pix_index(w, x, y, ch)) == ch,
{
    let q = y * w + x;
    let j = pix_index(w, x, y, ch);
    assert(0 <= y * w) by (nonlinear_arith)
        requires
            0 <= y,
            0 < w,
    ;
    assert((y + 1) * w <= h * w) by (nonlinear_arith)
        requires
            y + 1 <= h,
            0 < w,
    ;
    assert((y + 1) * w == y * w + w) by (nonlinear_arith);
    assert(h * w == w * h) by (nonlinear_arith);
    lemma_fundamental_div_mod_converse(j, 4, q, ch);
    lemma_fundamental_div_mod_converse(q, w, y, x);
}

proof fn lemma_row_sum_split(p: Seq<u8>, w: int, y: int, ch: int, lo: int, hi: int)
    requires
        0 <= lo <= hi,
    ensures
        row_sum(p, w, y, ch, 0, hi) == row_sum(p, w, y, ch, 0, lo) + row_sum(p, w, y, ch, lo, hi),
    decreases hi - lo,
{
    if hi > lo {
        lemma_row_sum_split(p, w, y, ch, lo, hi - 1);
    }
}

proof fn lemma_col_sum_split(p: Seq<u8>, w: int, x: int, ch: int, lo: int, hi: int)
    requires
        0 <= lo <= hi,
    ensures
        col_sum(p, w, x, ch, 0, hi) == col_sum(p, w, x, ch, 0, lo) + col_sum(p, w, x, ch, lo, hi),
    decreases hi - lo,
{
    if hi > lo {
        lemma_col_sum_split(p, w, x, ch, lo, hi - 1);
    }
}

proof fn lemma_row_sum_bound(p: Seq<u8>, w: int, y: int, ch: int, lo: int, hi: int)
    requires
        lo <= hi,
    ensures
        0 <= row_sum(p, w, y, ch, lo, hi) <= 255 * (hi - lo),
    decreases hi - lo,
{
    if hi > lo {
        lemma_row_sum_bound(p, w, y, ch, lo, hi - 1);
    }
}

proof fn lemma_col_sum_bound(p: Seq<u8>, w: int, x: int, ch: int, lo: int, hi: int)
    requires
        lo <= hi,
    ensures
        0 <= col_sum(p, w, x, ch, lo, hi) <= 255 * (hi - lo),
    decreases hi - lo,
{
    if hi > lo {
        lemma_col_sum_bound(p, w, x, ch, lo, hi - 1);
    }
}

/// Whether byte `j` is done once the horizontal pass has reached column `x`
/// of channel `ch` in row `y`.
pub open spec fn h_done(w: int, j: int, y: int, ch: int, x: int) -> bool {
    ||| row_of(w, j) < y
    ||| row_of(w, j) == y && chan_of(j) < ch
    ||| row_of(w, j) == y && chan_of(j) == ch && col_of(w, j) < x
}

/// The scratch buffer's byte `j` at that point of the horizontal pass.
pub open spec fn h_state(p: Seq<u8>, w: int, h: int, r: int, j: int, y: int, ch: int, x: int) -> u8 {
    if j < w * h * 4 && h_done(w, j, y, ch, x) {
        rows_blurred(p, w, h, r)[j]
    } else {
        0u8
    }
}

/// Whether byte `j` is done once the vertical pass has reached row `y` of
/// channel `ch` in column `x`.
pub open spec fn v_done(w: int, j: int, x: int, ch: int, y: int) -> bool {
    ||| col_of(w, j) < x
    ||| col_of(w, j) == x && chan_of(j) < ch
    ||| col_of(w, j) == x && chan_of(j) == ch && row_of(w, j) < y
}

/// The image's byte `j` at that point of the vertical pass.
pub open spec fn v_state(p: Seq<u8>, w: int, h: int, r: int, j: int, x: int, ch: int, y: int) -> u8 {
    if j < w * h * 4 && v_done(w, j, x, ch, y) {
        box_blurred(p, w, h, r)[j]
    } else {
        p[j]
    }
}

/// Horizontal pass over channel `ch` of row `y`, with `prefix` as scratch.
fn blur_row_channel(
    src: &[u8],
    temp: &mut Vec<u8>,
    prefix: &mut Vec<u32>,
    w: usize,
    h: usize,
    r: usize,
    y: usize,
    ch: usize,
)
    requires
        0 < w <= MAX_BLUR_SIDE,
        0 < h,
        0 < r,
        y < h,
        ch < 4,
        w * h * 4 <= src@.len(),
        old(temp)@.len() == src@.len(),
        old(prefix)@.len() > w,
        forall|j: int|
            0 <= j < src@.len() ==> old(temp)@[j] == #[trigger] h_state(src@, w as int, h as int, r as int, j, y as int, ch as int, 0),
    ensures
        final(temp)@.len() == src@.len(),
        final(prefix)@.len() == old(prefix)@.len(),
        forall|j: int|
            0 <= j < src@.len() ==> final(temp)@[j] == #[trigger] h_state(
                src@,
                w as int,
                h as int,
                r as int,
                j,
                y as int,
                ch as int,
                w as int,
            ),
{
    let ghost p = src@;
    let ghost (wi, hi, ri, yi, ci) = (w as int, h as int, r as int, y as int, ch as int);
    proof {
        lemma_encode(wi, hi, 0, yi, 0);
    }
    let n = src.len();
    let row_start = y * w * 4;
    prefix.set(0, 0);
    let mut x: usize = 0;
    while x < w
        invariant
            0 < w <= MAX_BLUR_SIDE,
            y < h,
            ch < 4,
            x <= w,
            w * h * 4 <= p.len(),
            p == src@,
            n == p.len(),
            row_start == y * w * 4,
            prefix@.len() == old(prefix)@.len(),
            prefix@.len() > w,
            forall|k: int| 0 <= k <= x ==> prefix@[k] == #[trigger] row_sum(p, wi, yi, ci, 0, k),
            wi == w,
            hi == h,
            yi == y,
            ci == ch,
        decreases w - x,
    {
        proof {
            lemma_encode(wi, hi, x as int, yi, ci);
            lemma_row_sum_bound(p, wi, yi, ci, 0, x as int);
            assert(255 * (x + 1) <= 255 * MAX_BLUR_SIDE);
        }
        let v = src[row_start + x * 4 + ch];
        let next = prefix[x] + v as u32;
        prefix.set(x + 1, next);
        x = x + 1;
    }
    let mut x: usize = 0;
    while x < w
        invariant
            0 < w <= MAX_BLUR_SIDE,
            0 < h,
            0 < r,
            y < h,
            ch < 4,
            x <= w,
            w * h * 4 <= p.len(),
            p == src@,
            n == p.len(),
            row_start == y * w * 4,
            temp@.len() == p.len(),
            prefix@.len() > w,
            forall|k: int| 0 <= k <= w ==> prefix@[k] == #[trigger] row_sum(p, wi, yi, ci, 0, k),
            forall|j: int|
                0 <= j < p.len() ==> temp@[j] == #[trigger] h_state(p, wi, hi, ri, j, yi, ci, x as int),
            wi == w,
            hi == h,
            ri == r,
            yi == y,
            ci == ch,
        decreases w - x,
    {
        let left: usize = if x >= r { x - r } else { 0 };
        let right: usize = if r < w - 1 - x { x + r } else { w - 1 };
        let ghost lo = window_lo(x as int, ri);
        let ghost hi_ex = window_hi(x as int, ri, wi) + 1;
        assert(prefix@[right + 1] == row_sum(p, wi, yi, ci, 0, right + 1));
        assert(prefix@[left as int] == row_sum(p, wi, yi, ci, 0, left as int));
        proof {
            lemma_row_sum_split(p, wi, yi, ci, lo, hi_ex);
            lemma_row_sum_bound(p, wi, yi, ci, lo, hi_ex);
        }
        let sum = prefix[right + 1] - prefix[left];
        let count = (right + 1 - left) as u32;
        assert(sum / count <= 255) by (nonlinear_arith)
            requires
                sum <= 255 * count,
                count > 0,
        ;
        let value = (sum / count) as u8;
        proof {
            lemma_encode(wi, hi, x as int, yi, ci);
        }
        let idx = row_start + x * 4 + ch;
        assert(idx == pix_index(wi, x as int, yi, ci));
        let ghost before = temp@;
        temp.set(idx, value);
        proof {
            assert forall|j: int| 0 <= j < p.len() implies temp@[j] == #[trigger] h_state(
                p,
                wi,
                hi,
                ri,
                j,
                yi,
                ci,
                x + 1,
            ) by {
                assert(before[j] == h_state(p, wi, hi, ri, j, yi, ci, x as int));
                if j < wi * hi * 4 {
                    lemma_decode(wi, hi, j);
                }
            }
        }
        x = x + 1;
    }
}

/// Vertical pass over channel `ch` of column `x`, reading the horizontal
/// pass from `temp` and writing the image.
fn blur_col_channel(
    temp: &Vec<u8>,
    dst: &mut [u8],
    prefix: &mut Vec<u32>,
    Ghost(p): Ghost<Seq<u8>>,
    w: usize,
    h: usize,
    r: usize,
    x: usize,
    ch: usize,
)
    requires
        0 < w,
        0 < h <= MAX_BLUR_SIDE,
        0 < r,
        x < w,
        ch < 4,
        w * h * 4 <= p.len(),
        temp@ == rows_blurred(p, w as int, h as int, r as int),
        old(dst)@.len() == p.len(),
        old(prefix)@.len() > h,
        forall|j: int|
            0 <= j < p.len() ==> old(dst)@[j] == #[trigger] v_state(p, w as int, h as int, r as int, j, x as int, ch as int, 0),
    ensures
        final(dst)@.len() == p.len(),
        final(prefix)@.len() == old(prefix)@.len(),
        forall|j: int|
            0 <= j < p.len() ==> final(dst)@[j] == #[trigger] v_state(
                p,
                w as int,
                h as int,
                r as int,
                j,
                x as int,
                ch as int,
                h as int,
            ),
{
    let ghost t = temp@;
    let ghost (wi, hi, ri, xi, ci) = (w as int, h as int, r as int, x as int, ch as int);
    let n = temp.len();
    prefix.set(0, 0);
    let mut y: usize = 0;
    while y < h
        invariant
            0 < w,
            0 < h <= MAX_BLUR_SIDE,
            x < w,
            ch < 4,
            y <= h,
            w * h * 4 <= p.len(),
            t == temp@,
            t.len() == p.len(),
            n == p.len(),
            prefix@.len() == old(prefix)@.len(),
            prefix@.len() > h,
            forall|k: int| 0 <= k <= y ==> prefix@[k] == #[trigger] col_sum(t, wi, xi, ci, 0, k),
            wi == w,
            hi == h,
            xi == x,
            ci == ch,
        decreases h - y,
    {
        proof {
            lemma_encode(wi, hi, xi, y as int, ci);
            lemma_col_sum_bound(t, wi, xi, ci, 0, y as int);
            assert(255 * (y + 1) <= 255 * MAX_BLUR_SIDE);
        }
        let v = temp[(y * w + x) * 4 + ch];
        let next = prefix[y] + v as u32;
        prefix.set(y + 1, next);
        y = y + 1;
    }
    let mut y: usize = 0;
    while y < h
        invariant
            0 < w,
            0 < h <= MAX_BLUR_SIDE,
            0 < r,
            x < w,
            ch < 4,
            y <= h,
            w * h * 4 <= p.len(),
            t == temp@,
            t == rows_blurred(p, wi, hi, ri),
            n == p.len(),
            dst@.len() == p.len(),
            prefix@.len() > h,
            forall|k: int| 0 <= k <= h ==> prefix@[k] == #[trigger] col_sum(t, wi, xi, ci, 0, k),
            forall|j: int|
                0 <= j < p.len() ==> dst@[j] == #[trigger] v_state(p, wi, hi, ri, j, xi, ci, y as int),
            wi == w,
            hi == h,
            ri == r,
            xi == x,
            ci == ch,
        decreases h - y,
    {
        let top: usize = if y >= r { y - r } else { 0 };
        let bottom: usize = if r < h - 1 - y { y + r } else { h - 1 };
        let ghost lo = window_lo(y as int, ri);
        let ghost hi_ex = window_hi(y as int, ri, hi) + 1;
        assert(prefix@[bottom + 1] == col_sum(t, wi, xi, ci, 0, bottom + 1));
        assert(prefix@[top as int] == col_sum(t, wi, xi, ci, 0, top as int));
        proof {
            lemma_col_sum_split(t, wi, xi, ci, lo, hi_ex);
            lemma_col_sum_bound(t, wi, xi, ci, lo, hi_ex);
        }
        let sum = prefix[bottom + 1] - prefix[top];
        let count = (bottom + 1 - top) as u32;
        assert(sum / count <= 255) by (nonlinear_arith)
            requires
                sum <= 255 * count,
                count > 0,
        ;
        let value = (sum / count) as u8;
        proof {
            lemma_encode(wi, hi, xi, y as int, ci);
        }
        let idx = (y * w + x) * 4 + ch;
        let ghost before = dst@;
        dst[idx] = value;
        proof {
            assert forall|j: int| 0 <= j < p.len() implies dst@[j] == #[trigger] v_state(
                p,
                wi,
                hi,
                ri,
                j,
                xi,
                ci,
                y + 1,
            ) by {
                assert(before[j] == v_state(p, wi, hi, ri, j, xi, ci, y as int));
                if j < wi * hi * 4 {
                    lemma_decode(wi, hi, j);
                }
            }
        }
        y = y + 1;
    }
}

/// Blurs the first `width` x `height` RGBA pixels with a box of the given
/// radius: a horizontal mean over each row window, then a vertical mean over
/// each column window of that result, each rounded down.
pub fn box_blur_rgba_in_place(pixels: &mut [u8], width: usize, height: usize, radius: usize)
    requires
        width <= MAX_BLUR_SIDE,
        height <= MAX_BLUR_SIDE,
        width * height * 4 <= old(pixels)@.len(),
    ensures
        final(pixels)@ == box_blurred(old(pixels)@, width as int, height as int, radius as int),
{
    if radius == 0 || width == 0 || height == 0 {
        return;
    }
    let ghost p = pixels@;
    let ghost (wi, hi, ri) = (width as int, height as int, radius as int);
    let n = pixels.len();
    let mut temp: Vec<u8> = Vec::new();
    while temp.len() < n
        invariant
            temp@.len() <= n,
            forall|j: int| 0 <= j < temp@.len() ==> temp@[j] == 0u8,
        decreases n - temp@.len(),
    {
        temp.push(0u8);
    }
    let side = if width > height { width } else { height };
    let mut prefix: Vec<u32> = Vec::new();
    while prefix.len() <= side
        invariant
            prefix@.len() <= side + 1,
        decreases side + 1 - prefix@.len(),
    {
        prefix.push(0u32);
    }
    proof {
        assert forall|j: int| 0 <= j < n implies temp@[j] == #[trigger] h_state(p, wi, hi, ri, j, 0, 0, 0) by {
            if j < wi * hi * 4 {
                lemma_decode(wi, hi, j);
            }
        }
    }
    let mut y: usize = 0;
    while y < height
        invariant
            0 < width <= MAX_BLUR_SIDE,
            0 < height <= MAX_BLUR_SIDE,
            0 < radius,
            y <= height,
            p == pixels@,
            n == p.len(),
            width * height * 4 <= n,
            temp@.len() == n,
            prefix@.len() == side + 1,
            side >= width,
            side >= height,
            forall|j: int| 0 <= j < n ==> temp@[j] == #[trigger] h_state(p, wi, hi, ri, j, y as int, 0, 0),
            wi == width,
            hi == height,
            ri == radius,
        decreases height - y,
    {
        let mut ch: usize = 0;
        while ch < 4
            invariant
                0 < width <= MAX_BLUR_SIDE,
                0 < height <= MAX_BLUR_SIDE,
                0 < radius,
                y < height,
                ch <= 4,
                p == pixels@,
                n == p.len(),
                width * height * 4 <= n,
                temp@.len() == n,
                prefix@.len() == side + 1,
                side >= width,
                forall|j: int|
                    0 <= j < n ==> temp@[j] == #[trigger] h_state(p, wi, hi, ri, j, y as int, ch as int, 0),
                wi == width,
                hi == height,
                ri == radius,
            decreases 4 - ch,
        {
            blur_row_channel(pixels, &mut temp, &mut prefix, width, height, radius, y, ch);
            proof {
                assert forall|j: int| 0 <= j < n implies temp@[j] == #[trigger] h_state(
                    p,
                    wi,
                    hi,
                    ri,
                    j,
                    y as int,
                    ch + 1,
                    0,
                ) by {
                    assert(temp@[j] == h_state(p, wi, hi, ri, j, y as int, ch as int, wi));
                    if j < wi * hi * 4 {
                        lemma_decode(wi, hi, j);
                    }
                }
            }
            ch = ch + 1;
        }
        proof {
            assert forall|j: int| 0 <= j < n implies temp@[j] == #[trigger] h_state(
                p,
                wi,
                hi,
                ri,
                j,
                y + 1,
                0,
                0,
            ) by {
                assert(temp@[j] == h_state(p, wi, hi, ri, j, y as int, 4, 0));
                if j < wi * hi * 4 {
                    lemma_decode(wi, hi, j);
                }
            }
        }
        y = y + 1;
    }
    proof {
        assert forall|j: int| 0 <= j < n implies temp@[j] == #[trigger] rows_blurred(p, wi, hi, ri)[j] by {
            assert(temp@[j] == h_state(p, wi, hi, ri, j, hi, 0, 0));
            if j < wi * hi * 4 {
                lemma_decode(wi, hi, j);
            }
        }
        assert(temp@ =~= rows_blurred(p, wi, hi, ri));
        assert forall|j: int| 0 <= j < n implies pixels@[j] == #[trigger] v_state(p, wi, hi, ri, j, 0, 0, 0) by {
            if j < wi * hi * 4 {
                lemma_decode(wi, hi, j);
            }
        }
    }
    let mut x: usize = 0;
    while x < width
        invariant
            0 < width <= MAX_BLUR_SIDE,
            0 < height <= MAX_BLUR_SIDE,
            0 < radius,
            x <= width,
            n == p.len(),
            pixels@.len() == n,
            width * height * 4 <= n,
            temp@ == rows_blurred(p, wi, hi, ri),
            prefix@.len() == side + 1,
            side >= height,
            forall|j: int| 0 <= j < n ==> pixels@[j] == #[trigger] v_state(p, wi, hi, ri, j, x as int, 0, 0),
            wi == width,
            hi == height,
            ri == radius,
        decreases width - x,
    {
        let mut ch: usize = 0;
        while ch < 4
            invariant
                0 < width <= MAX_BLUR_SIDE,
                0 < height <= MAX_BLUR_SIDE,
                0 < radius,
                x < width,
                ch <= 4,
                n == p.len(),
                pixels@.len() == n,
                width * height * 4 <= n,
                temp@ == rows_blurred(p, wi, hi, ri),
                prefix@.len() == side + 1,
                side >= height,
                forall|j: int|
                    0 <= j < n ==> pixels@[j] == #[trigger] v_state(p, wi, hi, ri, j, x as int, ch as int, 0),
                wi == width,
                hi == height,
                ri == radius,
            decreases 4 - ch,
        {
            blur_col_channel(&temp, pixels, &mut prefix, Ghost(p), width, height, radius, x, ch);
            proof {
                assert forall|j: int| 0 <= j < n implies pixels@[j] == #[trigger] v_state(
                    p,
                    wi,
                    hi,
                    ri,
                    j,
                    x as int,
                    ch + 1,
                    0,
                ) by {
                    assert(pixels@[j] == v_state(p, wi, hi, ri, j, x as int, ch as int, hi));
                    if j < wi * hi * 4 {
                        lemma_decode(wi, hi, j);
                    }
                }
            }
            ch = ch + 1;
        }
        proof {
            assert forall|j: int| 0 <= j < n implies pixels@[j] == #[trigger] v_state(
                p,
                wi,
                hi,
                ri,
                j,
                x + 1,
                0,
                0,
            ) by {
                assert(pixels@[j] == v_state(p, wi, hi, ri, j, x as int, 4, 0));
                if j < wi * hi * 4 {
                    lemma_decode(wi, hi, j);
                }
            }
        }
        x = x + 1;
    }
    proof {
        assert forall|j: int| 0 <= j < n implies pixels@[j] == #[trigger] box_blurred(p, wi, hi, ri)[j] by {
            assert(pixels@[j] == v_state(p, wi, hi, ri, j, wi, 0, 0));
            if j < wi * hi * 4 {
                lemma_decode(wi, hi, j);
            }
        }
        assert(pixels@ =~= box_blurred(p, wi, hi, ri));
    }
}

/// Blur radius of a download card's colored layer.
pub const CARD_COLOR_BLUR: usize = 4;

/// Blur radius of a download card's gray layer.
pub const CARD_GRAY_BLUR: usize = 12;

/// The two layers of a download card's background from its cover: the
/// colored one lightly blurred, and the gray one (banner weights) blurred
/// more.
pub fn download_card_layers(pixels: Vec<u8>, width: usize, height: usize) -> (r: (Vec<u8>, Vec<u8>))
    requires
        width <= MAX_BLUR_SIDE,
        height <= MAX_BLUR_SIDE,
        width * height * 4 <= pixels@.len(),
    ensures
        r.0@ == box_blurred(pixels@, width as int, height as int, CARD_COLOR_BLUR as int),
        r.1@ == box_blurred(
            grayscaled(pixels@, LumaWeights { red: 77, green: 150, blue: 29 }),
            width as int,
            height as int,
            CARD_GRAY_BLUR as int,
        ),
{
    let mut color = pixels;
    let mut gray: Vec<u8> = Vec::new();
    let mut i: usize = 0;
    while i < color.len()
        invariant
            i <= color@.len(),
            gray@ == color@.take(i as int),
        decreases color@.len() - i,
    {
        gray.push(color[i]);
        assert(color@.take(i + 1) == color@.take(i as int).push(color@[i as int]));
        i = i + 1;
    }
    assert(color@.take(color@.len() as int) =~= color@);
    grayscale_rgba_in_place(gray.as_mut_slice(), banner_luma());
    box_blur_rgba_in_place(gray.as_mut_slice(), width, height, CARD_GRAY_BLUR);
    box_blur_rgba_in_place(color.as_mut_slice(), width, height, CARD_COLOR_BLUR);
    (color, gray)
}

/// A catalog card's picture: turned gray (card weights) when asked.
pub fn card_cover_pixels(pixels: Vec<u8>, grayscale_cover: bool) -> (r: Vec<u8>)
    ensures
        r@ == (if grayscale_cover {
            grayscaled(pixels@, LumaWeights { red: 54, green: 183, blue: 19 })
        } else {
            pixels@
        }),
{
    let mut pixels = pixels;
    if grayscale_cover {
        grayscale_rgba_in_place(pixels.as_mut_slice(), card_luma());
    }
    pixels
}

} // verus!
