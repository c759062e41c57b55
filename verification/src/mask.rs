//! Separable box blur of the penumbra mask.
//!
//! The mask is a coarse grid of fixed-point values (0 or 1 after it is
//! generated). Blurring dilates the marked shadow-boundary cells outward so
//! the grown soft-shadow penumbra stays covered. The blur is separable: a
//! horizontal windowed-sum pass, a vertical windowed-sum pass, then one
//! division by the window area, which makes the composition exactly the
//! direct symmetric 2D box average (coordinates clamp at the edges).

use vstd::prelude::*;

use vstd::arithmetic::div_mod::{lemma_div_is_ordered, lemma_div_multiples_vanish};

use crate::fx::fclamp;
use crate::raster::pix_idx;

verus! {

/// The largest value a cell may hold after both passes.
pub const MASK_VSUM_MAX: i64 = 0x400100010000;

/// The largest blur radius accepted (a machine limit keeping sums in `i64`).
pub const MASK_RADIUS_MAX: i64 = 0x4000;

/// The largest value a mask cell may hold before a horizontal pass.
pub const MASK_CELL_MAX: i64 = 0x10000;

/// The largest value a cell may hold after one horizontal pass.
pub const MASK_HSUM_MAX: i64 = 0x80010000;

/// The sum of the mask cells of one row window: offsets o through r around
/// x, with the sampled column clamped to the grid.
pub open spec fn sum_h_from(m: Seq<i64>, w: int, x: int, y: int, o: int, r: int) -> int
    decreases r - o + 1,
{
    if o > r {
        0
    } else {
        m[pix_idx(w, fclamp(x + o, 0, w - 1), y)] + sum_h_from(m, w, x, y, o + 1, r)
    }
}

/// The sum of the mask cells of one column window: offsets o through r around
/// y, with the sampled row clamped to the grid.
pub open spec fn sum_v_from(m: Seq<i64>, w: int, h: int, x: int, y: int, o: int, r: int) -> int
    decreases r - o + 1,
{
    if o > r {
        0
    } else {
        m[pix_idx(w, x, fclamp(y + o, 0, h - 1))] + sum_v_from(m, w, h, x, y, o + 1, r)
    }
}

/// The sum of the mask cells of the full 2D window: row windows stacked over
/// the column offsets o through r.
pub open spec fn sum_2d_from(m: Seq<i64>, w: int, h: int, x: int, y: int, o: int, r: int)
    -> int
    decreases r - o + 1,
{
    if o > r {
        0
    } else {
        sum_h_from(m, w, x, fclamp(y + o, 0, h - 1), -r, r) + sum_2d_from(
            m,
            w,
            h,
            x,
            y,
            o + 1,
            r,
        )
    }
}

/// The direct symmetric 2D box average at (x, y): the window sum divided by
/// the window area.
pub open spec fn box_avg_2d(m: Seq<i64>, w: int, h: int, r: int, x: int, y: int) -> int {
    sum_2d_from(m, w, h, x, y, -r, r) / ((2 * r + 1) * (2 * r + 1))
}

/// Horizontal-then-vertical windowed sums equal the direct 2D window sum:
/// a buffer holding row-window sums, summed over a column window, is the sum
/// of the full 2D window. With the final division by the window area this is
/// the separability of the box blur.
pub proof fn lemma_blur_separable(
    m: Seq<i64>,
    hbuf: Seq<i64>,
    w: int,
    h: int,
    r: int,
    x: int,
    y: int,
    o: int,
)
    requires
        1 <= w,
        1 <= h,
        0 <= r,
        0 <= x < w,
        0 <= y < h,
        -r <= o,
        hbuf.len() == w * h,
        forall|x2: int, y2: int|
            #![trigger pix_idx(w, x2, y2)]
            0 <= x2 < w && 0 <= y2 < h ==> hbuf[pix_idx(w, x2, y2)] as int == sum_h_from(
                m,
                w,
                x2,
                y2,
                -r,
                r,
            ),
    ensures
        sum_v_from(hbuf, w, h, x, y, o, r) == sum_2d_from(m, w, h, x, y, o, r),
    decreases r - o + 1,
{
    if o <= r {
        lemma_blur_separable(m, hbuf, w, h, r, x, y, o + 1);
        let cy = fclamp(y + o, 0, h - 1);
        assert(0 <= cy < h);
        assert(hbuf[pix_idx(w, x, cy)] as int == sum_h_from(m, w, x, cy, -r, r));
    }
}

/// A box blur with radius zero is the identity: the window is the single
/// cell itself and the window area is one.
pub proof fn lemma_blur_radius_zero(m: Seq<i64>, w: int, h: int, x: int, y: int)
    requires
        1 <= w,
        1 <= h,
        0 <= x < w,
        0 <= y < h,
    ensures
        box_avg_2d(m, w, h, 0, x, y) == m[pix_idx(w, x, y)],
{
    assert(fclamp(x, 0, w - 1) == x);
    assert(fclamp(y, 0, h - 1) == y);
    assert(sum_h_from(m, w, x, y, 1, 0) == 0);
    assert(sum_2d_from(m, w, h, x, y, 1, 0) == 0);
    assert(sum_2d_from(m, w, h, x, y, 0, 0) == m[pix_idx(w, x, y)]);
    assert((2int * 0int + 1int) * (2int * 0int + 1int) == 1int);
    assert(m[pix_idx(w, x, y)] as int / 1int == m[pix_idx(w, x, y)] as int);
}

proof fn lemma_sum_h_bounds(m: Seq<i64>, w: int, x: int, y: int, o: int, r: int, bound: int)
    requires
        1 <= w,
        0 <= y,
        m.len() >= w * (y + 1),
        forall|i: int| 0 <= i < m.len() ==> 0 <= #[trigger] m[i] <= bound,
        0 <= bound,
    ensures
        0 <= sum_h_from(m, w, x, y, o, r) <= (if o > r {
            0
        } else {
            (r - o + 1) * bound
        }),
    decreases r - o + 1,
{
    if o <= r {
        lemma_sum_h_bounds(m, w, x, y, o + 1, r, bound);
        let cx = fclamp(x + o, 0, w - 1);
        assert(0 <= pix_idx(w, cx, y) < w * (y + 1)) by (nonlinear_arith)
            requires
                0 <= cx < w,
                0 <= y,
        ;
        assert((r - o + 1) * bound == bound + (r - o) * bound) by (nonlinear_arith);
    }
}

/// The horizontal pass of the separable blur: the windowed row sums of the
/// mask, not yet divided by the window width (the single division by the
/// window area happens after the vertical pass, which keeps the composition
/// exactly the 2D box average).
pub fn penumbra_mask_row_sums(
    input: &Vec<i64>,
    width: usize,
    height: usize,
    radius: usize,
) -> (out: Vec<i64>)
    requires
        input@.len() == width * height,
        1 <= width <= 0x4000,
        1 <= height <= 0x4000,
        radius <= MASK_RADIUS_MAX,
        forall|i: int| 0 <= i < input@.len() ==> 0 <= #[trigger] input@[i] <= MASK_CELL_MAX,
    ensures
        out@.len() == input@.len(),
        forall|x: int, y: int|
            #![trigger pix_idx(width as int, x, y)]
            0 <= x < width && 0 <= y < height ==> out@[pix_idx(width as int, x, y)] as int
                == sum_h_from(input@, width as int, x, y, -(radius as int), radius as int),
        forall|i: int| 0 <= i < out@.len() ==> 0 <= #[trigger] out@[i] <= MASK_HSUM_MAX,
{
    let w = width;
    let h = height;
    let r = radius as i64;
    let mut out: Vec<i64> = Vec::new();
    let mut y: usize = 0;
    while y < h
        invariant
            input@.len() == w * h,
            1 <= w <= 0x4000,
            1 <= h <= 0x4000,
            0 <= r <= MASK_RADIUS_MAX,
            r == radius as int,
            y <= h,
            out@.len() == y * w,
            forall|i: int| 0 <= i < input@.len() ==> 0 <= #[trigger] input@[i] <= MASK_CELL_MAX,
            forall|x2: int, y2: int|
                #![trigger pix_idx(w as int, x2, y2)]
                0 <= x2 < w && 0 <= y2 < y ==> out@[pix_idx(w as int, x2, y2)] as int
                    == sum_h_from(input@, w as int, x2, y2, -r as int, r as int),
            forall|i: int| 0 <= i < out@.len() ==> 0 <= #[trigger] out@[i] <= MASK_HSUM_MAX,
        decreases h - y,
    {
        let mut x: usize = 0;
        while x < w
            invariant
                input@.len() == w * h,
                1 <= w <= 0x4000,
                1 <= h <= 0x4000,
                0 <= r <= MASK_RADIUS_MAX,
                r == radius as int,
                y < h,
                x <= w,
                out@.len() == y * w + x,
                forall|i: int| 0 <= i < input@.len() ==> 0 <= #[trigger] input@[i]
                    <= MASK_CELL_MAX,
                forall|x2: int, y2: int|
                    #![trigger pix_idx(w as int, x2, y2)]
                    (0 <= x2 < w && 0 <= y2 < y) || (y2 == y && 0 <= x2 < x) ==> out@[pix_idx(
                        w as int,
                        x2,
                        y2,
                    )] as int == sum_h_from(input@, w as int, x2, y2, -r as int, r as int),
                forall|i: int| 0 <= i < out@.len() ==> 0 <= #[trigger] out@[i] <= MASK_HSUM_MAX,
            decreases w - x,
        {
            proof {
                assert(w * (y + 1) <= w * h) by (nonlinear_arith)
                    requires
                        y + 1 <= h,
                        1 <= w,
                ;
                lemma_sum_h_bounds(input@, w as int, x as int, y as int, -r as int, r as int,
                    MASK_CELL_MAX as int);
                assert((2 * r + 1) * MASK_CELL_MAX <= MASK_HSUM_MAX as int) by (nonlinear_arith)
                    requires
                        0 <= r <= MASK_RADIUS_MAX,
                ;
            }
            let mut sum: i64 = 0;
            let mut o: i64 = -r;
            while o <= r
                invariant
                    input@.len() == w * h,
                    1 <= w <= 0x4000,
                    1 <= h <= 0x4000,
                    0 <= r <= MASK_RADIUS_MAX,
                    y < h,
                    x < w,
                    -r <= o <= r + 1,
                    forall|i: int| 0 <= i < input@.len() ==> 0 <= #[trigger] input@[i]
                        <= MASK_CELL_MAX,
                    sum_h_from(input@, w as int, x as int, y as int, -r as int, r as int) == sum
                        + sum_h_from(input@, w as int, x as int, y as int, o as int, r as int),
                    0 <= sum <= MASK_HSUM_MAX,
                    sum + sum_h_from(input@, w as int, x as int, y as int, o as int, r as int)
                        <= MASK_HSUM_MAX,
                decreases r - o + 1,
            {
                let cx = crate::fx::fx_clamp(x as i64 + o, 0, w as i64 - 1);
                proof {
                    assert(0 <= pix_idx(w as int, cx as int, y as int) < w * h)
                        by (nonlinear_arith)
                        requires
                            0 <= cx < w,
                            0 <= y < h,
                    ;
                    assert(w * (y as int + 1) <= w * h) by (nonlinear_arith)
                        requires
                            y + 1 <= h,
                            1 <= w,
                    ;
                    assert(w * h <= 0x10000000) by (nonlinear_arith)
                        requires
                            w <= 0x4000,
                            h <= 0x4000,
                    ;
                    assert(y * w + cx < w * h) by (nonlinear_arith)
                        requires
                            0 <= cx < w,
                            0 <= y,
                            y < h,
                    ;
                    lemma_sum_h_bounds(input@, w as int, x as int, y as int, o as int + 1,
                        r as int, MASK_CELL_MAX as int);
                }
                let idx = (y * w) + cx as usize;
                proof {
                    assert(idx == pix_idx(w as int, cx as int, y as int));
                }
                sum = sum + input[idx];
                o = o + 1;
            }
            let ghost pre = out@;
            out.push(sum);
            proof {
                assert(out@.len() == y * w + x + 1);
                assert forall|x2: int, y2: int| (0 <= x2 < w && 0 <= y2 < y) || (y2 == y && 0
                    <= x2 < x + 1) implies out@[#[trigger] pix_idx(w as int, x2, y2)] as int
                    == sum_h_from(input@, w as int, x2, y2, -r as int, r as int) by {
                    assert(0 <= pix_idx(w as int, x2, y2) < y * w + x + 1) by (nonlinear_arith)
                        requires
                            (0 <= x2 < w && 0 <= y2 < y) || (y2 == y && 0 <= x2 < x + 1),
                            0 <= y2,
                            x2 < w,
                            0 <= x2,
                    ;
                    if !(x2 == x as int && y2 == y as int) {
                        assert(pix_idx(w as int, x2, y2) < y * w + x) by (nonlinear_arith)
                            requires
                                (0 <= x2 < w && 0 <= y2 < y) || (y2 == y && 0 <= x2 < x),
                                0 <= x2 < w,
                                0 <= y2,
                        ;
                        assert(out@[pix_idx(w as int, x2, y2)] == pre[pix_idx(w as int, x2, y2)]);
                    }
                }
            }
            x = x + 1;
        }
        proof {
            assert(y * w + w == (y + 1) * w) by (nonlinear_arith);
        }
        y = y + 1;
    }
    proof {
        assert(h * w == w * h) by (nonlinear_arith);
    }
    out
}

proof fn lemma_sum_v_bounds(
    m: Seq<i64>,
    w: int,
    h: int,
    x: int,
    y: int,
    o: int,
    r: int,
    bound: int,
)
    requires
        1 <= w,
        1 <= h,
        0 <= x < w,
        m.len() == w * h,
        forall|i: int| 0 <= i < m.len() ==> 0 <= #[trigger] m[i] <= bound,
        0 <= bound,
    ensures
        0 <= sum_v_from(m, w, h, x, y, o, r) <= (if o > r {
            0
        } else {
            (r - o + 1) * bound
        }),
    decreases r - o + 1,
{
    if o <= r {
        lemma_sum_v_bounds(m, w, h, x, y, o + 1, r, bound);
        let cy = fclamp(y + o, 0, h - 1);
        assert(0 <= pix_idx(w, x, cy) < w * h) by (nonlinear_arith)
            requires
                0 <= x < w,
                0 <= cy < h,
        ;
        assert((r - o + 1) * bound == bound + (r - o) * bound) by (nonlinear_arith);
    }
}

proof fn lemma_sum_2d_bounds(
    m: Seq<i64>,
    w: int,
    h: int,
    x: int,
    y: int,
    o: int,
    r: int,
    bound: int,
)
    requires
        1 <= w,
        1 <= h,
        0 <= x < w,
        o >= -r,
        m.len() == w * h,
        forall|i: int| 0 <= i < m.len() ==> 0 <= #[trigger] m[i] <= bound,
        0 <= bound,
    ensures
        0 <= sum_2d_from(m, w, h, x, y, o, r) <= (if o > r {
            0
        } else {
            (r - o + 1) * ((2 * r + 1) * bound)
        }),
    decreases r - o + 1,
{
    if o <= r {
        lemma_sum_2d_bounds(m, w, h, x, y, o + 1, r, bound);
        let cy = fclamp(y + o, 0, h - 1);
        assert(0 <= cy < h);
        assert(m.len() >= w * (cy + 1)) by (nonlinear_arith)
            requires
                m.len() == w * h,
                0 <= cy < h,
                1 <= w,
        ;
        lemma_sum_h_bounds(m, w, x, cy, -r, r, bound);
        assert(sum_h_from(m, w, x, cy, -r, r) <= (2 * r + 1) * bound);
        assert((r - o + 1) * ((2 * r + 1) * bound) == (2 * r + 1) * bound + (r - o) * ((2 * r
            + 1) * bound)) by (nonlinear_arith);
    }
}

/// The vertical pass of the separable blur: the windowed column sums of the
/// row-sum buffer, not yet divided by the window area.
pub fn penumbra_mask_col_sums(
    input: &Vec<i64>,
    width: usize,
    height: usize,
    radius: usize,
) -> (out: Vec<i64>)
    requires
        input@.len() == width * height,
        1 <= width <= 0x4000,
        1 <= height <= 0x4000,
        radius <= MASK_RADIUS_MAX,
        forall|i: int| 0 <= i < input@.len() ==> 0 <= #[trigger] input@[i] <= MASK_HSUM_MAX,
    ensures
        out@.len() == input@.len(),
        forall|x: int, y: int|
            #![trigger pix_idx(width as int, x, y)]
            0 <= x < width && 0 <= y < height ==> out@[pix_idx(width as int, x, y)] as int
                == sum_v_from(input@, width as int, height as int, x, y, -(radius as int),
                radius as int,
            ),
        forall|i: int| 0 <= i < out@.len() ==> 0 <= #[trigger] out@[i] <= MASK_VSUM_MAX,
{
    let w = width;
    let h = height;
    let r = radius as i64;
    let mut out: Vec<i64> = Vec::new();
    let mut y: usize = 0;
    while y < h
        invariant
            input@.len() == w * h,
            1 <= w <= 0x4000,
            1 <= h <= 0x4000,
            0 <= r <= MASK_RADIUS_MAX,
            r == radius as int,
            y <= h,
            out@.len() == y * w,
            forall|i: int| 0 <= i < input@.len() ==> 0 <= #[trigger] input@[i] <= MASK_HSUM_MAX,
            forall|x2: int, y2: int|
                #![trigger pix_idx(w as int, x2, y2)]
                0 <= x2 < w && 0 <= y2 < y ==> out@[pix_idx(w as int, x2, y2)] as int
                    == sum_v_from(input@, w as int, h as int, x2, y2, -r as int, r as int),
            forall|i: int| 0 <= i < out@.len() ==> 0 <= #[trigger] out@[i] <= MASK_VSUM_MAX,
        decreases h - y,
    {
        let mut x: usize = 0;
        while x < w
            invariant
                input@.len() == w * h,
                1 <= w <= 0x4000,
                1 <= h <= 0x4000,
                0 <= r <= MASK_RADIUS_MAX,
                r == radius as int,
                y < h,
                x <= w,
                out@.len() == y * w + x,
                forall|i: int| 0 <= i < input@.len() ==> 0 <= #[trigger] input@[i]
                    <= MASK_HSUM_MAX,
                forall|x2: int, y2: int|
                    #![trigger pix_idx(w as int, x2, y2)]
                    (0 <= x2 < w && 0 <= y2 < y) || (y2 == y && 0 <= x2 < x) ==> out@[pix_idx(
                        w as int,
                        x2,
                        y2,
                    )] as int == sum_v_from(input@, w as int, h as int, x2, y2, -r as int,
                        r as int,
                    ),
                forall|i: int| 0 <= i < out@.len() ==> 0 <= #[trigger] out@[i] <= MASK_VSUM_MAX,
            decreases w - x,
        {
            proof {
                lemma_sum_v_bounds(input@, w as int, h as int, x as int, y as int, -r as int,
                    r as int, MASK_HSUM_MAX as int);
                assert((2 * r + 1) * MASK_HSUM_MAX <= MASK_VSUM_MAX as int) by (nonlinear_arith)
                    requires
                        0 <= r <= MASK_RADIUS_MAX,
                ;
            }
            let mut sum: i64 = 0;
            let mut o: i64 = -r;
            while o <= r
                invariant
                    input@.len() == w * h,
                    1 <= w <= 0x4000,
                    1 <= h <= 0x4000,
                    0 <= r <= MASK_RADIUS_MAX,
                    y < h,
                    x < w,
                    -r <= o <= r + 1,
                    forall|i: int| 0 <= i < input@.len() ==> 0 <= #[trigger] input@[i]
                        <= MASK_HSUM_MAX,
                    sum_v_from(input@, w as int, h as int, x as int, y as int, -r as int,
                        r as int,
                    ) == sum + sum_v_from(input@, w as int, h as int, x as int, y as int,
                        o as int, r as int,
                    ),
                    0 <= sum <= MASK_VSUM_MAX,
                    sum + sum_v_from(input@, w as int, h as int, x as int, y as int, o as int,
                        r as int,
                    ) <= MASK_VSUM_MAX,
                decreases r - o + 1,
            {
                let cy = crate::fx::fx_clamp(y as i64 + o, 0, h as i64 - 1);
                proof {
                    assert(0 <= pix_idx(w as int, x as int, cy as int) < w * h)
                        by (nonlinear_arith)
                        requires
                            0 <= x < w,
                            0 <= cy < h,
                    ;
                    assert(w * h <= 0x10000000) by (nonlinear_arith)
                        requires
                            w <= 0x4000,
                            h <= 0x4000,
                    ;
                    lemma_sum_v_bounds(input@, w as int, h as int, x as int, y as int,
                        o as int + 1, r as int, MASK_HSUM_MAX as int);
                }
                let idx = (cy as usize * w) + x;
                proof {
                    assert(idx == pix_idx(w as int, x as int, cy as int));
                }
                sum = sum + input[idx];
                o = o + 1;
            }
            let ghost pre = out@;
            out.push(sum);
            proof {
                assert(out@.len() == y * w + x + 1);
                assert forall|x2: int, y2: int| (0 <= x2 < w && 0 <= y2 < y) || (y2 == y && 0
                    <= x2 < x + 1) implies out@[#[trigger] pix_idx(w as int, x2, y2)] as int
                    == sum_v_from(input@, w as int, h as int, x2, y2, -r as int, r as int) by {
                    assert(0 <= pix_idx(w as int, x2, y2) < y * w + x + 1) by (nonlinear_arith)
                        requires
                            (0 <= x2 < w && 0 <= y2 < y) || (y2 == y && 0 <= x2 < x + 1),
                            0 <= y2,
                            x2 < w,
                            0 <= x2,
                    ;
                    if !(x2 == x as int && y2 == y as int) {
                        assert(pix_idx(w as int, x2, y2) < y * w + x) by (nonlinear_arith)
                            requires
                                (0 <= x2 < w && 0 <= y2 < y) || (y2 == y && 0 <= x2 < x),
                                0 <= x2 < w,
                                0 <= y2,
                        ;
                        assert(out@[pix_idx(w as int, x2, y2)] == pre[pix_idx(w as int, x2, y2)]);
                    }
                }
            }
            x = x + 1;
        }
        proof {
            assert(y * w + w == (y + 1) * w) by (nonlinear_arith);
        }
        y = y + 1;
    }
    proof {
        assert(h * w == w * h) by (nonlinear_arith);
    }
    out
}

/// Blur the penumbra mask: the horizontal pass, the vertical pass, then one
/// division by the window area. The result at every cell is exactly the
/// direct symmetric 2D box average of the old mask, and stays within the
/// cell range.
pub fn box_blur_penumbra_mask_grid(mask: &mut Vec<i64>, width: usize, height: usize,
    radius: usize,
)
    requires
        old(mask)@.len() == width * height,
        1 <= width <= 0x4000,
        1 <= height <= 0x4000,
        radius <= MASK_RADIUS_MAX,
        forall|i: int| 0 <= i < old(mask)@.len() ==> 0 <= #[trigger] old(mask)@[i]
            <= MASK_CELL_MAX,
    ensures
        final(mask)@.len() == old(mask)@.len(),
        forall|x: int, y: int|
            #![trigger pix_idx(width as int, x, y)]
            0 <= x < width && 0 <= y < height ==> final(mask)@[pix_idx(width as int, x, y)]
                as int == box_avg_2d(old(mask)@, width as int, height as int, radius as int, x,
                y,
            ),
        forall|i: int| 0 <= i < final(mask)@.len() ==> 0 <= #[trigger] final(mask)@[i]
            <= MASK_CELL_MAX,
{
    let ghost m0 = mask@;
    let w = width;
    let h = height;
    let r = radius as i64;
    let hbuf = penumbra_mask_row_sums(mask, width, height, radius);
    let vbuf = penumbra_mask_col_sums(&hbuf, width, height, radius);
    proof {
        assert(1 <= (2 * r as int + 1) * (2 * r as int + 1) <= 0x40010001) by (nonlinear_arith)
            requires
                0 <= r <= MASK_RADIUS_MAX,
        ;
    }
    let area: i64 = (2 * r + 1) * (2 * r + 1);
    let mut out: Vec<i64> = Vec::new();
    let mut i: usize = 0;
    while i < vbuf.len()
        invariant
            vbuf@.len() == w * h,
            i <= vbuf@.len(),
            out@.len() == i,
            area == (2 * r as int + 1) * (2 * r as int + 1),
            1 <= area <= 0x40010001,
            forall|j: int| 0 <= j < vbuf@.len() ==> 0 <= #[trigger] vbuf@[j] <= MASK_VSUM_MAX,
            forall|j: int| 0 <= j < i ==> out@[j] as int == #[trigger] vbuf@[j] as int
                / area as int,
        decreases vbuf@.len() - i,
    {
        out.push(vbuf[i] / area);
        i = i + 1;
    }
    proof {
        assert forall|x: int, y: int| 0 <= x < w && 0 <= y < h implies out@[#[trigger] pix_idx(
            w as int,
            x,
            y,
        )] as int == box_avg_2d(m0, w as int, h as int, r as int, x, y) && 0 <= out@[pix_idx(
            w as int,
            x,
            y,
        )] <= MASK_CELL_MAX by {
            assert(0 <= pix_idx(w as int, x, y) < w * h) by (nonlinear_arith)
                requires
                    0 <= x < w,
                    0 <= y < h,
            ;
            lemma_blur_separable(m0, hbuf@, w as int, h as int, r as int, x, y, -r as int);
            let s = sum_2d_from(m0, w as int, h as int, x, y, -r as int, r as int);
            lemma_sum_2d_bounds(m0, w as int, h as int, x, y, -r as int, r as int,
                MASK_CELL_MAX as int);
            assert(s <= (2 * r as int + 1) * ((2 * r as int + 1) * MASK_CELL_MAX));
            assert((2 * r as int + 1) * ((2 * r as int + 1) * MASK_CELL_MAX) == area
                * MASK_CELL_MAX) by (nonlinear_arith)
                requires
                    area == (2 * r as int + 1) * (2 * r as int + 1),
            ;
            lemma_div_is_ordered(s, area * MASK_CELL_MAX, area as int);
            lemma_div_multiples_vanish(MASK_CELL_MAX as int, area as int);
            lemma_div_is_ordered(0, s, area as int);
        }
        assert(out@.len() == m0.len());
        assert forall|j: int| 0 <= j < out@.len() implies 0 <= #[trigger] out@[j]
            <= MASK_CELL_MAX by {
            let y = j / (w as int);
            let x = j % (w as int);
            vstd::arithmetic::div_mod::lemma_fundamental_div_mod(j, w as int);
            assert(0 <= x < w && 0 <= y < h && j == pix_idx(w as int, x, y))
                by (nonlinear_arith)
                requires
                    j == (w as int) * y + x,
                    0 <= x < w,
                    0 <= j < w * h,
            ;
        }
    }
    *mask = out;
}

} // verus!
