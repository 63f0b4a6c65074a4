//! The circular alpha-mask plugin: every pixel outside the circle is made
//! fully transparent, pixels within one unit of the rim get a proportional
//! alpha (an anti-aliased edge one pixel wide), and everything inside keeps
//! its alpha. Only the alpha channel is touched. All distance comparisons
//! and the rim rounding are computed exactly in integers: with an integer
//! center, a squared distance decides every branch, and the rounded rim
//! alpha `round(255 * (radius - distance))` is recovered from an integer
//! square root.

use vstd::prelude::*;
use vstd::arithmetic::div_mod::lemma_fundamental_div_mod;
use vstd::arithmetic::div_mod::lemma_fundamental_div_mod_converse;
use crate::bitmap::Bitmap;
use crate::bitmap::scan_item;
use crate::bitmap::scan_start;
use crate::bitmap::lemma_scan_item_in_range;
use crate::bitmap::lemma_scan_pos_of_index;
use crate::color::ColorRGBA;

verus! {

/// Optional radius and center; the defaults are half the smaller dimension
/// and the image center.
#[derive(Debug, Default, Clone)]
pub struct CircleOptions {
    pub radius: Option<u32>,
    pub x: Option<u32>,
    pub y: Option<u32>,
}

/// The radius in effect: the option, or half the smaller dimension.
pub open spec fn spec_radius(o: CircleOptions, w: u32, h: u32) -> u32 {
    match o.radius {
        Some(r) => r,
        None => (if w > h {
            h
        } else {
            w
        }) / 2,
    }
}

/// The center column in effect: the option, or half the width.
pub open spec fn spec_center_x(o: CircleOptions, w: u32) -> u32 {
    match o.x {
        Some(v) => v,
        None => w / 2,
    }
}

/// The center row in effect: the option, or half the height.
pub open spec fn spec_center_y(o: CircleOptions, h: u32) -> u32 {
    match o.y {
        Some(v) => v,
        None => h / 2,
    }
}

/// The column-major scan position that reaches buffer index `i`.
pub open spec fn scan_pos(w: int, h: int, i: int) -> int {
    (i % w) * h + i / w
}

/// The squared Euclidean distance between a pixel and the center.
pub open spec fn dist2(x: int, y: int, cx: int, cy: int) -> int {
    (x - cx) * (x - cx) + (y - cy) * (y - cy)
}

/// The integer square root, `floor(sqrt(n))`.
pub open spec fn spec_isqrt(n: int) -> int
    decreases n,
{
    if n <= 0 {
        0
    } else {
        let r = spec_isqrt(n - 1);
        if (r + 1) * (r + 1) <= n {
            r + 1
        } else {
            r
        }
    }
}

/// The integer square root is the unique value whose square brackets `n`.
pub proof fn lemma_isqrt_bounds(n: int)
    requires
        0 <= n,
    ensures
        0 <= spec_isqrt(n),
        spec_isqrt(n) * spec_isqrt(n) <= n,
        n < (spec_isqrt(n) + 1) * (spec_isqrt(n) + 1),
    decreases n,
{
    if n == 0 {
        assert(spec_isqrt(0) == 0);
    } else {
        lemma_isqrt_bounds(n - 1);
        let r = spec_isqrt(n - 1);
        if (r + 1) * (r + 1) <= n {
            assert(n - 1 < (r + 1) * (r + 1));
            assert(n < (r + 2) * (r + 2)) by (nonlinear_arith)
                requires
                    0 <= r,
                    n <= (r + 1) * (r + 1),
            ;
        }
    }
}

/// Any value whose square brackets `n` is the integer square root.
pub proof fn lemma_isqrt_unique(n: int, r: int)
    requires
        0 <= n,
        0 <= r,
        r * r <= n,
        n < (r + 1) * (r + 1),
    ensures
        r == spec_isqrt(n),
{
    lemma_isqrt_bounds(n);
    let s = spec_isqrt(n);
    if r < s {
        assert((r + 1) * (r + 1) <= s * s) by (nonlinear_arith)
            requires
                0 <= r,
                r + 1 <= s,
        ;
    }
    if s < r {
        assert((s + 1) * (s + 1) <= r * r) by (nonlinear_arith)
            requires
                0 <= s,
                s + 1 <= r,
        ;
    }
}

/// The alpha the mask assigns at squared distance `d2` from the center for
/// radius `r`: 0 at and beyond the radius, the original alpha at and inside
/// `r - 1`, and the rounded rim value `round(255 * (r - distance))` in
/// between — that rounding equals `255 * r - floor((isqrt(260100 * d2) + 1) / 2)`,
/// `260100` being `(2 * 255)^2`.
pub open spec fn spec_mask_alpha(d2: int, r: int, orig: u8) -> u8 {
    if d2 >= r * r {
        0
    } else if d2 <= (r - 1) * (r - 1) {
        orig
    } else {
        (255 * r - (spec_isqrt(260100 * d2) + 1) / 2) as u8
    }
}

/// Outside the circle the mask forces alpha to zero; at and inside one
/// unit short of the radius it leaves alpha untouched.
pub proof fn lemma_mask_bands(d2: int, r: int, orig: u8)
    ensures
        d2 >= r * r ==> spec_mask_alpha(d2, r, orig) == 0,
        (r - 1) * (r - 1) >= d2 && d2 < r * r ==> spec_mask_alpha(d2, r, orig) == orig,
{
}

/// The masked buffer: RGB channels kept, alpha replaced per pixel by the
/// mask rule at that pixel's distance from the center.
pub open spec fn spec_circle(d: Seq<ColorRGBA>, w: int, r: int, cx: int, cy: int) -> Seq<
    ColorRGBA,
> {
    Seq::new(
        d.len(),
        |i: int|
            ColorRGBA(
                d[i].0,
                d[i].1,
                d[i].2,
                spec_mask_alpha(dist2(i % w, i / w, cx, cy), r, d[i].3),
            ),
    )
}

/// In the rim band, the rounded scaled root stays within one alpha step of
/// the radius, so the rim alpha lies in `[0, 255]`.
proof fn lemma_band_alpha(d2: int, r: int, q: int)
    requires
        1 <= r,
        (r - 1) * (r - 1) < d2,
        d2 < r * r,
        0 <= q,
        q * q <= 260100 * d2,
        260100 * d2 < (q + 1) * (q + 1),
    ensures
        510 * (r - 1) <= q <= 510 * r - 1,
        0 <= 255 * r - (q + 1) / 2 <= 255,
{
    assert(510 * (r - 1) <= q) by (nonlinear_arith)
        requires
            1 <= r,
            (r - 1) * (r - 1) < d2,
            0 <= q,
            260100 * d2 < (q + 1) * (q + 1),
    ;
    assert(q <= 510 * r - 1) by (nonlinear_arith)
        requires
            1 <= r,
            d2 < r * r,
            0 <= q,
            q * q <= 260100 * d2,
    ;
}

/// Binary-search integer square root.
fn isqrt_u128(n: u128) -> (r: u128)
    requires
        n < 0x1000000000000000000000000,
    ensures
        r as int == spec_isqrt(n as int),
        (r as int) * (r as int) <= n as int,
        (n as int) < ((r as int) + 1) * ((r as int) + 1),
{
    let mut lo: u128 = 0;
    let mut hi: u128 = 0x1000000000000;
    proof {
        assert((hi as int) * (hi as int) > n as int);
    }
    while hi - lo > 1
        invariant
            lo < hi,
            hi <= 0x1000000000000,
            (lo as int) * (lo as int) <= n as int,
            (n as int) < (hi as int) * (hi as int),
        decreases hi - lo,
    {
        let mid = lo + (hi - lo) / 2;
        proof {
            assert((mid as int) * (mid as int) < 0x1000000000000 * 0x1000000000000)
                by (nonlinear_arith)
                requires
                    0 <= mid as int,
                    (mid as int) < 0x1000000000000,
            ;
        }
        if mid * mid <= n {
            lo = mid;
        } else {
            hi = mid;
        }
    }
    proof {
        lemma_isqrt_unique(n as int, lo as int);
    }
    lo
}

/// The alpha the mask assigns to the pixel at `(x, y)`, computed exactly.
fn mask_alpha(x: u32, y: u32, cx: u32, cy: u32, radius: u32, orig: u8) -> (a: u8)
    ensures
        a == spec_mask_alpha(dist2(x as int, y as int, cx as int, cy as int), radius as int, orig),
{
    let dx: u64 = if x >= cx {
        (x - cx) as u64
    } else {
        (cx - x) as u64
    };
    let dy: u64 = if y >= cy {
        (y - cy) as u64
    } else {
        (cy - y) as u64
    };
    let ghost gd2 = dist2(x as int, y as int, cx as int, cy as int);
    proof {
        let xi = x as int;
        let yi = y as int;
        let cxi = cx as int;
        let cyi = cy as int;
        assert((dx as int) * (dx as int) == (xi - cxi) * (xi - cxi)) by (nonlinear_arith)
            requires
                dx as int == if xi >= cxi {
                    xi - cxi
                } else {
                    cxi - xi
                },
        ;
        assert((dy as int) * (dy as int) == (yi - cyi) * (yi - cyi)) by (nonlinear_arith)
            requires
                dy as int == if yi >= cyi {
                    yi - cyi
                } else {
                    cyi - yi
                },
        ;
        assert((dx as int) * (dx as int) <= 0xffffffff * 0xffffffff && (dy as int) * (dy as int)
            <= 0xffffffff * 0xffffffff) by (nonlinear_arith)
            requires
                0 <= dx as int <= 0xffffffff,
                0 <= dy as int <= 0xffffffff,
        ;
    }
    let d2: u128 = (dx as u128) * (dx as u128) + (dy as u128) * (dy as u128);
    proof {
        assert((radius as int) * (radius as int) <= 0xffffffff * 0xffffffff) by (nonlinear_arith)
            requires
                0 <= radius as int <= 0xffffffff,
        ;
    }
    let r2: u128 = (radius as u128) * (radius as u128);
    proof {
        assert(r2 as int == (radius as int) * (radius as int));
        assert(d2 as int == gd2);
    }
    if d2 >= r2 {
        return 0;
    }
    proof {
        assert(1 <= radius as int) by (nonlinear_arith)
            requires
                0 <= radius as int,
                0 <= d2 as int,
                (d2 as int) < (radius as int) * (radius as int),
        ;
    }
    let rm1: u128 = (radius as u128) - 1;
    proof {
        assert((rm1 as int) * (rm1 as int) <= 0xffffffff * 0xffffffff) by (nonlinear_arith)
            requires
                0 <= rm1 as int <= 0xffffffff,
        ;
    }
    if d2 <= rm1 * rm1 {
        return orig;
    }
    proof {
        assert(260100 * (d2 as int) < 0x1000000000000000000000000) by (nonlinear_arith)
            requires
                0 <= d2 as int,
                (d2 as int) < (radius as int) * (radius as int),
                (radius as int) <= 0xffffffff,
        ;
    }
    let m: u128 = 260100u128 * d2;
    let q = isqrt_u128(m);
    proof {
        lemma_band_alpha(d2 as int, radius as int, q as int);
    }
    let a64: u64 = 255u64 * (radius as u64) - ((q as u64) + 1) / 2;
    a64 as u8
}

/// Applies the circular alpha mask in place: for every scanned pixel the
/// squared distance from the center decides whether the alpha is cleared,
/// kept, or set to the one-pixel-wide anti-aliased rim value. RGB channels
/// are never touched.
pub fn circle(options: CircleOptions, bitmap: Bitmap) -> (r: Bitmap)
    requires
        bitmap.wf(),
    ensures
        r.width == bitmap.width,
        r.height == bitmap.height,
        r.wf(),
        r.data@ == spec_circle(
            bitmap.data@,
            bitmap.width as int,
            spec_radius(options, bitmap.width, bitmap.height) as int,
            spec_center_x(options, bitmap.width) as int,
            spec_center_y(options, bitmap.height) as int,
        ),
{
    let w = bitmap.width;
    let h = bitmap.height;
    let radius = match options.radius {
        Some(r) => r,
        None => (if w > h {
            h
        } else {
            w
        }) / 2,
    };
    let cx = match options.x {
        Some(v) => v,
        None => w / 2,
    };
    let cy = match options.y {
        Some(v) => v,
        None => h / 2,
    };
    let ghost gw = w as int;
    let ghost gh = h as int;
    let ghost total = gw * gh;
    let ghost orig = bitmap.data@;
    let ghost masked = spec_circle(orig, gw, radius as int, cx as int, cy as int);
    let mut bm = bitmap;
    let len = bm.data.len();
    let mut s = bm.scan(0, 0);
    let ghost mut k: int = 0;
    proof {
        assert(scan_start(gh, 0, 0) == 0);
        assert(s.remaining() =~= Seq::new((total - k) as nat, |j: int| scan_item(gw, gh, k + j)));
    }
    loop
        invariant
            s.inv(),
            s.width == w,
            s.height == h,
            gw == w as int,
            gh == h as int,
            0 <= k <= total,
            total == gw * gh,
            len == total,
            bm.width == w,
            bm.height == h,
            bm.data@.len() == len,
            orig.len() == len,
            masked == spec_circle(orig, gw, radius as int, cx as int, cy as int),
            s.remaining() == Seq::new((total - k) as nat, |j: int| scan_item(gw, gh, k + j)),
            forall|i: int|
                0 <= i < len ==> bm.data@[i] == (if scan_pos(gw, gh, i) < k {
                    masked[i]
                } else {
                    orig[i]
                }),
        ensures
            k == total,
            bm.width == w,
            bm.height == h,
            bm.data@.len() == len,
            forall|i: int|
                0 <= i < len ==> bm.data@[i] == (if scan_pos(gw, gh, i) < k {
                    masked[i]
                } else {
                    orig[i]
                }),
        decreases total - k,
    {
        match s.next() {
            None => {
                proof {
                    assert(total - k == 0);
                }
                break ;
            },
            Some((x, y, idx)) => {
                proof {
                    assert(total - k > 0);
                    assert(0 < gh) by (nonlinear_arith)
                        requires
                            0 < gw * gh,
                            0 <= gh,
                    ;
                    lemma_scan_item_in_range(gw, gh, k);
                    assert((x, y, idx) == scan_item(gw, gh, k));
                    lemma_fundamental_div_mod_converse(idx as int, gw, k % gh, k / gh);
                    assert((idx as int) % gw == k / gh && (idx as int) / gw == k % gh);
                }
                let p = bm.data[idx];
                let alpha = mask_alpha(x, y, cx, cy, radius, p.3);
                bm.data.set(idx, ColorRGBA(p.0, p.1, p.2, alpha));
                proof {
                    assert(scan_pos(gw, gh, idx as int) == k) by {
                        lemma_fundamental_div_mod(k, gh);
                    }
                    assert(bm.data@[idx as int] == masked[idx as int]);
                    assert forall|i: int|
                        0 <= i < len && i != idx as int implies #[trigger] scan_pos(gw, gh, i)
                        != k by {
                        lemma_scan_pos_of_index(gw, gh, i);
                        if scan_pos(gw, gh, i) == k {
                            assert(i == gw * (k % gh) + k / gh);
                        }
                    }
                    k = k + 1;
                    assert(s.remaining() =~= Seq::new(
                        (total - k) as nat,
                        |j: int| scan_item(gw, gh, k + j),
                    ));
                }
            },
        }
    }
    proof {
        assert forall|i: int| 0 <= i < len implies #[trigger] scan_pos(gw, gh, i) < total by {
            assert(0 < gw && 0 < gh) by (nonlinear_arith)
                requires
                    0 <= gw,
                    0 <= gh,
                    0 <= i < gw * gh,
            ;
            lemma_scan_pos_of_index(gw, gh, i);
        }
        assert(bm.data@ =~= masked);
    }
    bm
}

} // verus!
