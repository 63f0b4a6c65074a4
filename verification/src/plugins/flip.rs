//! The flip plugin: mirrors the buffer horizontally and/or vertically. A
//! same-size replacement buffer is filled pixel by pixel over a full scan —
//! every destination index is computed independently, so the backing
//! storage is swapped rather than edited in place — and handed back.

use vstd::prelude::*;
use vstd::arithmetic::div_mod::lemma_fundamental_div_mod;
use vstd::arithmetic::div_mod::lemma_fundamental_div_mod_converse;
use vstd::arithmetic::div_mod::lemma_mod_division_less_than_divisor;
use vstd::arithmetic::div_mod::lemma_div_pos_is_pos;
use crate::bitmap::Bitmap;
use crate::bitmap::scan_item;
use crate::bitmap::scan_start;
use crate::bitmap::lemma_scan_item_in_range;
use crate::bitmap::lemma_scan_pos_of_index;
use crate::color::ColorRGBA;

verus! {

/// Which axes to mirror; by default horizontal only.
#[derive(Debug, Clone)]
pub struct FlipOptions {
    pub horizontal: bool,
    pub vertical: bool,
}

impl Default for FlipOptions {
    fn default() -> (o: Self)
        ensures
            o.horizontal,
            !o.vertical,
    {
        FlipOptions { horizontal: true, vertical: false }
    }
}

/// The mirrored column: `w - 1 - x` when flipping horizontally, else `x`.
pub open spec fn mirror_x(w: int, horizontal: bool, x: int) -> int {
    if horizontal {
        w - 1 - x
    } else {
        x
    }
}

/// The mirrored row: `h - 1 - y` when flipping vertically, else `y`.
pub open spec fn mirror_y(h: int, vertical: bool, y: int) -> int {
    if vertical {
        h - 1 - y
    } else {
        y
    }
}

/// The flipped buffer: the pixel at each destination coordinate is the
/// source pixel at the mirrored coordinate.
pub open spec fn spec_flip(
    d: Seq<ColorRGBA>,
    w: int,
    h: int,
    horizontal: bool,
    vertical: bool,
) -> Seq<ColorRGBA> {
    Seq::new(
        d.len(),
        |i: int| d[w * mirror_y(h, vertical, i / w) + mirror_x(w, horizontal, i % w)],
    )
}

/// The row-major source index of the scan position `q`.
pub open spec fn src_index(w: int, h: int, q: int) -> int {
    w * (q % h) + q / h
}

/// The row-major destination index of the scan position `q` under the
/// selected mirroring.
pub open spec fn dst_index(w: int, h: int, horizontal: bool, vertical: bool, q: int) -> int {
    w * mirror_y(h, vertical, q % h) + mirror_x(w, horizontal, q / h)
}

/// Distinct scan positions land on distinct mirrored destination indices.
proof fn lemma_dst_index_unique(
    w: int,
    h: int,
    horizontal: bool,
    vertical: bool,
    q1: int,
    q2: int,
)
    requires
        0 < h,
        0 <= q1 < w * h,
        0 <= q2 < w * h,
        dst_index(w, h, horizontal, vertical, q1) == dst_index(w, h, horizontal, vertical, q2),
    ensures
        q1 == q2,
{
    broadcast use vstd::arithmetic::mul::lemma_mul_is_commutative;

    lemma_scan_item_in_range(w, h, q1);
    lemma_scan_item_in_range(w, h, q2);
    let y1 = mirror_y(h, vertical, q1 % h);
    let x1 = mirror_x(w, horizontal, q1 / h);
    let y2 = mirror_y(h, vertical, q2 % h);
    let x2 = mirror_x(w, horizontal, q2 / h);
    let j = w * y1 + x1;
    lemma_fundamental_div_mod_converse(j, w, y1, x1);
    lemma_fundamental_div_mod_converse(j, w, y2, x2);
    lemma_fundamental_div_mod(q1, h);
    lemma_fundamental_div_mod(q2, h);
}

/// Every destination index below `w * h` is the mirrored destination of
/// exactly one scan position, and the bound holds both ways.
proof fn lemma_dst_index_in_range(w: int, h: int, horizontal: bool, vertical: bool, q: int)
    requires
        0 < h,
        0 <= q < w * h,
    ensures
        0 <= dst_index(w, h, horizontal, vertical, q) < w * h,
{
    lemma_scan_item_in_range(w, h, q);
    let ym = mirror_y(h, vertical, q % h);
    let xm = mirror_x(w, horizontal, q / h);
    assert(0 <= w * ym + xm < w * h) by (nonlinear_arith)
        requires
            0 <= ym < h,
            0 <= xm < w,
    ;
}

/// Applying the same flip twice restores the original buffer exactly.
pub proof fn lemma_flip_involution(
    d: Seq<ColorRGBA>,
    w: int,
    h: int,
    horizontal: bool,
    vertical: bool,
)
    requires
        0 <= w,
        0 <= h,
        d.len() == w * h,
    ensures
        spec_flip(spec_flip(d, w, h, horizontal, vertical), w, h, horizontal, vertical) == d,
{
    broadcast use vstd::arithmetic::mul::lemma_mul_is_commutative;

    let f1 = spec_flip(d, w, h, horizontal, vertical);
    let f2 = spec_flip(f1, w, h, horizontal, vertical);
    assert forall|i: int| 0 <= i < d.len() implies f2[i] == d[i] by {
        assert(0 < w && 0 < h) by (nonlinear_arith)
            requires
                0 <= w,
                0 <= h,
                0 <= i < w * h,
        ;
        lemma_fundamental_div_mod(i, w);
        lemma_mod_division_less_than_divisor(i, w);
        lemma_div_pos_is_pos(i, w);
        assert(i / w < h) by (nonlinear_arith)
            requires
                0 < w,
                i < w * h,
                i == w * (i / w) + i % w,
                0 <= i % w,
        ;
        let ym = mirror_y(h, vertical, i / w);
        let xm = mirror_x(w, horizontal, i % w);
        let j = w * ym + xm;
        lemma_fundamental_div_mod_converse(j, w, ym, xm);
        assert(0 <= j < w * h) by (nonlinear_arith)
            requires
                0 <= ym < h,
                0 <= xm < w,
                j == w * ym + xm,
        ;
        assert(f2[i] == f1[j]);
        assert(f1[j] == d[w * mirror_y(h, vertical, j / w) + mirror_x(w, horizontal, j % w)]);
        assert(mirror_y(h, vertical, j / w) == i / w);
        assert(mirror_x(w, horizontal, j % w) == i % w);
        assert(f2[i] == d[w * (i / w) + i % w]);
    }
    assert(spec_flip(spec_flip(d, w, h, horizontal, vertical), w, h, horizontal, vertical) =~= d);
}

/// Mirrors the buffer along the selected axes: for every scanned
/// `(x, y, idx)`, the source pixel is copied to the mirrored destination
/// index of a same-size replacement buffer, which is handed back in the
/// source's place.
pub fn flip(options: FlipOptions, bitmap: Bitmap) -> (r: Bitmap)
    requires
        bitmap.wf(),
    ensures
        r.width == bitmap.width,
        r.height == bitmap.height,
        r.wf(),
        r.data@ == spec_flip(
            bitmap.data@,
            bitmap.width as int,
            bitmap.height as int,
            options.horizontal,
            options.vertical,
        ),
{
    let w = bitmap.width;
    let h = bitmap.height;
    let ghost gw = w as int;
    let ghost gh = h as int;
    let ghost total = gw * gh;
    let len = bitmap.data.len();
    let mut temp: Vec<ColorRGBA> = Vec::new();
    let mut i: usize = 0;
    while i < len
        invariant
            temp@.len() == i,
            i <= len,
        decreases len - i,
    {
        temp.push(ColorRGBA(0, 0, 0, 0));
        i = i + 1;
    }
    let mut s = bitmap.scan(0, 0);
    let ghost mut k: int = 0;
    proof {
        assert(scan_start(gh, 0, 0) == 0);
        assert(s.remaining() =~= Seq::new((total - k) as nat, |j: int| scan_item(gw, gh, k + j)));
    }
    loop
        invariant
            s.inv(),
            s.width == w,
            s.height == h,
            gw == w as int,
            gh == h as int,
            0 <= k <= total,
            total == gw * gh,
            len == total,
            temp@.len() == len,
            bitmap.data@.len() == len,
            s.remaining() == Seq::new((total - k) as nat, |j: int| scan_item(gw, gh, k + j)),
            forall|q: int|
                0 <= q < k ==> temp@[dst_index(gw, gh, options.horizontal, options.vertical, q)]
                    == bitmap.data@[#[trigger] src_index(gw, gh, q)],
        ensures
            k == total,
            temp@.len() == len,
            forall|q: int|
                0 <= q < k ==> temp@[dst_index(gw, gh, options.horizontal, options.vertical, q)]
                    == bitmap.data@[#[trigger] src_index(gw, gh, q)],
        decreases total - k,
    {
        match s.next() {
            None => {
                proof {
                    assert(total - k == 0);
                }
                break ;
            },
            Some((x, y, idx)) => {
                proof {
                    assert(total - k > 0);
                    assert(0 < gh) by (nonlinear_arith)
                        requires
                            0 < gw * gh,
                            0 <= gh,
                    ;
                    lemma_scan_item_in_range(gw, gh, k);
                    assert((x, y, idx) == scan_item(gw, gh, k));
                }
                let mx: u32 = if options.horizontal {
                    w - 1 - x
                } else {
                    x
                };
                let my: u32 = if options.vertical {
                    h - 1 - y
                } else {
                    y
                };
                proof {
                    assert(mx as int == mirror_x(gw, options.horizontal, k / gh));
                    assert(my as int == mirror_y(gh, options.vertical, k % gh));
                    lemma_dst_index_in_range(gw, gh, options.horizontal, options.vertical, k);
                }
                let midx: usize = (w as usize) * (my as usize) + (mx as usize);
                let pix = bitmap.data[idx];
                temp.set(midx, pix);
                proof {
                    assert forall|q: int| 0 <= q < k implies temp@[dst_index(
                        gw,
                        gh,
                        options.horizontal,
                        options.vertical,
                        q,
                    )] == bitmap.data@[#[trigger] src_index(gw, gh, q)] by {
                        lemma_dst_index_in_range(gw, gh, options.horizontal, options.vertical, q);
                        if dst_index(gw, gh, options.horizontal, options.vertical, q) == midx {
                            lemma_dst_index_unique(
                                gw,
                                gh,
                                options.horizontal,
                                options.vertical,
                                q,
                                k,
                            );
                        }
                    }
                    assert(dst_index(gw, gh, options.horizontal, options.vertical, k)
                        == midx as int);
                    assert(src_index(gw, gh, k) == idx as int);
                    assert(temp@[dst_index(gw, gh, options.horizontal, options.vertical, k)]
                        == bitmap.data@[src_index(gw, gh, k)]);
                    k = k + 1;
                    assert(s.remaining() =~= Seq::new(
                        (total - k) as nat,
                        |j: int| scan_item(gw, gh, k + j),
                    ));
                }
            },
        }
    }
    proof {
        broadcast use vstd::arithmetic::mul::lemma_mul_is_commutative;

        let ho = options.horizontal;
        let vo = options.vertical;
        assert forall|i2: int| 0 <= i2 < len implies temp@[i2] == spec_flip(
            bitmap.data@,
            gw,
            gh,
            ho,
            vo,
        )[i2] by {
            assert(0 < gw && 0 < gh) by (nonlinear_arith)
                requires
                    0 <= gw,
                    0 <= gh,
                    0 <= i2 < gw * gh,
            ;
            lemma_fundamental_div_mod(i2, gw);
            lemma_mod_division_less_than_divisor(i2, gw);
            lemma_div_pos_is_pos(i2, gw);
            assert(i2 / gw < gh) by (nonlinear_arith)
                requires
                    0 < gw,
                    i2 < gw * gh,
                    i2 == gw * (i2 / gw) + i2 % gw,
                    0 <= i2 % gw,
            ;
            let ym = mirror_y(gh, vo, i2 / gw);
            let xm = mirror_x(gw, ho, i2 % gw);
            let j = gw * ym + xm;
            assert(0 <= j < gw * gh) by (nonlinear_arith)
                requires
                    0 <= ym < gh,
                    0 <= xm < gw,
                    j == gw * ym + xm,
            ;
            lemma_fundamental_div_mod_converse(j, gw, ym, xm);
            lemma_scan_pos_of_index(gw, gh, j);
            let q = (j % gw) * gh + j / gw;
            assert(src_index(gw, gh, q) == j);
            assert(q % gh == j / gw && q / gh == j % gw);
            assert(mirror_y(gh, vo, q % gh) == i2 / gw);
            assert(mirror_x(gw, ho, q / gh) == i2 % gw);
            assert(dst_index(gw, gh, ho, vo, q) == gw * (i2 / gw) + i2 % gw == i2);
            assert(temp@[i2] == bitmap.data@[j]);
        }
        assert(temp@ =~= spec_flip(bitmap.data@, gw, gh, options.horizontal, options.vertical));
    }
    Bitmap { data: temp, width: w, height: h }
}

} // verus!
