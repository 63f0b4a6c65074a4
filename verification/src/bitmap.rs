//! The bitmap view over a canonical pixel buffer: bounds-checked pixel
//! writes and the lazy column-major scan cursor.

use vstd::prelude::*;
use vstd::arithmetic::div_mod::*;
use crate::color::Color;
use crate::color::ColorRGBA;

verus! {

/// A window over a canonical pixel buffer: the pixel storage plus its two
/// dimensions. The buffer is row-major, `width * height` pixels long; the
/// view owns the storage for the duration of one plugin invocation or one
/// direct-access session and is handed back to the format handler afterwards.
pub struct Bitmap {
    pub data: Vec<ColorRGBA>,
    pub width: u32,
    pub height: u32,
}

/// The coordinate triple that a scan yields at overall column-major position
/// `q`: column `q / h`, row `q % h`, and the row-major buffer index of that
/// coordinate, `w * (q % h) + q / h`.
pub open spec fn scan_item(w: int, h: int, q: int) -> (u32, u32, usize) {
    (((q / h) as u32), ((q % h) as u32), ((w * (q % h) + q / h) as usize))
}

/// The first column-major position not yet yielded by a cursor standing at
/// column `x`, row `y`: positions run through column `x` from row `min(y, h)`.
pub open spec fn scan_start(h: int, x: int, y: int) -> int {
    x * h + (if y <= h {
        y
    } else {
        h
    })
}

/// Everything a scan started (or resumed) at column `x`, row `y` still
/// yields: the items at column-major positions `scan_start(h, x, y)` up to
/// `w * h`. A start column at or past the width yields nothing.
pub open spec fn scan_seq(w: int, h: int, x: int, y: int) -> Seq<(u32, u32, usize)> {
    if 0 <= x < w && 0 <= y {
        Seq::new(
            (w * h - scan_start(h, x, y)) as nat,
            |j: int| scan_item(w, h, scan_start(h, x, y) + j),
        )
    } else {
        Seq::empty()
    }
}

/// A scan position below `w * h` decodes to an in-range column and row, and
/// to a buffer index below `w * h`.
pub proof fn lemma_scan_item_in_range(w: int, h: int, q: int)
    requires
        0 < h,
        0 <= q < w * h,
    ensures
        0 <= q / h < w,
        0 <= q % h < h,
        0 <= w * (q % h) + q / h < w * h,
{
    lemma_fundamental_div_mod(q, h);
    lemma_mod_division_less_than_divisor(q, h);
    lemma_div_pos_is_pos(q, h);
    assert(q / h < w) by (nonlinear_arith)
        requires
            0 < h,
            q < w * h,
            q == h * (q / h) + q % h,
            0 <= q % h,
    ;
    assert(w * (q % h) + q / h < w * h) by (nonlinear_arith)
        requires
            0 < h,
            0 <= q % h < h,
            0 <= q / h < w,
    ;
}

/// Every buffer index below `w * h` is reached by exactly one scan position,
/// namely `(i % w) * h + i / w`.
pub proof fn lemma_scan_pos_of_index(w: int, h: int, i: int)
    requires
        0 < w,
        0 < h,
        0 <= i < w * h,
    ensures
        0 <= (i % w) * h + i / w < w * h,
        ((i % w) * h + i / w) / h == i % w,
        ((i % w) * h + i / w) % h == i / w,
        w * (((i % w) * h + i / w) % h) + ((i % w) * h + i / w) / h == i,
{
    lemma_fundamental_div_mod(i, w);
    lemma_mod_division_less_than_divisor(i, w);
    lemma_div_pos_is_pos(i, w);
    assert(i / w < h) by (nonlinear_arith)
        requires
            0 < w,
            i < w * h,
            i == w * (i / w) + i % w,
            0 <= i % w,
    ;
    let q = (i % w) * h + i / w;
    lemma_fundamental_div_mod_converse(q, h, i % w, i / w);
    assert(0 <= q < w * h) by (nonlinear_arith)
        requires
            0 < h,
            0 <= i % w < w,
            0 <= i / w < h,
            q == (i % w) * h + i / w,
    ;
}

/// A scan started at the last coordinate of a non-empty buffer yields
/// exactly that coordinate, paired with the last buffer index, and then
/// terminates.
pub proof fn lemma_scan_last(w: int, h: int)
    requires
        0 < w,
        0 < h,
        w * h <= usize::MAX,
    ensures
        scan_seq(w, h, w - 1, h - 1) == seq![
            (((w - 1) as u32), ((h - 1) as u32), ((w * h - 1) as usize)),
        ],
{
    assert((w - 1) * h + (h - 1) == w * h - 1) by (nonlinear_arith);
    assert(scan_start(h, w - 1, h - 1) == w * h - 1);
    lemma_fundamental_div_mod_converse(w * h - 1, h, w - 1, h - 1);
    assert(w * (h - 1) + (w - 1) == w * h - 1) by (nonlinear_arith);
    assert(scan_item(w, h, w * h - 1) == (((w - 1) as u32), ((h - 1) as u32), ((w * h - 1) as usize)));
    assert(scan_seq(w, h, w - 1, h - 1) =~= seq![
        (((w - 1) as u32), ((h - 1) as u32), ((w * h - 1) as usize)),
    ]);
}

/// A single traversal of the coordinates of a buffer, column-major: for each
/// column from the start column to the last, the rows from the start row (in
/// the first column only) or row zero up to the last row. Obtained from
/// [`Bitmap::scan`]; not restartable.
pub struct Scan {
    pub width: u32,
    pub height: u32,
    pub cur_x: u32,
    pub cur_y: u32,
}

impl Scan {
    /// The buffer indices the cursor computes stay representable.
    pub open spec fn inv(self) -> bool {
        self.width * self.height <= usize::MAX
    }

    /// The triples this cursor has yet to yield.
    pub open spec fn remaining(self) -> Seq<(u32, u32, usize)> {
        scan_seq(self.width as int, self.height as int, self.cur_x as int, self.cur_y as int)
    }

    /// Yields the next `(x, y, index)` triple, or `None` once the scan has
    /// moved past the last column.
    pub fn next(&mut self) -> (r: Option<(u32, u32, usize)>)
        requires
            old(self).inv(),
        ensures
            final(self).inv(),
            final(self).width == old(self).width,
            final(self).height == old(self).height,
            old(self).remaining().len() == 0 ==> r is None && final(self).remaining().len() == 0,
            old(self).remaining().len() > 0 ==> r == Some(old(self).remaining()[0])
                && final(self).remaining() == old(self).remaining().drop_first(),
    {
        let ghost w = self.width as int;
        let ghost h = self.height as int;
        if self.height == 0 || self.cur_x >= self.width {
            proof {
                assert(old(self).remaining().len() == 0);
            }
            return None;
        }
        if self.cur_y >= self.height {
            // the current column is exhausted: move to the top of the next one
            let ghost x0 = self.cur_x as int;
            self.cur_x = self.cur_x + 1;
            self.cur_y = 0;
            proof {
                assert((x0 + 1) * h == x0 * h + h) by (nonlinear_arith);
                assert(scan_start(h, x0, old(self).cur_y as int) == (x0 + 1) * h);
            }
            if self.cur_x >= self.width {
                proof {
                    assert((x0 + 1) * h >= w * h) by (nonlinear_arith)
                        requires
                            0 <= h,
                            x0 + 1 >= w,
                    ;
                    assert(old(self).remaining().len() == 0);
                    assert(self.remaining().len() == 0);
                }
                return None;
            }
            proof {
                assert(self.remaining() =~= old(self).remaining());
            }
        }
        let x = self.cur_x;
        let y = self.cur_y;
        let ghost gx = x as int;
        let ghost gy = y as int;
        let ghost q = gx * h + gy;
        proof {
            assert(scan_start(h, gx, gy) == q);
            assert(q < w * h && w * gy + gx < w * h) by (nonlinear_arith)
                requires
                    0 < h,
                    0 <= gy < h,
                    0 <= gx < w,
                    q == gx * h + gy,
            ;
            lemma_fundamental_div_mod_converse(q, h, gx, gy);
        }
        let idx: usize = (self.width as usize) * (y as usize) + (x as usize);
        self.cur_y = y + 1;
        proof {
            assert(scan_item(w, h, q) == (x, y, idx));
            assert(scan_start(h, gx, gy + 1) == q + 1);
            assert(self.remaining() =~= scan_seq(w, h, gx, gy).drop_first());
        }
        Some((x, y, idx))
    }
}

impl Bitmap {
    /// The buffer is exactly `width * height` pixels long.
    pub open spec fn wf(self) -> bool {
        self.data@.len() == self.width * self.height
    }

    /// Starts a single column-major traversal at column `x`, row `y` (the
    /// start row applies to the first column only). Each call produces a
    /// fresh cursor over the whole tail of the buffer's coordinates.
    pub fn scan(&self, x: u32, y: u32) -> (s: Scan)
        requires
            self.wf(),
        ensures
            s.inv(),
            s.width == self.width,
            s.height == self.height,
            s.remaining() == scan_seq(self.width as int, self.height as int, x as int, y as int),
    {
        let n: usize = self.data.len();
        Scan { width: self.width, height: self.height, cur_x: x, cur_y: y }
    }

    /// Overwrites the pixel at `idx` with the canonical form of `color`;
    /// returns `false`, leaving the buffer unchanged, when `idx` is out of
    /// range. Never panics.
    pub fn set_pixel_by_index(&mut self, idx: usize, color: Color) -> (ok: bool)
        ensures
            final(self).width == old(self).width,
            final(self).height == old(self).height,
            idx < old(self).data@.len() ==> ok && final(self).data@ == old(self).data@.update(
                idx as int,
                color.spec_as_rgba(),
            ),
            idx >= old(self).data@.len() ==> !ok && final(self).data@ == old(self).data@,
    {
        if idx < self.data.len() {
            let c = color.as_rgba();
            self.data.set(idx, c);
            true
        } else {
            false
        }
    }

    /// Computes the row-major index `width * y + x` and delegates to
    /// [`Bitmap::set_pixel_by_index`]. The coordinates are not validated
    /// against the dimensions separately: only the resulting index is
    /// range-checked, so an `x` at or past the width can land in a later row.
    pub fn set_pixel(&mut self, x: u32, y: u32, color: Color) -> (ok: bool)
        ensures
            final(self).width == old(self).width,
            final(self).height == old(self).height,
            old(self).width * y + x < old(self).data@.len() ==> ok && final(self).data@ == old(
                self,
            ).data@.update(old(self).width * y + x, color.spec_as_rgba()),
            old(self).width * y + x >= old(self).data@.len() ==> !ok && final(self).data@ == old(
                self,
            ).data@,
    {
        proof {
            let wg = self.width as int;
            let yg = y as int;
            let xg = x as int;
            assert(wg * yg + xg < 0x10000000000000000) by (nonlinear_arith)
                requires
                    0 <= wg <= 0xffffffff,
                    0 <= yg <= 0xffffffff,
                    0 <= xg <= 0xffffffff,
            ;
        }
        let idx64: u64 = (self.width as u64) * (y as u64) + (x as u64);
        if idx64 >= self.data.len() as u64 {
            false
        } else {
            self.set_pixel_by_index(idx64 as usize, color)
        }
    }
}

} // verus!
