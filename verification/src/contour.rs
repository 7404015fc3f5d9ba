//! Contours: the mask they are traced on, their area and their extent.
//!
//! A contour is the closed outline of a region of the mask, given as the
//! points of the outline in order. Tracing is not done here: the crate hands
//! out the mask and takes the contours back.

use vstd::prelude::*;
use crate::pixel::{luma, Pixel};
use crate::raster::{rows_of, Grid, Image};

verus! {

/// A pixel belongs to the foreground of the mask when its luma is at least this.
pub const MASK_THRESHOLD: u8 = 10;

/// The value of a foreground pixel in the mask; a background pixel is zero.
pub const MASK_ON: u8 = 255;

/// A point of a contour, in pixel coordinates.
#[derive(Clone, Copy, Debug, PartialEq, Eq, Structural)]
pub struct Point {
    pub x: i32,
    pub y: i32,
}

/// The smallest axis-aligned rectangle around a set of points: its first and
/// last column and its first and last row, all four inclusive.
#[derive(Clone, Copy, Debug, PartialEq, Eq, Structural)]
pub struct Extent {
    pub min_x: i32,
    pub min_y: i32,
    pub max_x: i32,
    pub max_y: i32,
}

impl Extent {
    /// The point lies in the rectangle.
    pub open spec fn holds(self, p: Point) -> bool {
        self.min_x <= p.x <= self.max_x && self.min_y <= p.y <= self.max_y
    }

    /// The rectangle lies inside the grid.
    pub open spec fn inside(self, g: Grid) -> bool {
        &&& 0 <= self.min_x <= self.max_x < g.width
        &&& 0 <= self.min_y <= self.max_y < g.height()
    }

    /// The rectangle widened to take in the point.
    pub open spec fn with(self, p: Point) -> Extent {
        Extent {
            min_x: if p.x < self.min_x {
                p.x
            } else {
                self.min_x
            },
            min_y: if p.y < self.min_y {
                p.y
            } else {
                self.min_y
            },
            max_x: if p.x > self.max_x {
                p.x
            } else {
                self.max_x
            },
            max_y: if p.y > self.max_y {
                p.y
            } else {
                self.max_y
            },
        }
    }
}

/// The value that the mask holds for a pixel.
pub open spec fn mask_value(p: Pixel) -> u8 {
    if luma(p) >= MASK_THRESHOLD {
        MASK_ON
    } else {
        0
    }
}

/// The mask of a grid: for each pixel [`MASK_ON`] or zero, in the same rows.
pub open spec fn mask_of(g: Grid) -> Seq<Seq<u8>> {
    g.rows.map_values(|row: Seq<Pixel>| row.map_values(|p: Pixel| mask_value(p)))
}

/// The term that the edge from `p` to `q` adds to twice the signed area.
pub open spec fn cross(p: Point, q: Point) -> int {
    p.x * q.y - q.x * p.y
}

/// The point that follows the `i`-th on the outline; the first follows the last.
pub open spec fn successor(c: Seq<Point>, i: int) -> Point {
    if i + 1 == c.len() {
        c[0]
    } else {
        c[i + 1]
    }
}

/// Twice the signed area that the first `n` edges of the outline sweep.
pub open spec fn swept(c: Seq<Point>, n: nat) -> int
    decreases n,
{
    if n == 0 {
        0
    } else {
        swept(c, (n - 1) as nat) + cross(c[n - 1], successor(c, n - 1))
    }
}

/// Twice the area that the outline encloses.
pub open spec fn twice_area(c: Seq<Point>) -> nat {
    let s = swept(c, c.len());
    if s < 0 {
        (-s) as nat
    } else {
        s as nat
    }
}

/// The contour of largest area among the first `n`: its index. Of several
/// with that area it is the first.
pub open spec fn largest(cs: Seq<Seq<Point>>, n: nat) -> int
    decreases n,
{
    if n <= 1 {
        0
    } else {
        let best = largest(cs, (n - 1) as nat);
        if twice_area(cs[n - 1]) > twice_area(cs[best]) {
            n - 1
        } else {
            best
        }
    }
}

/// The extent of the first `n` points of the outline, for `n` at least one.
pub open spec fn extent(c: Seq<Point>, n: nat) -> Extent
    decreases n,
{
    if n <= 1 {
        Extent { min_x: c[0].x, min_y: c[0].y, max_x: c[0].x, max_y: c[0].y }
    } else {
        extent(c, (n - 1) as nat).with(c[n - 1])
    }
}

/// The contour that `largest` picks has the largest area, and every contour
/// before it has a smaller one.
pub proof fn lemma_largest(cs: Seq<Seq<Point>>, n: nat)
    requires
        0 < n <= cs.len(),
    ensures
        0 <= largest(cs, n) < n,
        forall|j: int| 0 <= j < n ==> twice_area(#[trigger] cs[j]) <= twice_area(cs[largest(cs, n)]),
        forall|j: int|
            0 <= j < largest(cs, n) ==> twice_area(#[trigger] cs[j]) < twice_area(
                cs[largest(cs, n)],
            ),
    decreases n,
{
    if n > 1 {
        lemma_largest(cs, (n - 1) as nat);
    }
}

/// The extent holds each of the points, and each of its four bounds is the
/// coordinate of one of them.
pub proof fn lemma_extent(c: Seq<Point>, n: nat)
    requires
        0 < n <= c.len(),
    ensures
        forall|i: int| 0 <= i < n ==> extent(c, n).holds(#[trigger] c[i]),
        exists|i: int| 0 <= i < n && (#[trigger] c[i]).x == extent(c, n).min_x,
        exists|i: int| 0 <= i < n && (#[trigger] c[i]).x == extent(c, n).max_x,
        exists|i: int| 0 <= i < n && (#[trigger] c[i]).y == extent(c, n).min_y,
        exists|i: int| 0 <= i < n && (#[trigger] c[i]).y == extent(c, n).max_y,
    decreases n,
{
    if n > 1 {
        let m = (n - 1) as nat;
        lemma_extent(c, m);
        let e = extent(c, m);
        let a = choose|i: int| 0 <= i < m && (#[trigger] c[i]).x == e.min_x;
        let b = choose|i: int| 0 <= i < m && (#[trigger] c[i]).x == e.max_x;
        let d = choose|i: int| 0 <= i < m && (#[trigger] c[i]).y == e.min_y;
        let f = choose|i: int| 0 <= i < m && (#[trigger] c[i]).y == e.max_y;
        let last = n - 1;
        assert(c[if c[last].x < e.min_x { last } else { a }].x == extent(c, n).min_x);
        assert(c[if c[last].x > e.max_x { last } else { b }].x == extent(c, n).max_x);
        assert(c[if c[last].y < e.min_y { last } else { d }].y == extent(c, n).min_y);
        assert(c[if c[last].y > e.max_y { last } else { f }].y == extent(c, n).max_y);
    } else {
        assert(c[0].x == extent(c, n).min_x);
    }
}

/// The mask on which the contours of the image are to be traced: a pixel is
/// foreground where its luma reaches [`MASK_THRESHOLD`].
pub fn contour_mask(img: &Image) -> (mask: Vec<Vec<u8>>)
    ensures
        rows_of(mask) == mask_of(img@),
{
    let width = img.width();
    let height = img.height();
    let mut mask: Vec<Vec<u8>> = Vec::new();
    let mut y: u32 = 0;
    while y < height
        invariant
            width == img@.width,
            height == img@.height(),
            img@.wf(),
            y <= height,
            mask.len() == y,
            forall|j: int| 0 <= j < y ==> (#[trigger] mask[j]).len() == width,
            forall|j: int, i: int|
                0 <= j < y && 0 <= i < width ==> (#[trigger] mask[j][i]) == mask_value(
                    img@.at(i, j),
                ),
        decreases height - y,
    {
        let mut row: Vec<u8> = Vec::new();
        let mut x: u32 = 0;
        while x < width
            invariant
                width == img@.width,
                height == img@.height(),
                y < height,
                x <= width,
                row.len() == x,
                forall|i: int| 0 <= i < x ==> (#[trigger] row[i]) == mask_value(img@.at(i, y as int)),
            decreases width - x,
        {
            let value = if img.pixel(x, y).luma() >= MASK_THRESHOLD {
                MASK_ON
            } else {
                0
            };
            row.push(value);
            x += 1;
        }
        mask.push(row);
        y += 1;
    }
    assert(rows_of(mask) =~~= mask_of(img@));
    mask
}

/// Twice the area that the contour encloses.
pub fn contour_twice_area(c: &Vec<Point>) -> (area: u128)
    ensures
        area == twice_area(c@),
{
    let n = c.len();
    let mut sum: i128 = 0;
    let mut i: usize = 0;
    while i < n
        invariant
            n == c.len(),
            i <= n,
            sum == swept(c@, i as nat),
            -(i as int) * 0x8000_0000_0000_0000 <= sum <= (i as int) * 0x8000_0000_0000_0000,
        decreases n - i,
    {
        let p = c[i];
        let q = if i + 1 == n {
            c[0]
        } else {
            c[i + 1]
        };
        assert(-0x4000_0000_0000_0000 <= p.x * q.y <= 0x4000_0000_0000_0000) by (nonlinear_arith)
            requires
                -0x8000_0000 <= p.x <= 0x7fff_ffff,
                -0x8000_0000 <= q.y <= 0x7fff_ffff,
        ;
        assert(-0x4000_0000_0000_0000 <= q.x * p.y <= 0x4000_0000_0000_0000) by (nonlinear_arith)
            requires
                -0x8000_0000 <= q.x <= 0x7fff_ffff,
                -0x8000_0000 <= p.y <= 0x7fff_ffff,
        ;
        let term: i128 = (p.x as i128) * (q.y as i128) - (q.x as i128) * (p.y as i128);
        assert(term == cross(p, successor(c@, i as int)));
        sum = sum + term;
        i += 1;
    }
    if sum < 0 {
        (-sum) as u128
    } else {
        sum as u128
    }
}

/// The index of the contour of largest area, the first of them where several
/// share it; `None` where there is no contour.
pub fn largest_contour(contours: &Vec<Vec<Point>>) -> (best: Option<usize>)
    ensures
        match best {
            Some(i) => i < contours.len() && i == largest(rows_of(*contours), contours.len() as nat),
            None => contours.len() == 0,
        },
{
    if contours.len() == 0 {
        return None;
    }
    let ghost cs = rows_of(*contours);
    let mut best: usize = 0;
    let mut best_area = contour_twice_area(&contours[0]);
    let mut i: usize = 1;
    while i < contours.len()
        invariant
            cs == rows_of(*contours),
            1 <= i <= contours.len(),
            best == largest(cs, i as nat),
            best < i,
            best_area == twice_area(cs[best as int]),
        decreases contours.len() - i,
    {
        let area = contour_twice_area(&contours[i]);
        if area > best_area {
            best = i;
            best_area = area;
        }
        i += 1;
    }
    Some(best)
}

/// The extent of the points of the contour; `None` where it has no point.
pub fn contour_extent(c: &Vec<Point>) -> (e: Option<Extent>)
    ensures
        e == if c.len() == 0 {
            None
        } else {
            Some(extent(c@, c.len() as nat))
        },
{
    if c.len() == 0 {
        return None;
    }
    let first = c[0];
    let mut e = Extent { min_x: first.x, min_y: first.y, max_x: first.x, max_y: first.y };
    let mut i: usize = 1;
    while i < c.len()
        invariant
            1 <= i <= c.len(),
            e == extent(c@, i as nat),
        decreases c.len() - i,
    {
        let p = c[i];
        if p.x < e.min_x {
            e.min_x = p.x;
        }
        if p.y < e.min_y {
            e.min_y = p.y;
        }
        if p.x > e.max_x {
            e.max_x = p.x;
        }
        if p.y > e.max_y {
            e.max_y = p.y;
        }
        i += 1;
    }
    Some(e)
}

} // verus!
