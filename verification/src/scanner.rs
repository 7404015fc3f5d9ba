//! The bounding box of the pixels of an image that pass a test.
//!
//! A pixel that passes the test is a *hit*. The box runs from the first to
//! the last column that holds a hit and from the first to the last row that
//! holds one. An image without a hit gets the empty box: its lower bounds
//! are the image's width and height, its upper bounds zero.

use vstd::prelude::*;
use crate::geometry::BoundingBox;
use crate::pixel::Criterion;
use crate::raster::{Grid, Image};

verus! {

/// The grid has a pixel at `(x, y)`, and the pixel passes the test.
pub open spec fn hit(g: Grid, c: Criterion, x: int, y: int) -> bool {
    g.contains(x, y) && c.holds(g.at(x, y))
}

/// Column `x` holds a hit.
pub open spec fn column_hit(g: Grid, c: Criterion, x: int) -> bool {
    exists|y: int| hit(g, c, x, y)
}

/// Row `y` holds a hit.
pub open spec fn row_hit(g: Grid, c: Criterion, y: int) -> bool {
    exists|x: int| hit(g, c, x, y)
}

/// No pixel of the grid passes the test.
pub open spec fn no_hit(g: Grid, c: Criterion) -> bool {
    forall|x: int, y: int| !hit(g, c, x, y)
}

/// The columns that hold a hit.
pub open spec fn hit_columns(g: Grid, c: Criterion) -> spec_fn(int) -> bool {
    |x: int| column_hit(g, c, x)
}

/// The rows that hold a hit.
pub open spec fn hit_rows(g: Grid, c: Criterion) -> spec_fn(int) -> bool {
    |y: int| row_hit(g, c, y)
}

/// The least `i` with `from <= i < end` and `marked(i)`, or `end` if there is none.
pub open spec fn first_marked(marked: spec_fn(int) -> bool, from: int, end: int) -> int
    decreases end - from,
{
    if from >= end {
        end
    } else if marked(from) {
        from
    } else {
        first_marked(marked, from + 1, end)
    }
}

/// The greatest `i` with `0 <= i < end` and `marked(i)`, or zero if there is none.
pub open spec fn last_marked(marked: spec_fn(int) -> bool, end: int) -> int
    decreases end,
{
    if end <= 0 {
        0
    } else if marked(end - 1) {
        end - 1
    } else {
        last_marked(marked, end - 1)
    }
}

/// The box for a grid without a hit.
pub open spec fn empty_box(g: Grid) -> BoundingBox {
    BoundingBox { min_x: g.width as u32, min_y: g.height() as u32, max_x: 0, max_y: 0 }
}

/// The bounding box of the hits of a grid.
pub open spec fn bounding_box(g: Grid, c: Criterion) -> BoundingBox {
    BoundingBox {
        min_x: first_marked(hit_columns(g, c), 0, g.width as int) as u32,
        min_y: first_marked(hit_rows(g, c), 0, g.height() as int) as u32,
        max_x: last_marked(hit_columns(g, c), g.width as int) as u32,
        max_y: last_marked(hit_rows(g, c), g.height() as int) as u32,
    }
}

/// What `first_marked` returns: nothing before it is marked, and it is marked
/// itself unless it is `end`.
pub proof fn lemma_first_marked(marked: spec_fn(int) -> bool, from: int, end: int)
    requires
        from <= end,
    ensures
        from <= first_marked(marked, from, end) <= end,
        forall|i: int| from <= i < first_marked(marked, from, end) ==> !#[trigger] marked(i),
        first_marked(marked, from, end) < end ==> marked(first_marked(marked, from, end)),
    decreases end - from,
{
    if from < end && !marked(from) {
        lemma_first_marked(marked, from + 1, end);
    }
}

/// `first_marked` is `m` as soon as nothing before `m` is marked and `m` is
/// marked or is `end`.
pub proof fn lemma_first_marked_is(marked: spec_fn(int) -> bool, from: int, end: int, m: int)
    requires
        from <= m <= end,
        forall|i: int| from <= i < m ==> !#[trigger] marked(i),
        m < end ==> marked(m),
    ensures
        first_marked(marked, from, end) == m,
    decreases m - from,
{
    if from < m {
        assert(!marked(from));
        lemma_first_marked_is(marked, from + 1, end, m);
    }
}

/// What `last_marked` returns: nothing after it is marked, and it is marked
/// itself if anything is.
pub proof fn lemma_last_marked(marked: spec_fn(int) -> bool, end: int)
    ensures
        0 <= last_marked(marked, end),
        end > 0 ==> last_marked(marked, end) < end,
        forall|i: int| last_marked(marked, end) < i < end ==> !#[trigger] marked(i),
        (exists|i: int| 0 <= i < end && #[trigger] marked(i)) ==> marked(
            last_marked(marked, end),
        ),
    decreases end,
{
    if end > 0 && !marked(end - 1) {
        lemma_last_marked(marked, end - 1);
        if exists|i: int| 0 <= i < end && #[trigger] marked(i) {
            let i = choose|i: int| 0 <= i < end && #[trigger] marked(i);
            assert(0 <= i < end - 1 && marked(i));
        }
    }
}

/// `last_marked` is `m` as soon as nothing after `m` is marked and `m` is
/// marked or is zero.
pub proof fn lemma_last_marked_is(marked: spec_fn(int) -> bool, end: int, m: int)
    requires
        0 <= m,
        m < end || m == 0,
        forall|i: int| m < i < end ==> !#[trigger] marked(i),
        marked(m) || m == 0,
    ensures
        last_marked(marked, end) == m,
    decreases end,
{
    if end > 0 && m < end - 1 {
        assert(!marked(end - 1));
        lemma_last_marked_is(marked, end - 1, m);
    } else if end > 0 && !marked(end - 1) {
        assert(last_marked(marked, end - 1) == 0);
    }
}

/// The pixel `(x, y)` comes before `(at_x, at_y)` when the rows are read
/// from the top and each row from the left.
spec fn before(x: int, y: int, at_x: int, at_y: int) -> bool {
    y < at_y || (y == at_y && x < at_x)
}

/// What a scan knows of the box so far when it stands at `(at_x, at_y)`:
/// every hit before that place lies in the box, and each bound of the box is
/// either untouched or carries a hit.
spec fn scanned(
    g: Grid,
    c: Criterion,
    b: BoundingBox,
    found: bool,
    left: int,
    right: int,
    top: int,
    bottom: int,
    at_x: int,
    at_y: int,
) -> bool {
    &&& forall|x: int, y: int| #[trigger]
        hit(g, c, x, y) && before(x, y, at_x, at_y) ==> found && b.holds(x, y)
    &&& found ==> hit(g, c, b.min_x as int, left) && hit(g, c, b.max_x as int, right) && hit(
        g,
        c,
        top,
        b.min_y as int,
    ) && hit(g, c, bottom, b.max_y as int)
    &&& !found ==> b == empty_box(g)
}

/// A box that holds every hit and has a hit in its first and in its last
/// column, and in its first and in its last row, is the bounding box.
pub proof fn lemma_bounding_box_is(g: Grid, c: Criterion, b: BoundingBox)
    requires
        g.width <= u32::MAX,
        g.height() <= u32::MAX,
        forall|x: int, y: int| #[trigger] hit(g, c, x, y) ==> b.holds(x, y),
        column_hit(g, c, b.min_x as int),
        column_hit(g, c, b.max_x as int),
        row_hit(g, c, b.min_y as int),
        row_hit(g, c, b.max_y as int),
    ensures
        b == bounding_box(g, c),
{
    let columns = hit_columns(g, c);
    let rows = hit_rows(g, c);
    let w = g.width as int;
    let h = g.height() as int;
    assert forall|i: int| 0 <= i < b.min_x || b.max_x < i < w implies !#[trigger] columns(i) by {
        if column_hit(g, c, i) {
            let y = choose|y: int| hit(g, c, i, y);
            assert(hit(g, c, i, y));
        }
    }
    assert forall|i: int| 0 <= i < b.min_y || b.max_y < i < h implies !#[trigger] rows(i) by {
        if row_hit(g, c, i) {
            let x = choose|x: int| hit(g, c, x, i);
            assert(hit(g, c, x, i));
        }
    }
    assert(columns(b.min_x as int) && columns(b.max_x as int));
    assert(rows(b.min_y as int) && rows(b.max_y as int));
    let y = choose|y: int| hit(g, c, b.max_x as int, y);
    assert(hit(g, c, b.max_x as int, y));
    let x = choose|x: int| hit(g, c, x, b.max_y as int);
    assert(hit(g, c, x, b.max_y as int));
    lemma_first_marked_is(columns, 0, w, b.min_x as int);
    lemma_last_marked_is(columns, w, b.max_x as int);
    lemma_first_marked_is(rows, 0, h, b.min_y as int);
    lemma_last_marked_is(rows, h, b.max_y as int);
}

/// Every hit lies in the bounding box; and where the grid has a hit, the
/// first and the last column of the box hold one, and so do its first and
/// its last row.
pub proof fn lemma_bounding_box_encloses(g: Grid, c: Criterion)
    requires
        g.width <= u32::MAX,
        g.height() <= u32::MAX,
    ensures
        forall|x: int, y: int| #[trigger] hit(g, c, x, y) ==> bounding_box(g, c).holds(x, y),
        (exists|x: int, y: int| hit(g, c, x, y)) ==> {
            let b = bounding_box(g, c);
            &&& column_hit(g, c, b.min_x as int)
            &&& column_hit(g, c, b.max_x as int)
            &&& row_hit(g, c, b.min_y as int)
            &&& row_hit(g, c, b.max_y as int)
        },
{
    let columns = hit_columns(g, c);
    let rows = hit_rows(g, c);
    let w = g.width as int;
    let h = g.height() as int;
    let b = bounding_box(g, c);
    lemma_first_marked(columns, 0, w);
    lemma_last_marked(columns, w);
    lemma_first_marked(rows, 0, h);
    lemma_last_marked(rows, h);
    assert forall|x: int, y: int| #[trigger] hit(g, c, x, y) implies b.holds(x, y) by {
        assert(columns(x));
        assert(rows(y));
    }
    if exists|x: int, y: int| hit(g, c, x, y) {
        let (x, y) = choose|x: int, y: int| hit(g, c, x, y);
        assert(columns(x));
        assert(rows(y));
        assert(columns(b.min_x as int));
        assert(columns(b.max_x as int));
        assert(rows(b.min_y as int));
        assert(rows(b.max_y as int));
    }
}

/// A grid without a hit has the empty box, which is not valid.
pub proof fn lemma_no_hit_empty_box(g: Grid, c: Criterion)
    requires
        g.width <= u32::MAX,
        g.height() <= u32::MAX,
        no_hit(g, c),
    ensures
        bounding_box(g, c) == empty_box(g),
        !bounding_box(g, c).valid(),
{
    let columns = hit_columns(g, c);
    let rows = hit_rows(g, c);
    let w = g.width as int;
    let h = g.height() as int;
    assert forall|i: int| 0 <= i < w implies !#[trigger] columns(i) by {
        if column_hit(g, c, i) {
            let y = choose|y: int| hit(g, c, i, y);
            assert(hit(g, c, i, y));
        }
    }
    assert forall|i: int| 0 <= i < h implies !#[trigger] rows(i) by {
        if row_hit(g, c, i) {
            let x = choose|x: int| hit(g, c, x, i);
            assert(hit(g, c, x, i));
        }
    }
    lemma_first_marked_is(columns, 0, w, w);
    lemma_last_marked_is(columns, w, 0);
    lemma_first_marked_is(rows, 0, h, h);
    lemma_last_marked_is(rows, h, 0);
}

/// A valid bounding box lies inside its grid.
pub proof fn lemma_valid_box_within(g: Grid, c: Criterion)
    requires
        g.width <= u32::MAX,
        g.height() <= u32::MAX,
    ensures
        bounding_box(g, c).valid() ==> bounding_box(g, c).within(g),
{
    lemma_first_marked(hit_columns(g, c), 0, g.width as int);
    lemma_last_marked(hit_columns(g, c), g.width as int);
    lemma_first_marked(hit_rows(g, c), 0, g.height() as int);
    lemma_last_marked(hit_rows(g, c), g.height() as int);
}

/// The box of a finished scan is the bounding box.
proof fn lemma_scanned_all(
    g: Grid,
    c: Criterion,
    b: BoundingBox,
    found: bool,
    left: int,
    right: int,
    top: int,
    bottom: int,
)
    requires
        g.width <= u32::MAX,
        g.height() <= u32::MAX,
        scanned(g, c, b, found, left, right, top, bottom, 0, g.height() as int),
    ensures
        b == bounding_box(g, c),
{
    assert forall|x: int, y: int| #[trigger] hit(g, c, x, y) implies found && b.holds(x, y) by {
        assert(before(x, y, 0, g.height() as int));
    }
    if found {
        lemma_bounding_box_is(g, c, b);
    } else {
        lemma_no_hit_empty_box(g, c);
    }
}

/// Reads every pixel of the image, rows from the top and each row from the
/// left, and returns the bounding box of those that pass the test.
pub fn scan(img: &Image, criterion: Criterion) -> (b: BoundingBox)
    ensures
        b == bounding_box(img@, criterion),
        forall|x: int, y: int| #[trigger] hit(img@, criterion, x, y) ==> b.holds(x, y),
        (exists|x: int, y: int| hit(img@, criterion, x, y)) ==> {
            &&& column_hit(img@, criterion, b.min_x as int)
            &&& column_hit(img@, criterion, b.max_x as int)
            &&& row_hit(img@, criterion, b.min_y as int)
            &&& row_hit(img@, criterion, b.max_y as int)
        },
        no_hit(img@, criterion) ==> b == empty_box(img@) && !b.valid(),
{
    let width = img.width();
    let height = img.height();
    let ghost g = img@;
    let mut min_x: u32 = width;
    let mut min_y: u32 = height;
    let mut max_x: u32 = 0;
    let mut max_y: u32 = 0;
    let ghost mut found = false;
    let ghost mut left = 0int;
    let ghost mut right = 0int;
    let ghost mut top = 0int;
    let ghost mut bottom = 0int;
    let mut y: u32 = 0;
    while y < height
        invariant
            g == img@,
            width == g.width,
            height == g.height(),
            y <= height,
            scanned(
                g,
                criterion,
                BoundingBox { min_x, min_y, max_x, max_y },
                found,
                left,
                right,
                top,
                bottom,
                0,
                y as int,
            ),
        decreases height - y,
    {
        let mut x: u32 = 0;
        while x < width
            invariant
                g == img@,
                width == g.width,
                height == g.height(),
                y < height,
                x <= width,
                scanned(
                    g,
                    criterion,
                    BoundingBox { min_x, min_y, max_x, max_y },
                    found,
                    left,
                    right,
                    top,
                    bottom,
                    x as int,
                    y as int,
                ),
            decreases width - x,
        {
            if criterion.test(img.pixel(x, y)) {
                proof {
                    if !found {
                        left = y as int;
                        right = y as int;
                        top = x as int;
                        bottom = x as int;
                    }
                    found = true;
                }
                if x < min_x {
                    min_x = x;
                    proof {
                        left = y as int;
                    }
                }
                if y < min_y {
                    min_y = y;
                    proof {
                        top = x as int;
                    }
                }
                if x > max_x {
                    max_x = x;
                    proof {
                        right = y as int;
                    }
                }
                if y > max_y {
                    max_y = y;
                    proof {
                        bottom = x as int;
                    }
                }
            }
            x += 1;
        }
        y += 1;
    }
    proof {
        lemma_scanned_all(
            g,
            criterion,
            BoundingBox { min_x, min_y, max_x, max_y },
            found,
            left,
            right,
            top,
            bottom,
        );
        lemma_bounding_box_encloses(g, criterion);
        if no_hit(g, criterion) {
            lemma_no_hit_empty_box(g, criterion);
        }
    }
    BoundingBox { min_x, min_y, max_x, max_y }
}

} // verus!
