//! What holds of the strategies on every image.
//!
//! The strategies are stated in [`crate::cropper`] as functions on grids.
//! The lemmas here are proved of those functions: when a strategy fails,
//! what running it twice gives, and that no strategy reaches outside the
//! image it was given.

use vstd::prelude::*;
use crate::contour::{extent, largest, Point};
use crate::cropper::{
    failed, kept, margin, spec_crop_contour, spec_crop_dark_tol, spec_crop_fixed,
    spec_crop_grayscale, trimmed, without_margin, CropError, LANDSCAPE_MARGIN, PORTRAIT_MARGIN,
};
use crate::geometry::BoundingBox;
use crate::pixel::Criterion;
use crate::raster::Grid;
use crate::scanner::{
    bounding_box, column_hit, hit, lemma_bounding_box_encloses, lemma_bounding_box_is,
    lemma_no_hit_empty_box, lemma_valid_box_within, no_hit, row_hit,
};

verus! {

/// `out` is a window of `g`: a rectangle of pixels of `g`, none from outside it.
pub open spec fn is_window_of(out: Grid, g: Grid) -> bool {
    exists|x: int, y: int|
        #![trigger g.crop(x, y, out.width as int, out.height() as int)]
        {
            &&& g.has_window(x, y, out.width as int, out.height() as int)
            &&& out == g.crop(x, y, out.width as int, out.height() as int)
        }
}

/// Where no pixel of a grid passes the test, trimming fails with
/// `NoContentFound`. So the threshold strategy fails on a grid without a
/// bright pixel, the grayscale strategy on one whose luma is zero throughout,
/// and the fixed strategy on one that is fully transparent above its margin.
pub proof fn lemma_no_content(g: Grid)
    requires
        g.width <= u32::MAX,
        g.height() <= u32::MAX,
    ensures
        forall|c: Criterion|
            no_hit(g, c) ==> #[trigger] trimmed(g, c) == failed(CropError::NoContentFound),
        no_hit(g, Criterion::Bright) ==> spec_crop_dark_tol(g) == failed(CropError::NoContentFound),
        no_hit(g, Criterion::NonBlack) ==> spec_crop_grayscale(g) == failed(
            CropError::NoContentFound,
        ),
        without_margin(g) matches Ok(rest) && no_hit(rest, Criterion::Opaque) ==> spec_crop_fixed(g)
            == failed(CropError::NoContentFound),
{
    assert forall|c: Criterion| no_hit(g, c) implies #[trigger] trimmed(g, c) == failed(
        CropError::NoContentFound,
    ) by {
        lemma_no_hit_empty_box(g, c);
    }
    if let Ok(rest) = without_margin(g) {
        if no_hit(rest, Criterion::Opaque) {
            lemma_no_hit_empty_box(rest, Criterion::Opaque);
        }
    }
}

/// The fixed strategy fails with `InvalidGeometry` on a grid that is wider
/// than high and no higher than the landscape margin, and on any other grid
/// that is no higher than the portrait margin. From a higher grid it takes
/// the margin off the bottom: what is left are the rows above it, each as it
/// was.
pub proof fn lemma_margin(g: Grid)
    requires
        g.wf(),
    ensures
        g.width > g.height() && g.height() <= LANDSCAPE_MARGIN ==> spec_crop_fixed(g) == failed(
            CropError::InvalidGeometry,
        ),
        g.width > g.height() && g.height() > LANDSCAPE_MARGIN ==> without_margin(g) == kept(
            Grid { width: g.width, rows: g.rows.take(g.height() - LANDSCAPE_MARGIN) },
        ),
        g.width <= g.height() && g.height() <= PORTRAIT_MARGIN ==> spec_crop_fixed(g) == failed(
            CropError::InvalidGeometry,
        ),
        g.width <= g.height() && g.height() > PORTRAIT_MARGIN ==> without_margin(g) == kept(
            Grid { width: g.width, rows: g.rows.take(g.height() - PORTRAIT_MARGIN) },
        ),
{
    if g.height() > margin(g) {
        let rest = g.crop(0, 0, g.width as int, g.height() - margin(g));
        assert(rest =~~= Grid { width: g.width, rows: g.rows.take(g.height() - margin(g)) });
    }
}

/// A grid of at least two columns and two rows, with a hit in its first and
/// in its last column and in its first and in its last row, is trimmed to
/// itself.
pub proof fn lemma_trim_full(g: Grid, c: Criterion)
    requires
        g.wf(),
        2 <= g.width <= u32::MAX,
        2 <= g.height() <= u32::MAX,
        column_hit(g, c, 0),
        column_hit(g, c, g.width - 1),
        row_hit(g, c, 0),
        row_hit(g, c, g.height() - 1),
    ensures
        trimmed(g, c) == kept(g),
{
    let b = BoundingBox {
        min_x: 0,
        min_y: 0,
        max_x: (g.width - 1) as u32,
        max_y: (g.height() - 1) as u32,
    };
    lemma_bounding_box_is(g, c, b);
    assert(b.cut(g) =~~= g);
}

/// What trimming returns is a window of the grid, of at least two columns
/// and two rows, and trimming it again returns it unchanged.
pub proof fn lemma_trim_idempotent(g: Grid, c: Criterion)
    requires
        g.is_image(),
    ensures
        trimmed(g, c) matches Ok(out) ==> {
            &&& is_window_of(out, g)
            &&& out.width >= 2
            &&& out.height() >= 2
            &&& trimmed(out, c) == kept(out)
        },
{
    if let Ok(out) = trimmed(g, c) {
        let b = bounding_box(g, c);
        lemma_valid_box_within(g, c);
        lemma_bounding_box_encloses(g, c);
        assert(g.has_window(b.min_x as int, b.min_y as int, out.width as int, out.height() as int));
        assert(out == g.crop(b.min_x as int, b.min_y as int, out.width as int, out.height() as int));
        // A hit of the grid is a hit of the window, at the place it has there.
        assert forall|x: int, y: int| hit(g, c, x, y) implies #[trigger] hit(
            out,
            c,
            x - b.min_x,
            y - b.min_y,
        ) by {
            assert(b.holds(x, y));
        }
        // A valid box is not the empty box, so the grid has a hit.
        if no_hit(g, c) {
            lemma_no_hit_empty_box(g, c);
        }
        let (x, y) = choose|x: int, y: int| hit(g, c, x, y);
        assert(hit(g, c, x, y));
        // Each bound of the box carries a hit, so each edge of the window does.
        let left = choose|y: int| hit(g, c, b.min_x as int, y);
        let right = choose|y: int| hit(g, c, b.max_x as int, y);
        let top = choose|x: int| hit(g, c, x, b.min_y as int);
        let bottom = choose|x: int| hit(g, c, x, b.max_y as int);
        assert(hit(out, c, b.min_x - b.min_x, left - b.min_y));
        assert(hit(out, c, b.max_x - b.min_x, right - b.min_y));
        assert(hit(out, c, top - b.min_x, b.min_y - b.min_y));
        assert(hit(out, c, bottom - b.min_x, b.max_y - b.min_y));
        lemma_trim_full(out, c);
    }
}

/// A window of the grid of an image is the grid of an image.
pub proof fn lemma_window_is_image(out: Grid, g: Grid)
    requires
        g.is_image(),
        is_window_of(out, g),
    ensures
        out.is_image(),
{
}

/// Whatever a strategy returns is a window of the grid it was given: no
/// strategy reaches outside the image, whatever the contours handed in.
pub proof fn lemma_crops_are_windows(g: Grid, cs: Seq<Seq<Point>>)
    requires
        g.is_image(),
    ensures
        spec_crop_fixed(g) matches Ok(out) ==> is_window_of(out, g),
        spec_crop_dark_tol(g) matches Ok(out) ==> is_window_of(out, g),
        spec_crop_grayscale(g) matches Ok(out) ==> is_window_of(out, g),
        spec_crop_contour(g, cs) matches Ok(out) ==> is_window_of(out, g),
{
    lemma_trim_idempotent(g, Criterion::Bright);
    lemma_trim_idempotent(g, Criterion::NonBlack);
    if let Ok(out) = spec_crop_fixed(g) {
        let rest = without_margin(g)->Ok_0;
        let b = bounding_box(rest, Criterion::Opaque);
        lemma_valid_box_within(rest, Criterion::Opaque);
        assert(g.has_window(b.min_x as int, b.min_y as int, out.width as int, out.height() as int));
        assert(out =~~= g.crop(b.min_x as int, b.min_y as int, out.width as int, out.height() as int));
    }
    if let Ok(out) = spec_crop_contour(g, cs) {
        let c = cs[largest(cs, cs.len())];
        let e = extent(c, c.len());
        assert(g.has_window(e.min_x as int, e.min_y as int, out.width as int, out.height() as int));
        assert(out == g.crop(e.min_x as int, e.min_y as int, out.width as int, out.height() as int));
    }
}

/// Run on its own output, the threshold strategy returns that output
/// unchanged, and so does the grayscale strategy. The fixed strategy takes
/// its margin off once more: run on an output that is no higher than that
/// margin it fails with `InvalidGeometry`, and what it returns of a higher
/// one is a window of that output, lower by the margin at least.
pub proof fn lemma_rerun(g: Grid)
    requires
        g.is_image(),
    ensures
        spec_crop_dark_tol(g) matches Ok(out) ==> spec_crop_dark_tol(out) == kept(out),
        spec_crop_grayscale(g) matches Ok(out) ==> spec_crop_grayscale(out) == kept(out),
        spec_crop_fixed(g) matches Ok(out) ==> {
            &&& out.height() <= margin(out) ==> spec_crop_fixed(out) == failed(
                CropError::InvalidGeometry,
            )
            &&& spec_crop_fixed(out) matches Ok(again) ==> is_window_of(again, out)
                && again.height() + margin(out) <= out.height()
        },
{
    lemma_trim_idempotent(g, Criterion::Bright);
    lemma_trim_idempotent(g, Criterion::NonBlack);
    if let Ok(out) = spec_crop_fixed(g) {
        lemma_crops_are_windows(g, Seq::empty());
        lemma_window_is_image(out, g);
        if let Ok(again) = spec_crop_fixed(out) {
            lemma_crops_are_windows(out, Seq::empty());
            lemma_valid_box_within(without_margin(out)->Ok_0, Criterion::Opaque);
        }
    }
}

/// A fully opaque grid that is higher than its margin, with at least two
/// columns and two rows above it, comes out of the fixed strategy as those
/// rows at full width: nothing more is trimmed.
pub proof fn lemma_fixed_opaque(g: Grid)
    requires
        g.wf(),
        2 <= g.width <= u32::MAX,
        margin(g) + 2 <= g.height() <= u32::MAX,
        forall|x: int, y: int| g.contains(x, y) ==> (#[trigger] g.at(x, y)).a > 0,
    ensures
        spec_crop_fixed(g) == without_margin(g),
        spec_crop_fixed(g) == kept(
            Grid { width: g.width, rows: g.rows.take(g.height() - margin(g)) },
        ),
{
    lemma_margin(g);
    let rest = without_margin(g)->Ok_0;
    let c = Criterion::Opaque;
    assert forall|x: int, y: int| rest.contains(x, y) implies #[trigger] hit(rest, c, x, y) by {
        assert(g.contains(x, y));
        assert(rest.at(x, y) == g.at(x, y));
    }
    assert(hit(rest, c, 0, 0));
    assert(hit(rest, c, rest.width - 1, rest.height() - 1));
    lemma_trim_full(rest, c);
}

/// On a grid whose pixels are either black or have red, green and blue all
/// at 30, the two trimming strategies part ways: the threshold strategy
/// finds no content, while the grayscale strategy counts every pixel that
/// is not black.
pub proof fn lemma_threshold_sensitivity(g: Grid)
    requires
        g.width <= u32::MAX,
        g.height() <= u32::MAX,
        forall|x: int, y: int|
            g.contains(x, y) ==> {
                let p = #[trigger] g.at(x, y);
                (p.r == 0 && p.g == 0 && p.b == 0) || (p.r == 30 && p.g == 30 && p.b == 30)
            },
    ensures
        spec_crop_dark_tol(g) == failed(CropError::NoContentFound),
        forall|x: int, y: int|
            #[trigger] hit(g, Criterion::NonBlack, x, y) <==> g.contains(x, y) && g.at(x, y).r == 30,
{
    assert forall|x: int, y: int| !hit(g, Criterion::Bright, x, y) by {
        if g.contains(x, y) {
            let p = g.at(x, y);
        }
    }
    lemma_no_content(g);
}

} // verus!
