//! The four cropping strategies and the dispatcher that picks one.
//!
//! Each strategy finds the region of an image that holds its content and
//! returns that region as an image of its own. Three of them read the image
//! pixel by pixel. The fourth keeps the largest contour of the image's mask:
//! the caller traces the contours on the mask and hands them in.

use vstd::prelude::*;
use crate::contour::{
    contour_extent, contour_mask, extent, largest, largest_contour, lemma_extent, mask_of, Point,
};
use crate::pixel::Criterion;
use crate::raster::{rows_of, Grid, Image};
use crate::scanner::{bounding_box, lemma_valid_box_within, scan};

verus! {

/// The rows that the fixed strategy takes off the bottom of an image wider than high.
pub const LANDSCAPE_MARGIN: u32 = 1661;

/// The rows that the fixed strategy takes off the bottom of any other image.
pub const PORTRAIT_MARGIN: u32 = 1580;

/// The strategy that finds the content of an image.
#[derive(Clone, Copy, Debug, PartialEq, Eq, Structural)]
pub enum CropMethod {
    /// Take a fixed margin off the bottom, then trim what is fully transparent.
    Fixed,
    /// Trim what is near-black in red, green and blue alike.
    DarkTol,
    /// Trim what is black in grayscale.
    Grayscale,
    /// Keep the largest contour of the mask.
    Contour,
}

/// Why an image could not be cropped.
#[derive(Clone, Copy, Debug, PartialEq, Eq, Structural)]
pub enum CropError {
    /// No pixel counts as content, or the content spans a single column or row.
    NoContentFound,
    /// The mask has no contour.
    NoContoursFound,
    /// The region to keep does not lie inside the image: the margin takes
    /// every row, or a contour leaves the image or has no point.
    InvalidGeometry,
}

impl CropError {
    /// The words that [`CropError::message`] returns.
    pub open spec fn spec_message(self) -> Seq<char> {
        match self {
            CropError::NoContentFound => "No object found to crop"@,
            CropError::NoContoursFound => "No contours found"@,
            CropError::InvalidGeometry => "Crop region does not fit the image"@,
        }
    }

    /// The error in words.
    pub fn message(&self) -> (s: &'static str)
        ensures
            s@ == self.spec_message(),
    {
        match self {
            CropError::NoContentFound => "No object found to crop",
            CropError::NoContoursFound => "No contours found",
            CropError::InvalidGeometry => "Crop region does not fit the image",
        }
    }
}

/// What the dispatcher has reached: the result, or a mask whose contours it needs.
#[derive(Debug, PartialEq, Eq)]
pub enum CropStep {
    /// The strategy is done.
    Finished(Result<Image, CropError>),
    /// The contours of this mask are to be traced and handed to [`crop_contour`].
    TraceContours(Vec<Vec<u8>>),
}

/// A [`CropStep`] over grids.
pub enum StepView {
    Finished(Result<Grid, CropError>),
    TraceContours(Seq<Seq<u8>>),
}

/// A result over grids: the view of the image, or the error as it is.
pub open spec fn outcome(r: Result<Image, CropError>) -> Result<Grid, CropError> {
    match r {
        Ok(img) => Ok(img@),
        Err(e) => Err(e),
    }
}

impl View for CropStep {
    type V = StepView;

    open spec fn view(&self) -> StepView {
        match *self {
            CropStep::Finished(r) => StepView::Finished(outcome(r)),
            CropStep::TraceContours(mask) => StepView::TraceContours(rows_of(mask)),
        }
    }
}

/// The result of a strategy that keeps the grid `g`.
pub open spec fn kept(g: Grid) -> Result<Grid, CropError> {
    Ok(g)
}

/// The result of a strategy that fails with the error `e`.
pub open spec fn failed(e: CropError) -> Result<Grid, CropError> {
    Err(e)
}

/// The rows that the fixed strategy takes off the bottom of the grid.
pub open spec fn margin(g: Grid) -> nat {
    if g.width > g.height() {
        LANDSCAPE_MARGIN as nat
    } else {
        PORTRAIT_MARGIN as nat
    }
}

/// The grid without its margin: the rows above it, at full width. There is
/// no such grid where the margin takes every row.
pub open spec fn without_margin(g: Grid) -> Result<Grid, CropError> {
    if g.height() <= margin(g) {
        failed(CropError::InvalidGeometry)
    } else {
        kept(g.crop(0, 0, g.width as int, g.height() - margin(g)))
    }
}

/// The grid cut down to the bounding box of its hits, where that box is valid.
pub open spec fn trimmed(g: Grid, c: Criterion) -> Result<Grid, CropError> {
    let b = bounding_box(g, c);
    if b.valid() {
        kept(b.cut(g))
    } else {
        failed(CropError::NoContentFound)
    }
}

/// What the fixed strategy makes of a grid.
pub open spec fn spec_crop_fixed(g: Grid) -> Result<Grid, CropError> {
    match without_margin(g) {
        Ok(rest) => trimmed(rest, Criterion::Opaque),
        Err(e) => failed(e),
    }
}

/// What the threshold strategy makes of a grid.
pub open spec fn spec_crop_dark_tol(g: Grid) -> Result<Grid, CropError> {
    trimmed(g, Criterion::Bright)
}

/// What the grayscale strategy makes of a grid.
pub open spec fn spec_crop_grayscale(g: Grid) -> Result<Grid, CropError> {
    trimmed(g, Criterion::NonBlack)
}

/// What the contour strategy makes of a grid and the contours of its mask.
pub open spec fn spec_crop_contour(g: Grid, cs: Seq<Seq<Point>>) -> Result<Grid, CropError> {
    if cs.len() == 0 {
        failed(CropError::NoContoursFound)
    } else {
        let c = cs[largest(cs, cs.len())];
        let e = extent(c, c.len());
        if c.len() > 0 && e.inside(g) {
            kept(g.crop(e.min_x as int, e.min_y as int, e.max_x - e.min_x + 1, e.max_y - e.min_y + 1))
        } else {
            failed(CropError::InvalidGeometry)
        }
    }
}

/// What the dispatcher makes of a grid.
pub open spec fn spec_crop_image(g: Grid, method: CropMethod) -> StepView {
    match method {
        CropMethod::Fixed => StepView::Finished(spec_crop_fixed(g)),
        CropMethod::DarkTol => StepView::Finished(spec_crop_dark_tol(g)),
        CropMethod::Grayscale => StepView::Finished(spec_crop_grayscale(g)),
        CropMethod::Contour => StepView::TraceContours(mask_of(g)),
    }
}

/// Takes the margin off the bottom of the image: 1661 rows where the image
/// is wider than high, 1580 rows otherwise. Fails with `InvalidGeometry`
/// where that leaves no row.
pub fn remove_margin(img: &Image) -> (r: Result<Image, CropError>)
    ensures
        outcome(r) == without_margin(img@),
{
    let width = img.width();
    let height = img.height();
    let margin = if width > height {
        LANDSCAPE_MARGIN
    } else {
        PORTRAIT_MARGIN
    };
    if height <= margin {
        Err(CropError::InvalidGeometry)
    } else {
        Ok(img.crop(0, 0, width, height - margin))
    }
}

/// Cuts the image down to the bounding box of the pixels that pass the test.
/// Fails with `NoContentFound` where that box is not valid.
pub fn trim(img: &Image, criterion: Criterion) -> (r: Result<Image, CropError>)
    ensures
        outcome(r) == trimmed(img@, criterion),
{
    let width = img.width();
    let height = img.height();
    let b = scan(img, criterion);
    if b.is_valid() {
        proof {
            lemma_valid_box_within(img@, criterion);
        }
        Ok(img.crop(b.min_x, b.min_y, b.max_x - b.min_x + 1, b.max_y - b.min_y + 1))
    } else {
        Err(CropError::NoContentFound)
    }
}

/// The fixed strategy: takes the margin off the bottom of the image, then
/// trims what is fully transparent from the rest.
pub fn crop_fixed(img: &Image) -> (r: Result<Image, CropError>)
    ensures
        outcome(r) == spec_crop_fixed(img@),
{
    match remove_margin(img) {
        Ok(rest) => trim(&rest, Criterion::Opaque),
        Err(e) => Err(e),
    }
}

/// The threshold strategy: trims the pixels whose red, green and blue all
/// stay at or below the brightness threshold.
pub fn crop_dark_tol(img: &Image) -> (r: Result<Image, CropError>)
    ensures
        outcome(r) == spec_crop_dark_tol(img@),
{
    trim(img, Criterion::Bright)
}

/// The grayscale strategy: trims the pixels whose luma is zero.
pub fn crop_grayscale(img: &Image) -> (r: Result<Image, CropError>)
    ensures
        outcome(r) == spec_crop_grayscale(img@),
{
    trim(img, Criterion::NonBlack)
}

/// The contour strategy, given the contours traced on the mask of the image:
/// keeps the extent of the contour of largest area, the first of them where
/// several share it. Fails with `NoContoursFound` where there is no contour,
/// and with `InvalidGeometry` where the chosen contour has no point or does
/// not lie inside the image.
pub fn crop_contour(img: &Image, contours: &Vec<Vec<Point>>) -> (r: Result<Image, CropError>)
    ensures
        outcome(r) == spec_crop_contour(img@, rows_of(*contours)),
{
    let width = img.width();
    let height = img.height();
    match largest_contour(contours) {
        None => Err(CropError::NoContoursFound),
        Some(i) => match contour_extent(&contours[i]) {
            None => Err(CropError::InvalidGeometry),
            Some(e) => {
                proof {
                    lemma_extent(contours[i as int]@, contours[i as int].len() as nat);
                }
                if 0 <= e.min_x && 0 <= e.min_y && (e.max_x as i64) < (width as i64) && (
                e.max_y as i64) < (height as i64) {
                    let x = e.min_x as u32;
                    let y = e.min_y as u32;
                    Ok(img.crop(x, y, e.max_x as u32 - x + 1, e.max_y as u32 - y + 1))
                } else {
                    Err(CropError::InvalidGeometry)
                }
            },
        },
    }
}

/// The dispatcher: runs the strategy that `method` names. The contour
/// strategy stops at the mask, whose contours the caller traces and hands to
/// [`crop_contour`]; the others run to their result.
pub fn crop_image(img: &Image, method: &CropMethod) -> (step: CropStep)
    ensures
        step@ == spec_crop_image(img@, *method),
{
    match method {
        CropMethod::Fixed => CropStep::Finished(crop_fixed(img)),
        CropMethod::DarkTol => CropStep::Finished(crop_dark_tol(img)),
        CropMethod::Grayscale => CropStep::Finished(crop_grayscale(img)),
        CropMethod::Contour => CropStep::TraceContours(contour_mask(img)),
    }
}

} // verus!
