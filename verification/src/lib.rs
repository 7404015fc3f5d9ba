//! Content-aware cropping of raster images.
//!
//! An image is cut down to the region that holds its content by one of four
//! strategies, named by a [`cropper::CropMethod`]:
//!
//! * `Fixed` takes a fixed margin off the bottom of the image and trims what
//!   is fully transparent from the rest;
//! * `DarkTol` trims what is near-black;
//! * `Grayscale` trims what is black in grayscale;
//! * `Contour` keeps the largest contour of the image's mask.
//!
//! The first three read the image pixel by pixel and keep the bounding box
//! of the pixels that pass a test ([`scanner::scan`]). For the fourth the
//! crate builds the mask and chooses among the contours; tracing them on the
//! mask is left to the caller.
//!
//! Every function is stated over the [`raster::Grid`] that an image holds,
//! and proved against that statement.

pub mod contour;
pub mod cropper;
pub mod geometry;
pub mod laws;
pub mod pixel;
pub mod raster;
pub mod scanner;
