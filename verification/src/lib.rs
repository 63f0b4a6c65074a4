//! An image-manipulation toolkit: raster images are decoded from a container
//! format into one canonical pixel representation, transformed in place by
//! plugins, and re-serialized.

pub mod bitmap;
pub mod color;
pub mod error;
pub mod handler;
pub mod plugins;
pub mod prelude;
pub mod rjimp;

pub use color::Color;
pub use color::ColorRGBA;
pub use error::Error;
pub use error::HandlerError;
pub use handler::ImageHandler;
pub use handler::jpeg::JPEGHandler;
pub use handler::png::PNGHandler;
pub use rjimp::RJimp;
