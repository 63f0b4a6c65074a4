//! One import for the common surface of the library.

pub use crate::bitmap::Bitmap;
pub use crate::bitmap::Scan;
pub use crate::color::Color;
pub use crate::color::ColorRGBA;
pub use crate::error::Error;
pub use crate::error::HandlerError;
pub use crate::handler::ImageHandler;
pub use crate::handler::jpeg::JPEGHandler;
pub use crate::handler::png::PNGHandler;
pub use crate::plugins::circle::CircleOptions;
pub use crate::plugins::circle::circle;
pub use crate::plugins::flip::FlipOptions;
pub use crate::plugins::flip::flip;
pub use crate::rjimp::RJimp;
