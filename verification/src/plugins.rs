//! Built-in pixel-transformation plugins. A plugin is an ordinary function
//! of an options value and a bitmap view, invoked for its effect on the
//! buffer; these built-ins carry no special status.

pub mod circle;
pub mod flip;

pub use circle::CircleOptions;
pub use circle::circle;
pub use flip::FlipOptions;
pub use flip::flip;
