//! Rasterization of simple geometric primitives — points, lines, triangles,
//! rectangles and circles — onto an abstract pixel surface, with a distinct
//! randomly chosen color per drawn shape, and random generation of primitives
//! within given bounds.

pub mod circle_raster;
pub mod color;
pub mod drawable;
mod entropy;
pub mod line_raster;
pub mod shapes;
pub mod surface;

pub use color::Color;
pub use color::pick_color;
pub use drawable::Drawable;
pub use shapes::Circle;
pub use shapes::Line;
pub use shapes::Point;
pub use shapes::Rectangle;
pub use shapes::ShapeError;
pub use shapes::Triangle;
pub use surface::Canvas;
pub use surface::Displayable;
pub use surface::PixelWrite;
