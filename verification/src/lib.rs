//! Bounding-box and crop-viewport computation for a vector-graphics scene
//! tree.
//!
//! The crate walks a tree of paths, groups, images and text nodes, computes
//! the axis-aligned box that contains the visible ink (two variants: a
//! viewbox-clamped one and a transform-accurate one), and derives a crop
//! viewport (view rectangle and output size) from such a box.
//!
//! All geometry is carried in signed 16.16-style fixed point: an `i64` holds
//! a coordinate scaled by [`fx::SCALE`], and every operation saturates at
//! [`fx::LIM`], so the arithmetic is total and exactly specified.

pub mod fx;
pub mod bounds;
pub mod crop;
pub mod curve;
pub mod geom;
pub mod laws;
pub mod mime;
pub mod outline;
pub mod scene;
pub mod tree;

pub use crop::{CropResult, FitTo};
pub use fx::{LIM, SCALE};
pub use mime::{is_not_data_url, Error, MimeType};
pub use geom::{BBox, Rect, Scalar, Transform};
pub use scene::Resvg;
pub use tree::{Cap, Fill, GroupNode, ImageNode, Node, PathNode, Seg, Stroke, SubRoot, TextNode, Tree};
