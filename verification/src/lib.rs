//! A small terminal widget layer: a text layout engine that breaks a string
//! into display lines under several wrap policies, and a panel that stacks
//! texts top to bottom inside a bounded viewport.

pub mod geometry;
pub mod layout;
pub mod paint;
pub mod panel;
pub mod screen;
pub mod text;

pub use geometry::Rect;
pub use layout::Line;
pub use paint::Stroke;
pub use panel::{Borders, Decoration, Padding, Panel, PanelBuilder, PanelWidget};
pub use text::{LayoutError, Text, TextWrap};
