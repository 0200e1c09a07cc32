//! How a grid is shown: the geometry that a renderer needs, free of any
//! drawing.

pub mod widget;
