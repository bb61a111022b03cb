//! Integer core of a terminal demo: scan conversion of line segments and
//! triangle outlines into character cells, and the plasma scene's buffer
//! layout, palette lookup and banner placement.
pub mod mesh;
pub mod plasma;
pub mod raster;
pub mod screen;
