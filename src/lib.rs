//! A print filter for TSPL label printers: page setup commands, halftoned
//! bitmap rows and page framing, driven page by page from raster input.
pub mod text;
pub mod ppd;
pub mod halftone;
pub mod tspl;
pub mod job;
