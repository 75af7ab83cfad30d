//! Conversion of vector drawings into the draw commands of a small display.
//!
//! [`markup::read_document`] reads the markup of a document into a
//! [`scene::SvgDocument`], to which the caller adds the geometry;
//! [`svg_converter::SvgConverter::parse_svg_image`] turns it into an
//! [`image::PebbleImage`], and [`image::PebbleImage::serialize`] writes that
//! out as bytes.

pub mod color;
pub mod encode;
pub mod error;
pub mod fixed;
pub mod image;
pub mod markup;
pub mod number;
pub mod path;
pub mod point;
pub mod prelude;
pub mod scene;
pub mod style;
pub mod svg_converter;
pub mod text;
