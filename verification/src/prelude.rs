//! The names most callers need.

pub use crate::color::{Color, PebbleColor, TruncateColor};
pub use crate::error::{Svg2PdcError, Svg2PdcResult};
pub use crate::fixed::Fixed;
pub use crate::image::{DrawCommand, DrawOptions, FillColor, PebbleImage, StrokeColor};
pub use crate::point::{Conversion, FPoint, PebblePoint, Precision};
pub use crate::scene::{Attribute, PathSegment, SvgDocument, SvgNode, TransformListToken, ViewBox};
pub use crate::svg_converter::SvgConverter;
