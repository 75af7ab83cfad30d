//! The failures a conversion can end in.

use vstd::prelude::*;
use crate::point::FPoint;

verus! {

/// The failure type of `roxmltree`. Nothing is known of a value of it here:
/// this crate only hands it on.
#[verifier::external_type_specification]
#[verifier::external_body]
pub struct ExXmlError(roxmltree::Error);

/// Why a document, or one value of it, was rejected.
#[derive(Debug)]
pub enum Svg2PdcError {
    /// A point lies off the snapping grid and the strict policy is in force.
    InvalidPoint { point: FPoint, nearest_valid: FPoint },
    /// The markup of the document is not well formed.
    XmlError(roxmltree::Error),
    /// The view box of the document could not be read; holds the reason.
    InvalidViewBox(String),
    /// A line, rectangle, polyline or polygon lacks an attribute it needs;
    /// holds the tag of the element.
    InvalidPolyline(String),
    /// Path data or a transform could not be read; holds the reason.
    SvgTypesError(String),
    /// A colour is not written as hexadecimal digits; holds the text.
    InvalidColor(String),
    /// A circle lacks its centre or radius, or one of them is not a number.
    UnsupportedCircle,
    /// A number or a list of points could not be read; holds the text.
    ParseError(String),
}

pub type Svg2PdcResult<T> = Result<T, Svg2PdcError>;

/// What a [`Svg2PdcError`] says, with its text as a sequence of characters.
pub enum ErrorView {
    InvalidPoint { point: FPoint, nearest_valid: FPoint },
    XmlError(roxmltree::Error),
    InvalidViewBox(Seq<char>),
    InvalidPolyline(Seq<char>),
    SvgTypesError(Seq<char>),
    InvalidColor(Seq<char>),
    UnsupportedCircle,
    ParseError(Seq<char>),
}

impl View for Svg2PdcError {
    type V = ErrorView;

    open spec fn view(&self) -> ErrorView {
        match self {
            Svg2PdcError::InvalidPoint { point, nearest_valid } => ErrorView::InvalidPoint {
                point: *point,
                nearest_valid: *nearest_valid,
            },
            Svg2PdcError::XmlError(e) => ErrorView::XmlError(*e),
            Svg2PdcError::InvalidViewBox(text) => ErrorView::InvalidViewBox(text@),
            Svg2PdcError::InvalidPolyline(text) => ErrorView::InvalidPolyline(text@),
            Svg2PdcError::SvgTypesError(text) => ErrorView::SvgTypesError(text@),
            Svg2PdcError::InvalidColor(text) => ErrorView::InvalidColor(text@),
            Svg2PdcError::UnsupportedCircle => ErrorView::UnsupportedCircle,
            Svg2PdcError::ParseError(text) => ErrorView::ParseError(text@),
        }
    }
}

/// `result` with its error as a view.
pub open spec fn error_view<T>(result: Result<T, Svg2PdcError>) -> Result<T, ErrorView> {
    match result {
        Ok(value) => Ok(value),
        Err(e) => Err(e@),
    }
}

} // verus!
