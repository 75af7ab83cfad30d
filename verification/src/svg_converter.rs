//! The walk over a document that turns its shapes into draw commands.

use vstd::prelude::*;
use crate::color::TruncateColor;
use crate::error::{error_view, ErrorView, Svg2PdcError};
use crate::fixed::Fixed;
use crate::image::{command_views, CommandView, DrawCommand, DrawOptions, ImageView, PebbleImage};
use crate::number::{number_of, parse_number, parse_text};
use crate::path::{flatten, is_open, outline, outline_is_open, path_points};
use crate::point::{quantize_points, quantized_all, Conversion, FPoint, Precision};
use crate::scene::{attribute_value, SvgDocument, SvgNode, TransformListToken, ViewBox};
use crate::style::{
    after_first, paint_of, presentation, read_group_style, read_shape_style, resolve_paint,
    group_style, shape_style, GroupOptions, Paint,
};
use crate::text::{
    chars_of, find_char, index_of, leading_spaces, lemma_leading_spaces_props,
    lemma_word_length_props, reads, skip_spaces, skip_word, string_of, word_length,
};

verus! {

/// Turns documents into images, on the grid that `precision` names.
#[derive(Debug, Clone, Copy)]
pub struct SvgConverter {
    pub precision: Precision,
}

/// A result with its command and its error as views.
pub open spec fn command_outcome(result: Result<DrawCommand, Svg2PdcError>) -> Result<
    CommandView,
    ErrorView,
> {
    match result {
        Ok(command) => Ok(command@),
        Err(e) => Err(e@),
    }
}

/// A path through `points`, each quantized as `options` say, or the failure
/// of the first point that is rejected.
pub open spec fn path_through(points: Seq<FPoint>, open: bool, options: DrawOptions) -> Result<
    CommandView,
    ErrorView,
> {
    match quantized_all(points, options.precision, options.conversion) {
        Err(e) => Err(e@),
        Ok(quantized) => Ok(CommandView::Path { points: quantized, open, options }),
    }
}

/// The view box of a document: its `viewBox` attribute where it has one,
/// else a box at the origin with the `width` and `height` of the root
/// element, each 0 where the attribute is absent.
pub open spec fn view_box_of(document: &SvgDocument) -> Result<ViewBox, ErrorView> {
    match document.view_box {
        Some(Ok(view_box)) => Ok(view_box),
        Some(Err(reason)) => Err(ErrorView::InvalidViewBox(reason@)),
        None => match dimension(attribute_value(document.root.attributes@, "width"@)) {
            Err(e) => Err(e),
            Ok(w) => match dimension(attribute_value(document.root.attributes@, "height"@)) {
                Err(e) => Err(e),
                Ok(h) => Ok(ViewBox { x: Fixed { raw: 0 }, y: Fixed { raw: 0 }, w, h }),
            },
        },
    }
}

/// A width or a height: 0 where it is absent, a failure that holds the text
/// where the text is no number.
pub open spec fn dimension(value: Option<Seq<char>>) -> Result<Fixed, ErrorView> {
    match value {
        None => Ok(Fixed { raw: 0 }),
        Some(text) => match number_of(text) {
            Some(number) => Ok(number),
            None => Err(ErrorView::ParseError(text)),
        },
    }
}

/// The offset of the first translation among `tokens`; the origin where
/// there is none. All other items of a transform are left out of account.
pub open spec fn first_translation(tokens: Seq<TransformListToken>) -> FPoint
    decreases tokens.len(),
{
    if tokens.len() == 0 {
        FPoint { x: Fixed { raw: 0 }, y: Fixed { raw: 0 } }
    } else {
        match tokens[0] {
            TransformListToken::Translate { tx, ty } => FPoint { x: tx, y: ty },
            _ => first_translation(tokens.drop_first()),
        }
    }
}

/// The offset that `node` adds for itself and what is inside it.
pub open spec fn child_translation(node: &SvgNode) -> Result<FPoint, ErrorView> {
    match node.transform {
        Ok(tokens) => Ok(first_translation(tokens@)),
        Err(reason) => Err(ErrorView::SvgTypesError(reason@)),
    }
}

/// The point that `word` spells as `x,y`; what follows a second comma is
/// left out.
pub open spec fn point_of(word: Seq<char>) -> Option<FPoint> {
    let x = number_of(word.take(index_of(word, ',')));
    let y = number_of(after_first(word, ',').take(index_of(after_first(word, ','), ',')));
    if x is Some && y is Some {
        Some(FPoint { x: x->0, y: y->0 })
    } else {
        None
    }
}

/// The points that `text` lists, which white space separates; `None` where
/// one of them cannot be read.
pub open spec fn points_in(text: Seq<char>) -> Option<Seq<FPoint>>
    decreases text.len(),
    via points_in_decreases
{
    let rest = text.skip(leading_spaces(text));
    if rest.len() == 0 {
        Some(Seq::empty())
    } else {
        match point_of(rest.take(word_length(rest))) {
            None => None,
            Some(point) => match points_in(rest.skip(word_length(rest))) {
                None => None,
                Some(others) => Some(seq![point] + others),
            },
        }
    }
}

#[via_fn]
proof fn points_in_decreases(text: Seq<char>) {
    lemma_leading_spaces_props(text);
    let rest = text.skip(leading_spaces(text));
    lemma_word_length_props(rest);
    if rest.len() > 0 {
        assert(rest[0] == text[leading_spaces(text)]);
    }
}

/// A number that a line or a rectangle cannot do without.
pub open spec fn required_number(node: &SvgNode, name: Seq<char>) -> Result<Fixed, ErrorView> {
    match attribute_value(node.attributes@, name) {
        None => Err(ErrorView::InvalidPolyline(node.tag@)),
        Some(text) => match number_of(text) {
            Some(number) => Ok(number),
            None => Err(ErrorView::InvalidPolyline(node.tag@)),
        },
    }
}

/// A number that a circle cannot do without.
pub open spec fn circle_number(value: Option<Seq<char>>) -> Result<Fixed, ErrorView> {
    match value {
        None => Err(ErrorView::UnsupportedCircle),
        Some(text) => match number_of(text) {
            Some(number) => Ok(number),
            None => Err(ErrorView::UnsupportedCircle),
        },
    }
}

/// The radius of a circle as text: the attribute `r`, else the attribute
/// `z`.
pub open spec fn radius_text(node: &SvgNode) -> Option<Seq<char>> {
    match attribute_value(node.attributes@, "r"@) {
        Some(text) => Some(text),
        None => attribute_value(node.attributes@, "z"@),
    }
}

/// The command for a `path` element.
pub open spec fn path_command(node: &SvgNode, options: DrawOptions) -> Result<
    CommandView,
    ErrorView,
> {
    match node.path {
        Err(reason) => Err(ErrorView::SvgTypesError(reason@)),
        Ok(segments) => path_through(
            outline(path_points(segments@)),
            is_open(path_points(segments@)),
            options,
        ),
    }
}

/// The command for a `circle` element. Its centre is always quantized on
/// the coarse grid.
pub open spec fn circle_command(node: &SvgNode, options: DrawOptions) -> Result<
    CommandView,
    ErrorView,
> {
    let cx = circle_number(attribute_value(node.attributes@, "cx"@));
    let cy = circle_number(attribute_value(node.attributes@, "cy"@));
    let radius = circle_number(radius_text(node));
    if cx is Err || cy is Err || radius is Err {
        Err(ErrorView::UnsupportedCircle)
    } else {
        match (FPoint { x: cx->Ok_0, y: cy->Ok_0 }).spec_pebble_coordinates(
            Precision::Normal,
            options.conversion,
        ) {
            Err(e) => Err(e@),
            Ok(center) => Ok(
                CommandView::Circle {
                    center,
                    radius: radius->Ok_0.spec_truncate(65535) as u16,
                    options,
                },
            ),
        }
    }
}

/// The command for a `polyline` (open) or a `polygon` (closed).
pub open spec fn polyline_command(node: &SvgNode, open: bool, options: DrawOptions) -> Result<
    CommandView,
    ErrorView,
> {
    match attribute_value(node.attributes@, "points"@) {
        None => Err(ErrorView::InvalidPolyline(node.tag@)),
        Some(text) => match points_in(text) {
            None => Err(ErrorView::ParseError(text)),
            Some(points) => path_through(points, open, options),
        },
    }
}

/// The command for a `line`: an open path from `(x1, y1)` to `(x2, y2)`.
pub open spec fn line_command(node: &SvgNode, options: DrawOptions) -> Result<
    CommandView,
    ErrorView,
> {
    let x1 = required_number(node, "x1"@);
    let y1 = required_number(node, "y1"@);
    let x2 = required_number(node, "x2"@);
    let y2 = required_number(node, "y2"@);
    if x1 is Err || y1 is Err || x2 is Err || y2 is Err {
        Err(ErrorView::InvalidPolyline(node.tag@))
    } else {
        path_through(
            seq![FPoint { x: x1->Ok_0, y: y1->Ok_0 }, FPoint { x: x2->Ok_0, y: y2->Ok_0 }],
            true,
            options,
        )
    }
}

/// The four corners of a rectangle, clockwise from `(x, y)`.
pub open spec fn corners(x: Fixed, y: Fixed, width: Fixed, height: Fixed) -> Seq<FPoint> {
    seq![
        FPoint { x, y },
        FPoint { x: x.spec_add(width), y },
        FPoint { x: x.spec_add(width), y: y.spec_add(height) },
        FPoint { x, y: y.spec_add(height) },
    ]
}

/// The command for a `rect`: a closed path through its four corners.
pub open spec fn rect_command(node: &SvgNode, options: DrawOptions) -> Result<
    CommandView,
    ErrorView,
> {
    let x = required_number(node, "x"@);
    let y = required_number(node, "y"@);
    let width = required_number(node, "width"@);
    let height = required_number(node, "height"@);
    if x is Err || y is Err || width is Err || height is Err {
        Err(ErrorView::InvalidPolyline(node.tag@))
    } else {
        path_through(corners(x->Ok_0, y->Ok_0, width->Ok_0, height->Ok_0), false, options)
    }
}

fn read_dimension(value: Option<Vec<char>>) -> (result: Result<Fixed, Svg2PdcError>)
    ensures
        error_view(result) == dimension(
            match value {
                Some(v) => Some(v@),
                None => None,
            },
        ),
{
    match value {
        None => Ok(Fixed::zero()),
        Some(text) => match parse_text(&text) {
            Some(number) => Ok(number),
            None => Err(Svg2PdcError::ParseError(string_of(&text))),
        },
    }
}

fn read_required(node: &SvgNode, name: &str) -> (result: Result<Fixed, Svg2PdcError>)
    ensures
        error_view(result) == required_number(node, name@),
{
    match node.attribute(name) {
        None => Err(Svg2PdcError::InvalidPolyline(node.tag.clone())),
        Some(text) => match parse_text(&text) {
            Some(number) => Ok(number),
            None => Err(Svg2PdcError::InvalidPolyline(node.tag.clone())),
        },
    }
}

fn read_circle_number(value: Option<Vec<char>>) -> (result: Result<Fixed, Svg2PdcError>)
    ensures
        error_view(result) == circle_number(
            match value {
                Some(v) => Some(v@),
                None => None,
            },
        ),
{
    match value {
        None => Err(Svg2PdcError::UnsupportedCircle),
        Some(text) => match parse_text(&text) {
            Some(number) => Ok(number),
            None => Err(Svg2PdcError::UnsupportedCircle),
        },
    }
}

fn read_point(chars: &Vec<char>, from: usize, to: usize) -> (point: Option<FPoint>)
    requires
        from <= to <= chars.len(),
    ensures
        point == point_of(chars@.subrange(from as int, to as int)),
{
    let ghost word = chars@.subrange(from as int, to as int);
    let comma = find_char(chars, from, to, ',');
    assert(word.take(index_of(word, ',')) =~= chars@.subrange(from as int, comma as int));
    let x = parse_number(chars, from, comma);
    let rest_from: usize = if comma < to {
        comma + 1
    } else {
        to
    };
    let ghost rest = after_first(word, ',');
    assert(rest =~= chars@.subrange(rest_from as int, to as int));
    let second = find_char(chars, rest_from, to, ',');
    assert(rest.take(index_of(rest, ',')) =~= chars@.subrange(rest_from as int, second as int));
    let y = parse_number(chars, rest_from, second);
    match (x, y) {
        (Some(x), Some(y)) => Some(FPoint { x, y }),
        _ => None,
    }
}

fn path_of(points: &Vec<FPoint>, count: usize, open: bool, options: DrawOptions) -> (result:
    Result<DrawCommand, Svg2PdcError>)
    requires
        count <= points.len(),
    ensures
        command_outcome(result) == path_through(points@.take(count as int), open, options),
{
    match quantize_points(points, count, &options.precision, &options.conversion) {
        Ok(quantized) => Ok(DrawCommand::Path { points: quantized, open, options }),
        Err(e) => Err(e),
    }
}

impl SvgConverter {
    pub fn new(precision: Precision) -> (converter: SvgConverter)
        ensures
            converter.precision == precision,
    {
        SvgConverter { precision }
    }

    /// Reads the view box of `document`.
    pub fn get_viewbox(document: &SvgDocument) -> (result: Result<ViewBox, Svg2PdcError>)
        ensures
            error_view(result) == view_box_of(document),
    {
        match &document.view_box {
            Some(Ok(view_box)) => Ok(*view_box),
            Some(Err(reason)) => Err(Svg2PdcError::InvalidViewBox(reason.clone())),
            None => {
                let w = read_dimension(document.root.attribute("width"))?;
                let h = read_dimension(document.root.attribute("height"))?;
                Ok(ViewBox { x: Fixed::zero(), y: Fixed::zero(), w, h })
            },
        }
    }

    /// Reads the offset that `child` adds for itself and what is inside it.
    pub fn get_child_translation(&self, child: &SvgNode) -> (result: Result<FPoint, Svg2PdcError>)
        ensures
            error_view(result) == child_translation(child),
    {
        match &child.transform {
            Err(reason) => Err(Svg2PdcError::SvgTypesError(reason.clone())),
            Ok(tokens) => {
                let mut i: usize = 0;
                assert(tokens@.skip(0) =~= tokens@);
                while i < tokens.len()
                    invariant
                        i <= tokens.len(),
                        child_translation(child) == Ok::<FPoint, ErrorView>(
                            first_translation(tokens@),
                        ),
                        first_translation(tokens@) == first_translation(tokens@.skip(i as int)),
                    decreases tokens.len() - i,
                {
                    let ghost rest = tokens@.skip(i as int);
                    assert(rest[0] == tokens@[i as int]);
                    assert(rest.drop_first() =~= tokens@.skip(i + 1));
                    match tokens[i] {
                        TransformListToken::Translate { tx, ty } => {
                            return Ok(FPoint::new(tx, ty));
                        },
                        _ => {},
                    }
                    i += 1;
                }
                Ok(FPoint::origin())
            },
        }
    }

    /// Reads a list of points `x,y` that white space separates. Where one
    /// of them cannot be read, the failure holds the whole text.
    pub fn get_points_from_str(&self, points: &str) -> (result: Result<Vec<FPoint>, Svg2PdcError>)
        ensures
            match points_in(points@) {
                Some(listed) => result matches Ok(v) && v@ == listed,
                None => result matches Err(e) && e@ == ErrorView::ParseError(points@),
            },
    {
        let chars = chars_of(points);
        match read_points(&chars) {
            Some(listed) => Ok(listed),
            None => Err(Svg2PdcError::ParseError(string_of(&chars))),
        }
    }

    /// The command for a `path` element.
    pub fn parse_path(&self, node: &SvgNode, options: DrawOptions) -> (result: Result<
        DrawCommand,
        Svg2PdcError,
    >)
        ensures
            command_outcome(result) == path_command(node, options),
    {
        match &node.path {
            Err(reason) => Err(Svg2PdcError::SvgTypesError(reason.clone())),
            Ok(segments) => {
                let points = flatten(segments);
                let open = outline_is_open(&points);
                let count: usize = if open || points.len() == 0 {
                    points.len()
                } else {
                    points.len() - 1
                };
                assert(points@.take(count as int) =~= outline(points@));
                path_of(&points, count, open, options)
            },
        }
    }

    /// The command for a `circle` element.
    pub fn parse_circle(&self, node: &SvgNode, options: DrawOptions) -> (result: Result<
        DrawCommand,
        Svg2PdcError,
    >)
        ensures
            command_outcome(result) == circle_command(node, options),
    {
        let cx = read_circle_number(node.attribute("cx"))?;
        let cy = read_circle_number(node.attribute("cy"))?;
        let radius_text = match node.attribute("r") {
            Some(text) => Some(text),
            None => node.attribute("z"),
        };
        let radius = read_circle_number(radius_text)?;
        let center = FPoint::new(cx, cy).pebble_coordinates(
            &Precision::Normal,
            &options.conversion,
        )?;
        Ok(DrawCommand::Circle { center, radius: radius.to_u16(), options })
    }

    /// The command for a `polyline` element: an open path.
    pub fn parse_polyline(&self, node: &SvgNode, options: DrawOptions) -> (result: Result<
        DrawCommand,
        Svg2PdcError,
    >)
        ensures
            command_outcome(result) == polyline_command(node, true, options),
    {
        self.parse_point_list(node, true, options)
    }

    /// The command for a `polygon` element: a closed path.
    pub fn parse_polygon(&self, node: &SvgNode, options: DrawOptions) -> (result: Result<
        DrawCommand,
        Svg2PdcError,
    >)
        ensures
            command_outcome(result) == polyline_command(node, false, options),
    {
        self.parse_point_list(node, false, options)
    }

    fn parse_point_list(&self, node: &SvgNode, open: bool, options: DrawOptions) -> (result:
        Result<DrawCommand, Svg2PdcError>)
        ensures
            command_outcome(result) == polyline_command(node, open, options),
    {
        let text = match node.attribute("points") {
            None => {
                return Err(Svg2PdcError::InvalidPolyline(node.tag.clone()));
            },
            Some(text) => text,
        };
        let points = match read_points(&text) {
            None => {
                return Err(Svg2PdcError::ParseError(string_of(&text)));
            },
            Some(points) => points,
        };
        assert(points@.take(points@.len() as int) =~= points@);
        path_of(&points, points.len(), open, options)
    }

    /// The command for a `line` element.
    pub fn parse_line(&self, node: &SvgNode, options: DrawOptions) -> (result: Result<
        DrawCommand,
        Svg2PdcError,
    >)
        ensures
            command_outcome(result) == line_command(node, options),
    {
        let x1 = read_required(node, "x1")?;
        let y1 = read_required(node, "y1")?;
        let x2 = read_required(node, "x2")?;
        let y2 = read_required(node, "y2")?;
        let mut points: Vec<FPoint> = Vec::new();
        points.push(FPoint::new(x1, y1));
        points.push(FPoint::new(x2, y2));
        assert(points@.take(2) =~= seq![FPoint { x: x1, y: y1 }, FPoint { x: x2, y: y2 }]);
        path_of(&points, 2, true, options)
    }

    /// The command for a `rect` element.
    pub fn parse_rect(&self, node: &SvgNode, options: DrawOptions) -> (result: Result<
        DrawCommand,
        Svg2PdcError,
    >)
        ensures
            command_outcome(result) == rect_command(node, options),
    {
        let x = read_required(node, "x")?;
        let y = read_required(node, "y")?;
        let width = read_required(node, "width")?;
        let height = read_required(node, "height")?;
        let mut points: Vec<FPoint> = Vec::new();
        points.push(FPoint::new(x, y));
        points.push(FPoint::new(x.add(width), y));
        points.push(FPoint::new(x.add(width), y.add(height)));
        points.push(FPoint::new(x, y.add(height)));
        assert(points@.take(4) =~= corners(x, y, width, height));
        path_of(&points, 4, false, options)
    }
}

fn read_points(chars: &Vec<char>) -> (result: Option<Vec<FPoint>>)
    ensures
        match points_in(chars@) {
            Some(listed) => result matches Some(v) && v@ == listed,
            None => result is None,
        },
{
    let len = chars.len();
    let mut listed: Vec<FPoint> = Vec::new();
    let mut from: usize = 0;
    assert(chars@.skip(0) =~= chars@);
    loop
        invariant_except_break
            from <= len == chars.len(),
            match points_in(chars@.skip(from as int)) {
                Some(others) => points_in(chars@) == Some(listed@ + others),
                None => points_in(chars@) is None,
            },
        ensures
            points_in(chars@) == Some(listed@),
        decreases len - from,
    {
        let ghost text = chars@.skip(from as int);
        assert(text =~= chars@.subrange(from as int, len as int));
        let start = skip_spaces(chars, from, len);
        let ghost rest = text.skip(leading_spaces(text));
        assert(rest =~= chars@.subrange(start as int, len as int));
        if start >= len {
            assert(listed@ + Seq::<FPoint>::empty() =~= listed@);
            break;
        }
        let end = skip_word(chars, start, len);
        proof {
            lemma_word_length_props(rest);
            assert(rest[0] == chars@[start as int]);
        }
        assert(rest.take(word_length(rest)) =~= chars@.subrange(start as int, end as int));
        assert(rest.skip(word_length(rest)) =~= chars@.skip(end as int));
        match read_point(chars, start, end) {
            None => {
                return None;
            },
            Some(point) => {
                let ghost before = listed@;
                listed.push(point);
                assert forall|others: Seq<FPoint>|
                    before + (seq![point] + others) =~= #[trigger] (listed@ + others) by {}
            },
        }
        from = end;
    }
    Some(listed)
}

/// A result with its optional command and its error as views.
pub open spec fn optional_outcome(result: Result<Option<DrawCommand>, Svg2PdcError>) -> Result<
    Option<CommandView>,
    ErrorView,
> {
    match result {
        Ok(Some(command)) => Ok(Some(command@)),
        Ok(None) => Ok(None),
        Err(e) => Err(e@),
    }
}

/// A result with its commands and its error as views.
pub open spec fn commands_outcome(result: Result<Vec<DrawCommand>, Svg2PdcError>) -> Result<
    Seq<CommandView>,
    ErrorView,
> {
    match result {
        Ok(commands) => Ok(command_views(commands@)),
        Err(e) => Err(e@),
    }
}

/// A result with its image and its error as views.
pub open spec fn image_outcome(result: Result<PebbleImage, Svg2PdcError>) -> Result<
    ImageView,
    ErrorView,
> {
    match result {
        Ok(image) => Ok(image@),
        Err(e) => Err(e@),
    }
}

/// A command where there is one.
pub open spec fn present(result: Result<CommandView, ErrorView>) -> Result<
    Option<CommandView>,
    ErrorView,
> {
    match result {
        Ok(command) => Ok(Some(command)),
        Err(e) => Err(e),
    }
}

/// The options of a command that is painted with `paint`.
pub open spec fn options_of(
    paint: Paint,
    translation: FPoint,
    precision: Precision,
    conversion: Conversion,
) -> DrawOptions {
    DrawOptions {
        translate: translation,
        stroke_width: paint.stroke_width,
        stroke_color: paint.stroke_color,
        fill_color: paint.fill_color,
        precision,
        conversion,
    }
}

/// The paint that `options` hold.
pub open spec fn paint_in(options: DrawOptions) -> Paint {
    Paint {
        stroke_width: options.stroke_width,
        stroke_color: options.stroke_color,
        fill_color: options.fill_color,
    }
}

/// Whether every command of `commands` is painted with a settled paint: no
/// stroke colour without a stroke width, no stroke width without a stroke
/// colour, and no fill that is black.
pub open spec fn all_settled(commands: Seq<CommandView>) -> bool {
    forall|i: int| 0 <= i < commands.len() ==> paint_in(#[trigger] commands[i].options()).is_settled()
}

/// Whether `tag` names an element that holds other elements.
pub open spec fn is_container(tag: Seq<char>) -> bool {
    tag == "g"@ || tag == "layer"@
}

/// Whether `node` is kept out of the image by its `display` attribute.
pub open spec fn is_hidden(node: &SvgNode) -> bool {
    attribute_value(node.attributes@, "display"@) == Some("none"@)
}

/// The command that the tag of `node` asks for, with `options`; none where
/// the tag names no shape.
pub open spec fn dispatched(node: &SvgNode, options: DrawOptions) -> Result<
    Option<CommandView>,
    ErrorView,
> {
    if node.tag@ == "path"@ {
        present(path_command(node, options))
    } else if node.tag@ == "circle"@ {
        present(circle_command(node, options))
    } else if node.tag@ == "polyline"@ {
        present(polyline_command(node, true, options))
    } else if node.tag@ == "polygon"@ {
        present(polyline_command(node, false, options))
    } else if node.tag@ == "line"@ {
        present(line_command(node, options))
    } else if node.tag@ == "rect"@ {
        present(rect_command(node, options))
    } else {
        Ok(None)
    }
}

/// The command for the shape `node`, if its tag names a shape.
///
/// Its paint comes from what `node` says of itself laid over what `group`
/// hands down. A failure in what it says comes before any failure in its
/// geometry. A tag that names no shape gives no command.
pub open spec fn shape_command(
    precision: Precision,
    translation: FPoint,
    policy: TruncateColor,
    group: GroupOptions,
    conversion: Conversion,
    node: &SvgNode,
) -> Result<Option<CommandView>, ErrorView> {
    match shape_style(presentation(node.attributes@)) {
        Err(e) => Err(e),
        Ok(own) => {
            dispatched(
                node,
                options_of(
                    paint_of(own.spec_over(group), policy),
                    translation,
                    precision,
                    conversion,
                ),
            )
        },
    }
}

/// The commands that `node` gives, itself or through what is inside it.
///
/// A hidden node gives none, nor does anything inside it. A container lays
/// what it says over what it inherits, adds its offset to the one it is
/// given, and hands both down. Anything else is taken for a shape, at the
/// given offset plus its own.
pub open spec fn node_commands(
    precision: Precision,
    translation: FPoint,
    policy: TruncateColor,
    group: GroupOptions,
    conversion: Conversion,
    node: SvgNode,
) -> Result<Seq<CommandView>, ErrorView>
    decreases node,
{
    if is_hidden(&node) {
        Ok(Seq::empty())
    } else if is_container(node.tag@) {
        match group_style(node.attributes@) {
            Err(e) => Err(e),
            Ok(own) => match child_translation(&node) {
                Err(e) => Err(e),
                Ok(offset) => children_commands(
                    precision,
                    offset.spec_add(translation),
                    policy,
                    own.spec_over(group),
                    conversion,
                    node.children@,
                    node.children@.len() as int,
                ),
            },
        }
    } else {
        match child_translation(&node) {
            Err(e) => Err(e),
            Ok(offset) => match shape_command(
                precision,
                offset.spec_add(translation),
                policy,
                group,
                conversion,
                &node,
            ) {
                Err(e) => Err(e),
                Ok(None) => Ok(Seq::empty()),
                Ok(Some(command)) => Ok(seq![command]),
            },
        }
    }
}

/// The commands that the first `count` of `children` give, in document
/// order, or the first failure among them.
pub open spec fn children_commands(
    precision: Precision,
    translation: FPoint,
    policy: TruncateColor,
    group: GroupOptions,
    conversion: Conversion,
    children: Seq<SvgNode>,
    count: int,
) -> Result<Seq<CommandView>, ErrorView>
    decreases children, count,
{
    if count <= 0 || count > children.len() {
        Ok(Seq::empty())
    } else {
        match children_commands(
            precision,
            translation,
            policy,
            group,
            conversion,
            children,
            count - 1,
        ) {
            Err(e) => Err(e),
            Ok(head) => match node_commands(
                precision,
                translation,
                policy,
                group,
                conversion,
                children[count - 1],
            ) {
                Err(e) => Err(e),
                Ok(tail) => Ok(head + tail),
            },
        }
    }
}

/// Once a child has failed, so does every longer run of children.
pub proof fn lemma_children_failure_stays(
    precision: Precision,
    translation: FPoint,
    policy: TruncateColor,
    group: GroupOptions,
    conversion: Conversion,
    children: Seq<SvgNode>,
    failed: int,
    count: int,
)
    requires
        0 <= failed <= count <= children.len(),
        children_commands(precision, translation, policy, group, conversion, children, failed)
            is Err,
    ensures
        children_commands(precision, translation, policy, group, conversion, children, count)
            == children_commands(
            precision,
            translation,
            policy,
            group,
            conversion,
            children,
            failed,
        ),
    decreases count - failed,
{
    if failed < count {
        lemma_children_failure_stays(
            precision,
            translation,
            policy,
            group,
            conversion,
            children,
            failed,
            count - 1,
        );
    }
}

/// The image that `document` describes.
///
/// Its size is the width and height of the view box, quantized like a
/// point. Its commands are those of the children of the root element,
/// moved so that the corner of the view box comes to lie at the origin.
pub open spec fn image_of(
    precision: Precision,
    document: &SvgDocument,
    policy: TruncateColor,
    conversion: Conversion,
) -> Result<ImageView, ErrorView> {
    match view_box_of(document) {
        Err(e) => Err(e),
        Ok(view_box) => match (FPoint { x: view_box.w, y: view_box.h }).spec_pebble_coordinates(
            precision,
            conversion,
        ) {
            Err(e) => Err(e@),
            Ok(size) => match children_commands(
                precision,
                FPoint { x: view_box.x.spec_neg(), y: view_box.y.spec_neg() },
                policy,
                GroupOptions::spec_empty(),
                conversion,
                document.root.children@,
                document.root.children@.len() as int,
            ) {
                Err(e) => Err(e),
                Ok(commands) => Ok(ImageView { size, commands }),
            },
        },
    }
}

impl SvgConverter {
    /// Makes the command for a shape.
    ///
    /// An element whose stroke resolves to no width has no stroke colour,
    /// and the other way round; a fill that comes out black is no fill.
    pub fn create_command(
        &self,
        translation: &FPoint,
        truncate_color: &TruncateColor,
        group_options: &GroupOptions,
        conversion: &Conversion,
        node: &SvgNode,
    ) -> (result: Result<Option<DrawCommand>, Svg2PdcError>)
        ensures
            optional_outcome(result) == shape_command(
                self.precision,
                *translation,
                *truncate_color,
                *group_options,
                *conversion,
                node,
            ),
            result matches Ok(Some(command)) ==> paint_in(command@.options()).is_settled(),
    {
        let own = read_shape_style(node)?;
        let paint = resolve_paint(&own.over(group_options), truncate_color);
        let options = DrawOptions {
            translate: *translation,
            stroke_width: paint.stroke_width,
            stroke_color: paint.stroke_color,
            fill_color: paint.fill_color,
            precision: self.precision,
            conversion: *conversion,
        };
        let tag = node.tag.as_str();
        if reads(tag, "path") {
            Ok(Some(self.parse_path(node, options)?))
        } else if reads(tag, "circle") {
            Ok(Some(self.parse_circle(node, options)?))
        } else if reads(tag, "polyline") {
            Ok(Some(self.parse_polyline(node, options)?))
        } else if reads(tag, "polygon") {
            Ok(Some(self.parse_polygon(node, options)?))
        } else if reads(tag, "line") {
            Ok(Some(self.parse_line(node, options)?))
        } else if reads(tag, "rect") {
            Ok(Some(self.parse_rect(node, options)?))
        } else {
            Ok(None)
        }
    }

    /// Walks the children of `node` and collects their commands in document
    /// order.
    pub fn get_commands(
        &self,
        translation: &FPoint,
        truncate_color: &TruncateColor,
        group_options: &GroupOptions,
        conversion: &Conversion,
        node: &SvgNode,
    ) -> (result: Result<Vec<DrawCommand>, Svg2PdcError>)
        ensures
            commands_outcome(result) == children_commands(
                self.precision,
                *translation,
                *truncate_color,
                *group_options,
                *conversion,
                node.children@,
                node.children@.len() as int,
            ),
            result matches Ok(commands) ==> all_settled(command_views(commands@)),
        decreases node,
    {
        let mut commands: Vec<DrawCommand> = Vec::new();
        let mut i: usize = 0;
        assert(command_views(commands@) =~= Seq::empty());
        while i < node.children.len()
            invariant
                i <= node.children.len(),
                children_commands(
                    self.precision,
                    *translation,
                    *truncate_color,
                    *group_options,
                    *conversion,
                    node.children@,
                    i as int,
                ) == Ok::<Seq<CommandView>, ErrorView>(command_views(commands@)),
                all_settled(command_views(commands@)),
            decreases node.children.len() - i,
        {
            let child = &node.children[i];
            let ghost before = command_views(commands@);
            let ghost whole = children_commands(
                self.precision,
                *translation,
                *truncate_color,
                *group_options,
                *conversion,
                node.children@,
                node.children@.len() as int,
            );
            let ghost next = children_commands(
                self.precision,
                *translation,
                *truncate_color,
                *group_options,
                *conversion,
                node.children@,
                i + 1,
            );
            let ghost one = node_commands(
                self.precision,
                *translation,
                *truncate_color,
                *group_options,
                *conversion,
                *child,
            );
            assert(next == match one {
                Err(e) => Err::<Seq<CommandView>, ErrorView>(e),
                Ok(tail) => Ok(before + tail),
            });
            proof {
                if one is Err {
                    lemma_children_failure_stays(
                        self.precision,
                        *translation,
                        *truncate_color,
                        *group_options,
                        *conversion,
                        node.children@,
                        i + 1,
                        node.children@.len() as int,
                    );
                }
            }
            let hidden = match child.attribute("display") {
                Some(value) => {
                    let none = chars_of("none");
                    crate::text::same_chars(&value, &none)
                },
                None => false,
            };
            if hidden {
                assert(before + Seq::<CommandView>::empty() =~= before);
            } else if reads(child.tag.as_str(), "g") || reads(child.tag.as_str(), "layer") {
                let own = read_group_style(child)?;
                let offset = self.get_child_translation(child)?;
                let mut inner = self.get_commands(
                    &offset.add(*translation),
                    truncate_color,
                    &own.over(group_options),
                    conversion,
                    child,
                )?;
                let ghost tail = command_views(inner@);
                commands.append(&mut inner);
                assert(command_views(commands@) =~= before + tail);
            } else {
                let offset = self.get_child_translation(child)?;
                let command = self.create_command(
                    &offset.add(*translation),
                    truncate_color,
                    group_options,
                    conversion,
                    child,
                )?;
                match command {
                    Some(command) => {
                        let ghost view = command@;
                        commands.push(command);
                        assert(command_views(commands@) =~= before + seq![view]);
                    },
                    None => {
                        assert(before + Seq::<CommandView>::empty() =~= before);
                    },
                }
            }
            i += 1;
        }
        Ok(commands)
    }

    /// Converts a document into an image.
    ///
    /// `truncate_color` says how colours go onto the palette, `conversion`
    /// what becomes of points off the grid. The first failure met in
    /// document order ends the conversion.
    pub fn parse_svg_image(
        &self,
        document: &SvgDocument,
        truncate_color: &TruncateColor,
        conversion: &Conversion,
    ) -> (result: Result<PebbleImage, Svg2PdcError>)
        ensures
            image_outcome(result) == image_of(
                self.precision,
                document,
                *truncate_color,
                *conversion,
            ),
            result matches Ok(image) ==> all_settled(image@.commands),
    {
        let view_box = SvgConverter::get_viewbox(document)?;
        let translation = FPoint::new(view_box.x.neg(), view_box.y.neg());
        let size = FPoint::new(view_box.w, view_box.h).pebble_coordinates(
            &self.precision,
            conversion,
        )?;
        let commands = self.get_commands(
            &translation,
            truncate_color,
            &GroupOptions::empty(),
            conversion,
            &document.root,
        )?;
        Ok(PebbleImage { size, commands })
    }
}

/// What is written for a command with a settled paint: the byte of the
/// stroke width is 0 exactly where the byte of the stroke colour is 0, and
/// a fill byte whose red, green and blue are at level 0 is 0.
pub proof fn lemma_written_paint(command: CommandView)
    requires
        paint_in(command.options()).is_settled(),
        command.bytes() is Ok,
    ensures
        command.bytes()->Ok_0[3] == 0 <==> command.bytes()->Ok_0[2] == 0,
        command.bytes()->Ok_0[4] as int % 64 == 0 ==> command.bytes()->Ok_0[4] == 0,
{
    crate::image::lemma_paint_in_bytes(command);
}

/// A command carries the options it was made with.
pub proof fn lemma_commands_keep_options(node: &SvgNode, open: bool, options: DrawOptions)
    ensures
        path_command(node, options) matches Ok(c) ==> c.options() == options,
        circle_command(node, options) matches Ok(c) ==> c.options() == options,
        polyline_command(node, open, options) matches Ok(c) ==> c.options() == options,
        line_command(node, options) matches Ok(c) ==> c.options() == options,
        rect_command(node, options) matches Ok(c) ==> c.options() == options,
{
}

/// The command of a shape carries the options that its tag was handed.
pub proof fn lemma_dispatch_keeps_options(node: &SvgNode, options: DrawOptions)
    ensures
        dispatched(node, options) matches Ok(Some(command)) ==> command.options() == options,
{
    lemma_commands_keep_options(node, true, options);
    lemma_commands_keep_options(node, false, options);
}

/// Every command that a shape gives is painted with a settled paint.
pub proof fn lemma_shape_command_settled(
    precision: Precision,
    translation: FPoint,
    policy: TruncateColor,
    group: GroupOptions,
    conversion: Conversion,
    node: &SvgNode,
)
    ensures
        shape_command(precision, translation, policy, group, conversion, node) matches Ok(
            Some(command),
        ) ==> paint_in(command.options()).is_settled(),
{
    let own = shape_style(presentation(node.attributes@));
    if own is Ok {
        let paint = paint_of(own->Ok_0.spec_over(group), policy);
        let options = options_of(paint, translation, precision, conversion);
        assert(paint.is_settled()) by {
            crate::style::lemma_stroke_width_and_color_agree(own->Ok_0.spec_over(group), policy);
        }
        assert(paint_in(options) == paint);
        lemma_dispatch_keeps_options(node, options);
    }
}

} // verus!
