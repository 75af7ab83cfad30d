use svg2pdc::color::TruncateColor;
use svg2pdc::error::Svg2PdcError;
use svg2pdc::fixed::Fixed;
use svg2pdc::image::{DrawCommand, DrawOptions};
use svg2pdc::path::{flatten, outline_is_open, segment_target};
use svg2pdc::point::{Conversion, FPoint, PebblePoint, Precision};
use svg2pdc::scene::{
    Attribute, PathSegment, SvgDocument, SvgNode, TransformListToken, ViewBox,
};
use svg2pdc::style::GroupOptions;
use svg2pdc::svg_converter::SvgConverter;

fn fixed(value: f64) -> Fixed {
    Fixed {
        raw: (f64::from(value as f32) * 4_294_967_296.0).round() as i64,
    }
}

fn point(x: f64, y: f64) -> FPoint {
    FPoint::new(fixed(x), fixed(y))
}

fn node(tag: &str, attributes: &[(&str, &str)], children: Vec<SvgNode>) -> SvgNode {
    SvgNode {
        tag: tag.to_string(),
        attributes: attributes
            .iter()
            .map(|(name, value)| Attribute {
                name: name.to_string(),
                value: value.to_string(),
            })
            .collect(),
        transform: Ok(Vec::new()),
        path: Ok(Vec::new()),
        children,
    }
}

fn moved(mut node: SvgNode, x: f64, y: f64) -> SvgNode {
    node.transform = Ok(vec![
        TransformListToken::Scale {
            sx: fixed(2.0),
            sy: fixed(2.0),
        },
        TransformListToken::Translate {
            tx: fixed(x),
            ty: fixed(y),
        },
        TransformListToken::Translate {
            tx: fixed(100.0),
            ty: fixed(100.0),
        },
    ]);
    node
}

fn path(attributes: &[(&str, &str)], segments: Vec<PathSegment>) -> SvgNode {
    let mut node = node("path", attributes, Vec::new());
    node.path = Ok(segments);
    node
}

fn document(children: Vec<SvgNode>) -> SvgDocument {
    SvgDocument {
        view_box: Some(Ok(ViewBox {
            x: fixed(0.0),
            y: fixed(0.0),
            w: fixed(50.0),
            h: fixed(60.0),
        })),
        root: node("svg", &[], children),
    }
}

fn options(translate: FPoint, stroke_width: u8, stroke_color: u8, fill_color: u8) -> DrawOptions {
    DrawOptions {
        translate,
        stroke_width,
        stroke_color,
        fill_color,
        precision: Precision::Normal,
        conversion: Conversion::RequireExact,
    }
}

fn strict() -> (SvgConverter, TruncateColor, Conversion) {
    (
        SvgConverter::new(Precision::Normal),
        TruncateColor::Truncate,
        Conversion::RequireExact,
    )
}

fn points_of(command: &DrawCommand) -> Vec<(u16, u16)> {
    match command {
        DrawCommand::Path { points, .. } => points.iter().map(|p| (p.x, p.y)).collect(),
        DrawCommand::Circle { center, .. } => vec![(center.x, center.y)],
    }
}

fn options_in(command: &DrawCommand) -> DrawOptions {
    match command {
        DrawCommand::Path { options, .. } => *options,
        DrawCommand::Circle { options, .. } => *options,
    }
}

fn is_open(command: &DrawCommand) -> Option<bool> {
    match command {
        DrawCommand::Path { open, .. } => Some(*open),
        DrawCommand::Circle { .. } => None,
    }
}

fn convert(document: &SvgDocument) -> Result<Vec<DrawCommand>, Svg2PdcError> {
    let (converter, policy, conversion) = strict();
    converter
        .parse_svg_image(document, &policy, &conversion)
        .map(|image| image.commands)
}

#[test]
fn segments_end_where_they_say() {
    let current = point(10.0, 20.0);
    let at = |segment: PathSegment| segment_target(&segment, current);
    let (x, y) = (fixed(3.0), fixed(4.0));
    let zero = fixed(0.0);
    assert_eq!(at(PathSegment::MoveTo { abs: true, x, y }), Some(point(3.0, 4.0)));
    assert_eq!(at(PathSegment::MoveTo { abs: false, x, y }), Some(point(13.0, 24.0)));
    assert_eq!(at(PathSegment::LineTo { abs: false, x, y }), Some(point(13.0, 24.0)));
    assert_eq!(
        at(PathSegment::CurveTo { abs: true, x1: zero, y1: zero, x2: zero, y2: zero, x, y }),
        Some(point(3.0, 4.0))
    );
    assert_eq!(
        at(PathSegment::SmoothCurveTo { abs: false, x2: zero, y2: zero, x, y }),
        Some(point(13.0, 24.0))
    );
    assert_eq!(
        at(PathSegment::Quadratic { abs: true, x1: zero, y1: zero, x, y }),
        Some(point(3.0, 4.0))
    );
    assert_eq!(at(PathSegment::SmoothQuadratic { abs: false, x, y }), Some(point(13.0, 24.0)));
    assert_eq!(
        at(PathSegment::EllipticalArc {
            abs: true,
            rx: zero,
            ry: zero,
            x_axis_rotation: zero,
            large_arc: true,
            sweep: false,
            x,
            y
        }),
        Some(point(3.0, 4.0))
    );
    assert_eq!(at(PathSegment::HorizontalLineTo { abs: true, x }), Some(point(3.0, 20.0)));
    assert_eq!(at(PathSegment::HorizontalLineTo { abs: false, x }), Some(point(13.0, 20.0)));
    assert_eq!(at(PathSegment::VerticalLineTo { abs: true, y }), Some(point(10.0, 4.0)));
    assert_eq!(at(PathSegment::VerticalLineTo { abs: false, y }), Some(point(10.0, 24.0)));
    assert_eq!(at(PathSegment::ClosePath { abs: true }), None);
}

#[test]
fn a_path_is_traced_and_floored() {
    let segments = vec![
        PathSegment::MoveTo { abs: true, x: fixed(10.7), y: fixed(20.2) },
        PathSegment::LineTo { abs: false, x: fixed(5.0), y: fixed(0.0) },
        PathSegment::VerticalLineTo { abs: true, y: fixed(30.9) },
        PathSegment::ClosePath { abs: false },
        PathSegment::ClosePath { abs: false },
    ];
    let points = flatten(&segments);
    assert_eq!(
        points,
        vec![
            point(10.0, 20.0),
            point(15.0, 20.0),
            point(15.0, 30.0),
            point(10.0, 20.0),
            point(10.0, 20.0)
        ]
    );
    assert!(!outline_is_open(&points));
    assert!(outline_is_open(&points[..3].to_vec()));
    assert!(!outline_is_open(&Vec::new()));
    assert!(!outline_is_open(&vec![point(1.0, 1.0)]));
    assert_eq!(flatten(&vec![PathSegment::ClosePath { abs: true }]), Vec::new());
    assert_eq!(
        flatten(&vec![PathSegment::MoveTo { abs: true, x: fixed(-0.5), y: fixed(0.0) }]),
        vec![point(-1.0, 0.0)]
    );
}

#[test]
fn closing_at_the_first_point_adds_nothing() {
    let segments = vec![
        PathSegment::MoveTo { abs: true, x: fixed(1.0), y: fixed(1.0) },
        PathSegment::LineTo { abs: true, x: fixed(5.0), y: fixed(1.0) },
        PathSegment::LineTo { abs: true, x: fixed(1.0), y: fixed(1.0) },
        PathSegment::ClosePath { abs: true },
    ];
    assert_eq!(flatten(&segments).len(), 3);
}

#[test]
fn a_closed_path_drops_its_repeated_point() {
    let (converter, _, _) = strict();
    let shape = path(
        &[],
        vec![
            PathSegment::MoveTo { abs: true, x: fixed(10.7), y: fixed(20.2) },
            PathSegment::LineTo { abs: false, x: fixed(5.0), y: fixed(0.0) },
            PathSegment::VerticalLineTo { abs: true, y: fixed(30.9) },
            PathSegment::ClosePath { abs: false },
        ],
    );
    let given = options(point(1.0, 2.0), 1, 0xC0, 0xF0);
    let command = converter.parse_path(&shape, given).unwrap();
    assert_eq!(points_of(&command), vec![(10, 20), (15, 20), (15, 30)]);
    assert_eq!(is_open(&command), Some(false));
    assert_eq!(options_in(&command), given);
}

#[test]
fn an_open_path_keeps_all_its_points() {
    let (converter, _, _) = strict();
    let shape = path(
        &[],
        vec![
            PathSegment::MoveTo { abs: true, x: fixed(1.5), y: fixed(2.5) },
            PathSegment::CurveTo {
                abs: true,
                x1: fixed(9.0),
                y1: fixed(9.0),
                x2: fixed(8.0),
                y2: fixed(8.0),
                x: fixed(7.25),
                y: fixed(3.75),
            },
        ],
    );
    let command = converter.parse_path(&shape, options(point(0.0, 0.0), 1, 1, 1)).unwrap();
    assert_eq!(points_of(&command), vec![(1, 2), (7, 3)]);
    assert_eq!(is_open(&command), Some(true));
    let single = path(&[], vec![PathSegment::MoveTo { abs: true, x: fixed(4.0), y: fixed(4.0) }]);
    let command = converter.parse_path(&single, options(point(0.0, 0.0), 1, 1, 1)).unwrap();
    assert_eq!(points_of(&command), Vec::new());
    assert_eq!(is_open(&command), Some(false));
    let empty = path(&[], Vec::new());
    let command = converter.parse_path(&empty, options(point(0.0, 0.0), 1, 1, 1)).unwrap();
    assert_eq!(points_of(&command), Vec::new());
    assert_eq!(is_open(&command), Some(false));
}

#[test]
fn a_rectangle_has_four_corners_clockwise() {
    let (converter, _, _) = strict();
    let shape = node("rect", &[("x", "10"), ("y", "20.5"), ("width", "30"), ("height", "40")], Vec::new());
    let command = converter.parse_rect(&shape, options(point(0.0, 0.0), 0, 0, 0)).unwrap();
    assert_eq!(points_of(&command), vec![(10, 20), (40, 20), (40, 60), (10, 60)]);
    assert_eq!(is_open(&command), Some(false));
}

#[test]
fn a_line_is_an_open_path_of_two_points() {
    let (converter, _, _) = strict();
    let shape = node("line", &[("x1", "1"), ("y1", "2"), ("x2", "3.5"), ("y2", "4.5")], Vec::new());
    let command = converter.parse_line(&shape, options(point(0.0, 0.0), 0, 0, 0)).unwrap();
    assert_eq!(points_of(&command), vec![(1, 2), (3, 4)]);
    assert_eq!(is_open(&command), Some(true));
}

#[test]
fn polyline_is_open_and_polygon_closed() {
    let (converter, _, _) = strict();
    let attributes = [("points", " 1,2\t3.5,4 \n 5,6,7 ")];
    let given = options(point(0.0, 0.0), 0, 0, 0);
    let polyline = converter.parse_polyline(&node("polyline", &attributes, Vec::new()), given).unwrap();
    assert_eq!(points_of(&polyline), vec![(1, 2), (3, 4), (5, 6)]);
    assert_eq!(is_open(&polyline), Some(true));
    let polygon = converter.parse_polygon(&node("polygon", &attributes, Vec::new()), given).unwrap();
    assert_eq!(points_of(&polygon), vec![(1, 2), (3, 4), (5, 6)]);
    assert_eq!(is_open(&polygon), Some(false));
    let none = converter.parse_polyline(&node("polyline", &[("points", "  ")], Vec::new()), given).unwrap();
    assert_eq!(points_of(&none), Vec::new());
}

#[test]
fn points_are_read_from_text() {
    let (converter, _, _) = strict();
    assert_eq!(
        converter.get_points_from_str("0,0 10.5,-3 .5,5.").unwrap(),
        vec![point(0.0, 0.0), point(10.5, -3.0), point(0.5, 5.0)]
    );
    assert_eq!(converter.get_points_from_str("").unwrap(), Vec::new());
    for bad in ["1", "1,", ",1", "1,2 3", "1;2", "1, 2", "a,b", "1,2,3 4"] {
        match converter.get_points_from_str(bad) {
            Err(Svg2PdcError::ParseError(held)) => assert_eq!(held, bad),
            other => panic!("unexpected result for {:?}: {:?}", bad, other),
        }
    }
}

#[test]
fn a_circle_has_a_centre_on_the_coarse_grid_and_a_radius() {
    let converter = SvgConverter::new(Precision::Precise);
    let given = DrawOptions {
        precision: Precision::Precise,
        ..options(point(0.0, 0.0), 1, 0xC0, 0)
    };
    let shape = node("circle", &[("cx", "25"), ("cy", "30.5"), ("r", "12.9")], Vec::new());
    match converter.parse_circle(&shape, given).unwrap() {
        DrawCommand::Circle { center, radius, options } => {
            assert_eq!(center, PebblePoint { x: 25, y: 30 });
            assert_eq!(radius, 12);
            assert_eq!(options, given);
        }
        other => panic!("unexpected command {:?}", other),
    }
    let other_name = node("circle", &[("cx", "1"), ("cy", "1"), ("z", "7")], Vec::new());
    match converter.parse_circle(&other_name, given).unwrap() {
        DrawCommand::Circle { radius, .. } => assert_eq!(radius, 7),
        other => panic!("unexpected command {:?}", other),
    }
    let both = node("circle", &[("cx", "1"), ("cy", "1"), ("z", "7"), ("r", "9")], Vec::new());
    match converter.parse_circle(&both, given).unwrap() {
        DrawCommand::Circle { radius, .. } => assert_eq!(radius, 9),
        other => panic!("unexpected command {:?}", other),
    }
    let eighth = node("circle", &[("cx", "1.125"), ("cy", "1"), ("r", "7")], Vec::new());
    assert!(matches!(
        converter.parse_circle(&eighth, given),
        Err(Svg2PdcError::InvalidPoint { .. })
    ));
}

#[test]
fn a_degenerate_circle_is_rejected() {
    let (converter, _, _) = strict();
    let given = options(point(0.0, 0.0), 1, 1, 1);
    for attributes in [
        vec![("cy", "1"), ("r", "1")],
        vec![("cx", "1"), ("r", "1")],
        vec![("cx", "1"), ("cy", "1")],
        vec![("cx", "a"), ("cy", "1"), ("r", "1")],
        vec![("cx", "1"), ("cy", ""), ("r", "1")],
        vec![("cx", "1"), ("cy", "1"), ("r", "1px")],
        vec![("cx", "1"), ("cy", "1"), ("r", "x"), ("z", "1")],
    ] {
        assert!(matches!(
            converter.parse_circle(&node("circle", &attributes, Vec::new()), given),
            Err(Svg2PdcError::UnsupportedCircle)
        ));
    }
}

#[test]
fn a_shape_without_what_it_needs_is_rejected() {
    let (converter, _, _) = strict();
    let given = options(point(0.0, 0.0), 1, 1, 1);
    let held = |result: Result<DrawCommand, Svg2PdcError>| match result {
        Err(Svg2PdcError::InvalidPolyline(held)) => held,
        other => panic!("unexpected result {:?}", other),
    };
    let rect = node("rect", &[("x", "1"), ("y", "1"), ("height", "1")], Vec::new());
    assert_eq!(held(converter.parse_rect(&rect, given)), "rect");
    let rect = node("rect", &[("x", "1"), ("y", "1"), ("width", "1em"), ("height", "1")], Vec::new());
    assert_eq!(held(converter.parse_rect(&rect, given)), "rect");
    let line = node("line", &[("x1", "1"), ("y1", "1"), ("x2", "1")], Vec::new());
    assert_eq!(held(converter.parse_line(&line, given)), "line");
    let polyline = node("polyline", &[], Vec::new());
    assert_eq!(held(converter.parse_polyline(&polyline, given)), "polyline");
    let polygon = node("polygon", &[("Points", "1,1")], Vec::new());
    assert_eq!(held(converter.parse_polygon(&polygon, given)), "polygon");
}

#[test]
fn path_data_that_could_not_be_read_is_reported() {
    let mut shape = node("path", &[], Vec::new());
    shape.path = Err("unexpected data".to_string());
    match convert(&document(vec![shape])) {
        Err(Svg2PdcError::SvgTypesError(held)) => assert_eq!(held, "unexpected data"),
        other => panic!("unexpected result {:?}", other),
    }
    let mut shape = node("rect", &[("x", "1"), ("y", "1"), ("width", "1"), ("height", "1")], Vec::new());
    shape.path = Err("never looked at".to_string());
    assert_eq!(convert(&document(vec![shape])).unwrap().len(), 1);
    let mut shape = node("rect", &[("x", "1"), ("y", "1"), ("width", "1"), ("height", "1")], Vec::new());
    shape.transform = Err("bad transform".to_string());
    match convert(&document(vec![shape])) {
        Err(Svg2PdcError::SvgTypesError(held)) => assert_eq!(held, "bad transform"),
        other => panic!("unexpected result {:?}", other),
    }
}

#[test]
fn the_first_translation_of_a_transform_counts() {
    let (converter, _, _) = strict();
    let plain = node("g", &[], Vec::new());
    assert_eq!(converter.get_child_translation(&plain).unwrap(), point(0.0, 0.0));
    let shifted = moved(node("g", &[], Vec::new()), 3.5, -2.0);
    assert_eq!(converter.get_child_translation(&shifted).unwrap(), point(3.5, -2.0));
    let mut scaled = node("g", &[], Vec::new());
    scaled.transform = Ok(vec![TransformListToken::Rotate { angle: fixed(90.0) }]);
    assert_eq!(converter.get_child_translation(&scaled).unwrap(), point(0.0, 0.0));
}

#[test]
fn the_view_box_gives_size_and_offset() {
    let (converter, policy, conversion) = strict();
    let mut drawing = document(vec![node(
        "rect",
        &[("x", "10"), ("y", "10"), ("width", "5"), ("height", "5"), ("fill", "#ffffff")],
        Vec::new(),
    )]);
    drawing.view_box = Some(Ok(ViewBox {
        x: fixed(4.0),
        y: fixed(-6.0),
        w: fixed(50.0),
        h: fixed(60.5),
    }));
    let image = converter.parse_svg_image(&drawing, &policy, &conversion).unwrap();
    assert_eq!(image.size, PebblePoint { x: 50, y: 60 });
    assert_eq!(options_in(&image.commands[0]).translate, point(-4.0, 6.0));
    let mut bytes = Vec::new();
    image.serialize(&mut bytes).unwrap();
    assert_eq!(
        bytes[16..],
        [1, 0, 0, 0, 0xFF, 0, 0, 4, 0, 6, 0, 16, 0, 11, 0, 16, 0, 11, 0, 21, 0, 6, 0, 21, 0]
    );
}

#[test]
fn without_a_view_box_width_and_height_give_the_size() {
    let (converter, policy, conversion) = strict();
    let mut drawing = document(Vec::new());
    drawing.view_box = None;
    drawing.root = node("svg", &[("width", "144"), ("height", "168.5")], Vec::new());
    assert_eq!(
        SvgConverter::get_viewbox(&drawing).unwrap(),
        ViewBox { x: fixed(0.0), y: fixed(0.0), w: fixed(144.0), h: fixed(168.5) }
    );
    let image = converter.parse_svg_image(&drawing, &policy, &conversion).unwrap();
    assert_eq!(image.size, PebblePoint { x: 144, y: 168 });
    drawing.root = node("svg", &[("height", "7")], Vec::new());
    assert_eq!(
        SvgConverter::get_viewbox(&drawing).unwrap(),
        ViewBox { x: fixed(0.0), y: fixed(0.0), w: fixed(0.0), h: fixed(7.0) }
    );
    drawing.root = node("svg", &[("width", "100%"), ("height", "x")], Vec::new());
    match SvgConverter::get_viewbox(&drawing) {
        Err(Svg2PdcError::ParseError(held)) => assert_eq!(held, "100%"),
        other => panic!("unexpected result {:?}", other),
    }
    drawing.view_box = Some(Err("negative size".to_string()));
    match converter.parse_svg_image(&drawing, &policy, &conversion) {
        Err(Svg2PdcError::InvalidViewBox(held)) => assert_eq!(held, "negative size"),
        other => panic!("unexpected result {:?}", other),
    }
}

#[test]
fn a_size_off_the_grid_follows_the_policy() {
    let (converter, policy, _) = strict();
    let mut drawing = document(Vec::new());
    drawing.view_box = Some(Ok(ViewBox {
        x: fixed(0.0),
        y: fixed(0.0),
        w: fixed(50.2),
        h: fixed(60.0),
    }));
    assert!(matches!(
        converter.parse_svg_image(&drawing, &policy, &Conversion::RequireExact),
        Err(Svg2PdcError::InvalidPoint { .. })
    ));
    let image = converter
        .parse_svg_image(&drawing, &policy, &Conversion::ConvertNoWarn)
        .unwrap();
    assert_eq!(image.size, PebblePoint { x: 50, y: 60 });
    let precise = SvgConverter::new(Precision::Precise);
    let image = precise
        .parse_svg_image(&drawing, &policy, &Conversion::ConvertWarn)
        .unwrap();
    assert_eq!(image.size, PebblePoint { x: 400, y: 480 });
}

#[test]
fn groups_hand_down_style_and_offset() {
    let rect = |attributes: &[(&str, &str)]| {
        let mut all = vec![("x", "1"), ("y", "1"), ("width", "2"), ("height", "2")];
        all.extend_from_slice(attributes);
        node("rect", &all, Vec::new())
    };
    let inner = moved(
        node(
            "g",
            &[("stroke", "#ffffff"), ("opacity", "0.5")],
            vec![rect(&[]), moved(rect(&[("stroke-width", "5"), ("fill", "#00ff00")]), 1.0, 1.0)],
        ),
        10.0,
        20.0,
    );
    let outer = moved(
        node(
            "g",
            &[("fill", "#ff0000"), ("stroke", "#0000ff"), ("stroke-width", "3")],
            vec![rect(&[]), inner, rect(&[("style", "stroke:#ffffff;opacity:1")])],
        ),
        0.5,
        0.0,
    );
    let commands = convert(&document(vec![rect(&[]), outer, rect(&[("fill", "#ffffff")])])).unwrap();
    let seen: Vec<DrawOptions> = commands.iter().map(options_in).collect();
    assert_eq!(
        seen,
        vec![
            options(point(0.0, 0.0), 0, 0, 0),
            options(point(0.5, 0.0), 3, 0b11_00_00_11, 0xF0),
            options(point(10.5, 20.0), 3, 0b01_11_11_11, 0b01_11_00_00),
            options(point(11.5, 21.0), 5, 0b01_11_11_11, 0b01_00_11_00),
            options(point(0.5, 0.0), 3, 0xFF, 0xF0),
            options(point(0.0, 0.0), 0, 0, 0xFF),
        ]
    );
    for command in &commands {
        assert_eq!(points_of(command), vec![(1, 1), (3, 1), (3, 3), (1, 3)]);
    }
}

#[test]
fn layers_are_containers_too() {
    let rect = node("rect", &[("x", "1"), ("y", "1"), ("width", "2"), ("height", "2")], Vec::new());
    let layer = moved(node("layer", &[("fill", "#ffffff")], vec![rect]), 2.0, 3.0);
    let commands = convert(&document(vec![layer])).unwrap();
    assert_eq!(commands.len(), 1);
    assert_eq!(options_in(&commands[0]), options(point(2.0, 3.0), 0, 0, 0xFF));
}

#[test]
fn hidden_nodes_and_unknown_tags_give_nothing() {
    let rect = || node("rect", &[("x", "1"), ("y", "1"), ("width", "2"), ("height", "2")], Vec::new());
    let mut broken = node("path", &[("display", "none"), ("fill", "nonsense")], Vec::new());
    broken.path = Err("broken".to_string());
    broken.transform = Err("broken".to_string());
    let hidden_group = node("g", &[("display", "none"), ("opacity", "x")], vec![rect(), rect()]);
    let shown = node("g", &[("display", "inline")], vec![rect()]);
    let commands = convert(&document(vec![
        broken,
        hidden_group,
        node("", &[], Vec::new()),
        node("text", &[], vec![rect()]),
        node("defs", &[], Vec::new()),
        shown,
        node("Rect", &[], Vec::new()),
    ]))
    .unwrap();
    assert_eq!(commands.len(), 1);
    assert_eq!(convert(&document(Vec::new())).unwrap().len(), 0);
}

#[test]
fn what_a_node_says_fails_before_its_tag_is_looked_at() {
    match convert(&document(vec![node("text", &[("fill", "none")], Vec::new())])) {
        Err(Svg2PdcError::InvalidColor(held)) => assert_eq!(held, "none"),
        other => panic!("unexpected result {:?}", other),
    }
    match convert(&document(vec![node("circle", &[("opacity", "x")], Vec::new())])) {
        Err(Svg2PdcError::ParseError(held)) => assert_eq!(held, "x"),
        other => panic!("unexpected result {:?}", other),
    }
}

#[test]
fn the_first_failure_in_document_order_ends_the_conversion() {
    let good = node("rect", &[("x", "1"), ("y", "1"), ("width", "2"), ("height", "2")], Vec::new());
    let off_grid = node("circle", &[("cx", "10.3"), ("cy", "1"), ("r", "2")], Vec::new());
    let no_radius = node("circle", &[("cx", "1"), ("cy", "1")], Vec::new());
    let group = node("g", &[], vec![good, off_grid]);
    match convert(&document(vec![group, no_radius])) {
        Err(Svg2PdcError::InvalidPoint { point: p, nearest_valid }) => {
            assert_eq!(p, FPoint::new(Fixed { raw: 44_238_163_148 }, Fixed::from_int(1)));
            assert_eq!(nearest_valid, point(10.5, 1.0));
        }
        other => panic!("unexpected result {:?}", other),
    }
}

#[test]
fn create_command_makes_one_command_or_none() {
    let (converter, policy, conversion) = strict();
    let group = GroupOptions::empty();
    let offset = point(1.0, 2.0);
    let shape = node(
        "line",
        &[("x1", "0"), ("y1", "0"), ("x2", "9"), ("y2", "9"), ("stroke", "#ffffff"), ("stroke-width", "2")],
        Vec::new(),
    );
    let command = converter
        .create_command(&offset, &policy, &group, &conversion, &shape)
        .unwrap()
        .unwrap();
    assert_eq!(options_in(&command), options(offset, 2, 0xFF, 0));
    assert_eq!(points_of(&command), vec![(0, 0), (9, 9)]);
    for tag in ["g", "layer", "", "svg", "ellipse"] {
        let other = node(tag, &[], Vec::new());
        assert!(converter
            .create_command(&offset, &policy, &group, &conversion, &other)
            .unwrap()
            .is_none());
    }
}

#[test]
fn every_converted_command_has_a_settled_paint() {
    let mut shapes = Vec::new();
    for fill in ["#000000", "#101010", "#ff0000", "#00000000", "#0000ff40"] {
        for stroke in ["#000000", "#ffffff00", "#12345680", "#ffffff"] {
            for width in ["0", "1", "0.5", "7"] {
                for opacity in ["0", "0.3", "0.34", "1"] {
                    shapes.push(node(
                        "rect",
                        &[
                            ("x", "1"),
                            ("y", "1"),
                            ("width", "2"),
                            ("height", "2"),
                            ("fill", fill),
                            ("stroke", stroke),
                            ("stroke-width", width),
                            ("opacity", opacity),
                        ],
                        Vec::new(),
                    ));
                }
            }
        }
    }
    let drawing = document(shapes);
    for policy in [TruncateColor::Truncate, TruncateColor::Keep] {
        let image = SvgConverter::new(Precision::Normal)
            .parse_svg_image(&drawing, &policy, &Conversion::RequireExact)
            .unwrap();
        assert_eq!(image.commands.len(), 5 * 4 * 4 * 4);
        for command in &image.commands {
            let mut bytes = Vec::new();
            command.serialize(&mut bytes).unwrap();
            assert_eq!(bytes[2] == 0, bytes[3] == 0);
            if bytes[4] & 0b0011_1111 == 0 {
                assert_eq!(bytes[4], 0);
            }
        }
    }
}
