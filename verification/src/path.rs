//! Path data reduced to the points it visits.
//!
//! Every command is taken for the point it ends at: what a curve or an arc
//! says of the way there is dropped.

use vstd::prelude::*;
use crate::fixed::Fixed;
use crate::point::FPoint;
use crate::scene::PathSegment;

verus! {

/// The coordinate that `value` names: itself where it is absolute, else
/// added to the coordinate of the current point.
pub open spec fn resolved_one(abs: bool, value: Fixed, current: Fixed) -> Fixed {
    if abs {
        value
    } else {
        value.spec_add(current)
    }
}

/// The point that the coordinates `x`, `y` name: themselves where they are
/// absolute, else added to `current`.
pub open spec fn resolved(abs: bool, x: Fixed, y: Fixed, current: FPoint) -> FPoint {
    FPoint { x: resolved_one(abs, x, current.x), y: resolved_one(abs, y, current.y) }
}

/// The point at which `segment` ends when it starts at `current`; `None` for
/// the command that closes the path.
///
/// A horizontal or vertical line keeps the coordinate of `current` that it
/// does not name.
pub open spec fn target(segment: PathSegment, current: FPoint) -> Option<FPoint> {
    match segment {
        PathSegment::MoveTo { abs, x, y } => Some(resolved(abs, x, y, current)),
        PathSegment::LineTo { abs, x, y } => Some(resolved(abs, x, y, current)),
        PathSegment::CurveTo { abs, x, y, .. } => Some(resolved(abs, x, y, current)),
        PathSegment::SmoothCurveTo { abs, x, y, .. } => Some(resolved(abs, x, y, current)),
        PathSegment::Quadratic { abs, x, y, .. } => Some(resolved(abs, x, y, current)),
        PathSegment::SmoothQuadratic { abs, x, y } => Some(resolved(abs, x, y, current)),
        PathSegment::EllipticalArc { abs, x, y, .. } => Some(resolved(abs, x, y, current)),
        PathSegment::HorizontalLineTo { abs, x } => Some(
            FPoint { x: resolved_one(abs, x, current.x), y: current.y },
        ),
        PathSegment::VerticalLineTo { abs, y } => Some(
            FPoint { x: current.x, y: resolved_one(abs, y, current.y) },
        ),
        PathSegment::ClosePath { .. } => None,
    }
}

/// The points visited so far, and the point that the next command starts at.
pub struct Trace {
    pub points: Seq<FPoint>,
    pub current: FPoint,
}

/// The trace after one more command. Closing the path visits its first
/// point again, unless that is where the path stands already, and leaves the
/// current point as it is.
pub open spec fn advanced(trace: Trace, segment: PathSegment) -> Trace {
    match target(segment, trace.current) {
        Some(point) => Trace { points: trace.points.push(point), current: point },
        None => if trace.points.len() > 0 && trace.current != trace.points[0] {
            Trace { points: trace.points.push(trace.points[0]), current: trace.current }
        } else {
            trace
        },
    }
}

/// The trace of `segments`, which starts at the origin with no point
/// visited.
pub open spec fn traced(segments: Seq<PathSegment>) -> Trace
    decreases segments.len(),
{
    if segments.len() == 0 {
        Trace { points: Seq::empty(), current: FPoint { x: Fixed { raw: 0 }, y: Fixed { raw: 0 } } }
    } else {
        advanced(traced(segments.drop_last()), segments.last())
    }
}

/// `points`, each with its coordinates rounded down to whole numbers.
pub open spec fn floored(points: Seq<FPoint>) -> Seq<FPoint> {
    Seq::new(points.len(), |i: int| points[i].spec_floor())
}

/// Whether an outline through `points` is open: its two ends differ.
pub open spec fn is_open(points: Seq<FPoint>) -> bool {
    points.len() > 0 && points.first() != points.last()
}

/// The points that stand for an outline through `points`: all of them where
/// it is open; where it is closed, all but the last, which only repeats the
/// first.
pub open spec fn outline(points: Seq<FPoint>) -> Seq<FPoint> {
    if is_open(points) || points.len() == 0 {
        points
    } else {
        points.drop_last()
    }
}

/// The whole points that `segments` visit.
pub open spec fn path_points(segments: Seq<PathSegment>) -> Seq<FPoint> {
    floored(traced(segments).points)
}

fn resolve_one(abs: bool, value: Fixed, current: Fixed) -> (coordinate: Fixed)
    ensures
        coordinate == resolved_one(abs, value, current),
{
    if abs {
        value
    } else {
        value.add(current)
    }
}

fn resolve(abs: bool, x: Fixed, y: Fixed, current: FPoint) -> (point: FPoint)
    ensures
        point == resolved(abs, x, y, current),
{
    FPoint::new(resolve_one(abs, x, current.x), resolve_one(abs, y, current.y))
}

/// The point at which `segment` ends when it starts at `current`.
pub fn segment_target(segment: &PathSegment, current: FPoint) -> (point: Option<FPoint>)
    ensures
        point == target(*segment, current),
{
    match segment {
        PathSegment::MoveTo { abs, x, y } => Some(resolve(*abs, *x, *y, current)),
        PathSegment::LineTo { abs, x, y } => Some(resolve(*abs, *x, *y, current)),
        PathSegment::CurveTo { abs, x1: _, y1: _, x2: _, y2: _, x, y } => Some(
            resolve(*abs, *x, *y, current),
        ),
        PathSegment::SmoothCurveTo { abs, x2: _, y2: _, x, y } => Some(
            resolve(*abs, *x, *y, current),
        ),
        PathSegment::Quadratic { abs, x1: _, y1: _, x, y } => Some(
            resolve(*abs, *x, *y, current),
        ),
        PathSegment::SmoothQuadratic { abs, x, y } => Some(resolve(*abs, *x, *y, current)),
        PathSegment::EllipticalArc {
            abs,
            rx: _,
            ry: _,
            x_axis_rotation: _,
            large_arc: _,
            sweep: _,
            x,
            y,
        } => Some(resolve(*abs, *x, *y, current)),
        PathSegment::HorizontalLineTo { abs, x } => Some(
            FPoint::new(resolve_one(*abs, *x, current.x), current.y),
        ),
        PathSegment::VerticalLineTo { abs, y } => Some(
            FPoint::new(current.x, resolve_one(*abs, *y, current.y)),
        ),
        PathSegment::ClosePath { abs: _ } => None,
    }
}

/// The whole points that `segments` visit, in order.
pub fn flatten(segments: &Vec<PathSegment>) -> (points: Vec<FPoint>)
    ensures
        points@ == path_points(segments@),
{
    let mut visited: Vec<FPoint> = Vec::new();
    let mut current = FPoint::origin();
    let mut i: usize = 0;
    while i < segments.len()
        invariant
            i <= segments.len(),
            traced(segments@.take(i as int)) == (Trace { points: visited@, current }),
        decreases segments.len() - i,
    {
        let ghost next = segments@.take(i + 1);
        assert(next.drop_last() =~= segments@.take(i as int));
        assert(next.last() == segments@[i as int]);
        match segment_target(&segments[i], current) {
            Some(point) => {
                visited.push(point);
                current = point;
            },
            None => {
                if visited.len() > 0 && current != visited[0] {
                    let first = visited[0];
                    visited.push(first);
                }
            },
        }
        i += 1;
    }
    assert(segments@.take(i as int) =~= segments@);
    let mut points: Vec<FPoint> = Vec::new();
    let mut k: usize = 0;
    while k < visited.len()
        invariant
            k <= visited.len(),
            points@ == floored(visited@).take(k as int),
        decreases visited.len() - k,
    {
        points.push(visited[k].floor());
        assert(points@ =~= floored(visited@).take(k + 1));
        k += 1;
    }
    assert(floored(visited@).take(k as int) =~= floored(visited@));
    points
}

/// Whether an outline through `points` is open.
pub fn outline_is_open(points: &Vec<FPoint>) -> (open: bool)
    ensures
        open == is_open(points@),
{
    points.len() > 0 && points[0] != points[points.len() - 1]
}

} // verus!
