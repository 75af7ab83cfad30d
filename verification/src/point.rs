//! Points, and their quantization to the grid of the display.

use vstd::prelude::*;
use crate::error::Svg2PdcError;
use crate::fixed::{biased_round, clamp_between, clamp_raw, round_wide, saturate, Fixed, HALF, ONE};

verus! {

/// How fine the snapping grid is.
#[derive(Debug, Clone, Copy, PartialEq, Eq, Structural)]
pub enum Precision {
    /// Multiples of one half.
    Normal,
    /// Multiples of one eighth.
    Precise,
}

impl Precision {
    /// Grid lines per unit.
    pub open spec fn steps(self) -> int {
        match self {
            Precision::Normal => 2,
            Precision::Precise => 8,
        }
    }

    /// Distance between two grid lines, in raw steps.
    pub open spec fn grid_step(self) -> int {
        match self {
            Precision::Normal => 2147483648,
            Precision::Precise => 536870912,
        }
    }

    /// What a rounded coordinate is multiplied by before it is stored.
    pub open spec fn device_scale(self) -> int {
        match self {
            Precision::Normal => 1,
            Precision::Precise => 8,
        }
    }
}

impl Default for Precision {
    fn default() -> (r: Precision)
        ensures
            r == Precision::Normal,
    {
        Precision::Normal
    }
}

/// What to do with a point that is off the grid.
#[derive(Debug, Clone, Copy, PartialEq, Eq, Structural)]
pub enum Conversion {
    /// Move it to the nearest grid point.
    ConvertNoWarn,
    /// Move it to the nearest grid point; the caller may report it.
    ConvertWarn,
    /// Reject it.
    RequireExact,
}

impl Default for Conversion {
    fn default() -> (r: Conversion)
        ensures
            r == Conversion::RequireExact,
    {
        Conversion::RequireExact
    }
}

/// The grid value nearest to `raw`, in raw steps.
pub open spec fn nearest_raw(raw: int, precision: Precision) -> int {
    clamp_raw(biased_round(raw * precision.steps()) * precision.grid_step())
}

/// The stored coordinate for `raw`: half a unit is taken off, the rest is
/// rounded with the bias, scaled, and limited to 16 unsigned bits.
pub open spec fn device_coordinate(raw: int, precision: Precision) -> int {
    clamp_between(precision.device_scale() * biased_round(raw - HALF), 65535)
}

/// Whether `raw` lies on a grid line.
pub open spec fn on_grid_raw(raw: int, precision: Precision) -> bool {
    raw % precision.grid_step() == 0
}

fn snap(value: Fixed, precision: &Precision) -> (r: Fixed)
    ensures
        r.raw == nearest_raw(value.raw as int, *precision),
{
    match precision {
        Precision::Normal => {
            let n: i128 = round_wide(value.raw as i128 * 2i128 + 512i128);
            saturate(n * 2147483648i128)
        },
        Precision::Precise => {
            let n: i128 = round_wide(value.raw as i128 * 8i128 + 512i128);
            saturate(n * 536870912i128)
        },
    }
}

fn to_device(value: Fixed, precision: &Precision) -> (r: u16)
    ensures
        r == device_coordinate(value.raw as int, *precision),
{
    let n: i128 = round_wide(value.raw as i128 - 2147483648i128 + 512i128);
    let scaled: i128 = match precision {
        Precision::Normal => n,
        Precision::Precise => n * 8i128,
    };
    if scaled < 0 {
        0
    } else if scaled > 65535 {
        65535
    } else {
        scaled as u16
    }
}

/// A point in document space.
#[derive(Debug, Clone, Copy, PartialEq, Eq, Structural)]
pub struct FPoint {
    pub x: Fixed,
    pub y: Fixed,
}

/// A point on the display.
#[derive(Debug, Clone, Copy, PartialEq, Eq, Structural)]
pub struct PebblePoint {
    pub x: u16,
    pub y: u16,
}

impl FPoint {
    pub fn new(x: Fixed, y: Fixed) -> (r: FPoint)
        ensures
            r.x == x,
            r.y == y,
    {
        FPoint { x, y }
    }

    /// The origin.
    pub fn origin() -> (r: FPoint)
        ensures
            r.x.raw == 0,
            r.y.raw == 0,
    {
        FPoint { x: Fixed::zero(), y: Fixed::zero() }
    }

    /// Both coordinates rounded with the bias.
    pub fn round(&self) -> (r: FPoint)
        ensures
            r.x.raw == clamp_raw(biased_round(self.x.raw as int) * ONE),
            r.y.raw == clamp_raw(biased_round(self.y.raw as int) * ONE),
    {
        FPoint { x: self.x.round(), y: self.y.round() }
    }

    /// Both coordinates rounded down to whole numbers.
    pub open spec fn spec_floor(self) -> FPoint {
        FPoint {
            x: Fixed { raw: (self.x.spec_floor() * ONE) as i64 },
            y: Fixed { raw: (self.y.spec_floor() * ONE) as i64 },
        }
    }

    /// Both coordinates rounded down to whole numbers.
    pub fn floor(&self) -> (r: FPoint)
        ensures
            r == self.spec_floor(),
            r.x.raw == self.x.spec_floor() * ONE,
            r.y.raw == self.y.spec_floor() * ONE,
    {
        FPoint { x: self.x.floor(), y: self.y.floor() }
    }

    /// The sum of two points, each coordinate saturating.
    pub open spec fn spec_add(self, other: FPoint) -> FPoint {
        FPoint {
            x: Fixed { raw: clamp_raw(self.x.raw + other.x.raw) as i64 },
            y: Fixed { raw: clamp_raw(self.y.raw + other.y.raw) as i64 },
        }
    }

    pub fn add(self, other: FPoint) -> (r: FPoint)
        ensures
            r == self.spec_add(other),
    {
        FPoint { x: self.x.add(other.x), y: self.y.add(other.y) }
    }

    pub fn sub(self, other: FPoint) -> (r: FPoint)
        ensures
            r.x.raw == clamp_raw(self.x.raw - other.x.raw),
            r.y.raw == clamp_raw(self.y.raw - other.y.raw),
    {
        FPoint { x: self.x.sub(other.x), y: self.y.sub(other.y) }
    }

    /// This point scaled by a whole factor, each coordinate saturating.
    pub fn mul(self, factor: i32) -> (r: FPoint)
        ensures
            r.x == self.x.spec_mul(factor),
            r.y == self.y.spec_mul(factor),
    {
        FPoint { x: self.x.mul(factor), y: self.y.mul(factor) }
    }

    /// This point scaled down by a whole divisor that is not 0, each
    /// coordinate rounded down.
    pub fn div(self, divisor: i32) -> (r: FPoint)
        requires
            divisor != 0,
        ensures
            r.x == self.x.spec_div(divisor),
            r.y == self.y.spec_div(divisor),
    {
        FPoint { x: self.x.div(divisor), y: self.y.div(divisor) }
    }

    /// Whether both coordinates lie on the grid.
    pub open spec fn on_grid(self, precision: Precision) -> bool {
        on_grid_raw(self.x.raw as int, precision) && on_grid_raw(self.y.raw as int, precision)
    }

    /// The grid point nearest to this one.
    pub open spec fn spec_nearest_valid(self, precision: Precision) -> FPoint {
        FPoint {
            x: Fixed { raw: nearest_raw(self.x.raw as int, precision) as i64 },
            y: Fixed { raw: nearest_raw(self.y.raw as int, precision) as i64 },
        }
    }

    pub fn find_nearest_valid(&self, precision: &Precision) -> (r: FPoint)
        ensures
            r == self.spec_nearest_valid(*precision),
    {
        FPoint { x: snap(self.x, precision), y: snap(self.y, precision) }
    }

    /// The display point for this point, which must already be on the grid
    /// for the result to be meaningful.
    pub open spec fn spec_device(self, precision: Precision) -> PebblePoint {
        PebblePoint {
            x: device_coordinate(self.x.raw as int, precision) as u16,
            y: device_coordinate(self.y.raw as int, precision) as u16,
        }
    }

    /// What [`FPoint::pebble_coordinates`] returns.
    pub open spec fn spec_pebble_coordinates(
        self,
        precision: Precision,
        conversion: Conversion,
    ) -> Result<PebblePoint, Svg2PdcError> {
        let nearest = self.spec_nearest_valid(precision);
        if self != nearest && conversion == Conversion::RequireExact {
            Err(Svg2PdcError::InvalidPoint { point: self, nearest_valid: nearest })
        } else {
            Ok(nearest.spec_device(precision))
        }
    }

    /// Quantizes the point to the display.
    ///
    /// A point off the grid is moved to the nearest grid point, or rejected
    /// under [`Conversion::RequireExact`].
    pub fn pebble_coordinates(&self, precision: &Precision, conversion: &Conversion) -> (result:
        Result<PebblePoint, Svg2PdcError>)
        ensures
            result == self.spec_pebble_coordinates(*precision, *conversion),
    {
        let nearest = self.find_nearest_valid(precision);
        if *self != nearest {
            match conversion {
                Conversion::ConvertNoWarn => {},
                Conversion::ConvertWarn => {},
                Conversion::RequireExact => {
                    return Err(Svg2PdcError::InvalidPoint { point: *self, nearest_valid: nearest });
                },
            }
        }
        Ok(PebblePoint { x: to_device(nearest.x, precision), y: to_device(nearest.y, precision) })
    }
}

/// All of `points` quantized, or the failure of the first that is rejected.
pub open spec fn quantized_all(
    points: Seq<FPoint>,
    precision: Precision,
    conversion: Conversion,
) -> Result<Seq<PebblePoint>, Svg2PdcError>
    decreases points.len(),
{
    if points.len() == 0 {
        Ok(Seq::empty())
    } else {
        match quantized_all(points.drop_last(), precision, conversion) {
            Err(e) => Err(e),
            Ok(head) => match points.last().spec_pebble_coordinates(precision, conversion) {
                Err(e) => Err(e),
                Ok(p) => Ok(head.push(p)),
            },
        }
    }
}

/// Once a point has been rejected, so is every longer list.
pub proof fn lemma_quantized_failure_stays(
    points: Seq<FPoint>,
    n: int,
    precision: Precision,
    conversion: Conversion,
)
    requires
        0 <= n <= points.len(),
        quantized_all(points.take(n), precision, conversion) is Err,
    ensures
        quantized_all(points, precision, conversion) == quantized_all(
            points.take(n),
            precision,
            conversion,
        ),
    decreases points.len() - n,
{
    if n < points.len() {
        let next = points.take(n + 1);
        assert(next.drop_last() =~= points.take(n));
        lemma_quantized_failure_stays(points, n + 1, precision, conversion);
    } else {
        assert(points.take(n) =~= points);
    }
}

/// Quantizing keeps the number of points.
pub proof fn lemma_quantized_all_len(
    points: Seq<FPoint>,
    precision: Precision,
    conversion: Conversion,
)
    ensures
        quantized_all(points, precision, conversion) is Ok ==> quantized_all(
            points,
            precision,
            conversion,
        )->Ok_0.len() == points.len(),
    decreases points.len(),
{
    if points.len() > 0 {
        lemma_quantized_all_len(points.drop_last(), precision, conversion);
    }
}

/// A list of points is accepted exactly where each of its points is, and
/// then holds the display point of each, in order.
pub proof fn lemma_quantized_all_each(
    points: Seq<FPoint>,
    precision: Precision,
    conversion: Conversion,
)
    ensures
        quantized_all(points, precision, conversion) is Ok <==> forall|i: int|
            0 <= i < points.len() ==> (#[trigger] points[i]).spec_pebble_coordinates(
                precision,
                conversion,
            ) is Ok,
        quantized_all(points, precision, conversion) matches Ok(quantized) ==> quantized.len()
            == points.len() && forall|i: int|
            0 <= i < points.len() ==> Ok::<PebblePoint, Svg2PdcError>(#[trigger] quantized[i])
                == points[i].spec_pebble_coordinates(precision, conversion),
    decreases points.len(),
{
    if points.len() > 0 {
        let head = points.drop_last();
        lemma_quantized_all_each(head, precision, conversion);
        if quantized_all(head, precision, conversion) is Err {
            let k = choose|k: int|
                0 <= k < head.len() && !((#[trigger] head[k]).spec_pebble_coordinates(
                    precision,
                    conversion,
                ) is Ok);
            assert(points[k] == head[k]);
        } else {
            assert forall|i: int| 0 <= i < head.len() implies head[i] == points[i] by {}
            if points.last().spec_pebble_coordinates(precision, conversion) is Ok {
                assert forall|i: int| 0 <= i < points.len() implies (
                #[trigger] points[i]).spec_pebble_coordinates(precision, conversion) is Ok by {
                    if i < head.len() {
                        assert(head[i] == points[i]);
                    }
                }
            }
        }
    }
}

/// Quantizes `points[..count]` one after another and stops at the first
/// that is rejected.
pub fn quantize_points(
    points: &Vec<FPoint>,
    count: usize,
    precision: &Precision,
    conversion: &Conversion,
) -> (result: Result<Vec<PebblePoint>, Svg2PdcError>)
    requires
        count <= points.len(),
    ensures
        match quantized_all(points@.take(count as int), *precision, *conversion) {
            Ok(quantized) => result matches Ok(v) && v@ == quantized,
            Err(e) => result == Err::<Vec<PebblePoint>, Svg2PdcError>(e),
        },
{
    let ghost all = points@.take(count as int);
    let mut out: Vec<PebblePoint> = Vec::new();
    let mut i: usize = 0;
    while i < count
        invariant
            i <= count <= points.len(),
            all == points@.take(count as int),
            quantized_all(all.take(i as int), *precision, *conversion) == Ok::<
                Seq<PebblePoint>,
                Svg2PdcError,
            >(out@),
        decreases count - i,
    {
        let ghost next = all.take(i + 1);
        assert(next.drop_last() =~= all.take(i as int));
        assert(next.last() == points@[i as int]);
        match points[i].pebble_coordinates(precision, conversion) {
            Ok(p) => {
                out.push(p);
            },
            Err(e) => {
                proof {
                    lemma_quantized_failure_stays(all, i + 1, *precision, *conversion);
                }
                return Err(e);
            },
        }
        i += 1;
    }
    assert(all.take(i as int) =~= all);
    Ok(out)
}

impl PebblePoint {
    /// This display point as a point of document space.
    pub open spec fn spec_fpoint(self) -> FPoint {
        FPoint {
            x: Fixed { raw: (self.x * ONE) as i64 },
            y: Fixed { raw: (self.y * ONE) as i64 },
        }
    }

    pub fn to_fpoint(self) -> (r: FPoint)
        ensures
            r == self.spec_fpoint(),
    {
        FPoint { x: Fixed::from_int(self.x as i32), y: Fixed::from_int(self.y as i32) }
    }

    /// The sum of two display points.
    pub fn add(self, other: PebblePoint) -> (r: PebblePoint)
        requires
            self.x + other.x <= u16::MAX,
            self.y + other.y <= u16::MAX,
        ensures
            r.x == self.x + other.x,
            r.y == self.y + other.y,
    {
        PebblePoint { x: self.x + other.x, y: self.y + other.y }
    }

    /// This display point moved by `offset`, in document space.
    pub fn translated(self, offset: FPoint) -> (r: FPoint)
        ensures
            r == self.spec_fpoint().spec_add(offset),
    {
        self.to_fpoint().add(offset)
    }
}

/// A whole number of units rounds to itself, bias included.
pub proof fn lemma_round_of_whole(m: int)
    ensures
        biased_round(m * ONE) == m,
{
    let one = ONE as int;
    if m * one + 512 >= 0 {
        assert(m >= 0) by (nonlinear_arith)
            requires
                m * one + 512 >= 0,
                one == 4294967296,
        ;
        assert((m * one + 512 + 2147483648) / one == m) by (nonlinear_arith)
            requires
                one == 4294967296,
        ;
    } else {
        assert((2147483648 - (m * one + 512)) / one == -m) by (nonlinear_arith)
            requires
                one == 4294967296,
        ;
    }
}

/// A coordinate on the grid is its own nearest grid value.
pub proof fn lemma_on_grid_raw_is_nearest(raw: int, precision: Precision)
    requires
        i64::MIN <= raw <= i64::MAX,
        on_grid_raw(raw, precision),
    ensures
        nearest_raw(raw, precision) == raw,
{
    let step = precision.grid_step();
    let m = raw / step;
    assert(raw == m * step) by (nonlinear_arith)
        requires
            raw % step == 0,
            m == raw / step,
            step > 0,
    ;
    assert(raw * precision.steps() == m * ONE) by (nonlinear_arith)
        requires
            raw == m * step,
            step * precision.steps() == ONE,
    ;
    lemma_round_of_whole(m);
}

/// Points that already lie on the grid are never moved and never rejected:
/// whatever the policy, quantizing such a point succeeds and gives the
/// display point of the point itself.
pub proof fn lemma_on_grid_is_accepted(point: FPoint, precision: Precision, conversion: Conversion)
    requires
        point.on_grid(precision),
    ensures
        point.spec_nearest_valid(precision) == point,
        point.spec_pebble_coordinates(precision, conversion) == Ok::<PebblePoint, Svg2PdcError>(
            point.spec_device(precision),
        ),
{
    lemma_on_grid_raw_is_nearest(point.x.raw as int, precision);
    lemma_on_grid_raw_is_nearest(point.y.raw as int, precision);
}

/// For a coordinate on the grid that is not negative, taking off half a unit
/// and rounding gives its whole part: the stored coordinate is that whole
/// part, scaled, and limited to 16 bits.
pub proof fn lemma_device_of_grid_value(raw: int, precision: Precision)
    requires
        0 <= raw,
        on_grid_raw(raw, precision),
    ensures
        device_coordinate(raw, precision) == clamp_between(
            precision.device_scale() * (raw / (ONE as int)),
            65535,
        ),
{
    let one = ONE as int;
    let step = precision.grid_step();
    let whole = raw / one;
    let rest = raw % one;
    assert(rest % step == 0) by (nonlinear_arith)
        requires
            raw % step == 0,
            rest == raw % one,
            one == 4294967296,
            step == 2147483648 || step == 536870912,
    ;
    assert(rest <= one - step) by (nonlinear_arith)
        requires
            rest % step == 0,
            0 <= rest < one,
            one == 4294967296,
            step == 2147483648 || step == 536870912,
    ;
    if raw - HALF + 512 >= 0 {
        assert((raw - HALF + 512 + HALF) / one == whole) by (nonlinear_arith)
            requires
                whole == raw / one,
                rest == raw % one,
                0 <= rest <= one - 536870912,
                one == 4294967296,
                HALF == 2147483648,
        ;
    } else {
        assert(whole == 0);
        assert((HALF - (raw - HALF + 512)) / one == 0);
    }
}

/// The nearest grid point is the same under the rejecting policy and under
/// the converting ones whenever the former accepts.
pub proof fn lemma_policies_agree(point: FPoint, precision: Precision, conversion: Conversion)
    requires
        point.spec_pebble_coordinates(precision, Conversion::RequireExact) is Ok,
    ensures
        point.spec_pebble_coordinates(precision, conversion) == point.spec_pebble_coordinates(
            precision,
            Conversion::RequireExact,
        ),
{
}

impl From<PebblePoint> for FPoint {
    fn from(point: PebblePoint) -> (r: FPoint) {
        point.to_fpoint()
    }
}

impl vstd::std_specs::convert::FromSpecImpl<PebblePoint> for FPoint {
    open spec fn obeys_from_spec() -> bool {
        true
    }

    open spec fn from_spec(point: PebblePoint) -> FPoint {
        point.spec_fpoint()
    }
}

} // verus!
