//! The image, its draw commands, and their byte layout.
//!
//! An image is written as `"PDCI"`, the length of what follows in four
//! bytes, and then: the version, a reserved byte, the size, the number of
//! commands, and the commands one after another. All integers are
//! little-endian.

use vstd::prelude::*;
use crate::encode::{put_u16, put_u32, put_u8, u16_le, u32_le};
use crate::error::Svg2PdcError;
use crate::point::{Conversion, FPoint, PebblePoint, Precision};

verus! {

pub type StrokeColor = u8;

pub type FillColor = u8;

/// Version of the format.
pub const DRAW_COMMAND_VERSION: u8 = 1;

/// Tag of a path on the coarse grid.
pub const DRAW_COMMAND_TYPE_PATH: u8 = 1;

/// Tag of a circle.
pub const DRAW_COMMAND_TYPE_CIRCLE: u8 = 2;

/// Tag of a path on the fine grid.
pub const DRAW_COMMAND_TYPE_PRECISE_PATH: u8 = 3;

/// What every command carries besides its geometry.
#[derive(Debug, Clone, Copy, PartialEq, Eq, Structural)]
pub struct DrawOptions {
    /// Added to each point when the command is written.
    pub translate: FPoint,
    pub stroke_width: u8,
    pub stroke_color: StrokeColor,
    pub fill_color: FillColor,
    pub precision: Precision,
    pub conversion: Conversion,
}

/// One shape of an image.
#[derive(Debug, Clone)]
pub enum DrawCommand {
    Path { points: Vec<PebblePoint>, open: bool, options: DrawOptions },
    Circle { center: PebblePoint, radius: u16, options: DrawOptions },
}

/// A [`DrawCommand`] with its points as a sequence.
pub enum CommandView {
    Path { points: Seq<PebblePoint>, open: bool, options: DrawOptions },
    Circle { center: PebblePoint, radius: u16, options: DrawOptions },
}

impl View for DrawCommand {
    type V = CommandView;

    open spec fn view(&self) -> CommandView {
        match self {
            DrawCommand::Path { points, open, options } => CommandView::Path {
                points: points@,
                open: *open,
                options: *options,
            },
            DrawCommand::Circle { center, radius, options } => CommandView::Circle {
                center: *center,
                radius: *radius,
                options: *options,
            },
        }
    }
}

/// The views of `commands`, in order.
pub open spec fn command_views(commands: Seq<DrawCommand>) -> Seq<CommandView> {
    Seq::new(commands.len(), |i: int| commands[i]@)
}

/// A [`PebbleImage`] with its commands as a sequence of views.
pub struct ImageView {
    pub size: PebblePoint,
    pub commands: Seq<CommandView>,
}

impl View for PebbleImage {
    type V = ImageView;

    open spec fn view(&self) -> ImageView {
        ImageView { size: self.size, commands: command_views(self.commands@) }
    }
}

/// A size and the commands to draw, in the order in which they are written.
#[derive(Debug, Clone)]
pub struct PebbleImage {
    pub size: PebblePoint,
    pub commands: Vec<DrawCommand>,
}

/// Where a stored point is written: moved by the offset of its command and
/// quantized again, which may reject it.
pub open spec fn placed(point: PebblePoint, options: DrawOptions) -> Result<
    PebblePoint,
    Svg2PdcError,
> {
    point.spec_fpoint().spec_add(options.translate).spec_pebble_coordinates(
        options.precision,
        options.conversion,
    )
}

/// Where the centre of a circle is written: moved by the offset of its
/// command and quantized again, always on the coarse grid, since the format
/// has no circle on the fine one.
pub open spec fn placed_center(center: PebblePoint, options: DrawOptions) -> Result<
    PebblePoint,
    Svg2PdcError,
> {
    center.spec_fpoint().spec_add(options.translate).spec_pebble_coordinates(
        Precision::Normal,
        options.conversion,
    )
}

/// All of `points` placed, or the failure of the first that is rejected.
pub open spec fn placed_all(points: Seq<PebblePoint>, options: DrawOptions) -> Result<
    Seq<PebblePoint>,
    Svg2PdcError,
>
    decreases points.len(),
{
    if points.len() == 0 {
        Ok(Seq::empty())
    } else {
        match placed_all(points.drop_last(), options) {
            Err(e) => Err(e),
            Ok(head) => match placed(points.last(), options) {
                Err(e) => Err(e),
                Ok(p) => Ok(head.push(p)),
            },
        }
    }
}

/// The four bytes of a point: `x`, then `y`.
pub open spec fn point_bytes(point: PebblePoint) -> Seq<u8> {
    u16_le(point.x) + u16_le(point.y)
}

/// The bytes of `points`, one after another.
pub open spec fn points_bytes(points: Seq<PebblePoint>) -> Seq<u8>
    decreases points.len(),
{
    if points.len() == 0 {
        Seq::empty()
    } else {
        points_bytes(points.drop_last()) + point_bytes(points.last())
    }
}

/// A length as the format stores it: its low 16 bits.
pub open spec fn count_field(len: nat) -> u16 {
    (len % 65536) as u16
}

/// The tag of a path.
pub open spec fn path_type(precision: Precision) -> u8 {
    match precision {
        Precision::Normal => DRAW_COMMAND_TYPE_PATH,
        Precision::Precise => DRAW_COMMAND_TYPE_PRECISE_PATH,
    }
}

/// The bytes of a path whose points have been placed.
pub open spec fn path_bytes(placed: Seq<PebblePoint>, open: bool, options: DrawOptions) -> Seq<u8> {
    seq![
        path_type(options.precision),
        0u8,
        options.stroke_color,
        options.stroke_width,
        options.fill_color,
        if open { 1u8 } else { 0u8 },
        0u8,
    ] + u16_le(count_field(placed.len())) + points_bytes(placed)
}

/// The bytes of a circle whose centre has been placed.
pub open spec fn circle_bytes(center: PebblePoint, radius: u16, options: DrawOptions) -> Seq<u8> {
    seq![
        DRAW_COMMAND_TYPE_CIRCLE,
        0u8,
        options.stroke_color,
        options.stroke_width,
        options.fill_color,
    ] + u16_le(radius) + u16_le(center.x) + u16_le(center.y)
}

/// The bytes of `commands`, one after another, or the failure of the first
/// command that cannot be written.
pub open spec fn commands_bytes(commands: Seq<DrawCommand>) -> Result<Seq<u8>, Svg2PdcError>
    decreases commands.len(),
{
    if commands.len() == 0 {
        Ok(Seq::empty())
    } else {
        match commands_bytes(commands.drop_last()) {
            Err(e) => Err(e),
            Ok(head) => match commands.last().spec_bytes() {
                Err(e) => Err(e),
                Ok(bytes) => Ok(head + bytes),
            },
        }
    }
}

/// The version, a reserved byte and the size.
pub open spec fn header_bytes(size: PebblePoint) -> Seq<u8> {
    seq![DRAW_COMMAND_VERSION, 0u8] + u16_le(size.x) + u16_le(size.y)
}

/// The four letters that every image begins with.
pub open spec fn magic() -> Seq<u8> {
    seq![0x50u8, 0x44u8, 0x43u8, 0x49u8]
}

/// A payload behind the letters and its own length, of which the low 32 bits
/// are stored.
pub open spec fn framed(payload: Seq<u8>) -> Seq<u8> {
    magic() + u32_le((payload.len() % 0x1_0000_0000) as u32) + payload
}

pub proof fn lemma_points_bytes_len(points: Seq<PebblePoint>)
    ensures
        points_bytes(points).len() == 4 * points.len(),
    decreases points.len(),
{
    if points.len() > 0 {
        lemma_points_bytes_len(points.drop_last());
    }
}

/// Placing keeps the number of points.
pub proof fn lemma_placed_all_len(points: Seq<PebblePoint>, options: DrawOptions)
    ensures
        placed_all(points, options) is Ok ==> placed_all(points, options)->Ok_0.len()
            == points.len(),
    decreases points.len(),
{
    if points.len() > 0 {
        lemma_placed_all_len(points.drop_last(), options);
    }
}

fn place_points(points: &Vec<PebblePoint>, options: &DrawOptions) -> (result: Result<
    Vec<PebblePoint>,
    Svg2PdcError,
>)
    ensures
        match placed_all(points@, *options) {
            Ok(placed) => result matches Ok(v) && v@ == placed,
            Err(e) => result == Err::<Vec<PebblePoint>, Svg2PdcError>(e),
        },
{
    let mut out: Vec<PebblePoint> = Vec::new();
    let mut i: usize = 0;
    while i < points.len()
        invariant
            i <= points.len(),
            placed_all(points@.take(i as int), *options) == Ok::<Seq<PebblePoint>, Svg2PdcError>(
                out@,
            ),
        decreases points.len() - i,
    {
        let ghost next = points@.take(i + 1);
        assert(next.drop_last() =~= points@.take(i as int));
        assert(next.last() == points@[i as int]);
        match points[i].translated(options.translate).pebble_coordinates(
            &options.precision,
            &options.conversion,
        ) {
            Ok(p) => {
                out.push(p);
            },
            Err(e) => {
                proof {
                    lemma_failure_stays(points@, i + 1, *options);
                }
                return Err(e);
            },
        }
        i += 1;
    }
    assert(points@.take(i as int) =~= points@);
    Ok(out)
}

/// Once a point has been rejected, so is every longer list.
pub proof fn lemma_failure_stays(points: Seq<PebblePoint>, n: int, options: DrawOptions)
    requires
        0 <= n <= points.len(),
        placed_all(points.take(n), options) is Err,
    ensures
        placed_all(points, options) == placed_all(points.take(n), options),
    decreases points.len() - n,
{
    if n < points.len() {
        let next = points.take(n + 1);
        assert(next.drop_last() =~= points.take(n));
        lemma_failure_stays(points, n + 1, options);
    } else {
        assert(points.take(n) =~= points);
    }
}

fn write_points(writer: &mut Vec<u8>, points: &Vec<PebblePoint>)
    ensures
        final(writer)@ == old(writer)@ + points_bytes(points@),
{
    let mut i: usize = 0;
    while i < points.len()
        invariant
            i <= points.len(),
            writer@ == old(writer)@ + points_bytes(points@.take(i as int)),
        decreases points.len() - i,
    {
        let ghost next = points@.take(i + 1);
        assert(next.drop_last() =~= points@.take(i as int));
        assert(next.last() == points@[i as int]);
        put_u16(writer, points[i].x);
        put_u16(writer, points[i].y);
        assert(writer@ =~= old(writer)@ + points_bytes(next));
        i += 1;
    }
    assert(points@.take(i as int) =~= points@);
}

impl CommandView {
    /// The options of the command.
    pub open spec fn options(self) -> DrawOptions {
        match self {
            CommandView::Path { options, .. } => options,
            CommandView::Circle { options, .. } => options,
        }
    }

    /// The bytes of the command, or why it cannot be written.
    pub open spec fn bytes(self) -> Result<Seq<u8>, Svg2PdcError> {
        match self {
            CommandView::Path { points, open, options } => match placed_all(points, options) {
                Err(e) => Err(e),
                Ok(placed) => Ok(path_bytes(placed, open, options)),
            },
            CommandView::Circle { center, radius, options } => match placed_center(
                center,
                options,
            ) {
                Err(e) => Err(e),
                Ok(center) => Ok(circle_bytes(center, radius, options)),
            },
        }
    }
}

/// A path takes 9 bytes and 4 more for each point; a circle takes 11.
pub proof fn lemma_command_length(command: CommandView)
    requires
        command.bytes() is Ok,
    ensures
        match command {
            CommandView::Path { points, .. } => command.bytes()->Ok_0.len() == 9 + 4 * points.len(),
            CommandView::Circle { .. } => command.bytes()->Ok_0.len() == 11,
        },
{
    match command {
        CommandView::Path { points, open, options } => {
            lemma_placed_all_len(points, options);
            lemma_points_bytes_len(placed_all(points, options)->Ok_0);
        },
        CommandView::Circle { .. } => {},
    }
}

/// In the bytes of every command the stroke colour stands at place 2, the
/// stroke width at place 3 and the fill colour at place 4.
pub proof fn lemma_paint_in_bytes(command: CommandView)
    requires
        command.bytes() is Ok,
    ensures
        command.bytes()->Ok_0.len() >= 5,
        command.bytes()->Ok_0[2] == command.options().stroke_color,
        command.bytes()->Ok_0[3] == command.options().stroke_width,
        command.bytes()->Ok_0[4] == command.options().fill_color,
{
}

impl DrawCommand {
    /// The bytes of this command, or why it cannot be written.
    pub open spec fn spec_bytes(self) -> Result<Seq<u8>, Svg2PdcError> {
        self@.bytes()
    }

    /// Appends this command to `writer` and returns how many bytes that
    /// took. Where a point is rejected, nothing is appended.
    pub fn serialize(&self, writer: &mut Vec<u8>) -> (result: Result<usize, Svg2PdcError>)
        ensures
            match self.spec_bytes() {
                Ok(bytes) => final(writer)@ == old(writer)@ + bytes && result
                    == Ok::<usize, Svg2PdcError>(bytes.len() as usize) && bytes.len()
                    <= usize::MAX,
                Err(e) => final(writer)@ == old(writer)@ && result == Err::<usize, Svg2PdcError>(e),
            },
    {
        let before = writer.len();
        match self {
            DrawCommand::Path { points, open, options } => {
                let placed = place_points(points, options)?;
                proof {
                    lemma_placed_all_len(points@, *options);
                }
                let draw_command_type = match options.precision {
                    Precision::Normal => DRAW_COMMAND_TYPE_PATH,
                    Precision::Precise => DRAW_COMMAND_TYPE_PRECISE_PATH,
                };
                put_u8(writer, draw_command_type);
                put_u8(writer, 0);
                put_u8(writer, options.stroke_color);
                put_u8(writer, options.stroke_width);
                put_u8(writer, options.fill_color);
                put_u8(writer, if *open { 1 } else { 0 });
                put_u8(writer, 0);
                put_u16(writer, (placed.len() % 65536) as u16);
                write_points(writer, &placed);
                assert(writer@ =~= old(writer)@ + path_bytes(placed@, *open, *options));
            },
            DrawCommand::Circle { center, radius, options } => {
                let center = center.translated(options.translate).pebble_coordinates(
                    &Precision::Normal,
                    &options.conversion,
                )?;
                put_u8(writer, DRAW_COMMAND_TYPE_CIRCLE);
                put_u8(writer, 0);
                put_u8(writer, options.stroke_color);
                put_u8(writer, options.stroke_width);
                put_u8(writer, options.fill_color);
                put_u16(writer, *radius);
                put_u16(writer, center.x);
                put_u16(writer, center.y);
                assert(writer@ =~= old(writer)@ + circle_bytes(center, *radius, *options));
            },
        }
        Ok(writer.len() - before)
    }
}

/// Once a command has failed, so does every longer list.
pub proof fn lemma_command_failure_stays(commands: Seq<DrawCommand>, n: int)
    requires
        0 <= n <= commands.len(),
        commands_bytes(commands.take(n)) is Err,
    ensures
        commands_bytes(commands) == commands_bytes(commands.take(n)),
    decreases commands.len() - n,
{
    if n < commands.len() {
        let next = commands.take(n + 1);
        assert(next.drop_last() =~= commands.take(n));
        lemma_command_failure_stays(commands, n + 1);
    } else {
        assert(commands.take(n) =~= commands);
    }
}

impl PebbleImage {
    /// What follows the length: header, number of commands, commands.
    pub open spec fn spec_payload(self) -> Result<Seq<u8>, Svg2PdcError> {
        match commands_bytes(self.commands@) {
            Err(e) => Err(e),
            Ok(body) => Ok(
                header_bytes(self.size) + u16_le(count_field(self.commands@.len())) + body,
            ),
        }
    }

    /// The bytes of the whole image, or why it cannot be written.
    pub open spec fn spec_bytes(self) -> Result<Seq<u8>, Svg2PdcError> {
        match self.spec_payload() {
            Err(e) => Err(e),
            Ok(payload) => Ok(framed(payload)),
        }
    }

    /// Appends the version, a reserved byte and the size to `writer`.
    pub fn serialize_header(&self, writer: &mut Vec<u8>)
        ensures
            final(writer)@ == old(writer)@ + header_bytes(self.size),
    {
        put_u8(writer, DRAW_COMMAND_VERSION);
        put_u8(writer, 0);
        put_u16(writer, self.size.x);
        put_u16(writer, self.size.y);
        assert(writer@ =~= old(writer)@ + header_bytes(self.size));
    }

    /// Appends the whole image to `writer`. Where a command cannot be
    /// written, nothing is appended.
    pub fn serialize(&self, writer: &mut Vec<u8>) -> (result: Result<(), Svg2PdcError>)
        ensures
            match self.spec_bytes() {
                Ok(bytes) => final(writer)@ == old(writer)@ + bytes && result is Ok,
                Err(e) => final(writer)@ == old(writer)@ && result == Err::<(), Svg2PdcError>(e),
            },
    {
        let mut payload: Vec<u8> = Vec::new();
        self.serialize_header(&mut payload);
        put_u16(&mut payload, (self.commands.len() % 65536) as u16);
        let ghost prefix = payload@;
        let mut i: usize = 0;
        while i < self.commands.len()
            invariant
                i <= self.commands.len(),
                prefix == header_bytes(self.size) + u16_le(count_field(self.commands@.len())),
                commands_bytes(self.commands@.take(i as int)) is Ok,
                payload@ == prefix + commands_bytes(self.commands@.take(i as int))->Ok_0,
            decreases self.commands.len() - i,
        {
            let ghost next = self.commands@.take(i + 1);
            assert(next.drop_last() =~= self.commands@.take(i as int));
            assert(next.last() == self.commands@[i as int]);
            match self.commands[i].serialize(&mut payload) {
                Ok(_) => {
                    assert(payload@ =~= prefix + commands_bytes(next)->Ok_0);
                },
                Err(e) => {
                    proof {
                        lemma_command_failure_stays(self.commands@, i + 1);
                    }
                    return Err(e);
                },
            }
            i += 1;
        }
        assert(self.commands@.take(i as int) =~= self.commands@);
        put_u8(writer, 0x50);
        put_u8(writer, 0x44);
        put_u8(writer, 0x43);
        put_u8(writer, 0x49);
        let length: u64 = payload.len() as u64;
        put_u32(writer, (length % 0x1_0000_0000) as u32);
        let ghost body = payload@;
        writer.append(&mut payload);
        assert(writer@ =~= old(writer)@ + framed(body));
        Ok(())
    }
}

} // verus!
