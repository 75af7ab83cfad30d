//! Colours: four full channels, and the one-byte palette colour of the
//! display with two bits to a channel.

use vstd::prelude::*;
use crate::error::{error_view, ErrorView, Svg2PdcError};
use crate::text::{chars_of, slice_of, string_of};
use vstd::arithmetic::div_mod::lemma_fundamental_div_mod_converse;

verus! {

/// How a full colour is brought onto the palette.
#[derive(Debug, Clone, Copy, PartialEq, Eq, Structural)]
pub enum TruncateColor {
    /// Each channel goes down to the level at or below it.
    Truncate,
    /// Each channel goes to the level nearest to it.
    Keep,
}

/// A colour with four channels of eight bits.
#[derive(Debug, Clone, Copy, PartialEq, Eq, Structural)]
pub struct Color {
    pub r: u8,
    pub g: u8,
    pub b: u8,
    pub a: u8,
}

impl Default for Color {
    fn default() -> (c: Color)
        ensures
            c == (Color { r: 0, g: 0, b: 0, a: 0 }),
    {
        Color { r: 0, g: 0, b: 0, a: 0 }
    }
}

/// The value of a hexadecimal digit.
pub open spec fn hex_digit(c: char) -> Option<int> {
    if '0' <= c && c <= '9' {
        Some(c as int - '0' as int)
    } else if 'a' <= c && c <= 'f' {
        Some(c as int - 'a' as int + 10)
    } else if 'A' <= c && c <= 'F' {
        Some(c as int - 'A' as int + 10)
    } else {
        None
    }
}

/// The value of the two hexadecimal digits at `at` and `at + 1`.
pub open spec fn hex_pair(s: Seq<char>, at: int) -> Option<int> {
    if 0 <= at && at + 1 < s.len() && hex_digit(s[at]) is Some && hex_digit(s[at + 1]) is Some {
        Some(16 * hex_digit(s[at])->0 + hex_digit(s[at + 1])->0)
    } else {
        None
    }
}

/// Number of `#` signs that `s` begins with.
pub open spec fn leading_hashes(s: Seq<char>) -> nat
    decreases s.len(),
{
    if s.len() > 0 && s[0] == '#' {
        1 + leading_hashes(s.drop_first())
    } else {
        0
    }
}

/// `s` without the `#` signs it begins with.
pub open spec fn strip_hashes(s: Seq<char>) -> Seq<char> {
    s.skip(leading_hashes(s) as int)
}

/// The colour that the digits `d` spell: red, green and blue from the first
/// six, alpha from the last two of exactly eight, else opaque.
pub open spec fn color_of_digits(d: Seq<char>) -> Option<Color> {
    if hex_pair(d, 0) is Some && hex_pair(d, 2) is Some && hex_pair(d, 4) is Some {
        Some(
            Color {
                r: hex_pair(d, 0)->0 as u8,
                g: hex_pair(d, 2)->0 as u8,
                b: hex_pair(d, 4)->0 as u8,
                a: if d.len() == 8 && hex_pair(d, 6) is Some {
                    hex_pair(d, 6)->0 as u8
                } else {
                    255
                },
            },
        )
    } else {
        None
    }
}

/// The colour that `text` spells, if it spells one.
pub open spec fn parse_hex(text: Seq<char>) -> Option<Color> {
    color_of_digits(strip_hashes(text))
}

/// The colour that `text` spells, or the failure that holds `text` without
/// its `#` signs.
pub open spec fn color_or_error(text: Seq<char>) -> Result<Color, ErrorView> {
    match parse_hex(text) {
        Some(color) => Ok(color),
        None => Err(ErrorView::InvalidColor(strip_hashes(text))),
    }
}

/// The count of leading `#` signs is the first place that holds another
/// character.
pub proof fn lemma_leading_hashes_is(s: Seq<char>, n: int)
    requires
        0 <= n <= s.len(),
        forall|i: int| 0 <= i < n ==> s[i] == '#',
        n < s.len() ==> s[n] != '#',
    ensures
        leading_hashes(s) == n,
    decreases s.len(),
{
    if s.len() > 0 && s[0] == '#' {
        if n == 0 {
            assert(false);
        }
        let rest = s.drop_first();
        assert forall|i: int| 0 <= i < n - 1 implies rest[i] == '#' by {
            assert(rest[i] == s[i + 1]);
        }
        if n - 1 < rest.len() {
            assert(rest[n - 1] == s[n]);
        }
        lemma_leading_hashes_is(rest, n - 1);
    } else {
        if n > 0 {
            assert(s[0] == '#');
        }
    }
}

fn hex_value(c: char) -> (v: Option<u8>)
    ensures
        match hex_digit(c) {
            Some(d) => v == Some(d as u8) && 0 <= d < 16,
            None => v is None,
        },
{
    if c >= '0' && c <= '9' {
        Some((c as u32 - '0' as u32) as u8)
    } else if c >= 'a' && c <= 'f' {
        Some((c as u32 - 'a' as u32 + 10) as u8)
    } else if c >= 'A' && c <= 'F' {
        Some((c as u32 - 'A' as u32 + 10) as u8)
    } else {
        None
    }
}

fn pair_value(chars: &Vec<char>, start: usize, at: usize) -> (v: Option<u8>)
    requires
        start <= chars.len(),
        at <= 6,
    ensures
        match hex_pair(chars@.skip(start as int), at as int) {
            Some(p) => v == Some(p as u8) && 0 <= p < 256,
            None => v is None,
        },
{
    let n = chars.len() - start;
    if at + 1 >= n {
        return None;
    }
    let ghost d = chars@.skip(start as int);
    assert(d[at as int] == chars@[start + at]);
    assert(d[at + 1] == chars@[start + at + 1]);
    match hex_value(chars[start + at]) {
        None => None,
        Some(hi) => match hex_value(chars[start + at + 1]) {
            None => None,
            Some(lo) => Some(hi * 16 + lo),
        },
    }
}

impl Color {
    /// This colour with its alpha replaced.
    pub open spec fn spec_with_opacity(self, opacity: u8) -> Color {
        Color { r: self.r, g: self.g, b: self.b, a: opacity }
    }

    /// Reads a colour written as `RRGGBB` or `RRGGBBAA` in hexadecimal
    /// digits, with any number of `#` signs before them. Without the last
    /// pair the colour is opaque.
    ///
    /// Text that does not begin with six such digits is rejected; the error
    /// holds the text without its `#` signs.
    pub fn try_from_hex(hex: &str) -> (result: Result<Color, Svg2PdcError>)
        ensures
            error_view(result) == color_or_error(hex@),
    {
        let chars = chars_of(hex);
        Color::try_from_chars(&chars)
    }

    /// [`Color::try_from_hex`] on text that is held as characters.
    pub fn try_from_chars(chars: &Vec<char>) -> (result: Result<Color, Svg2PdcError>)
        ensures
            error_view(result) == color_or_error(chars@),
    {
        let mut start: usize = 0;
        while start < chars.len() && chars[start] == '#'
            invariant
                start <= chars.len(),
                forall|i: int| 0 <= i < start ==> chars@[i] == '#',
            decreases chars.len() - start,
        {
            start += 1;
        }
        proof {
            lemma_leading_hashes_is(chars@, start as int);
        }
        let ghost digits = chars@.skip(start as int);
        let r = pair_value(chars, start, 0);
        let g = pair_value(chars, start, 2);
        let b = pair_value(chars, start, 4);
        match (r, g, b) {
            (Some(r), Some(g), Some(b)) => {
                let a = if chars.len() - start == 8 {
                    match pair_value(chars, start, 6) {
                        Some(a) => a,
                        None => 255,
                    }
                } else {
                    255
                };
                Ok(Color { r, g, b, a })
            },
            _ => {
                let rest = slice_of(chars, start, chars.len());
                assert(rest@ =~= digits);
                let text = string_of(&rest);
                Err(Svg2PdcError::InvalidColor(text))
            },
        }
    }

    /// This colour with its alpha replaced.
    pub fn with_opacity(&self, opacity: u8) -> (c: Color)
        ensures
            c == self.spec_with_opacity(opacity),
    {
        Color { r: self.r, g: self.g, b: self.b, a: opacity }
    }
}

/// The palette level at or below a channel: 0 to 3.
pub open spec fn truncated_level(channel: u8) -> int {
    channel as int / 85
}

/// The palette level nearest to a channel: 0 to 3.
pub open spec fn nearest_level(channel: u8) -> int {
    (channel as int + 42) / 85
}

/// The level that `policy` gives a channel.
pub open spec fn level(channel: u8, policy: TruncateColor) -> int {
    match policy {
        TruncateColor::Truncate => truncated_level(channel),
        TruncateColor::Keep => nearest_level(channel),
    }
}

/// Four levels in one byte: alpha in the two highest bits, then red, green
/// and blue.
pub open spec fn pack(a: int, r: int, g: int, b: int) -> int {
    a * 64 + r * 16 + g * 4 + b
}

/// The byte that `policy` gives `color`: a colour whose alpha falls to level
/// 0 is nothing at all, whatever its other channels.
pub open spec fn quantized_byte(color: Color, policy: TruncateColor) -> int {
    if level(color.a, policy) == 0 {
        0
    } else {
        pack(
            level(color.a, policy),
            level(color.r, policy),
            level(color.g, policy),
            level(color.b, policy),
        )
    }
}

/// A colour of the display: one byte, two bits to a channel.
#[derive(Debug, Clone, Copy, PartialEq, Eq, Structural)]
pub struct PebbleColor(pub u8);

impl Default for PebbleColor {
    fn default() -> (c: PebbleColor)
        ensures
            c.0 == 0,
    {
        PebbleColor(0)
    }
}

impl PebbleColor {
    /// Level of alpha.
    pub open spec fn spec_a(self) -> int {
        self.0 as int / 64
    }

    /// Level of red.
    pub open spec fn spec_r(self) -> int {
        (self.0 as int / 16) % 4
    }

    /// Level of green.
    pub open spec fn spec_g(self) -> int {
        (self.0 as int / 4) % 4
    }

    /// Level of blue.
    pub open spec fn spec_b(self) -> int {
        self.0 as int % 4
    }

    /// Whether red, green and blue are all at level 0.
    pub open spec fn spec_is_black(self) -> bool {
        self.0 as int % 64 == 0
    }

    /// The full colour whose channels sit exactly on the levels of this one.
    pub open spec fn spec_color(self) -> Color {
        Color {
            r: (self.spec_r() * 85) as u8,
            g: (self.spec_g() * 85) as u8,
            b: (self.spec_b() * 85) as u8,
            a: (self.spec_a() * 85) as u8,
        }
    }

    /// No colour: the byte 0.
    pub fn nothing() -> (c: PebbleColor)
        ensures
            c.0 == 0,
    {
        PebbleColor(0)
    }

    /// Packs the levels at or below the channels of `color`.
    pub fn from_color(color: Color) -> (c: PebbleColor)
        ensures
            c.0 == pack(
                truncated_level(color.a),
                truncated_level(color.r),
                truncated_level(color.g),
                truncated_level(color.b),
            ),
    {
        PebbleColor((color.a / 85) * 64 + (color.r / 85) * 16 + (color.g / 85) * 4 + color.b / 85)
    }

    /// Brings `color` onto the palette, each channel going down to its level.
    pub fn from_color_with_truncate(color: Color) -> (c: PebbleColor)
        ensures
            c.0 == quantized_byte(color, TruncateColor::Truncate),
    {
        let a: u8 = (color.a / 85) * 85;
        if a == 0 {
            return PebbleColor(0);
        }
        let r: u8 = (color.r / 85) * 85;
        let g: u8 = (color.g / 85) * 85;
        let b: u8 = (color.b / 85) * 85;
        PebbleColor::from_color(Color { r, g, b, a })
    }

    /// Brings `color` onto the palette, each channel going to its nearest
    /// level.
    pub fn from_color_with_convert(color: Color) -> (c: PebbleColor)
        ensures
            c.0 == quantized_byte(color, TruncateColor::Keep),
    {
        let a: u8 = ((color.a as u16 + 42) / 85) as u8 * 85;
        if a == 0 {
            return PebbleColor(0);
        }
        let r: u8 = ((color.r as u16 + 42) / 85) as u8 * 85;
        let g: u8 = ((color.g as u16 + 42) / 85) as u8 * 85;
        let b: u8 = ((color.b as u16 + 42) / 85) as u8 * 85;
        PebbleColor::from_color(Color { r, g, b, a })
    }

    /// Brings `color` onto the palette as `policy` says.
    pub fn quantize(color: Color, policy: &TruncateColor) -> (c: PebbleColor)
        ensures
            c.0 == quantized_byte(color, *policy),
    {
        match policy {
            TruncateColor::Truncate => PebbleColor::from_color_with_truncate(color),
            TruncateColor::Keep => PebbleColor::from_color_with_convert(color),
        }
    }

    pub fn get_a(&self) -> (level: u8)
        ensures
            level == self.spec_a(),
            level < 4,
    {
        self.0 / 64
    }

    pub fn get_r(&self) -> (level: u8)
        ensures
            level == self.spec_r(),
            level < 4,
    {
        (self.0 / 16) % 4
    }

    pub fn get_g(&self) -> (level: u8)
        ensures
            level == self.spec_g(),
            level < 4,
    {
        (self.0 / 4) % 4
    }

    pub fn get_b(&self) -> (level: u8)
        ensures
            level == self.spec_b(),
            level < 4,
    {
        self.0 % 4
    }

    /// Whether red, green and blue are all at level 0, whatever the alpha.
    pub fn is_black(&self) -> (black: bool)
        ensures
            black == self.spec_is_black(),
            black == (self.spec_r() == 0 && self.spec_g() == 0 && self.spec_b() == 0),
    {
        self.0 % 64 == 0
    }

    /// Bits to a pixel that a palette of `num_colors` colours needs.
    pub fn num_colors_to_bitdepth(num_colors: u32) -> (depth: Option<u8>)
        ensures
            depth == if 1 <= num_colors <= 2 {
                Some(1u8)
            } else if 3 <= num_colors <= 4 {
                Some(2u8)
            } else if 5 <= num_colors <= 16 {
                Some(4u8)
            } else if 17 <= num_colors <= 256 {
                Some(8u8)
            } else {
                None
            },
    {
        if num_colors == 0 {
            None
        } else if num_colors <= 2 {
            Some(1)
        } else if num_colors <= 4 {
            Some(2)
        } else if num_colors <= 16 {
            Some(4)
        } else if num_colors <= 256 {
            Some(8)
        } else {
            None
        }
    }

    /// The byte itself.
    pub fn inner(&self) -> (byte: u8)
        ensures
            byte == self.0,
    {
        self.0
    }
}

/// Replacing the alpha of a colour read from six or eight digits gives the
/// colour read from its first six digits followed by that alpha in two
/// digits.
pub proof fn lemma_opacity_is_alpha_digits(text: Seq<char>, high: char, low: char)
    requires
        parse_hex(text) is Some,
        strip_hashes(text).len() == 6 || strip_hashes(text).len() == 8,
        hex_digit(high) is Some,
        hex_digit(low) is Some,
    ensures
        parse_hex(strip_hashes(text).take(6).push(high).push(low)) == Some(
            parse_hex(text)->0.spec_with_opacity(
                (16 * hex_digit(high)->0 + hex_digit(low)->0) as u8,
            ),
        ),
{
    let digits = strip_hashes(text);
    let other = digits.take(6).push(high).push(low);
    assert(other[0] == digits[0]);
    assert(other[1] == digits[1]);
    assert(other[2] == digits[2]);
    assert(other[3] == digits[3]);
    assert(other[4] == digits[4]);
    assert(other[5] == digits[5]);
    assert(other[6] == high);
    assert(other[7] == low);
    assert(other[0] != '#');
    assert(leading_hashes(other) == 0);
    assert(other.skip(0) =~= other);
}

/// A colour written with two more digits for its alpha reads as the colour
/// written without them, with that alpha.
pub proof fn lemma_alpha_digits_are_opacity(digits: Seq<char>, high: char, low: char)
    requires
        digits.len() == 6,
        color_of_digits(digits) is Some,
        hex_digit(high) is Some,
        hex_digit(low) is Some,
    ensures
        parse_hex(digits) == color_of_digits(digits),
        parse_hex(digits.push(high).push(low)) == Some(
            color_of_digits(digits)->0.spec_with_opacity(
                (16 * hex_digit(high)->0 + hex_digit(low)->0) as u8,
            ),
        ),
{
    let other = digits.push(high).push(low);
    assert(digits[0] != '#');
    assert(other[0] == digits[0]);
    assert(other[1] == digits[1]);
    assert(other[2] == digits[2]);
    assert(other[3] == digits[3]);
    assert(other[4] == digits[4]);
    assert(other[5] == digits[5]);
    assert(leading_hashes(digits) == 0);
    assert(leading_hashes(other) == 0);
    assert(digits.skip(0) =~= digits);
    assert(other.skip(0) =~= other);
}

/// A quantized colour fits a byte.
pub proof fn lemma_quantized_byte_range(color: Color, policy: TruncateColor)
    ensures
        0 <= quantized_byte(color, policy) < 256,
{
}

/// Unpacking gives back each level that was packed.
pub proof fn lemma_pack_round_trip(a: int, r: int, g: int, b: int)
    requires
        0 <= a < 4,
        0 <= r < 4,
        0 <= g < 4,
        0 <= b < 4,
    ensures
        0 <= pack(a, r, g, b) < 256,
        PebbleColor(pack(a, r, g, b) as u8).spec_a() == a,
        PebbleColor(pack(a, r, g, b) as u8).spec_r() == r,
        PebbleColor(pack(a, r, g, b) as u8).spec_g() == g,
        PebbleColor(pack(a, r, g, b) as u8).spec_b() == b,
{
    let byte = pack(a, r, g, b);
    lemma_fundamental_div_mod_converse(byte, 64, a, r * 16 + g * 4 + b);
    lemma_fundamental_div_mod_converse(byte, 16, a * 4 + r, g * 4 + b);
    lemma_fundamental_div_mod_converse(byte, 4, a * 16 + r * 4 + g, b);
    lemma_fundamental_div_mod_converse(a * 4 + r, 4, a, r);
    lemma_fundamental_div_mod_converse(a * 16 + r * 4 + g, 4, a * 4 + r, g);
}

/// Packing the levels of a palette colour gives that colour back.
pub proof fn lemma_unpack_round_trip(color: PebbleColor)
    ensures
        pack(color.spec_a(), color.spec_r(), color.spec_g(), color.spec_b()) == color.0,
{
    let byte = color.0;
    assert((byte / 64) * 64 + ((byte / 16) % 4) * 16 + ((byte / 4) % 4) * 4 + byte % 4 == byte)
        by (bit_vector);
}

/// Quantizing is idempotent: a colour that came out of a quantization, taken
/// as a full colour again, quantizes to itself under either policy.
pub proof fn lemma_quantize_idempotent(color: Color, first: TruncateColor, second: TruncateColor)
    ensures
        0 <= quantized_byte(color, first) < 256,
        quantized_byte(PebbleColor(quantized_byte(color, first) as u8).spec_color(), second)
            == quantized_byte(color, first),
{
    let a = level(color.a, first);
    let r = level(color.r, first);
    let g = level(color.g, first);
    let b = level(color.b, first);
    if a != 0 {
        lemma_pack_round_trip(a, r, g, b);
    }
}

/// The level that the converting policy picks is the nearest one: no other
/// level lies closer to the channel.
pub proof fn lemma_nearest_level_is_nearest(channel: u8, other: int)
    requires
        0 <= other < 4,
    ensures
        0 <= nearest_level(channel) < 4,
        channel - 85 * nearest_level(channel) <= 42,
        85 * nearest_level(channel) - channel <= 42,
        (channel - 85 * nearest_level(channel) <= channel - 85 * other) || (channel - 85
            * nearest_level(channel) <= 85 * other - channel),
        (85 * nearest_level(channel) - channel <= channel - 85 * other) || (85 * nearest_level(
            channel,
        ) - channel <= 85 * other - channel),
{
}

} // verus!
