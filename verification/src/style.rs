//! Presentation: what an element says of its own stroke and fill, what it
//! inherits from the groups around it, and the paint that comes of both.

use vstd::prelude::*;
use crate::color::{
    parse_hex, quantized_byte, strip_hashes, Color, PebbleColor, TruncateColor,
};
use crate::error::{error_view, ErrorView, Svg2PdcError};
use crate::fixed::{clamp_between, Fixed, ONE};
use crate::number::{all_digits, digit, is_digit, number_of, parse_text, whole_value};
use crate::scene::{attribute_value, Attribute, SvgNode};
use crate::text::{
    chars_of, find_char, index_of, lowered, lowered_chars, same_chars, slice_of,
    string_of, trim_bounds, trimmed,
};

verus! {

/// One name with its value.
#[derive(Debug, Clone)]
pub struct Entry {
    pub key: Vec<char>,
    pub value: Vec<char>,
}

/// `entries` as pairs of sequences.
pub open spec fn entry_views(entries: Seq<Entry>) -> Seq<(Seq<char>, Seq<char>)> {
    Seq::new(entries.len(), |i: int| (entries[i].key@, entries[i].value@))
}

/// What follows the first `c` of `s`; nothing where `s` holds no `c`.
pub open spec fn after_first(s: Seq<char>, c: char) -> Seq<char> {
    if 0 <= index_of(s, c) < s.len() {
        s.skip(index_of(s, c) + 1)
    } else {
        Seq::empty()
    }
}

/// The name and the value of one declaration `name:value`, each without the
/// white space around it. What follows a second colon is left out.
pub open spec fn declaration(piece: Seq<char>) -> (Seq<char>, Seq<char>) {
    (
        trimmed(piece.take(index_of(piece, ':'))),
        trimmed(after_first(piece, ':').take(index_of(after_first(piece, ':'), ':'))),
    )
}

/// The declarations of a `style` attribute, which `;` separates.
pub open spec fn declarations(text: Seq<char>) -> Seq<(Seq<char>, Seq<char>)>
    decreases text.len(),
{
    if 0 <= index_of(text, ';') < text.len() {
        seq![declaration(text.take(index_of(text, ';')))] + declarations(
            text.skip(index_of(text, ';') + 1),
        )
    } else {
        seq![declaration(text)]
    }
}

/// The attributes as entries, their names in lower case.
pub open spec fn attribute_entries(attributes: Seq<Attribute>) -> Seq<(Seq<char>, Seq<char>)> {
    Seq::new(attributes.len(), |i: int| (lowered(attributes[i].name@), attributes[i].value@))
}

/// The text of the `style` attribute; empty where there is none.
pub open spec fn style_text(attributes: Seq<Attribute>) -> Seq<char> {
    match attribute_value(attributes, "style"@) {
        Some(text) => text,
        None => Seq::empty(),
    }
}

/// Everything an element says of its presentation: the declarations of its
/// `style` attribute, then its attributes. A later entry overrides an
/// earlier one of the same name.
pub open spec fn presentation(attributes: Seq<Attribute>) -> Seq<(Seq<char>, Seq<char>)> {
    declarations(style_text(attributes)) + attribute_entries(attributes)
}

/// The value of the last entry named `key`.
pub open spec fn find_last(entries: Seq<(Seq<char>, Seq<char>)>, key: Seq<char>) -> Option<
    Seq<char>,
>
    decreases entries.len(),
{
    if entries.len() == 0 {
        None
    } else if entries.last().0 == key {
        Some(entries.last().1)
    } else {
        find_last(entries.drop_last(), key)
    }
}

pub proof fn lemma_find_last_found(entries: Seq<(Seq<char>, Seq<char>)>, key: Seq<char>, at: int)
    requires
        0 <= at < entries.len(),
        entries[at].0 == key,
        forall|i: int| at < i < entries.len() ==> entries[i].0 != key,
    ensures
        find_last(entries, key) == Some(entries[at].1),
    decreases entries.len(),
{
    if at < entries.len() - 1 {
        let rest = entries.drop_last();
        assert(rest[at] == entries[at]);
        assert forall|i: int| at < i < rest.len() implies rest[i].0 != key by {
            assert(rest[i] == entries[i]);
        }
        lemma_find_last_found(rest, key, at);
    }
}

pub proof fn lemma_find_last_absent(entries: Seq<(Seq<char>, Seq<char>)>, key: Seq<char>)
    requires
        forall|i: int| 0 <= i < entries.len() ==> entries[i].0 != key,
    ensures
        find_last(entries, key) is None,
    decreases entries.len(),
{
    if entries.len() > 0 {
        let rest = entries.drop_last();
        assert forall|i: int| 0 <= i < rest.len() implies rest[i].0 != key by {
            assert(rest[i] == entries[i]);
        }
        lemma_find_last_absent(rest, key);
    }
}

fn read_declaration(chars: &Vec<char>, from: usize, to: usize) -> (entry: Entry)
    requires
        from <= to <= chars.len(),
    ensures
        (entry.key@, entry.value@) == declaration(chars@.subrange(from as int, to as int)),
{
    let ghost piece = chars@.subrange(from as int, to as int);
    let colon = find_char(chars, from, to, ':');
    assert(piece.take(index_of(piece, ':')) =~= chars@.subrange(from as int, colon as int));
    let key_bounds = trim_bounds(chars, from, colon);
    let key = slice_of(chars, key_bounds.0, key_bounds.1);
    let rest_from: usize = if colon < to {
        colon + 1
    } else {
        to
    };
    let ghost rest = after_first(piece, ':');
    assert(rest =~= chars@.subrange(rest_from as int, to as int));
    let second = find_char(chars, rest_from, to, ':');
    assert(rest.take(index_of(rest, ':')) =~= chars@.subrange(rest_from as int, second as int));
    let value_bounds = trim_bounds(chars, rest_from, second);
    let value = slice_of(chars, value_bounds.0, value_bounds.1);
    Entry { key, value }
}

fn read_declarations(chars: &Vec<char>, entries: &mut Vec<Entry>)
    ensures
        entry_views(final(entries)@) == entry_views(old(entries)@) + declarations(chars@),
{
    let len = chars.len();
    let mut from: usize = 0;
    assert(chars@.skip(0) =~= chars@);
    loop
        invariant_except_break
            from <= len == chars.len(),
            entry_views(entries@) + declarations(chars@.skip(from as int)) == entry_views(
                old(entries)@,
            ) + declarations(chars@),
        ensures
            entry_views(entries@) == entry_views(old(entries)@) + declarations(chars@),
        decreases len - from,
    {
        let ghost rest = chars@.skip(from as int);
        let ghost before = entry_views(entries@);
        assert(rest =~= chars@.subrange(from as int, len as int));
        let end = find_char(chars, from, len, ';');
        assert(rest.take(end - from) =~= chars@.subrange(from as int, end as int));
        let entry = read_declaration(chars, from, end);
        entries.push(entry);
        assert(entry_views(entries@) =~= before.push(declaration(rest.take(end - from))));
        if end >= len {
            assert(rest.take(end - from) =~= rest);
            assert(before.push(declaration(rest)) =~= before + declarations(rest));
            break;
        }
        assert(rest.skip(end - from + 1) =~= chars@.skip(end + 1));
        assert(before.push(declaration(rest.take(end - from))) + declarations(chars@.skip(end + 1))
            =~= before + declarations(rest));
        from = end + 1;
    }
}

/// Reads what `node` says of its presentation.
pub fn read_presentation(node: &SvgNode) -> (entries: Vec<Entry>)
    ensures
        entry_views(entries@) == presentation(node.attributes@),
{
    let mut entries: Vec<Entry> = Vec::new();
    let style = match node.attribute("style") {
        Some(text) => text,
        None => Vec::new(),
    };
    assert(entry_views(entries@) =~= Seq::empty());
    read_declarations(&style, &mut entries);
    assert(entry_views(entries@) =~= declarations(style_text(node.attributes@)));
    let mut i: usize = 0;
    while i < node.attributes.len()
        invariant
            i <= node.attributes.len(),
            entry_views(entries@) == declarations(style_text(node.attributes@))
                + attribute_entries(node.attributes@).take(i as int),
        decreases node.attributes.len() - i,
    {
        let ghost before = entry_views(entries@);
        let key = lowered_chars(node.attributes[i].name.as_str());
        let value = chars_of(node.attributes[i].value.as_str());
        entries.push(Entry { key, value });
        assert(entry_views(entries@) =~= before.push(attribute_entries(node.attributes@)[i as int]));
        assert(attribute_entries(node.attributes@).take(i + 1) =~= attribute_entries(
            node.attributes@,
        ).take(i as int).push(attribute_entries(node.attributes@)[i as int]));
        i += 1;
    }
    assert(attribute_entries(node.attributes@).take(i as int) =~= attribute_entries(
        node.attributes@,
    ));
    entries
}

/// The value of the last entry named `key`.
pub fn lookup(entries: &Vec<Entry>, key: &str) -> (value: Option<Vec<char>>)
    ensures
        match find_last(entry_views(entries@), key@) {
            Some(text) => value matches Some(v) && v@ == text,
            None => value is None,
        },
{
    let wanted = chars_of(key);
    let mut i: usize = entries.len();
    while i > 0
        invariant
            i <= entries.len(),
            wanted@ == key@,
            forall|k: int| i <= k < entries.len() ==> entry_views(entries@)[k].0 != key@,
        decreases i,
    {
        if same_chars(&entries[i - 1].key, &wanted) {
            proof {
                lemma_find_last_found(entry_views(entries@), key@, i - 1);
            }
            return Some(slice_of(&entries[i - 1].value, 0, entries[i - 1].value.len()));
        }
        i -= 1;
    }
    proof {
        lemma_find_last_absent(entry_views(entries@), key@);
    }
    None
}

/// What a group hands down to the elements inside it; `None` where it says
/// nothing.
#[derive(Debug, Clone, Copy)]
pub struct GroupOptions {
    pub opacity: Option<Fixed>,
    pub fill_color: Option<Color>,
    pub fill_opacity: Option<Fixed>,
    pub stroke_color: Option<Color>,
    pub stroke_opacity: Option<Fixed>,
    pub stroke_width: Option<u8>,
}

/// `own` where it holds a value, else `inherited`.
pub open spec fn first_of<T>(own: Option<T>, inherited: Option<T>) -> Option<T> {
    if own is Some {
        own
    } else {
        inherited
    }
}

impl GroupOptions {
    /// Options that say nothing.
    pub open spec fn spec_empty() -> GroupOptions {
        GroupOptions {
            opacity: None,
            fill_color: None,
            fill_opacity: None,
            stroke_color: None,
            stroke_opacity: None,
            stroke_width: None,
        }
    }

    /// Options that say nothing.
    pub fn empty() -> (options: GroupOptions)
        ensures
            options == GroupOptions::spec_empty(),
    {
        GroupOptions {
            opacity: None,
            fill_color: None,
            fill_opacity: None,
            stroke_color: None,
            stroke_opacity: None,
            stroke_width: None,
        }
    }

    /// These options laid over `inherited`: each value of `self` overrides,
    /// each value it lacks passes through.
    pub open spec fn spec_over(self, inherited: GroupOptions) -> GroupOptions {
        GroupOptions {
            opacity: first_of(self.opacity, inherited.opacity),
            fill_color: first_of(self.fill_color, inherited.fill_color),
            fill_opacity: first_of(self.fill_opacity, inherited.fill_opacity),
            stroke_color: first_of(self.stroke_color, inherited.stroke_color),
            stroke_opacity: first_of(self.stroke_opacity, inherited.stroke_opacity),
            stroke_width: first_of(self.stroke_width, inherited.stroke_width),
        }
    }

    /// These options laid over `inherited`.
    pub fn over(&self, inherited: &GroupOptions) -> (merged: GroupOptions)
        ensures
            merged == self.spec_over(*inherited),
    {
        GroupOptions {
            opacity: if self.opacity.is_some() {
                self.opacity
            } else {
                inherited.opacity
            },
            fill_color: if self.fill_color.is_some() {
                self.fill_color
            } else {
                inherited.fill_color
            },
            fill_opacity: if self.fill_opacity.is_some() {
                self.fill_opacity
            } else {
                inherited.fill_opacity
            },
            stroke_color: if self.stroke_color.is_some() {
                self.stroke_color
            } else {
                inherited.stroke_color
            },
            stroke_opacity: if self.stroke_opacity.is_some() {
                self.stroke_opacity
            } else {
                inherited.stroke_opacity
            },
            stroke_width: if self.stroke_width.is_some() {
                self.stroke_width
            } else {
                inherited.stroke_width
            },
        }
    }
}

/// A number that an element states: none where it states none, a failure
/// that holds the text where the text is no number.
pub open spec fn own_number(value: Option<Seq<char>>) -> Result<Option<Fixed>, ErrorView> {
    match value {
        None => Ok(None),
        Some(text) => match number_of(text) {
            Some(number) => Ok(Some(number)),
            None => Err(ErrorView::ParseError(text)),
        },
    }
}

/// A colour that an element states: none where it states none, a failure
/// where the text is no colour.
pub open spec fn own_color(value: Option<Seq<char>>) -> Result<Option<Color>, ErrorView> {
    match value {
        None => Ok(None),
        Some(text) => match parse_hex(text) {
            Some(color) => Ok(Some(color)),
            None => Err(ErrorView::InvalidColor(strip_hashes(text))),
        },
    }
}

/// The stroke width that a shape states: the whole part of the number,
/// limited to `0..=255`; a failure that holds the text where the text is no
/// number.
pub open spec fn shape_width(value: Option<Seq<char>>) -> Result<Option<u8>, ErrorView> {
    match value {
        None => Ok(None),
        Some(text) => match number_of(text) {
            Some(number) => Ok(Some(number.spec_truncate(255) as u8)),
            None => Err(ErrorView::ParseError(text)),
        },
    }
}

/// The decimal digits of `s`, in order, all else left out.
pub open spec fn digits_of(s: Seq<char>) -> Seq<char>
    decreases s.len(),
{
    if s.len() == 0 {
        Seq::empty()
    } else if is_digit(s.last()) {
        digits_of(s.drop_last()).push(s.last())
    } else {
        digits_of(s.drop_last())
    }
}

/// Whether `text` states a stroke width for a group: it holds a digit, no
/// point, and its digits spell a number up to 255. A unit behind the number
/// does no harm.
pub open spec fn is_group_width(text: Seq<char>) -> bool {
    &&& index_of(text, '.') >= text.len()
    &&& digits_of(text).len() > 0
    &&& whole_value(digits_of(text)) <= 255
}

/// The stroke width that a group states.
pub open spec fn group_width(value: Option<Seq<char>>) -> Result<Option<u8>, ErrorView> {
    match value {
        None => Ok(None),
        Some(text) => if is_group_width(text) {
            Ok(Some(whole_value(digits_of(text)) as u8))
        } else {
            Err(ErrorView::ParseError(text))
        },
    }
}

fn read_number(value: Option<Vec<char>>) -> (result: Result<Option<Fixed>, Svg2PdcError>)
    ensures
        error_view(result) == own_number(
            match value {
                Some(v) => Some(v@),
                None => None,
            },
        ),
{
    match value {
        None => Ok(None),
        Some(text) => match parse_text(&text) {
            Some(number) => Ok(Some(number)),
            None => Err(Svg2PdcError::ParseError(string_of(&text))),
        },
    }
}

fn read_color(value: Option<Vec<char>>) -> (result: Result<Option<Color>, Svg2PdcError>)
    ensures
        error_view(result) == own_color(
            match value {
                Some(v) => Some(v@),
                None => None,
            },
        ),
{
    match value {
        None => Ok(None),
        Some(text) => match Color::try_from_chars(&text) {
            Ok(color) => Ok(Some(color)),
            Err(e) => Err(e),
        },
    }
}

fn read_shape_width(value: Option<Vec<char>>) -> (result: Result<Option<u8>, Svg2PdcError>)
    ensures
        error_view(result) == shape_width(
            match value {
                Some(v) => Some(v@),
                None => None,
            },
        ),
{
    match value {
        None => Ok(None),
        Some(text) => match parse_text(&text) {
            Some(number) => Ok(Some(number.to_u8())),
            None => Err(Svg2PdcError::ParseError(string_of(&text))),
        },
    }
}

proof fn lemma_digits_of_are_digits(s: Seq<char>)
    ensures
        all_digits(digits_of(s)),
        whole_value(digits_of(s)) >= 0,
    decreases s.len(),
{
    if s.len() > 0 {
        lemma_digits_of_are_digits(s.drop_last());
        if is_digit(s.last()) {
            let d = digits_of(s);
            let before = digits_of(s.drop_last());
            assert(d.drop_last() =~= before);
            assert forall|i: int| 0 <= i < d.len() implies is_digit(#[trigger] d[i]) by {
                if i < before.len() {
                    assert(d[i] == before[i]);
                }
            }
        }
    }
}

fn read_group_width(value: Option<Vec<char>>) -> (result: Result<Option<u8>, Svg2PdcError>)
    ensures
        error_view(result) == group_width(
            match value {
                Some(v) => Some(v@),
                None => None,
            },
        ),
{
    let text = match value {
        None => {
            return Ok(None);
        },
        Some(text) => text,
    };
    assert(text@.subrange(0, text@.len() as int) =~= text@);
    let dot = find_char(&text, 0, text.len(), '.');
    let mut seen = false;
    let mut width: u32 = 0;
    let mut i: usize = 0;
    while i < text.len()
        invariant
            i <= text.len(),
            seen == (digits_of(text@.take(i as int)).len() > 0),
            width <= 256,
            width == whole_value(digits_of(text@.take(i as int))) || (width == 256 && whole_value(
                digits_of(text@.take(i as int)),
            ) >= 256),
        decreases text.len() - i,
    {
        let ghost before = text@.take(i as int);
        let ghost after = text@.take(i + 1);
        assert(after.drop_last() =~= before);
        assert(after.last() == text@[i as int]);
        proof {
            lemma_digits_of_are_digits(before);
        }
        let c = text[i];
        if c >= '0' && c <= '9' {
            assert(digits_of(after).drop_last() =~= digits_of(before));
            let next: u32 = width * 10 + (c as u32 - '0' as u32);
            width = if next > 256 {
                256
            } else {
                next
            };
            seen = true;
        }
        i += 1;
    }
    assert(text@.take(i as int) =~= text@);
    if dot < text.len() || !seen || width > 255 {
        Err(Svg2PdcError::ParseError(string_of(&text)))
    } else {
        Ok(Some(width as u8))
    }
}

/// What a shape says of its own presentation, or the first failure among
/// its stroke width, opacity, stroke opacity, fill opacity, stroke and fill,
/// in this order.
pub open spec fn shape_style(entries: Seq<(Seq<char>, Seq<char>)>) -> Result<
    GroupOptions,
    ErrorView,
> {
    let stroke_width = shape_width(find_last(entries, "stroke-width"@));
    let opacity = own_number(find_last(entries, "opacity"@));
    let stroke_opacity = own_number(find_last(entries, "stroke-opacity"@));
    let fill_opacity = own_number(find_last(entries, "fill-opacity"@));
    let stroke = own_color(find_last(entries, "stroke"@));
    let fill = own_color(find_last(entries, "fill"@));
    if stroke_width is Err {
        Err(stroke_width->Err_0)
    } else if opacity is Err {
        Err(opacity->Err_0)
    } else if stroke_opacity is Err {
        Err(stroke_opacity->Err_0)
    } else if fill_opacity is Err {
        Err(fill_opacity->Err_0)
    } else if stroke is Err {
        Err(stroke->Err_0)
    } else if fill is Err {
        Err(fill->Err_0)
    } else {
        Ok(
            GroupOptions {
                opacity: opacity->Ok_0,
                fill_color: fill->Ok_0,
                fill_opacity: fill_opacity->Ok_0,
                stroke_color: stroke->Ok_0,
                stroke_opacity: stroke_opacity->Ok_0,
                stroke_width: stroke_width->Ok_0,
            },
        )
    }
}

/// What a group says of the presentation of its elements, or the first
/// failure among its opacity, fill, fill opacity, stroke, stroke opacity and
/// stroke width, in this order. Only attributes count, by their exact names.
pub open spec fn group_style(attributes: Seq<Attribute>) -> Result<GroupOptions, ErrorView> {
    let opacity = own_number(attribute_value(attributes, "opacity"@));
    let fill = own_color(attribute_value(attributes, "fill"@));
    let fill_opacity = own_number(attribute_value(attributes, "fill-opacity"@));
    let stroke = own_color(attribute_value(attributes, "stroke"@));
    let stroke_opacity = own_number(attribute_value(attributes, "stroke-opacity"@));
    let stroke_width = group_width(attribute_value(attributes, "stroke-width"@));
    if opacity is Err {
        Err(opacity->Err_0)
    } else if fill is Err {
        Err(fill->Err_0)
    } else if fill_opacity is Err {
        Err(fill_opacity->Err_0)
    } else if stroke is Err {
        Err(stroke->Err_0)
    } else if stroke_opacity is Err {
        Err(stroke_opacity->Err_0)
    } else if stroke_width is Err {
        Err(stroke_width->Err_0)
    } else {
        Ok(
            GroupOptions {
                opacity: opacity->Ok_0,
                fill_color: fill->Ok_0,
                fill_opacity: fill_opacity->Ok_0,
                stroke_color: stroke->Ok_0,
                stroke_opacity: stroke_opacity->Ok_0,
                stroke_width: stroke_width->Ok_0,
            },
        )
    }
}

/// Reads what the shape `node` says of its own presentation.
pub fn read_shape_style(node: &SvgNode) -> (result: Result<GroupOptions, Svg2PdcError>)
    ensures
        error_view(result) == shape_style(presentation(node.attributes@)),
{
    let entries = read_presentation(node);
    let stroke_width = read_shape_width(lookup(&entries, "stroke-width"))?;
    let opacity = read_number(lookup(&entries, "opacity"))?;
    let stroke_opacity = read_number(lookup(&entries, "stroke-opacity"))?;
    let fill_opacity = read_number(lookup(&entries, "fill-opacity"))?;
    let stroke_color = read_color(lookup(&entries, "stroke"))?;
    let fill_color = read_color(lookup(&entries, "fill"))?;
    Ok(
        GroupOptions {
            opacity,
            fill_color,
            fill_opacity,
            stroke_color,
            stroke_opacity,
            stroke_width,
        },
    )
}

/// Reads what the group `node` says of the presentation of its elements.
pub fn read_group_style(node: &SvgNode) -> (result: Result<GroupOptions, Svg2PdcError>)
    ensures
        error_view(result) == group_style(node.attributes@),
{
    let opacity = read_number(node.attribute("opacity"))?;
    let fill_color = read_color(node.attribute("fill"))?;
    let fill_opacity = read_number(node.attribute("fill-opacity"))?;
    let stroke_color = read_color(node.attribute("stroke"))?;
    let stroke_opacity = read_number(node.attribute("stroke-opacity"))?;
    let stroke_width = read_group_width(node.attribute("stroke-width"))?;
    Ok(
        GroupOptions {
            opacity,
            fill_color,
            fill_opacity,
            stroke_color,
            stroke_opacity,
            stroke_width,
        },
    )
}

/// The alpha of a colour under two opacities: the product of the three,
/// without its fraction, limited to `0..=255`.
pub open spec fn alpha_of(base: u8, opacity: Fixed, part: Fixed) -> int {
    clamp_between(
        (base as int * (opacity.raw as int * part.raw as int)) / 0x1_0000_0000_0000_0000int,
        255,
    )
}

/// Computes [`alpha_of`].
pub fn scale_alpha(base: u8, opacity: Fixed, part: Fixed) -> (alpha: u8)
    ensures
        alpha == alpha_of(base, opacity, part),
{
    let a = opacity.raw;
    let b = part.raw;
    let ghost product = a as int * b as int;
    if base == 0 || a == 0 || b == 0 {
        assert(base as int * product == 0) by (nonlinear_arith)
            requires
                base == 0 || a == 0 || b == 0,
                product == a as int * b as int,
        ;
        return 0;
    }
    if (a < 0) != (b < 0) {
        assert(base as int * product < 0) by (nonlinear_arith)
            requires
                base > 0,
                (a < 0 && b > 0) || (a > 0 && b < 0),
                product == a as int * b as int,
        ;
        return 0;
    }
    let first: u128 = if a < 0 {
        (-(a as i128)) as u128
    } else {
        a as u128
    };
    let second: u128 = if b < 0 {
        (-(b as i128)) as u128
    } else {
        b as u128
    };
    assert(first * second == product && 0 < first * second <= 0x4000_0000_0000_0000_0000_0000_0000_0000)
        by (nonlinear_arith)
        requires
            (first == a && second == b) || (first == -a && second == -b),
            0 < first <= 0x8000_0000_0000_0000,
            0 < second <= 0x8000_0000_0000_0000,
            product == a as int * b as int,
    ;
    let both: u128 = first * second;
    if both >= 0x1_00_0000_0000_0000_0000u128 {
        assert(base as int * product >= 0x1_00_0000_0000_0000_0000) by (nonlinear_arith)
            requires
                base >= 1,
                product >= 0x1_00_0000_0000_0000_0000,
        ;
        return 255;
    }
    assert(base as int * both < 0x1_0000_0000_0000_0000_0000) by (nonlinear_arith)
        requires
            base <= 255,
            0 <= both < 0x1_00_0000_0000_0000_0000,
    ;
    let scaled: u128 = base as u128 * both;
    let whole: u128 = scaled / 0x1_0000_0000_0000_0000u128;
    if whole > 255 {
        255
    } else {
        whole as u8
    }
}

/// What a command paints with.
#[derive(Debug, Clone, Copy, PartialEq, Eq, Structural)]
pub struct Paint {
    pub stroke_width: u8,
    pub stroke_color: u8,
    pub fill_color: u8,
}

/// The paint that the display can show for a stroke, a fill and a width.
///
/// The palette has no black fill: a fill whose red, green and blue are all
/// at level 0 is no fill. A stroke of no colour has no width, and a stroke
/// of no width has no colour.
pub open spec fn settled(stroke: PebbleColor, fill: PebbleColor, width: u8) -> Paint {
    Paint {
        stroke_width: if stroke.0 == 0 {
            0
        } else {
            width
        },
        stroke_color: if width == 0 {
            0
        } else {
            stroke.0
        },
        fill_color: if fill.spec_is_black() {
            0
        } else {
            fill.0
        },
    }
}

impl Paint {
    /// What holds of every paint that [`settle`] gives.
    pub open spec fn is_settled(self) -> bool {
        &&& self.stroke_width == 0 <==> self.stroke_color == 0
        &&& PebbleColor(self.fill_color).spec_is_black() ==> self.fill_color == 0
    }
}

/// Settles a stroke, a fill and a width into what the display can show.
pub fn settle(stroke: PebbleColor, fill: PebbleColor, width: u8) -> (paint: Paint)
    ensures
        paint == settled(stroke, fill, width),
        paint.is_settled(),
        paint.stroke_width == 0 <==> paint.stroke_color == 0,
        fill.spec_is_black() ==> paint.fill_color == 0,
{
    let fill_color = if fill.is_black() {
        PebbleColor::nothing()
    } else {
        fill
    };
    let stroke_width = if stroke.inner() == 0 {
        0
    } else {
        width
    };
    let stroke_color = if stroke_width == 0 {
        PebbleColor::nothing()
    } else {
        stroke
    };
    Paint {
        stroke_width,
        stroke_color: stroke_color.inner(),
        fill_color: fill_color.inner(),
    }
}

/// `value`, or `otherwise` where there is none.
pub open spec fn value_or<T>(value: Option<T>, otherwise: T) -> T {
    match value {
        Some(v) => v,
        None => otherwise,
    }
}

/// The colour that is painted for `color` under two opacities. A colour
/// that nothing states is black without alpha, and so paints nothing.
pub open spec fn painted(
    color: Option<Color>,
    opacity: Option<Fixed>,
    part: Option<Fixed>,
    policy: TruncateColor,
) -> PebbleColor {
    let base = value_or(color, Color { r: 0, g: 0, b: 0, a: 0 });
    let one = Fixed { raw: ONE };
    let alpha = alpha_of(base.a, value_or(opacity, one), value_or(part, one));
    PebbleColor(quantized_byte(base.spec_with_opacity(alpha as u8), policy) as u8)
}

/// The paint of a shape whose presentation, own and inherited, is `style`.
/// A width that nothing states is 1.
pub open spec fn paint_of(style: GroupOptions, policy: TruncateColor) -> Paint {
    settled(
        painted(style.stroke_color, style.opacity, style.stroke_opacity, policy),
        painted(style.fill_color, style.opacity, style.fill_opacity, policy),
        value_or(style.stroke_width, 1u8),
    )
}

fn paint_color(
    color: Option<Color>,
    opacity: Option<Fixed>,
    part: Option<Fixed>,
    policy: &TruncateColor,
) -> (result: PebbleColor)
    ensures
        result == painted(color, opacity, part, *policy),
{
    let base = match color {
        Some(c) => c,
        None => Color { r: 0, g: 0, b: 0, a: 0 },
    };
    let opacity = match opacity {
        Some(o) => o,
        None => Fixed { raw: ONE },
    };
    let part = match part {
        Some(o) => o,
        None => Fixed { raw: ONE },
    };
    let alpha = scale_alpha(base.a, opacity, part);
    proof {
        crate::color::lemma_quantized_byte_range(base.spec_with_opacity(alpha), *policy);
    }
    PebbleColor::quantize(base.with_opacity(alpha), policy)
}

/// Computes the paint of a shape from its whole presentation.
pub fn resolve_paint(style: &GroupOptions, policy: &TruncateColor) -> (paint: Paint)
    ensures
        paint == paint_of(*style, *policy),
        paint.is_settled(),
{
    let stroke = paint_color(style.stroke_color, style.opacity, style.stroke_opacity, policy);
    let fill = paint_color(style.fill_color, style.opacity, style.fill_opacity, policy);
    let width = match style.stroke_width {
        Some(w) => w,
        None => 1,
    };
    settle(stroke, fill, width)
}

/// Every paint that comes of settling is settled: it has a stroke width
/// exactly where it has a stroke colour, and its fill is not black.
pub proof fn lemma_settled_is_settled(stroke: PebbleColor, fill: PebbleColor, width: u8)
    ensures
        settled(stroke, fill, width).is_settled(),
        settled(stroke, fill, width).stroke_width == 0 <==> settled(
            stroke,
            fill,
            width,
        ).stroke_color == 0,
        fill.spec_is_black() ==> settled(stroke, fill, width).fill_color == 0,
{
}

/// A fill that comes out black on the palette, whatever its alpha, is
/// painted as no fill at all.
pub proof fn lemma_black_fill_is_nothing(style: GroupOptions, policy: TruncateColor)
    requires
        painted(style.fill_color, style.opacity, style.fill_opacity, policy).spec_is_black(),
    ensures
        paint_of(style, policy).fill_color == 0,
{
}

/// A shape whose stroke resolves to no width is painted without a stroke
/// colour, and one whose stroke resolves to no colour without a width.
pub proof fn lemma_stroke_width_and_color_agree(style: GroupOptions, policy: TruncateColor)
    ensures
        paint_of(style, policy).stroke_width == 0 <==> paint_of(style, policy).stroke_color == 0,
        paint_of(style, policy).is_settled(),
{
}

} // verus!
