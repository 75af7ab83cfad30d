//! The scene that a document describes, as the converter reads it: a tree
//! of elements with their attributes as text, and with their path data and
//! transforms already split into segments and tokens.
//!
//! A scene comes about in two steps. Reading the markup gives the tree with
//! its text. The geometry, whose grammar is not this crate's to read, is
//! then added by the caller: for each node the commands of its `d`
//! attribute and the items of its `transform` attribute, and for the
//! document its `viewBox` attribute.

use vstd::prelude::*;
use crate::fixed::Fixed;
use crate::text::{chars_of, same_chars};

verus! {

/// One attribute of an element, as written.
#[derive(Debug, Clone)]
pub struct Attribute {
    pub name: String,
    pub value: String,
}

/// One command of path data. `abs` tells whether its coordinates are
/// absolute or relative to the current point.
#[derive(Debug, Clone, Copy, PartialEq, Eq, Structural)]
pub enum PathSegment {
    MoveTo { abs: bool, x: Fixed, y: Fixed },
    LineTo { abs: bool, x: Fixed, y: Fixed },
    HorizontalLineTo { abs: bool, x: Fixed },
    VerticalLineTo { abs: bool, y: Fixed },
    CurveTo { abs: bool, x1: Fixed, y1: Fixed, x2: Fixed, y2: Fixed, x: Fixed, y: Fixed },
    SmoothCurveTo { abs: bool, x2: Fixed, y2: Fixed, x: Fixed, y: Fixed },
    Quadratic { abs: bool, x1: Fixed, y1: Fixed, x: Fixed, y: Fixed },
    SmoothQuadratic { abs: bool, x: Fixed, y: Fixed },
    EllipticalArc {
        abs: bool,
        rx: Fixed,
        ry: Fixed,
        x_axis_rotation: Fixed,
        large_arc: bool,
        sweep: bool,
        x: Fixed,
        y: Fixed,
    },
    ClosePath { abs: bool },
}

/// One item of a transform list.
#[derive(Debug, Clone, Copy, PartialEq, Eq, Structural)]
pub enum TransformListToken {
    Matrix { a: Fixed, b: Fixed, c: Fixed, d: Fixed, e: Fixed, f: Fixed },
    Translate { tx: Fixed, ty: Fixed },
    Scale { sx: Fixed, sy: Fixed },
    Rotate { angle: Fixed },
    SkewX { angle: Fixed },
    SkewY { angle: Fixed },
}

/// The part of the canvas that a document shows.
#[derive(Debug, Clone, Copy, PartialEq, Eq, Structural)]
pub struct ViewBox {
    pub x: Fixed,
    pub y: Fixed,
    pub w: Fixed,
    pub h: Fixed,
}

/// One node of a document.
///
/// `transform` holds the items of the `transform` attribute and `path` the
/// commands of the `d` attribute, each empty where the attribute is absent;
/// where the attribute cannot be read, the field holds the reason instead.
/// A node that is no element, such as text, has an empty tag.
#[derive(Debug)]
pub struct SvgNode {
    pub tag: String,
    pub attributes: Vec<Attribute>,
    pub transform: Result<Vec<TransformListToken>, String>,
    pub path: Result<Vec<PathSegment>, String>,
    pub children: Vec<SvgNode>,
}

/// A document: its root element, and its `viewBox` attribute where it has
/// one, read or with the reason why it cannot be read.
#[derive(Debug)]
pub struct SvgDocument {
    pub view_box: Option<Result<ViewBox, String>>,
    pub root: SvgNode,
}

/// Index of the first attribute named `name`, or the number of attributes
/// where none is.
pub open spec fn attribute_index(attributes: Seq<Attribute>, name: Seq<char>) -> int
    decreases attributes.len(),
{
    if attributes.len() == 0 || attributes[0].name@ == name {
        0
    } else {
        1 + attribute_index(attributes.drop_first(), name)
    }
}

/// The value of the first attribute named `name`.
pub open spec fn attribute_value(attributes: Seq<Attribute>, name: Seq<char>) -> Option<Seq<char>> {
    if attribute_index(attributes, name) < attributes.len() {
        Some(attributes[attribute_index(attributes, name)].value@)
    } else {
        None
    }
}

pub proof fn lemma_attribute_index_is(attributes: Seq<Attribute>, name: Seq<char>, n: int)
    requires
        0 <= n <= attributes.len(),
        forall|i: int| 0 <= i < n ==> attributes[i].name@ != name,
        n < attributes.len() ==> attributes[n].name@ == name,
    ensures
        attribute_index(attributes, name) == n,
    decreases attributes.len(),
{
    if attributes.len() == 0 {
    } else if attributes[0].name@ == name {
        if n > 0 {
            assert(attributes[0].name@ != name);
        }
    } else {
        let rest = attributes.drop_first();
        assert forall|i: int| 0 <= i < n - 1 implies rest[i].name@ != name by {
            assert(rest[i] == attributes[i + 1]);
        }
        if n - 1 < rest.len() {
            assert(rest[n - 1] == attributes[n]);
        }
        lemma_attribute_index_is(rest, name, n - 1);
    }
}

impl SvgNode {
    /// The value of the first attribute named `name`, as characters.
    pub fn attribute(&self, name: &str) -> (value: Option<Vec<char>>)
        ensures
            match attribute_value(self.attributes@, name@) {
                Some(text) => value matches Some(v) && v@ == text,
                None => value is None,
            },
    {
        let wanted = chars_of(name);
        let mut i: usize = 0;
        while i < self.attributes.len()
            invariant
                i <= self.attributes.len(),
                wanted@ == name@,
                forall|k: int| 0 <= k < i ==> self.attributes@[k].name@ != name@,
            decreases self.attributes.len() - i,
        {
            let found = chars_of(self.attributes[i].name.as_str());
            if same_chars(&found, &wanted) {
                proof {
                    lemma_attribute_index_is(self.attributes@, name@, i as int);
                }
                return Some(chars_of(self.attributes[i].value.as_str()));
            }
            i += 1;
        }
        proof {
            lemma_attribute_index_is(self.attributes@, name@, i as int);
        }
        None
    }
}

} // verus!
