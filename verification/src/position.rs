//! Positions in the text that an editor shows.

use std::collections::HashMap;
use vstd::prelude::*;

verus! {

broadcast use vstd::std_specs::hash::group_hash_axioms;

/// A line and a column, both counted from zero.
#[derive(Clone, Copy, Debug, PartialEq, Eq, Structural)]
pub struct Point {
    pub row: u32,
    pub column: u32,
}

/// The side to which a position sticks when text is inserted at it.
#[derive(Clone, Copy, Debug, PartialEq, Eq, Structural)]
pub enum Bias {
    Left,
    Right,
}

/// A position in the text of one buffer, which the buffer knows by this number.
#[derive(Clone, Copy, Debug, PartialEq, Eq, Structural)]
pub struct TextAnchor {
    pub id: u64,
}

/// A position in the text that an editor shows, which is kept track of while the
/// text changes.
#[derive(Clone, Copy, Debug, PartialEq, Eq, Structural)]
pub enum Anchor {
    /// The place of a buffer's anchor, and the point at which the snapshot at hand
    /// shows it.
    InExcerpt { text_anchor: TextAnchor, point: Point },
    /// The anchor at this point of the snapshot at hand.
    At { point: Point, bias: Bias },
}

impl Anchor {
    /// The point at which the snapshot at hand shows the anchor.
    pub open spec fn point(self) -> Point {
        match self {
            Anchor::InExcerpt { text_anchor, point } => point,
            Anchor::At { point, bias } => point,
        }
    }

    /// The point at which the snapshot at hand shows the anchor.
    pub fn to_point(&self) -> (res: Point)
        ensures
            res == self.point(),
    {
        match self {
            Anchor::InExcerpt { text_anchor, point } => *point,
            Anchor::At { point, bias } => *point,
        }
    }
}

/// What the placing of lenses reads of the text that an editor shows at one
/// moment.
#[derive(Debug)]
pub struct MultiBufferSnapshot {
    /// By the number of a buffer's anchor, the point at which an excerpt shows it.
    /// Anchors that no excerpt shows are missing.
    pub shown_points: HashMap<u64, Point>,
    /// By row, the number of columns by which its line is indented. Lines that are
    /// not indented may be missing.
    pub line_indents: HashMap<u32, u32>,
}

/// A snapshot, as a mathematical value.
pub struct MultiBufferSnapshotView {
    pub shown_points: Map<u64, Point>,
    pub line_indents: Map<u32, u32>,
}

impl View for MultiBufferSnapshot {
    type V = MultiBufferSnapshotView;

    open spec fn view(&self) -> MultiBufferSnapshotView {
        MultiBufferSnapshotView {
            shown_points: self.shown_points@,
            line_indents: self.line_indents@,
        }
    }
}

impl MultiBufferSnapshotView {
    /// The place of a buffer's anchor, where an excerpt shows it.
    pub open spec fn anchor_in_excerpt(self, text_anchor: TextAnchor) -> Option<Anchor> {
        if self.shown_points.contains_key(text_anchor.id) {
            Some(Anchor::InExcerpt { text_anchor, point: self.shown_points[text_anchor.id] })
        } else {
            None
        }
    }

    /// The indent of a line; zero for a row that is missing.
    pub open spec fn indent(self, row: u32) -> u32 {
        if self.line_indents.contains_key(row) {
            self.line_indents[row]
        } else {
            0
        }
    }
}

impl MultiBufferSnapshot {
    /// The place of a buffer's anchor; `None` where no excerpt shows it.
    pub fn anchor_in_excerpt(&self, text_anchor: TextAnchor) -> (res: Option<Anchor>)
        ensures
            res == self@.anchor_in_excerpt(text_anchor),
    {
        match self.shown_points.get(&text_anchor.id) {
            Some(point) => Some(Anchor::InExcerpt { text_anchor, point: *point }),
            None => None,
        }
    }

    /// The number of columns by which a line is indented.
    pub fn indent_size_for_line(&self, row: u32) -> (res: u32)
        ensures
            res == self@.indent(row),
    {
        match self.line_indents.get(&row) {
            Some(indent) => *indent,
            None => 0,
        }
    }

    /// The anchor at a point.
    pub fn anchor_at(&self, point: Point, bias: Bias) -> (res: Anchor)
        ensures
            res == (Anchor::At { point, bias }),
    {
        Anchor::At { point, bias }
    }
}

} // verus!
