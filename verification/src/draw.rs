//! The draw commands of a frame. The library lists them; the caller paints.

use vstd::prelude::*;
use crate::geometry::{Rect, Vec2};
use crate::layout::Layout;
use crate::piece::PuzzlePiece;

verus! {

/// The colours the puzzle is painted with.
#[derive(Clone, Copy, Debug, PartialEq, Eq, Structural)]
pub enum Color {
    Gray,
    White,
}

/// One call on the drawing surface.
#[derive(Clone, Copy, Debug, PartialEq, Eq, Structural)]
pub enum DrawCmd {
    /// The part `source` of the image, scaled to `dest_size` and placed at `dest`.
    Texture { source: Rect, dest: Vec2, dest_size: Vec2, tint: Color },
    /// A filled rectangle.
    Rectangle { pos: Vec2, size: Vec2, color: Color },
    /// The outline of a rectangle.
    RectangleLines { pos: Vec2, size: Vec2, thickness: i64, color: Color },
    /// A straight line between two points.
    Line { from: Vec2, to: Vec2, thickness: i64, color: Color },
}

/// Thickness of the outline round the board.
pub const OUTLINE_THICKNESS: i64 = 10;

/// Thickness of the lines between the cells.
pub const DIVIDER_THICKNESS: i64 = 5;

/// The commands that paint `pieces`, in their order.
pub open spec fn piece_cmds(pieces: Seq<PuzzlePiece>) -> Seq<DrawCmd> {
    Seq::new(pieces.len(), |k: int| pieces[k].draw_cmd())
}

/// The outline round the board.
pub open spec fn outline(layout: Layout) -> DrawCmd {
    DrawCmd::RectangleLines {
        pos: layout.pos,
        size: Vec2 { x: layout.size as i64, y: layout.size as i64 },
        thickness: OUTLINE_THICKNESS,
        color: Color::Gray,
    }
}

/// The line across the board below row `i - 1` of its cells.
pub open spec fn row_divider(layout: Layout, i: int) -> DrawCmd {
    DrawCmd::Line {
        from: Vec2 { x: layout.pos.x, y: (layout.pos.y + layout.cell() * i) as i64 },
        to: Vec2 {
            x: (layout.pos.x + layout.size) as i64,
            y: (layout.pos.y + layout.cell() * i) as i64,
        },
        thickness: DIVIDER_THICKNESS,
        color: Color::Gray,
    }
}

/// The line down the board right of column `i - 1` of its cells.
pub open spec fn column_divider(layout: Layout, i: int) -> DrawCmd {
    DrawCmd::Line {
        from: Vec2 { x: (layout.pos.x + layout.cell() * i) as i64, y: layout.pos.y },
        to: Vec2 {
            x: (layout.pos.x + layout.cell() * i) as i64,
            y: (layout.pos.y + layout.size) as i64,
        },
        thickness: DIVIDER_THICKNESS,
        color: Color::Gray,
    }
}

/// The lines between the rows of the board, from the top.
pub open spec fn row_dividers(layout: Layout) -> Seq<DrawCmd> {
    Seq::new((layout.length - 1) as nat, |i: int| row_divider(layout, i + 1))
}

/// The lines between the columns of the board, from the left.
pub open spec fn column_dividers(layout: Layout) -> Seq<DrawCmd> {
    Seq::new((layout.length - 1) as nat, |i: int| column_divider(layout, i + 1))
}

/// The commands that paint the borders: the outline, then the lines
/// between the rows, then the lines between the columns.
pub open spec fn border_cmds(layout: Layout) -> Seq<DrawCmd> {
    seq![outline(layout)] + row_dividers(layout) + column_dividers(layout)
}

} // verus!
