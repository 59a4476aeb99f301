//! A piece of the puzzle and the record of one swap.

use vstd::prelude::*;
use crate::draw::{Color, DrawCmd};
use crate::geometry::{strictly_inside, Rect, Vec2};

verus! {

/// One cell of the sliced image and the place it is shown at.
///
/// `source` and `dest_size` never change once the puzzle is made; `dest`
/// changes with every swap.
#[derive(Clone, Copy, Debug, PartialEq, Eq, Structural)]
pub struct PuzzlePiece {
    /// The part of the image that the piece shows.
    pub source: Rect,
    /// Where on the board the piece is shown.
    pub dest: Vec2,
    /// The size the piece is shown at.
    pub dest_size: Vec2,
    /// Whether the piece is the gap of the puzzle.
    pub hidden: bool,
}

impl PuzzlePiece {
    /// The piece shown at `dest`, all else unchanged.
    pub open spec fn moved_to(self, dest: Vec2) -> PuzzlePiece {
        PuzzlePiece { dest, ..self }
    }

    /// Whether the pointer at `(x, y)` is on the piece. The edges do not count.
    pub open spec fn contains(self, x: int, y: int) -> bool {
        strictly_inside(self.dest, self.dest_size, x, y)
    }

    /// Whether a click at `(x, y)` picks the piece: the gap is never picked.
    pub open spec fn clickable(self, x: int, y: int) -> bool {
        !self.hidden && self.contains(x, y)
    }

    /// How the piece is painted: the gap as a gray block, any other piece as
    /// its part of the image.
    pub open spec fn draw_cmd(self) -> DrawCmd {
        if self.hidden {
            DrawCmd::Rectangle { pos: self.dest, size: self.dest_size, color: Color::Gray }
        } else {
            DrawCmd::Texture {
                source: self.source,
                dest: self.dest,
                dest_size: self.dest_size,
                tint: Color::White,
            }
        }
    }

    /// A visible piece.
    pub fn new(source: Rect, dest: Vec2, dest_size: Vec2) -> (piece: Self)
        ensures
            piece == (PuzzlePiece { source, dest, dest_size, hidden: false }),
    {
        Self { source, dest, dest_size, hidden: false }
    }

    /// The command that paints the piece.
    pub fn draw(&self) -> (cmd: DrawCmd)
        ensures
            cmd == self.draw_cmd(),
    {
        if self.hidden {
            DrawCmd::Rectangle { pos: self.dest, size: self.dest_size, color: Color::Gray }
        } else {
            DrawCmd::Texture {
                source: self.source,
                dest: self.dest,
                dest_size: self.dest_size,
                tint: Color::White,
            }
        }
    }
}

/// One swap of a piece with the gap, as the history keeps it.
#[derive(Clone, Copy, Debug, PartialEq, Eq, Structural)]
pub struct PMove {
    /// Where the swapped piece was before the swap.
    pub from: Vec2,
    /// Where the gap was before the swap.
    pub to: Vec2,
    /// Index of the swapped piece.
    pub from_idx: usize,
    /// Index of the gap.
    pub to_idx: usize,
}

} // verus!
