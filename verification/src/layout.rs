//! The grid that a puzzle is laid out on: where each piece starts and which
//! part of the image it shows.

use vstd::prelude::*;
use crate::geometry::{Rect, Vec2};
use crate::piece::PuzzlePiece;

verus! {

/// What a puzzle is laid out from.
pub struct Layout {
    /// Edge of the square board.
    pub size: int,
    /// Number of cells along an edge of the board.
    pub length: nat,
    /// Width of the image.
    pub t_w: int,
    /// Height of the image.
    pub t_h: int,
    /// Corner of the board with the least coordinates.
    pub pos: Vec2,
}

impl Layout {
    /// The layouts a puzzle can be made from: at least one cell, sizes that
    /// are not negative, and a board and a piece count that the machine's
    /// integers can hold.
    pub open spec fn valid(self) -> bool {
        &&& self.length >= 1
        &&& self.length * self.length <= usize::MAX
        &&& 0 <= self.size <= i64::MAX
        &&& 0 <= self.t_w <= i64::MAX
        &&& 0 <= self.t_h <= i64::MAX
        &&& self.pos.x + self.size <= i64::MAX
        &&& self.pos.y + self.size <= i64::MAX
    }

    /// Number of pieces.
    pub open spec fn count(self) -> nat {
        self.length * self.length
    }

    /// Edge of a cell of the board.
    pub open spec fn cell(self) -> int {
        self.size / (self.length as int)
    }

    /// Width of a cell of the image.
    pub open spec fn source_w(self) -> int {
        self.t_w / (self.length as int)
    }

    /// Height of a cell of the image.
    pub open spec fn source_h(self) -> int {
        self.t_h / (self.length as int)
    }

    /// Corner of the board's cell in column `i` and row `j`.
    pub open spec fn anchor(self, i: int, j: int) -> Vec2 {
        Vec2 {
            x: (self.pos.x + self.cell() * i) as i64,
            y: (self.pos.y + self.cell() * j) as i64,
        }
    }

    /// Whether `p` is the corner of one of the board's cells.
    pub open spec fn is_anchor(self, p: Vec2) -> bool {
        exists|i: int, j: int|
            0 <= i < self.length && 0 <= j < self.length && p == #[trigger] self.anchor(i, j)
    }

    /// Column of the cell that piece `k` starts in.
    pub open spec fn column(self, k: int) -> int {
        k / (self.length as int)
    }

    /// Row of the cell that piece `k` starts in.
    pub open spec fn row(self, k: int) -> int {
        k % (self.length as int)
    }

    /// The part of the image that piece `k` shows.
    pub open spec fn source(self, k: int) -> Rect {
        Rect {
            x: (self.source_w() * self.column(k)) as i64,
            y: (self.source_h() * self.row(k)) as i64,
            w: self.source_w() as i64,
            h: self.source_h() as i64,
        }
    }

    /// Piece `k` as the puzzle starts: pieces fill the grid column by column,
    /// and the last one is the gap.
    pub open spec fn piece(self, k: int) -> PuzzlePiece {
        PuzzlePiece {
            source: self.source(k),
            dest: self.anchor(self.column(k), self.row(k)),
            dest_size: Vec2 { x: self.cell() as i64, y: self.cell() as i64 },
            hidden: k == self.count() - 1,
        }
    }

    /// The pieces as the puzzle starts.
    pub open spec fn pieces(self) -> Seq<PuzzlePiece> {
        Seq::new(self.count(), |k: int| self.piece(k))
    }
}

/// The layout with the given measures.
pub open spec fn layout_of(size: i64, length: usize, t_w: i64, t_h: i64, pos: Vec2) -> Layout {
    Layout { size: size as int, length: length as nat, t_w: t_w as int, t_h: t_h as int, pos }
}

/// Cells of edge `total / length` laid side by side from 0: cell `i` of the
/// first `length` ends within `total`.
pub proof fn lemma_cell_within(total: int, length: int, i: int)
    requires
        0 <= total,
        0 < length,
        0 <= i < length,
    ensures
        0 <= total / length,
        0 <= (total / length) * i,
        (total / length) * i + total / length <= total,
{
    let c = total / length;
    vstd::arithmetic::div_mod::lemma_fundamental_div_mod(total, length);
    vstd::arithmetic::div_mod::lemma_mod_bound(total, length);
    assert(0 <= c && 0 <= c * i && c * i + c <= total) by (nonlinear_arith)
        requires
            total == length * c + total % length,
            0 <= total % length < length,
            0 <= total,
            0 <= i < length,
    ;
}

/// Column `i`, row `j` is the cell of piece `i * length + j`.
pub proof fn lemma_index_of_cell(length: int, i: int, j: int)
    requires
        0 < length,
        0 <= i < length,
        0 <= j < length,
    ensures
        0 <= i * length + j < length * length,
        (i * length + j) / length == i,
        (i * length + j) % length == j,
{
    vstd::arithmetic::div_mod::lemma_fundamental_div_mod_converse(i * length + j, length, i, j);
    assert(0 <= i * length + j < length * length) by (nonlinear_arith)
        requires
            0 < length,
            0 <= i < length,
            0 <= j < length,
    ;
}

/// Piece `k` starts in a cell of the grid.
pub proof fn lemma_cell_of_index(length: int, k: int)
    requires
        0 < length,
        0 <= k < length * length,
    ensures
        0 <= k / length < length,
        0 <= k % length < length,
        k == (k / length) * length + k % length,
{
    vstd::arithmetic::div_mod::lemma_fundamental_div_mod(k, length);
    vstd::arithmetic::div_mod::lemma_mod_bound(k, length);
    let q = k / length;
    assert(0 <= q < length && k == q * length + k % length) by (nonlinear_arith)
        requires
            k == length * q + k % length,
            0 <= k % length < length,
            0 <= k < length * length,
            0 < length,
    ;
}

impl Layout {
    /// A corner of a cell is the corner of the cell in some column and row,
    /// and that cell lies within the board.
    pub proof fn lemma_anchor_within(self, p: Vec2) -> (at: (int, int))
        requires
            self.valid(),
            self.is_anchor(p),
        ensures
            0 <= at.0 < self.length,
            0 <= at.1 < self.length,
            p.x == self.pos.x + self.cell() * at.0,
            p.y == self.pos.y + self.cell() * at.1,
            0 <= self.cell(),
            self.pos.x <= p.x,
            self.pos.y <= p.y,
            p.x + self.cell() <= self.pos.x + self.size,
            p.y + self.cell() <= self.pos.y + self.size,
    {
        let (i, j) = choose|i: int, j: int|
            0 <= i < self.length && 0 <= j < self.length && p == #[trigger] self.anchor(i, j);
        lemma_cell_within(self.size, self.length as int, i);
        lemma_cell_within(self.size, self.length as int, j);
        (i, j)
    }
}

/// Tests whether a puzzle can be laid out from the given measures.
pub fn is_valid_layout(size: i64, length: usize, t_w: i64, t_h: i64, pos: Vec2) -> (ok: bool)
    ensures
        ok == layout_of(size, length, t_w, t_h, pos).valid(),
{
    length >= 1 && length.checked_mul(length).is_some() && size >= 0 && t_w >= 0 && t_h >= 0
        && pos.x.checked_add(size).is_some() && pos.y.checked_add(size).is_some()
}

} // verus!
