//! The puzzle as a mathematical value: what a click, the reverse key and a
//! frame do to it, and which puzzles are well-formed.

use vstd::prelude::*;
use crate::draw::{border_cmds, piece_cmds, DrawCmd};
use crate::geometry::aligned;
use crate::input::InputSnapshot;
use crate::layout::{lemma_cell_of_index, Layout};
use crate::piece::{PMove, PuzzlePiece};

verus! {

/// A puzzle as the contracts see it.
#[verifier::ext_equal]
pub struct PuzzleView {
    /// What the puzzle was laid out from.
    pub layout: Layout,
    /// The pieces, in the order they were made in.
    pub pieces: Seq<PuzzlePiece>,
    /// Index of the gap among the pieces.
    pub hidden_idx: nat,
    /// The swaps made and not yet taken back, oldest first.
    pub moves: Seq<PMove>,
    /// Whether the history is being played backwards.
    pub revving: bool,
}

/// Whether `k` is the first of `pieces` that a click at `(x, y)` picks.
pub open spec fn is_first_clickable(pieces: Seq<PuzzlePiece>, x: int, y: int, k: int) -> bool {
    &&& 0 <= k < pieces.len()
    &&& pieces[k].clickable(x, y)
    &&& forall|j: int| 0 <= j < k ==> !(#[trigger] pieces[j]).clickable(x, y)
}

/// The first of `pieces` that a click at `(x, y)` picks, if it picks any.
pub open spec fn first_clickable(pieces: Seq<PuzzlePiece>, x: int, y: int) -> Option<int> {
    if exists|k: int| is_first_clickable(pieces, x, y, k) {
        Some(choose|k: int| is_first_clickable(pieces, x, y, k))
    } else {
        None
    }
}

/// The pieces before the swap `m`, given the pieces after it: the gap goes
/// back to `m.to`, then the swapped piece to `m.from`.
pub open spec fn undone(pieces: Seq<PuzzlePiece>, hidden_idx: int, m: PMove) -> Seq<PuzzlePiece> {
    let gap_back = pieces.update(hidden_idx, pieces[hidden_idx].moved_to(m.to));
    gap_back.update(m.from_idx as int, gap_back[m.from_idx as int].moved_to(m.from))
}

/// Whether `m` is the record of a legal swap that led to `pieces`: it names
/// the gap and another piece, the two stood on one line, and each now stands
/// where the other stood.
pub open spec fn records(m: PMove, pieces: Seq<PuzzlePiece>, hidden_idx: int) -> bool {
    &&& 0 <= hidden_idx < pieces.len()
    &&& m.to_idx == hidden_idx
    &&& m.from_idx < pieces.len()
    &&& m.from_idx != hidden_idx
    &&& aligned(m.from, m.to)
    &&& pieces[m.from_idx as int].dest == m.to
    &&& pieces[hidden_idx].dest == m.from
}

/// Whether the swaps `moves`, made in order from the pieces `start`, are
/// legal swaps with the gap and lead to `pieces`.
pub open spec fn reached(
    start: Seq<PuzzlePiece>,
    moves: Seq<PMove>,
    hidden_idx: int,
    pieces: Seq<PuzzlePiece>,
) -> bool
    decreases moves.len(),
{
    if moves.len() == 0 {
        pieces =~= start
    } else {
        &&& records(moves.last(), pieces, hidden_idx)
        &&& reached(start, moves.drop_last(), hidden_idx, undone(pieces, hidden_idx, moves.last()))
    }
}

/// Whether `pieces` are the pieces of `layout`, each shown in some cell of
/// the board: they differ from the pieces the puzzle started with in their
/// places only.
pub open spec fn on_grid(layout: Layout, pieces: Seq<PuzzlePiece>) -> bool {
    &&& pieces.len() == layout.count()
    &&& forall|k: int|
        0 <= k < pieces.len() ==> {
            &&& (#[trigger] pieces[k]).source == layout.piece(k).source
            &&& pieces[k].dest_size == layout.piece(k).dest_size
            &&& pieces[k].hidden == layout.piece(k).hidden
            &&& layout.is_anchor(pieces[k].dest)
        }
}

impl PuzzleView {
    /// The gap.
    pub open spec fn hidden(self) -> PuzzlePiece {
        self.pieces[self.hidden_idx as int]
    }

    /// The well-formed puzzles, which are those that can come about: a valid
    /// layout, the last piece as the gap, and pieces that the recorded swaps
    /// lead to from the start.
    pub open spec fn wf(self) -> bool {
        &&& self.layout.valid()
        &&& self.hidden_idx == self.layout.count() - 1
        &&& self.pieces.len() == self.layout.count()
        &&& reached(self.layout.pieces(), self.moves, self.hidden_idx as int, self.pieces)
    }

    /// A new puzzle on `layout`.
    pub open spec fn start(layout: Layout) -> PuzzleView {
        PuzzleView {
            layout,
            pieces: layout.pieces(),
            hidden_idx: (layout.count() - 1) as nat,
            moves: Seq::empty(),
            revving: false,
        }
    }

    /// Whether the pointer at `(x, y)` is on the board. The edges do not count.
    pub open spec fn in_bound(self, x: int, y: int) -> bool {
        &&& self.layout.pos.x < x < self.layout.pos.x + self.layout.size
        &&& self.layout.pos.y < y < self.layout.pos.y + self.layout.size
    }

    /// Whether the pointer at `(x, y)` is on the gap.
    pub open spec fn on_hidden(self, x: int, y: int) -> bool {
        self.hidden().contains(x, y)
    }

    /// Whether piece `k` may swap with the gap: the two share exactly one
    /// coordinate.
    pub open spec fn swap_is_legal(self, k: int) -> bool {
        aligned(self.pieces[k].dest, self.hidden().dest)
    }

    /// The record of the swap of piece `k` with the gap.
    pub open spec fn move_of(self, k: int) -> PMove {
        PMove {
            from: self.pieces[k].dest,
            to: self.hidden().dest,
            from_idx: k as usize,
            to_idx: self.hidden_idx as usize,
        }
    }

    /// The puzzle after piece `k` and the gap have changed places and the
    /// swap is recorded.
    pub open spec fn swapped(self, k: int) -> PuzzleView {
        let h = self.hidden_idx as int;
        let piece_moved = self.pieces.update(k, self.pieces[k].moved_to(self.pieces[h].dest));
        PuzzleView {
            pieces: piece_moved.update(h, piece_moved[h].moved_to(self.pieces[k].dest)),
            moves: self.moves.push(self.move_of(k)),
            ..self
        }
    }

    /// The puzzle after the reverse key is looked at: the key starts the
    /// playback, and an empty history ends it.
    pub open spec fn after_trigger(self, reverse_pressed: bool) -> PuzzleView {
        PuzzleView {
            revving: if self.moves.len() == 0 {
                false
            } else {
                self.revving || reverse_pressed
            },
            ..self
        }
    }

    /// The puzzle after one step of the playback: while the history is
    /// played backwards, its last swap is taken back and forgotten.
    pub open spec fn after_playback(self) -> PuzzleView {
        if self.revving && self.moves.len() > 0 {
            let last = self.moves.last();
            PuzzleView {
                pieces: undone(self.pieces, self.hidden_idx as int, last),
                hidden_idx: last.to_idx as nat,
                moves: self.moves.drop_last(),
                ..self
            }
        } else {
            self
        }
    }

    /// The puzzle after a click at `(x, y)`. The click swaps a piece with the
    /// gap if it is on the board, not on the gap, picks a piece, and that
    /// piece shares exactly one coordinate with the gap; any other click
    /// changes nothing.
    pub open spec fn after_click(self, x: int, y: int) -> PuzzleView {
        if !self.in_bound(x, y) || self.on_hidden(x, y) {
            self
        } else {
            match first_clickable(self.pieces, x, y) {
                Some(k) => if self.swap_is_legal(k) {
                    self.swapped(k)
                } else {
                    self
                },
                None => self,
            }
        }
    }

    /// The puzzle after a frame with the given input: the reverse key, one
    /// step of the playback, then the click.
    pub open spec fn after_update(self, input: InputSnapshot) -> PuzzleView {
        let played = self.after_trigger(input.reverse_pressed).after_playback();
        if input.pointer_pressed {
            played.after_click(input.pointer.x as int, input.pointer.y as int)
        } else {
            played
        }
    }
}

/// The start of a puzzle is on its grid.
pub proof fn lemma_start_on_grid(layout: Layout)
    requires
        layout.valid(),
    ensures
        on_grid(layout, layout.pieces()),
{
    let pieces = layout.pieces();
    assert forall|k: int| 0 <= k < pieces.len() implies layout.is_anchor(
        (#[trigger] pieces[k]).dest,
    ) by {
        lemma_cell_of_index(layout.length as int, k);
        assert(pieces[k].dest == layout.anchor(layout.column(k), layout.row(k)));
    }
}

/// Swaps keep the pieces on the grid: whatever the history, each piece is
/// the piece it started as, shown in some cell of the board.
pub proof fn lemma_reached_on_grid(
    layout: Layout,
    moves: Seq<PMove>,
    hidden_idx: int,
    pieces: Seq<PuzzlePiece>,
)
    requires
        layout.valid(),
        0 <= hidden_idx < layout.count(),
        reached(layout.pieces(), moves, hidden_idx, pieces),
    ensures
        on_grid(layout, pieces),
    decreases moves.len(),
{
    if moves.len() == 0 {
        lemma_start_on_grid(layout);
    } else {
        let m = moves.last();
        let before = undone(pieces, hidden_idx, m);
        lemma_reached_on_grid(layout, moves.drop_last(), hidden_idx, before);
        assert forall|k: int| 0 <= k < pieces.len() implies {
            &&& (#[trigger] pieces[k]).source == layout.piece(k).source
            &&& pieces[k].dest_size == layout.piece(k).dest_size
            &&& pieces[k].hidden == layout.piece(k).hidden
            &&& layout.is_anchor(pieces[k].dest)
        } by {
            assert(before[k].source == pieces[k].source);
            if k == hidden_idx {
                assert(pieces[k].dest == before[m.from_idx as int].dest);
            } else if k == m.from_idx {
                assert(pieces[k].dest == before[hidden_idx].dest);
            } else {
                assert(pieces[k] == before[k]);
            }
        }
    }
}

impl PuzzleView {
    /// In a well-formed puzzle the pieces are on the grid.
    pub proof fn lemma_wf_on_grid(self)
        requires
            self.wf(),
        ensures
            on_grid(self.layout, self.pieces),
    {
        assert(1 <= self.layout.length * self.layout.length) by (nonlinear_arith)
            requires
                1 <= self.layout.length,
        ;
        lemma_reached_on_grid(self.layout, self.moves, self.hidden_idx as int, self.pieces);
    }

    /// Each piece is shown within the board.
    pub proof fn lemma_pieces_within_board(self, k: int)
        requires
            self.wf(),
            0 <= k < self.pieces.len(),
        ensures
            0 <= self.pieces[k].dest_size.x,
            0 <= self.pieces[k].dest_size.y,
            self.layout.pos.x <= self.pieces[k].dest.x,
            self.layout.pos.y <= self.pieces[k].dest.y,
            self.pieces[k].dest.x + self.pieces[k].dest_size.x <= self.layout.pos.x
                + self.layout.size,
            self.pieces[k].dest.y + self.pieces[k].dest_size.y <= self.layout.pos.y
                + self.layout.size,
    {
        self.lemma_wf_on_grid();
        let _ = self.layout.lemma_anchor_within(self.pieces[k].dest);
    }
}

impl PuzzleView {
    /// The commands that paint the puzzle: the pieces, then the borders.
    pub open spec fn frame(self) -> Seq<DrawCmd> {
        piece_cmds(self.pieces) + border_cmds(self.layout)
    }
}

/// A click picks one piece at most: the first that it is on.
pub proof fn lemma_first_clickable_is(pieces: Seq<PuzzlePiece>, x: int, y: int, k: int)
    requires
        is_first_clickable(pieces, x, y, k),
    ensures
        first_clickable(pieces, x, y) == Some(k),
{
    let c = choose|c: int| is_first_clickable(pieces, x, y, c);
    assert(is_first_clickable(pieces, x, y, c));
    if c < k {
        assert(!pieces[c].clickable(x, y));
    } else if k < c {
        assert(!pieces[k].clickable(x, y));
    }
}

/// A click that is on no piece picks none.
pub proof fn lemma_first_clickable_none(pieces: Seq<PuzzlePiece>, x: int, y: int)
    requires
        forall|j: int| 0 <= j < pieces.len() ==> !(#[trigger] pieces[j]).clickable(x, y),
    ensures
        first_clickable(pieces, x, y) is None,
{
}

impl PuzzleView {
    /// A legal swap of a visible piece with the gap keeps the puzzle
    /// well-formed.
    pub proof fn lemma_swapped_wf(self, k: int)
        requires
            self.wf(),
            0 <= k < self.pieces.len(),
            !self.pieces[k].hidden,
            self.swap_is_legal(k),
        ensures
            self.swapped(k).wf(),
    {
        self.lemma_wf_on_grid();
        let h = self.hidden_idx as int;
        let next = self.swapped(k);
        let m = self.move_of(k);
        assert(self.pieces[h].hidden);
        assert(k != h);
        assert(next.moves.last() == m);
        assert(next.moves.drop_last() =~= self.moves);
        assert(undone(next.pieces, h, m) =~= self.pieces);
    }

    /// Looking at the reverse key keeps the puzzle well-formed.
    pub proof fn lemma_after_trigger_wf(self, reverse_pressed: bool)
        requires
            self.wf(),
        ensures
            self.after_trigger(reverse_pressed).wf(),
    {
    }

    /// A step of the playback keeps the puzzle well-formed.
    pub proof fn lemma_after_playback_wf(self)
        requires
            self.wf(),
        ensures
            self.after_playback().wf(),
    {
    }

    /// A click keeps the puzzle well-formed.
    pub proof fn lemma_after_click_wf(self, x: int, y: int)
        requires
            self.wf(),
        ensures
            self.after_click(x, y).wf(),
    {
        if self.in_bound(x, y) && !self.on_hidden(x, y) {
            if let Some(k) = first_clickable(self.pieces, x, y) {
                if self.swap_is_legal(k) {
                    self.lemma_swapped_wf(k);
                }
            }
        }
    }

    /// A frame keeps the puzzle well-formed.
    pub proof fn lemma_after_update_wf(self, input: InputSnapshot)
        requires
            self.wf(),
        ensures
            self.after_update(input).wf(),
    {
        self.lemma_after_trigger_wf(input.reverse_pressed);
        let triggered = self.after_trigger(input.reverse_pressed);
        triggered.lemma_after_playback_wf();
        if input.pointer_pressed {
            triggered.after_playback().lemma_after_click_wf(
                input.pointer.x as int,
                input.pointer.y as int,
            );
        }
    }
}

} // verus!
