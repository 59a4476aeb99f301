//! What holds of every layout and of every well-formed puzzle.

use vstd::prelude::*;
use crate::geometry::{aligned, covers};
use crate::input::InputSnapshot;
use crate::layout::{lemma_cell_of_index, lemma_cell_within, lemma_index_of_cell, Layout};
use crate::model::{
    is_first_clickable, lemma_first_clickable_is, lemma_reached_on_grid, reached, undone,
    PuzzleView,
};
use crate::piece::{PMove, PuzzlePiece};

verus! {

/// Whether piece `k` of `pieces` shows the pixel `(x, y)` of the image.
pub open spec fn shows(pieces: Seq<PuzzlePiece>, k: int, x: int, y: int) -> bool {
    &&& 0 <= k < pieces.len()
    &&& covers(
        pieces[k].source.x as int,
        pieces[k].source.y as int,
        pieces[k].source.w as int,
        pieces[k].source.h as int,
        x,
        y,
    )
}

/// Whether piece `k` of `pieces` is shown over the pixel `(x, y)` of the board.
pub open spec fn shown_over(pieces: Seq<PuzzlePiece>, k: int, x: int, y: int) -> bool {
    &&& 0 <= k < pieces.len()
    &&& covers(
        pieces[k].dest.x as int,
        pieces[k].dest.y as int,
        pieces[k].dest_size.x as int,
        pieces[k].dest_size.y as int,
        x,
        y,
    )
}

/// Where `length` divides `total`, the coordinate `v` below `total` lies in
/// one of the `length` cells of edge `total / length`: in cell `v / edge`.
proof fn lemma_cell_of_coordinate(total: int, length: int, v: int)
    requires
        0 < length,
        0 <= v < total,
        total % length == 0,
    ensures
        0 < total / length,
        0 <= v / (total / length) < length,
        (total / length) * (v / (total / length)) <= v < (total / length) * (v / (total / length))
            + total / length,
{
    let c = total / length;
    vstd::arithmetic::div_mod::lemma_fundamental_div_mod(total, length);
    assert(0 < c) by (nonlinear_arith)
        requires
            total == length * c,
            0 < total,
            0 < length,
    ;
    let q = v / c;
    vstd::arithmetic::div_mod::lemma_fundamental_div_mod(v, c);
    vstd::arithmetic::div_mod::lemma_mod_bound(v, c);
    assert(0 <= q < length) by (nonlinear_arith)
        requires
            v == c * q + v % c,
            0 <= v % c < c,
            0 <= v < length * c,
            0 < c,
    ;
}

/// A coordinate lies in one cell only.
proof fn lemma_only_cell(c: int, i: int, v: int)
    requires
        0 < c,
        c * i <= v < c * i + c,
    ensures
        i == v / c,
{
    assert(v == i * c + (v - c * i)) by (nonlinear_arith);
    vstd::arithmetic::div_mod::lemma_fundamental_div_mod_converse(v, c, i, v - c * i);
}

/// Each piece shows a cell of the image: a rectangle within the image, as
/// wide as the image's width divided by the number of columns and as high as
/// its height divided by the number of rows, the remainders left out.
pub proof fn lemma_sources_within_image(layout: Layout, k: int)
    requires
        layout.valid(),
        0 <= k < layout.count(),
    ensures
        layout.pieces()[k].source.w == layout.t_w / (layout.length as int),
        layout.pieces()[k].source.h == layout.t_h / (layout.length as int),
        0 <= layout.pieces()[k].source.x,
        0 <= layout.pieces()[k].source.y,
        layout.pieces()[k].source.x + layout.pieces()[k].source.w <= layout.t_w,
        layout.pieces()[k].source.y + layout.pieces()[k].source.h <= layout.t_h,
{
    let n = layout.length as int;
    lemma_cell_of_index(n, k);
    lemma_cell_within(layout.t_w, n, layout.column(k));
    lemma_cell_within(layout.t_h, n, layout.row(k));
}

/// No two pieces show one pixel of the image.
pub proof fn lemma_sources_do_not_overlap(layout: Layout, x: int, y: int)
    requires
        layout.valid(),
    ensures
        forall|j: int, k: int|
            shows(layout.pieces(), j, x, y) && shows(layout.pieces(), k, x, y) ==> j == k,
{
    let n = layout.length as int;
    let pieces = layout.pieces();
    assert forall|a: int| shows(pieces, a, x, y) implies layout.column(a) == x
        / layout.source_w() && layout.row(a) == y / layout.source_h() && a == layout.column(a)
        * n + layout.row(a) by {
        lemma_cell_of_index(n, a);
        lemma_cell_within(layout.t_w, n, layout.column(a));
        lemma_cell_within(layout.t_h, n, layout.row(a));
        lemma_only_cell(layout.source_w(), layout.column(a), x);
        lemma_only_cell(layout.source_h(), layout.row(a), y);
    }
}

/// The pieces leave no gap in the image: where the number of columns divides
/// the image's width and height, every pixel of the image is shown by a
/// piece. With the two laws before, the parts that the pieces show tile the
/// image.
pub proof fn lemma_sources_cover_image(layout: Layout, x: int, y: int)
    requires
        layout.valid(),
        layout.t_w % (layout.length as int) == 0,
        layout.t_h % (layout.length as int) == 0,
        0 <= x < layout.t_w,
        0 <= y < layout.t_h,
    ensures
        exists|k: int| shows(layout.pieces(), k, x, y),
{
    let n = layout.length as int;
    lemma_cell_of_coordinate(layout.t_w, n, x);
    lemma_cell_of_coordinate(layout.t_h, n, y);
    let i = x / layout.source_w();
    let j = y / layout.source_h();
    lemma_index_of_cell(n, i, j);
    lemma_cell_within(layout.t_w, n, i);
    lemma_cell_within(layout.t_h, n, j);
    assert(shows(layout.pieces(), i * n + j, x, y));
}

/// In a new puzzle no two pieces lie over one pixel, and where the number
/// of columns divides the board's edge, every pixel of the board lies under
/// a piece.
proof fn lemma_start_tiles_board(layout: Layout, x: int, y: int)
    requires
        layout.valid(),
    ensures
        forall|j: int, k: int|
            shown_over(layout.pieces(), j, x, y) && shown_over(layout.pieces(), k, x, y) ==> j
                == k,
        layout.size % (layout.length as int) == 0 && layout.pos.x <= x < layout.pos.x
            + layout.size && layout.pos.y <= y < layout.pos.y + layout.size ==> exists|k: int|
            shown_over(layout.pieces(), k, x, y),
{
    let n = layout.length as int;
    let pieces = layout.pieces();
    let c = layout.cell();
    let dx = x - layout.pos.x;
    let dy = y - layout.pos.y;
    assert forall|a: int| shown_over(pieces, a, x, y) implies layout.column(a) == dx / c
        && layout.row(a) == dy / c && a == layout.column(a) * n + layout.row(a) by {
        lemma_cell_of_index(n, a);
        lemma_cell_within(layout.size, n, layout.column(a));
        lemma_cell_within(layout.size, n, layout.row(a));
        lemma_only_cell(c, layout.column(a), dx);
        lemma_only_cell(c, layout.row(a), dy);
    }
    if layout.size % n == 0 && 0 <= dx < layout.size && 0 <= dy < layout.size {
        lemma_cell_of_coordinate(layout.size, n, dx);
        lemma_cell_of_coordinate(layout.size, n, dy);
        let i = dx / c;
        let j = dy / c;
        lemma_index_of_cell(n, i, j);
        lemma_cell_within(layout.size, n, i);
        lemma_cell_within(layout.size, n, j);
        assert(shown_over(pieces, i * n + j, x, y));
    }
}

/// Swaps keep the board tiled: a swap only exchanges the places of two
/// pieces of one size.
proof fn lemma_reached_tiles_board(
    layout: Layout,
    moves: Seq<PMove>,
    hidden_idx: int,
    pieces: Seq<PuzzlePiece>,
    x: int,
    y: int,
)
    requires
        layout.valid(),
        0 <= hidden_idx < layout.count(),
        reached(layout.pieces(), moves, hidden_idx, pieces),
    ensures
        forall|j: int, k: int|
            shown_over(pieces, j, x, y) && shown_over(pieces, k, x, y) ==> j == k,
        layout.size % (layout.length as int) == 0 && layout.pos.x <= x < layout.pos.x
            + layout.size && layout.pos.y <= y < layout.pos.y + layout.size ==> exists|k: int|
            shown_over(pieces, k, x, y),
    decreases moves.len(),
{
    if moves.len() == 0 {
        lemma_start_tiles_board(layout, x, y);
    } else {
        let m = moves.last();
        let f = m.from_idx as int;
        let before = undone(pieces, hidden_idx, m);
        lemma_reached_tiles_board(layout, moves.drop_last(), hidden_idx, before, x, y);
        lemma_reached_on_grid(layout, moves, hidden_idx, pieces);
        lemma_reached_on_grid(layout, moves.drop_last(), hidden_idx, before);
        let other = |a: int|
            if a == f {
                hidden_idx
            } else if a == hidden_idx {
                f
            } else {
                a
            };
        assert forall|a: int| 0 <= a < pieces.len() implies (shown_over(pieces, a, x, y)
            <==> shown_over(before, other(a), x, y)) by {
            assert(pieces[a].dest == before[other(a)].dest);
            assert(pieces[a].dest_size == layout.piece(a).dest_size);
            assert(before[other(a)].dest_size == layout.piece(other(a)).dest_size);
        }
        assert forall|a: int, b: int|
            shown_over(pieces, a, x, y) && shown_over(pieces, b, x, y) implies a == b by {
            assert(shown_over(before, other(a), x, y));
            assert(shown_over(before, other(b), x, y));
        }
        if exists|k: int| shown_over(before, k, x, y) {
            let k0 = choose|k: int| shown_over(before, k, x, y);
            assert(shown_over(before, other(other(k0)), x, y));
            assert(shown_over(pieces, other(k0), x, y));
        }
    }
}

impl PuzzleView {
    /// In every well-formed puzzle there are as many pieces as the
    /// grid has cells, the gap is the one piece marked hidden, each piece
    /// shows the part of the image it started with at the size of a cell, and
    /// each piece stands in some cell of the board.
    pub proof fn lemma_wf_invariants(self)
        requires
            self.wf(),
        ensures
            self.pieces.len() == self.layout.length * self.layout.length,
            self.hidden_idx < self.pieces.len(),
            forall|k: int|
                0 <= k < self.pieces.len() ==> ((#[trigger] self.pieces[k]).hidden <==> k
                    == self.hidden_idx),
            forall|k: int|
                0 <= k < self.pieces.len() ==> (#[trigger] self.pieces[k]).source
                    == self.layout.source(k),
            forall|k: int|
                0 <= k < self.pieces.len() ==> (#[trigger] self.pieces[k]).dest_size.x
                    == self.layout.size / (self.layout.length as int) && self.pieces[k].dest_size.y
                    == self.layout.size / (self.layout.length as int),
            forall|k: int|
                0 <= k < self.pieces.len() ==> self.layout.is_anchor(
                    (#[trigger] self.pieces[k]).dest,
                ),
    {
        self.lemma_wf_on_grid();
        lemma_cell_within(self.layout.size, self.layout.length as int, 0);
    }

    /// With an empty history every piece stands where it started.
    pub proof fn lemma_empty_history_is_start(self)
        requires
            self.wf(),
            self.moves.len() == 0,
        ensures
            self.pieces == self.layout.pieces(),
    {
    }

    /// No two pieces lie over one pixel, whatever swaps were made.
    pub proof fn lemma_pieces_do_not_overlap(self, x: int, y: int)
        requires
            self.wf(),
        ensures
            forall|j: int, k: int|
                shown_over(self.pieces, j, x, y) && shown_over(self.pieces, k, x, y) ==> j == k,
    {
        assert(1 <= self.layout.length * self.layout.length) by (nonlinear_arith)
            requires
                1 <= self.layout.length,
        ;
        lemma_reached_tiles_board(
            self.layout,
            self.moves,
            self.hidden_idx as int,
            self.pieces,
            x,
            y,
        );
    }

    /// The pieces leave no gap on the board, whatever swaps were made: where
    /// the number of columns divides the board's edge, every pixel of the
    /// board lies under a piece. With the law before and
    /// `lemma_pieces_within_board`, the pieces tile the board.
    pub proof fn lemma_pieces_cover_board(self, x: int, y: int)
        requires
            self.wf(),
            self.layout.size % (self.layout.length as int) == 0,
            self.layout.pos.x <= x < self.layout.pos.x + self.layout.size,
            self.layout.pos.y <= y < self.layout.pos.y + self.layout.size,
        ensures
            exists|k: int| shown_over(self.pieces, k, x, y),
    {
        assert(1 <= self.layout.length * self.layout.length) by (nonlinear_arith)
            requires
                1 <= self.layout.length,
        ;
        lemma_reached_tiles_board(
            self.layout,
            self.moves,
            self.hidden_idx as int,
            self.pieces,
            x,
            y,
        );
    }
}

/// Two cells of one row or one column that are not the same cell share no
/// inner point: a point strictly inside the cell at `a` is not strictly inside
/// the cell at `b`.
proof fn lemma_aligned_cells_are_apart(
    layout: Layout,
    a: PuzzlePiece,
    b: PuzzlePiece,
    x: int,
    y: int,
)
    requires
        layout.valid(),
        layout.is_anchor(a.dest),
        layout.is_anchor(b.dest),
        a.dest_size == b.dest_size,
        a.dest_size.x == layout.cell(),
        a.dest_size.y == layout.cell(),
        aligned(a.dest, b.dest),
        a.contains(x, y),
    ensures
        !b.contains(x, y),
{
    let c = layout.cell();
    let (ia, ja) = layout.lemma_anchor_within(a.dest);
    let (ib, jb) = layout.lemma_anchor_within(b.dest);
    assert(ia < ib ==> c * ia + c <= c * ib) by (nonlinear_arith)
        requires
            0 <= c,
    ;
    assert(ib < ia ==> c * ib + c <= c * ia) by (nonlinear_arith)
        requires
            0 <= c,
    ;
    assert(ja < jb ==> c * ja + c <= c * jb) by (nonlinear_arith)
        requires
            0 <= c,
    ;
    assert(jb < ja ==> c * jb + c <= c * ja) by (nonlinear_arith)
        requires
            0 <= c,
    ;
}

impl PuzzleView {
    /// A click on a piece that shares exactly one coordinate with the gap
    /// succeeds: the piece and the gap change places, no other piece moves,
    /// and the history gains the record of where the two were and which they
    /// are.
    pub proof fn lemma_click_on_aligned_piece_swaps(self, x: int, y: int, k: int)
        requires
            self.wf(),
            is_first_clickable(self.pieces, x, y, k),
            aligned(self.pieces[k].dest, self.hidden().dest),
        ensures
            self.after_click(x, y) == self.swapped(k),
            self.after_click(x, y).pieces.len() == self.pieces.len(),
            self.after_click(x, y).pieces[k] == self.pieces[k].moved_to(self.hidden().dest),
            self.after_click(x, y).hidden() == self.hidden().moved_to(self.pieces[k].dest),
            forall|j: int|
                0 <= j < self.pieces.len() && j != k && j != self.hidden_idx
                    ==> #[trigger] self.after_click(x, y).pieces[j] == self.pieces[j],
            self.after_click(x, y).moves == self.moves.push(
                PMove {
                    from: self.pieces[k].dest,
                    to: self.hidden().dest,
                    from_idx: k as usize,
                    to_idx: self.hidden_idx as usize,
                },
            ),
            self.after_click(x, y).hidden_idx == self.hidden_idx,
            self.after_click(x, y).revving == self.revving,
            self.after_click(x, y).layout == self.layout,
    {
        self.lemma_wf_on_grid();
        self.lemma_pieces_within_board(k);
        lemma_cell_within(self.layout.size, self.layout.length as int, 0);
        lemma_aligned_cells_are_apart(self.layout, self.pieces[k], self.hidden(), x, y);
        lemma_first_clickable_is(self.pieces, x, y, k);
    }

    /// A click on a piece that shares neither coordinate with the gap is
    /// rejected: nothing changes.
    pub proof fn lemma_click_off_line_changes_nothing(self, x: int, y: int, k: int)
        requires
            is_first_clickable(self.pieces, x, y, k),
            self.pieces[k].dest.x != self.hidden().dest.x,
            self.pieces[k].dest.y != self.hidden().dest.y,
        ensures
            self.after_click(x, y) == self,
    {
        lemma_first_clickable_is(self.pieces, x, y, k);
    }

    /// A click on the gap is rejected, and so is a click on a piece that
    /// shares both coordinates with the gap: nothing changes.
    pub proof fn lemma_click_on_gap_changes_nothing(self, x: int, y: int)
        requires
            self.on_hidden(x, y) || (exists|k: int|
                is_first_clickable(self.pieces, x, y, k) && self.pieces[k].dest
                    == self.hidden().dest),
        ensures
            self.after_click(x, y) == self,
    {
        if !self.on_hidden(x, y) {
            let k = choose|k: int|
                is_first_clickable(self.pieces, x, y, k) && self.pieces[k].dest
                    == self.hidden().dest;
            lemma_first_clickable_is(self.pieces, x, y, k);
        }
    }

    /// A swap and then a frame in which only the reverse key is pressed
    /// bring every piece back to where it was: the swap puts one record on
    /// the history, and the frame takes that one record off again.
    pub proof fn lemma_reverse_takes_back_swap(self, x: int, y: int, k: int, input: InputSnapshot)
        requires
            self.wf(),
            is_first_clickable(self.pieces, x, y, k),
            aligned(self.pieces[k].dest, self.hidden().dest),
            input.reverse_pressed,
            !input.pointer_pressed,
        ensures
            self.after_click(x, y).moves.len() == self.moves.len() + 1,
            self.after_click(x, y).after_update(input).moves == self.moves,
            self.after_click(x, y).after_update(input).pieces == self.pieces,
            self.after_click(x, y).after_update(input).hidden_idx == self.hidden_idx,
            self.after_click(x, y).after_update(input).layout == self.layout,
            self.after_click(x, y).after_update(input).revving,
    {
        self.lemma_click_on_aligned_piece_swaps(x, y, k);
        self.lemma_wf_on_grid();
        let swapped = self.swapped(k);
        let m = self.move_of(k);
        assert(self.hidden().hidden);
        assert(swapped.moves.last() == m);
        assert(swapped.moves.drop_last() =~= self.moves);
        assert(undone(swapped.pieces, self.hidden_idx as int, m) =~= self.pieces);
    }

    /// A step of the playback is the exact inverse of the last swap: making
    /// that swap again leads back to the puzzle as it was.
    pub proof fn lemma_playback_inverts_last_swap(self)
        requires
            self.wf(),
            self.revving,
            self.moves.len() > 0,
        ensures
            self.after_playback().wf(),
            self.after_playback().moves == self.moves.drop_last(),
            self.after_playback().swap_is_legal(self.moves.last().from_idx as int),
            self.after_playback().swapped(self.moves.last().from_idx as int) == self,
    {
        let m = self.moves.last();
        let before = self.after_playback();
        let again = before.swapped(m.from_idx as int);
        assert(again.moves =~= self.moves);
        assert(again.pieces =~= self.pieces);
        assert(again =~= self);
    }

    /// A frame in which only the reverse key is pressed, on an empty
    /// history, changes nothing and ends the playback.
    pub proof fn lemma_reverse_on_empty_history(self, input: InputSnapshot)
        requires
            self.moves.len() == 0,
            input.reverse_pressed,
            !input.pointer_pressed,
        ensures
            self.after_update(input) == (PuzzleView { revving: false, ..self }),
    {
    }
}

impl PuzzleView {
    /// A frame keeps the puzzle well-formed and moves pieces only: the
    /// layout, the number of pieces and the index of the gap stay as they
    /// are, and so does each piece but for its place.
    pub proof fn lemma_update_moves_pieces_only(self, input: InputSnapshot)
        requires
            self.wf(),
        ensures
            self.after_update(input).wf(),
            self.after_update(input).layout == self.layout,
            self.after_update(input).hidden_idx == self.hidden_idx,
            self.after_update(input).pieces.len() == self.pieces.len(),
            forall|k: int|
                0 <= k < self.pieces.len() ==> (#[trigger] self.after_update(input).pieces[k])
                    == self.pieces[k].moved_to(self.after_update(input).pieces[k].dest),
    {
        self.lemma_after_update_wf(input);
        self.lemma_wf_on_grid();
        self.after_update(input).lemma_wf_on_grid();
        let triggered = self.after_trigger(input.reverse_pressed);
        let played = triggered.after_playback();
        assert(played.layout == self.layout && played.hidden_idx == self.hidden_idx);
    }

    /// A frame changes the history by one record at most at either end: the
    /// playback takes the last record off, and a swap puts one on.
    pub proof fn lemma_update_history(self, input: InputSnapshot)
        requires
            self.wf(),
        ensures
            ({
                let kept = if self.after_trigger(input.reverse_pressed).revving {
                    self.moves.drop_last()
                } else {
                    self.moves
                };
                let next = self.after_update(input).moves;
                next == kept || (input.pointer_pressed && next.len() == kept.len() + 1
                    && next.drop_last() == kept)
            }),
    {
        let triggered = self.after_trigger(input.reverse_pressed);
        let played = triggered.after_playback();
        let next = self.after_update(input);
        if next.moves != played.moves {
            assert(next.moves.drop_last() =~= played.moves);
        }
    }
}

} // verus!
