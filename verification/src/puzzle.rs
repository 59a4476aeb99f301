//! The puzzle: its pieces, its gap and the history of its swaps.

use vstd::prelude::*;
use crate::draw::{
    border_cmds, column_divider, column_dividers, outline, piece_cmds, row_divider, row_dividers,
    Color, DrawCmd, DIVIDER_THICKNESS, OUTLINE_THICKNESS,
};
use crate::geometry::{is_aligned, is_strictly_inside, Vec2};
use crate::input::InputSnapshot;
use crate::layout::{layout_of, lemma_cell_within};
use crate::model::{
    first_clickable, is_first_clickable, lemma_first_clickable_is, lemma_first_clickable_none,
    PuzzleView,
};
use crate::piece::{PMove, PuzzlePiece};

verus! {

/// A sliding puzzle on a square board.
pub struct Puzzle {
    size: i64,
    length: usize,
    pos: Vec2,
    texture_w: i64,
    texture_h: i64,
    pieces: Vec<PuzzlePiece>,
    hidden_idx: usize,
    moves: Vec<PMove>,
    revving: bool,
}

impl View for Puzzle {
    type V = PuzzleView;

    closed spec fn view(&self) -> PuzzleView {
        PuzzleView {
            layout: layout_of(self.size, self.length, self.texture_w, self.texture_h, self.pos),
            pieces: self.pieces@,
            hidden_idx: self.hidden_idx as nat,
            moves: self.moves@,
            revving: self.revving,
        }
    }
}

impl Puzzle {
    /// A new puzzle: a board of edge `size` at `pos`, cut into `length`
    /// columns and rows, showing an image `t_w` wide and `t_h` high. The last
    /// piece is the gap, the history is empty and nothing is played backwards.
    pub fn new(size: i64, length: usize, pos: Vec2, t_w: i64, t_h: i64) -> (puzzle: Puzzle)
        requires
            layout_of(size, length, t_w, t_h, pos).valid(),
        ensures
            puzzle@ == PuzzleView::start(layout_of(size, length, t_w, t_h, pos)),
            puzzle@.wf(),
    {
        let pieces = Puzzle::gen_pieces(size, length, t_w, t_h, pos);
        assert(1 <= length * length) by (nonlinear_arith)
            requires
                1 <= length,
        ;
        let hidden_idx: usize = pieces.len() - 1;
        Puzzle {
            size,
            length,
            pos,
            texture_w: t_w,
            texture_h: t_h,
            pieces,
            hidden_idx,
            moves: Vec::new(),
            revving: false,
        }
    }

    /// Whether the pointer at `(pos_x, pos_y)` is on the board.
    pub fn mouse_is_in_bound(&self, pos_x: i64, pos_y: i64) -> (inside: bool)
        requires
            self@.wf(),
        ensures
            inside == self@.in_bound(pos_x as int, pos_y as int),
    {
        pos_x > self.pos.x && pos_x < self.pos.x + self.size && pos_y > self.pos.y && pos_y
            < self.pos.y + self.size
    }

    /// Whether the pointer at `(pos_x, pos_y)` is on the gap.
    pub fn mouse_on_hidden(&self, pos_x: i64, pos_y: i64) -> (on_gap: bool)
        requires
            self@.wf(),
        ensures
            on_gap == self@.on_hidden(pos_x as int, pos_y as int),
    {
        proof {
            self@.lemma_pieces_within_board(self.hidden_idx as int);
        }
        let hidden = &self.pieces[self.hidden_idx];
        is_strictly_inside(hidden.dest, hidden.dest_size, pos_x, pos_y)
    }

    /// The first piece, in the order the pieces were made in, that is not the
    /// gap and that the pointer at `(pos_x, pos_y)` is on.
    pub fn find_piece(&self, pos_x: i64, pos_y: i64) -> (found: Option<usize>)
        requires
            self@.wf(),
        ensures
            match found {
                Some(k) => first_clickable(self@.pieces, pos_x as int, pos_y as int) == Some(
                    k as int,
                ),
                None => first_clickable(self@.pieces, pos_x as int, pos_y as int) is None,
            },
    {
        let mut k: usize = 0;
        while k < self.pieces.len()
            invariant
                self@.wf(),
                k <= self.pieces@.len(),
                forall|j: int|
                    0 <= j < k ==> !(#[trigger] self.pieces@[j]).clickable(
                        pos_x as int,
                        pos_y as int,
                    ),
            decreases self.pieces@.len() - k,
        {
            proof {
                self@.lemma_pieces_within_board(k as int);
            }
            let p = &self.pieces[k];
            if !p.hidden && is_strictly_inside(p.dest, p.dest_size, pos_x, pos_y) {
                proof {
                    assert(is_first_clickable(self@.pieces, pos_x as int, pos_y as int, k as int));
                    lemma_first_clickable_is(self@.pieces, pos_x as int, pos_y as int, k as int);
                }
                return Some(k);
            }
            k += 1;
        }
        proof {
            lemma_first_clickable_none(self@.pieces, pos_x as int, pos_y as int);
        }
        None
    }

    /// Looks at the reverse key: pressed, it starts the playback of the
    /// history; an empty history ends the playback.
    pub fn reverse_trigger(&mut self, reverse_pressed: bool)
        ensures
            final(self)@ == old(self)@.after_trigger(reverse_pressed),
            old(self)@.wf() ==> final(self)@.wf(),
    {
        if reverse_pressed {
            self.revving = true;
        }
        if self.moves.len() == 0 {
            self.revving = false;
        }
    }

    /// One step of the playback: while the history is played backwards and
    /// is not empty, takes back its last swap.
    pub fn reverse_step(&mut self)
        requires
            old(self)@.wf(),
        ensures
            final(self)@ == old(self)@.after_playback(),
            final(self)@.wf(),
    {
        proof {
            self@.lemma_after_playback_wf();
        }
        if self.revving && self.moves.len() > 0 {
            let last = self.moves.pop().unwrap();
            let mut gap = self.pieces[self.hidden_idx];
            gap.dest = last.to;
            self.pieces.set(self.hidden_idx, gap);
            let mut piece = self.pieces[last.from_idx];
            piece.dest = last.from;
            self.pieces.set(last.from_idx, piece);
            self.hidden_idx = last.to_idx;
        }
    }

    /// A click at `(pos_x, pos_y)`: swaps the piece under the pointer with
    /// the gap and records the swap, if the click is on the board and not on
    /// the gap and the piece shares exactly one coordinate with the gap.
    /// Any other click changes nothing.
    pub fn click(&mut self, pos_x: i64, pos_y: i64)
        requires
            old(self)@.wf(),
        ensures
            final(self)@ == old(self)@.after_click(pos_x as int, pos_y as int),
            final(self)@.wf(),
    {
        proof {
            self@.lemma_after_click_wf(pos_x as int, pos_y as int);
        }
        if self.mouse_is_in_bound(pos_x, pos_y) && !self.mouse_on_hidden(pos_x, pos_y) {
            match self.find_piece(pos_x, pos_y) {
                Some(piece_idx) => {
                    let hidden = self.pieces[self.hidden_idx];
                    let curr = self.pieces[piece_idx];
                    if is_aligned(curr.dest, hidden.dest) {
                        self.moves.push(
                            PMove {
                                from: curr.dest,
                                to: hidden.dest,
                                from_idx: piece_idx,
                                to_idx: self.hidden_idx,
                            },
                        );
                        let mut moved = curr;
                        moved.dest = hidden.dest;
                        self.pieces.set(piece_idx, moved);
                        let mut gap = self.pieces[self.hidden_idx];
                        gap.dest = curr.dest;
                        self.pieces.set(self.hidden_idx, gap);
                    }
                },
                None => {},
            }
        }
    }

    /// One frame: looks at the reverse key, plays one step of the history
    /// backwards, handles the click, and lists the commands that paint the
    /// puzzle as it then is.
    pub fn update(&mut self, input: InputSnapshot) -> (cmds: Vec<DrawCmd>)
        requires
            old(self)@.wf(),
        ensures
            final(self)@ == old(self)@.after_update(input),
            final(self)@.wf(),
            cmds@ == final(self)@.frame(),
    {
        self.reverse_trigger(input.reverse_pressed);
        self.reverse_step();
        if input.pointer_pressed {
            self.click(input.pointer.x, input.pointer.y);
        }
        self.draw()
    }

    /// The commands that paint the puzzle: the pieces, then the borders.
    pub fn draw(&self) -> (cmds: Vec<DrawCmd>)
        requires
            self@.wf(),
        ensures
            cmds@ == self@.frame(),
    {
        let mut cmds = self.draw_pieces();
        let mut borders = self.draw_borders();
        cmds.append(&mut borders);
        cmds
    }

    /// The commands that paint the pieces, in the order the pieces were made in.
    pub fn draw_pieces(&self) -> (cmds: Vec<DrawCmd>)
        ensures
            cmds@ == piece_cmds(self@.pieces),
    {
        let mut cmds: Vec<DrawCmd> = Vec::new();
        let mut k: usize = 0;
        while k < self.pieces.len()
            invariant
                k <= self.pieces@.len(),
                cmds@.len() == k,
                forall|j: int| 0 <= j < k ==> #[trigger] cmds@[j] == self.pieces@[j].draw_cmd(),
            decreases self.pieces@.len() - k,
        {
            cmds.push(self.pieces[k].draw());
            k += 1;
        }
        assert(cmds@ =~= piece_cmds(self@.pieces));
        cmds
    }

    /// The commands that paint the borders: the outline of the board, then a
    /// line between each two rows, then a line between each two columns.
    pub fn draw_borders(&self) -> (cmds: Vec<DrawCmd>)
        requires
            self@.wf(),
        ensures
            cmds@ == border_cmds(self@.layout),
    {
        let ghost layout = self@.layout;
        let mut cmds: Vec<DrawCmd> = Vec::new();
        cmds.push(
            DrawCmd::RectangleLines {
                pos: self.pos,
                size: Vec2 { x: self.size, y: self.size },
                thickness: OUTLINE_THICKNESS,
                color: Color::Gray,
            },
        );
        assert(self.length < 0x1_0000_0000) by (nonlinear_arith)
            requires
                self.length * self.length <= usize::MAX,
                usize::MAX <= u64::MAX,
        ;
        let gap: i64 = self.size / (self.length as i64);

        let mut i: usize = 1;
        while i < self.length
            invariant
                self@.wf(),
                layout == self@.layout,
                self.length < 0x1_0000_0000,
                gap == layout.cell(),
                1 <= i <= self.length,
                cmds@.len() == i,
                cmds@[0] == outline(layout),
                forall|j: int| 1 <= j < i ==> #[trigger] cmds@[j] == row_divider(layout, j),
            decreases self.length - i,
        {
            proof {
                lemma_cell_within(self.size as int, self.length as int, i as int);
            }
            let y1: i64 = self.pos.y + gap * (i as i64);
            cmds.push(
                DrawCmd::Line {
                    from: Vec2 { x: self.pos.x, y: y1 },
                    to: Vec2 { x: self.pos.x + self.size, y: y1 },
                    thickness: DIVIDER_THICKNESS,
                    color: Color::Gray,
                },
            );
            i += 1;
        }

        let mut i: usize = 1;
        while i < self.length
            invariant
                self@.wf(),
                layout == self@.layout,
                self.length < 0x1_0000_0000,
                gap == layout.cell(),
                1 <= i <= self.length,
                cmds@.len() == self.length - 1 + i,
                cmds@[0] == outline(layout),
                forall|j: int|
                    1 <= j < self.length ==> #[trigger] cmds@[j] == row_divider(layout, j),
                forall|j: int|
                    1 <= j < i ==> #[trigger] cmds@[self.length - 1 + j] == column_divider(
                        layout,
                        j,
                    ),
            decreases self.length - i,
        {
            proof {
                lemma_cell_within(self.size as int, self.length as int, i as int);
            }
            let x1: i64 = self.pos.x + gap * (i as i64);
            cmds.push(
                DrawCmd::Line {
                    from: Vec2 { x: x1, y: self.pos.y },
                    to: Vec2 { x: x1, y: self.pos.y + self.size },
                    thickness: DIVIDER_THICKNESS,
                    color: Color::Gray,
                },
            );
            i += 1;
        }
        assert(cmds@ =~= border_cmds(layout)) by {
            let rows = row_dividers(layout);
            let columns = column_dividers(layout);
            let all = border_cmds(layout);
            assert(all.len() == cmds@.len());
            assert forall|j: int| 0 <= j < cmds@.len() implies cmds@[j] == all[j] by {
                if j == 0 {
                } else if j < self.length {
                    assert(all[j] == rows[j - 1]);
                } else {
                    assert(all[j] == columns[j - self.length]);
                    assert(cmds@[self.length - 1 + (j - self.length + 1)] == column_divider(
                        layout,
                        j - self.length + 1,
                    ));
                }
            }
        }
        cmds
    }

    /// Edge of the board.
    pub fn size(&self) -> (size: i64)
        ensures
            size == self@.layout.size,
    {
        self.size
    }

    /// Number of cells along an edge of the board.
    pub fn length(&self) -> (length: usize)
        ensures
            length == self@.layout.length,
    {
        self.length
    }

    /// Corner of the board with the least coordinates.
    pub fn pos(&self) -> (pos: Vec2)
        ensures
            pos == self@.layout.pos,
    {
        self.pos
    }

    /// Width and height of the image.
    pub fn texture_size(&self) -> (size: Vec2)
        ensures
            size.x == self@.layout.t_w,
            size.y == self@.layout.t_h,
    {
        Vec2 { x: self.texture_w, y: self.texture_h }
    }

    /// The pieces, in the order they were made in.
    pub fn pieces(&self) -> (pieces: &Vec<PuzzlePiece>)
        ensures
            pieces@ == self@.pieces,
    {
        &self.pieces
    }

    /// Index of the gap among the pieces.
    pub fn hidden_idx(&self) -> (idx: usize)
        ensures
            idx == self@.hidden_idx,
    {
        self.hidden_idx
    }

    /// The swaps made and not yet taken back, oldest first.
    pub fn moves(&self) -> (moves: &Vec<PMove>)
        ensures
            moves@ == self@.moves,
    {
        &self.moves
    }

    /// Whether the history is being played backwards.
    pub fn revving(&self) -> (revving: bool)
        ensures
            revving == self@.revving,
    {
        self.revving
    }
}

} // verus!
