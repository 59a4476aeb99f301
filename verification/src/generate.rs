//! Cutting the image and the board into a grid of pieces.

use vstd::prelude::*;
use crate::geometry::{Rect, Vec2};
use crate::layout::{layout_of, lemma_cell_within, lemma_index_of_cell};
use crate::piece::PuzzlePiece;
use crate::puzzle::Puzzle;

verus! {

impl Puzzle {
    /// The pieces of a new puzzle.
    ///
    /// The image and the board are cut into `length` columns and `length`
    /// rows of equal cells; the remainder of a size that `length` does not
    /// divide is left out. Piece `i * length + j` shows the image's cell in
    /// column `i` and row `j` at the board's cell in the same place. The last
    /// piece is the gap.
    pub fn gen_pieces(size: i64, length: usize, t_w: i64, t_h: i64, pos: Vec2) -> (pieces: Vec<
        PuzzlePiece,
    >)
        requires
            layout_of(size, length, t_w, t_h, pos).valid(),
        ensures
            pieces@ == layout_of(size, length, t_w, t_h, pos).pieces(),
            pieces@.len() == length * length,
            forall|k: int|
                0 <= k < pieces@.len() ==> (#[trigger] pieces@[k].hidden <==> k == length * length
                    - 1),
            forall|k: int|
                0 <= k < pieces@.len() ==> {
                    &&& (#[trigger] pieces@[k]).source.w == (t_w as int) / (length as int)
                    &&& pieces@[k].source.h == (t_h as int) / (length as int)
                    &&& pieces@[k].dest_size.x == (size as int) / (length as int)
                    &&& pieces@[k].dest_size.y == (size as int) / (length as int)
                },
    {
        let ghost layout = layout_of(size, length, t_w, t_h, pos);
        assert(length < 0x1_0000_0000) by (nonlinear_arith)
            requires
                length * length <= usize::MAX,
                usize::MAX <= u64::MAX,
        ;
        let cnt: i64 = length as i64;
        let source_w: i64 = t_w / cnt;
        let source_h: i64 = t_h / cnt;
        let piece_size: i64 = size / cnt;
        assert(source_w == layout.source_w());
        assert(source_h == layout.source_h());
        assert(piece_size == layout.cell());

        let mut pieces: Vec<PuzzlePiece> = Vec::new();
        let mut i: usize = 0;
        while i < length
            invariant
                layout == layout_of(size, length, t_w, t_h, pos),
                layout.valid(),
                cnt == length,
                source_w == layout.source_w(),
                source_h == layout.source_h(),
                piece_size == layout.cell(),
                i <= length,
                pieces@.len() == i * length,
                forall|k: int|
                    0 <= k < pieces@.len() ==> #[trigger] pieces@[k] == (PuzzlePiece {
                        hidden: false,
                        ..layout.piece(k)
                    }),
            decreases length - i,
        {
            let mut j: usize = 0;
            while j < length
                invariant
                    layout == layout_of(size, length, t_w, t_h, pos),
                    layout.valid(),
                    cnt == length,
                    source_w == layout.source_w(),
                    source_h == layout.source_h(),
                    piece_size == layout.cell(),
                    i < length,
                    j <= length,
                    pieces@.len() == i * length + j,
                    forall|k: int|
                        0 <= k < pieces@.len() ==> #[trigger] pieces@[k] == (PuzzlePiece {
                            hidden: false,
                            ..layout.piece(k)
                        }),
                decreases length - j,
            {
                proof {
                    lemma_index_of_cell(length as int, i as int, j as int);
                    lemma_cell_within(t_w as int, length as int, i as int);
                    lemma_cell_within(t_h as int, length as int, j as int);
                    lemma_cell_within(size as int, length as int, i as int);
                    lemma_cell_within(size as int, length as int, j as int);
                }
                let source = Rect {
                    x: source_w * (i as i64),
                    y: source_h * (j as i64),
                    w: source_w,
                    h: source_h,
                };
                let dest = Vec2 {
                    x: pos.x + piece_size * (i as i64),
                    y: pos.y + piece_size * (j as i64),
                };
                let dest_size = Vec2 { x: piece_size, y: piece_size };
                let p = PuzzlePiece::new(source, dest, dest_size);
                assert(p == (PuzzlePiece { hidden: false, ..layout.piece(i * length + j) }));
                pieces.push(p);
                j += 1;
            }
            assert(i * length + length == (i + 1) * length) by (nonlinear_arith);
            i += 1;
        }
        assert(1 <= length * length) by (nonlinear_arith)
            requires
                1 <= length,
        ;
        let last: usize = length * length - 1;
        let mut p = pieces[last];
        p.hidden = true;
        pieces.set(last, p);
        assert(pieces@ =~= layout.pieces());
        proof {
            lemma_cell_within(t_w as int, length as int, 0);
            lemma_cell_within(t_h as int, length as int, 0);
            lemma_cell_within(size as int, length as int, 0);
        }
        pieces
    }
}

} // verus!
