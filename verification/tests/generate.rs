use switcheroo::geometry::{Rect, Vec2};
use switcheroo::piece::PuzzlePiece;
use switcheroo::puzzle::Puzzle;

fn origin() -> Vec2 {
    Vec2 { x: 200, y: 100 }
}

#[test]
fn gen_pieces_makes_length_squared_pieces() {
    for length in 1..=7usize {
        let pieces = Puzzle::gen_pieces(420, length, 840, 420, origin());
        assert_eq!(pieces.len(), length * length);
    }
}

#[test]
fn gen_pieces_hides_only_the_last_piece() {
    for length in 1..=7usize {
        let pieces = Puzzle::gen_pieces(420, length, 840, 420, origin());
        let hidden: Vec<usize> =
            (0..pieces.len()).filter(|k| pieces[*k].hidden).collect();
        assert_eq!(hidden, vec![length * length - 1]);
    }
}

#[test]
fn gen_pieces_cells_have_equal_sizes() {
    let pieces = Puzzle::gen_pieces(400, 4, 800, 600, origin());
    for p in pieces.iter() {
        assert_eq!(p.source.w, 200);
        assert_eq!(p.source.h, 150);
        assert_eq!(p.dest_size, Vec2 { x: 100, y: 100 });
    }
}

#[test]
fn gen_pieces_first_and_last_piece_of_a_four_by_four_board() {
    let pieces = Puzzle::gen_pieces(400, 4, 800, 600, origin());
    assert_eq!(
        pieces[0],
        PuzzlePiece {
            source: Rect { x: 0, y: 0, w: 200, h: 150 },
            dest: Vec2 { x: 200, y: 100 },
            dest_size: Vec2 { x: 100, y: 100 },
            hidden: false,
        }
    );
    assert_eq!(
        pieces[15],
        PuzzlePiece {
            source: Rect { x: 600, y: 450, w: 200, h: 150 },
            dest: Vec2 { x: 500, y: 400 },
            dest_size: Vec2 { x: 100, y: 100 },
            hidden: true,
        }
    );
}

#[test]
fn gen_pieces_fills_the_grid_column_by_column() {
    let pieces = Puzzle::gen_pieces(400, 4, 800, 600, origin());
    // Index 1 is the second row of the first column.
    assert_eq!(pieces[1].dest, Vec2 { x: 200, y: 200 });
    assert_eq!(pieces[1].source, Rect { x: 0, y: 150, w: 200, h: 150 });
    // Index 4 is the first row of the second column.
    assert_eq!(pieces[4].dest, Vec2 { x: 300, y: 100 });
    assert_eq!(pieces[4].source, Rect { x: 200, y: 0, w: 200, h: 150 });
    // Index 11 is the last row of the third column.
    assert_eq!(pieces[11].dest, Vec2 { x: 400, y: 400 });
    assert_eq!(pieces[11].source, Rect { x: 400, y: 450, w: 200, h: 150 });
    for i in 0..4usize {
        for j in 0..4usize {
            let p = &pieces[i * 4 + j];
            assert_eq!(p.dest, Vec2 { x: 200 + 100 * i as i64, y: 100 + 100 * j as i64 });
            assert_eq!(p.source.x, 200 * i as i64);
            assert_eq!(p.source.y, 150 * j as i64);
        }
    }
}

#[test]
fn gen_pieces_single_cell_is_the_gap() {
    let pieces = Puzzle::gen_pieces(400, 1, 640, 480, origin());
    assert_eq!(
        pieces,
        vec![PuzzlePiece {
            source: Rect { x: 0, y: 0, w: 640, h: 480 },
            dest: Vec2 { x: 200, y: 100 },
            dest_size: Vec2 { x: 400, y: 400 },
            hidden: true,
        }]
    );
}

#[test]
fn gen_pieces_leaves_out_the_remainder_of_a_size() {
    let pieces = Puzzle::gen_pieces(10, 3, 11, 8, Vec2 { x: 0, y: 0 });
    assert_eq!(pieces.len(), 9);
    for i in 0..3usize {
        for j in 0..3usize {
            let p = &pieces[i * 3 + j];
            assert_eq!(p.dest, Vec2 { x: 3 * i as i64, y: 3 * j as i64 });
            assert_eq!(p.dest_size, Vec2 { x: 3, y: 3 });
            assert_eq!(p.source, Rect { x: 3 * i as i64, y: 2 * j as i64, w: 3, h: 2 });
        }
    }
}

#[test]
fn gen_pieces_board_smaller_than_the_grid_has_empty_cells() {
    let pieces = Puzzle::gen_pieces(3, 4, 2, 0, Vec2 { x: 7, y: 9 });
    assert_eq!(pieces.len(), 16);
    for p in pieces.iter() {
        assert_eq!(p.dest, Vec2 { x: 7, y: 9 });
        assert_eq!(p.dest_size, Vec2 { x: 0, y: 0 });
        assert_eq!(p.source, Rect { x: 0, y: 0, w: 0, h: 0 });
    }
}

#[test]
fn gen_pieces_with_an_origin_left_of_and_above_zero() {
    let pieces = Puzzle::gen_pieces(90, 3, 30, 60, Vec2 { x: -45, y: -100 });
    assert_eq!(pieces[0].dest, Vec2 { x: -45, y: -100 });
    assert_eq!(pieces[4].dest, Vec2 { x: -15, y: -70 });
    assert_eq!(pieces[8].dest, Vec2 { x: 15, y: -40 });
    assert_eq!(pieces[5].source, Rect { x: 10, y: 40, w: 10, h: 20 });
}

#[test]
fn gen_pieces_at_the_end_of_the_coordinate_range() {
    let pieces = Puzzle::gen_pieces(4, 2, 2, 2, Vec2 { x: i64::MAX - 4, y: i64::MIN });
    assert_eq!(pieces[3].dest, Vec2 { x: i64::MAX - 2, y: i64::MIN + 2 });
    assert_eq!(pieces[3].dest_size, Vec2 { x: 2, y: 2 });
}

#[test]
fn source_cells_tile_the_image() {
    let (t_w, t_h) = (12i64, 9i64);
    let pieces = Puzzle::gen_pieces(30, 3, t_w, t_h, origin());
    for x in 0..t_w {
        for y in 0..t_h {
            let n = pieces
                .iter()
                .filter(|p| {
                    p.source.x <= x
                        && x < p.source.x + p.source.w
                        && p.source.y <= y
                        && y < p.source.y + p.source.h
                })
                .count();
            assert_eq!(n, 1, "pixel ({x}, {y})");
        }
    }
    for p in pieces.iter() {
        assert!(0 <= p.source.x && p.source.x + p.source.w <= t_w);
        assert!(0 <= p.source.y && p.source.y + p.source.h <= t_h);
    }
}

#[test]
fn board_cells_tile_the_board() {
    let pos = Vec2 { x: -7, y: 5 };
    let size = 20i64;
    let pieces = Puzzle::gen_pieces(size, 4, 8, 8, pos);
    for x in pos.x..pos.x + size {
        for y in pos.y..pos.y + size {
            let n = pieces
                .iter()
                .filter(|p| {
                    p.dest.x <= x
                        && x < p.dest.x + p.dest_size.x
                        && p.dest.y <= y
                        && y < p.dest.y + p.dest_size.y
                })
                .count();
            assert_eq!(n, 1, "pixel ({x}, {y})");
        }
    }
    for p in pieces.iter() {
        assert!(pos.x <= p.dest.x && p.dest.x + p.dest_size.x <= pos.x + size);
        assert!(pos.y <= p.dest.y && p.dest.y + p.dest_size.y <= pos.y + size);
    }
}

#[test]
fn a_size_that_the_grid_does_not_divide_leaves_a_strip_uncovered() {
    let pieces = Puzzle::gen_pieces(10, 3, 10, 10, Vec2 { x: 0, y: 0 });
    let covered = |x: i64, y: i64| {
        pieces.iter().any(|p| {
            p.dest.x <= x
                && x < p.dest.x + p.dest_size.x
                && p.dest.y <= y
                && y < p.dest.y + p.dest_size.y
        })
    };
    assert!(covered(8, 8));
    assert!(!covered(9, 0));
    assert!(!covered(0, 9));
}
