use switcheroo::geometry::Vec2;
use switcheroo::input::InputSnapshot;
use switcheroo::piece::{PMove, PuzzlePiece};
use switcheroo::puzzle::Puzzle;

fn board() -> Puzzle {
    Puzzle::new(400, 4, Vec2 { x: 200, y: 100 }, 800, 600)
}

fn click(x: i64, y: i64) -> InputSnapshot {
    InputSnapshot { reverse_pressed: false, pointer_pressed: true, pointer: Vec2 { x, y } }
}

fn reverse() -> InputSnapshot {
    InputSnapshot { reverse_pressed: true, pointer_pressed: false, pointer: Vec2 { x: 0, y: 0 } }
}

fn idle() -> InputSnapshot {
    InputSnapshot { reverse_pressed: false, pointer_pressed: false, pointer: Vec2 { x: 0, y: 0 } }
}

fn places(p: &Puzzle) -> Vec<Vec2> {
    p.pieces().iter().map(|piece| piece.dest).collect()
}

fn is_cell_corner(p: &Puzzle, at: Vec2) -> bool {
    let cell = p.size() / p.length() as i64;
    (0..p.length() as i64).any(|i| at.x == p.pos().x + cell * i)
        && (0..p.length() as i64).any(|j| at.y == p.pos().y + cell * j)
}

#[test]
fn new_puzzle_starts_with_the_last_piece_hidden_and_no_history() {
    let p = board();
    assert_eq!(p.size(), 400);
    assert_eq!(p.length(), 4);
    assert_eq!(p.pos(), Vec2 { x: 200, y: 100 });
    assert_eq!(p.texture_size(), Vec2 { x: 800, y: 600 });
    assert_eq!(p.pieces(), &Puzzle::gen_pieces(400, 4, 800, 600, Vec2 { x: 200, y: 100 }));
    assert_eq!(p.hidden_idx(), 15);
    assert!(p.pieces()[15].hidden);
    assert!(p.moves().is_empty());
    assert!(!p.revving());
}

#[test]
fn four_by_four_board_starts_as_laid_out() {
    let p = board();
    assert_eq!(p.pieces()[0].dest, Vec2 { x: 200, y: 100 });
    assert_eq!(p.pieces()[0].dest_size, Vec2 { x: 100, y: 100 });
    assert_eq!(p.pieces()[p.hidden_idx()].dest, Vec2 { x: 500, y: 400 });
}

#[test]
fn click_inside_a_piece_beside_the_gap_swaps_them() {
    let mut p = board();
    let before = places(&p);
    p.update(click(450, 450));
    assert_eq!(p.pieces()[11].dest, Vec2 { x: 500, y: 400 });
    assert_eq!(p.pieces()[15].dest, Vec2 { x: 400, y: 400 });
    for k in 0..16 {
        if k != 11 && k != 15 {
            assert_eq!(p.pieces()[k].dest, before[k]);
        }
    }
    assert_eq!(p.hidden_idx(), 15);
    assert_eq!(
        p.moves(),
        &vec![PMove {
            from: Vec2 { x: 400, y: 400 },
            to: Vec2 { x: 500, y: 400 },
            from_idx: 11,
            to_idx: 15,
        }]
    );
    assert!(!p.revving());
}

#[test]
fn click_on_the_edge_of_a_piece_is_ignored() {
    // (450, 400) is on the upper edge of the piece at (400, 400).
    let mut p = board();
    let before = places(&p);
    p.update(click(450, 400));
    assert_eq!(places(&p), before);
    assert!(p.moves().is_empty());
    let mut p = board();
    p.update(click(400, 450));
    assert_eq!(places(&p), before);
    assert!(p.moves().is_empty());
}

#[test]
fn click_above_the_gap_swaps_along_the_column() {
    let mut p = board();
    p.update(click(501, 399));
    assert_eq!(p.pieces()[14].dest, Vec2 { x: 500, y: 400 });
    assert_eq!(p.pieces()[15].dest, Vec2 { x: 500, y: 300 });
    assert_eq!(
        p.moves(),
        &vec![PMove {
            from: Vec2 { x: 500, y: 300 },
            to: Vec2 { x: 500, y: 400 },
            from_idx: 14,
            to_idx: 15,
        }]
    );
}

#[test]
fn click_on_a_far_piece_in_line_with_the_gap_swaps_too() {
    let mut p = board();
    p.update(click(250, 450));
    assert_eq!(p.pieces()[3].dest, Vec2 { x: 500, y: 400 });
    assert_eq!(p.pieces()[15].dest, Vec2 { x: 200, y: 400 });
    assert_eq!(p.moves().len(), 1);
}

#[test]
fn click_on_a_piece_off_the_lines_of_the_gap_is_rejected() {
    let mut p = board();
    let before = places(&p);
    for (x, y) in [(250, 150), (450, 350), (350, 250), (201, 101)] {
        p.update(click(x, y));
        assert_eq!(places(&p), before);
        assert!(p.moves().is_empty());
        assert_eq!(p.hidden_idx(), 15);
    }
}

#[test]
fn click_on_the_gap_is_rejected() {
    let mut p = board();
    let before = places(&p);
    assert!(p.mouse_on_hidden(550, 450));
    p.update(click(550, 450));
    assert_eq!(places(&p), before);
    assert!(p.moves().is_empty());
}

#[test]
fn click_off_the_board_is_ignored() {
    let mut p = board();
    let before = places(&p);
    for (x, y) in [(0, 0), (199, 450), (450, 99), (601, 450), (450, 501), (-450, -450)] {
        assert!(!p.mouse_is_in_bound(x, y));
        p.update(click(x, y));
        assert_eq!(places(&p), before);
        assert!(p.moves().is_empty());
    }
}

#[test]
fn the_edge_of_the_board_is_off_the_board() {
    let p = board();
    assert!(p.mouse_is_in_bound(201, 101));
    assert!(p.mouse_is_in_bound(599, 499));
    assert!(!p.mouse_is_in_bound(200, 300));
    assert!(!p.mouse_is_in_bound(600, 300));
    assert!(!p.mouse_is_in_bound(300, 100));
    assert!(!p.mouse_is_in_bound(300, 500));
}

#[test]
fn mouse_on_hidden_follows_the_gap() {
    let mut p = board();
    assert!(p.mouse_on_hidden(550, 450));
    assert!(!p.mouse_on_hidden(450, 450));
    assert!(!p.mouse_on_hidden(500, 450));
    p.update(click(450, 450));
    assert!(!p.mouse_on_hidden(550, 450));
    assert!(p.mouse_on_hidden(450, 450));
}

#[test]
fn find_piece_gives_the_piece_under_the_pointer() {
    let p = board();
    assert_eq!(p.find_piece(250, 150), Some(0));
    assert_eq!(p.find_piece(450, 450), Some(11));
    assert_eq!(p.find_piece(599, 101), Some(12));
    // The gap is never found, nor anything on an edge or off the board.
    assert_eq!(p.find_piece(550, 450), None);
    assert_eq!(p.find_piece(300, 150), None);
    assert_eq!(p.find_piece(0, 0), None);
}

#[test]
fn pointer_without_a_press_changes_nothing() {
    let mut p = board();
    let before = places(&p);
    p.update(InputSnapshot {
        reverse_pressed: false,
        pointer_pressed: false,
        pointer: Vec2 { x: 450, y: 450 },
    });
    assert_eq!(places(&p), before);
    assert!(p.moves().is_empty());
}

#[test]
fn swap_then_reverse_restores_the_places() {
    let mut p = board();
    let before = places(&p);
    p.update(click(450, 450));
    assert_eq!(p.moves().len(), 1);
    p.update(reverse());
    assert_eq!(places(&p), before);
    assert_eq!(p.pieces()[11].dest, Vec2 { x: 400, y: 400 });
    assert_eq!(p.pieces()[15].dest, Vec2 { x: 500, y: 400 });
    assert_eq!(p.hidden_idx(), 15);
    assert!(p.moves().is_empty());
}

#[test]
fn reverse_on_an_empty_history_changes_nothing_and_ends_the_playback() {
    let mut p = board();
    let before = places(&p);
    p.update(reverse());
    assert_eq!(places(&p), before);
    assert_eq!(p.hidden_idx(), 15);
    assert!(p.moves().is_empty());
    assert!(!p.revving());
}

#[test]
fn reverse_takes_back_one_swap_per_frame() {
    let mut p = board();
    let start = places(&p);
    p.update(click(450, 450));
    let after_one = places(&p);
    p.update(click(450, 350));
    let after_two = places(&p);
    p.update(click(350, 350));
    assert_eq!(p.moves().len(), 3);
    assert_eq!(p.pieces()[15].dest, Vec2 { x: 300, y: 300 });

    p.update(reverse());
    assert!(p.revving());
    assert_eq!(p.moves().len(), 2);
    assert_eq!(places(&p), after_two);

    p.update(idle());
    assert!(p.revving());
    assert_eq!(p.moves().len(), 1);
    assert_eq!(places(&p), after_one);

    p.update(idle());
    assert!(p.revving());
    assert_eq!(p.moves().len(), 0);
    assert_eq!(places(&p), start);

    p.update(idle());
    assert!(!p.revving());
    assert_eq!(places(&p), start);
}

#[test]
fn history_is_taken_back_last_in_first_out() {
    let mut p = board();
    p.update(click(450, 450));
    p.update(click(450, 350));
    assert_eq!(
        p.moves(),
        &vec![
            PMove {
                from: Vec2 { x: 400, y: 400 },
                to: Vec2 { x: 500, y: 400 },
                from_idx: 11,
                to_idx: 15,
            },
            PMove {
                from: Vec2 { x: 400, y: 300 },
                to: Vec2 { x: 400, y: 400 },
                from_idx: 10,
                to_idx: 15,
            },
        ]
    );
    p.update(reverse());
    assert_eq!(
        p.moves(),
        &vec![PMove {
            from: Vec2 { x: 400, y: 400 },
            to: Vec2 { x: 500, y: 400 },
            from_idx: 11,
            to_idx: 15,
        }]
    );
    assert_eq!(p.pieces()[10].dest, Vec2 { x: 400, y: 300 });
    assert_eq!(p.pieces()[15].dest, Vec2 { x: 400, y: 400 });
}

#[test]
fn reverse_and_click_in_one_frame_take_back_then_swap() {
    let mut p = board();
    p.update(click(450, 450));
    // The gap is at (400, 400). The frame first takes the swap back, so the
    // gap is at (500, 400) again when the click at (550, 350) is handled.
    p.update(InputSnapshot {
        reverse_pressed: true,
        pointer_pressed: true,
        pointer: Vec2 { x: 550, y: 350 },
    });
    assert_eq!(p.pieces()[11].dest, Vec2 { x: 400, y: 400 });
    assert_eq!(p.pieces()[14].dest, Vec2 { x: 500, y: 400 });
    assert_eq!(p.pieces()[15].dest, Vec2 { x: 500, y: 300 });
    assert_eq!(
        p.moves(),
        &vec![PMove {
            from: Vec2 { x: 500, y: 300 },
            to: Vec2 { x: 500, y: 400 },
            from_idx: 14,
            to_idx: 15,
        }]
    );
    assert!(p.revving());
}

#[test]
fn a_click_during_the_playback_is_taken_back_in_the_next_frame() {
    let mut p = board();
    let start = places(&p);
    p.update(click(450, 450));
    p.update(InputSnapshot {
        reverse_pressed: true,
        pointer_pressed: true,
        pointer: Vec2 { x: 550, y: 350 },
    });
    p.update(idle());
    assert_eq!(places(&p), start);
    assert!(p.moves().is_empty());
    assert!(p.revving());
    p.update(idle());
    assert!(!p.revving());
}

#[test]
fn steps_of_a_frame_can_be_taken_one_by_one() {
    let mut p = board();
    let start = places(&p);
    p.click(450, 450);
    assert_eq!(p.moves().len(), 1);
    p.reverse_step();
    assert_eq!(p.moves().len(), 1);
    p.reverse_trigger(false);
    assert!(!p.revving());
    p.reverse_trigger(true);
    assert!(p.revving());
    p.reverse_trigger(false);
    assert!(p.revving());
    p.reverse_step();
    assert_eq!(places(&p), start);
    assert!(p.moves().is_empty());
    assert!(p.revving());
    p.reverse_step();
    assert_eq!(places(&p), start);
    p.reverse_trigger(true);
    assert!(!p.revving());
}

#[test]
fn pieces_keep_their_part_of_the_image_and_their_size() {
    let mut p = board();
    let start: Vec<PuzzlePiece> = p.pieces().clone();
    let inputs = [
        click(450, 450),
        click(450, 350),
        click(250, 350),
        click(250, 150),
        reverse(),
        click(550, 150),
        idle(),
        click(350, 250),
    ];
    for input in inputs {
        p.update(input);
        assert_eq!(p.pieces().len(), 16);
        for k in 0..16 {
            assert_eq!(p.pieces()[k].source, start[k].source);
            assert_eq!(p.pieces()[k].dest_size, start[k].dest_size);
            assert_eq!(p.pieces()[k].hidden, k == 15);
            assert!(is_cell_corner(&p, p.pieces()[k].dest));
        }
        let mut seen = places(&p);
        seen.sort_by_key(|at| (at.x, at.y));
        seen.dedup();
        assert_eq!(seen.len(), 16);
    }
}

#[test]
fn puzzle_of_one_piece_never_changes() {
    let mut p = Puzzle::new(300, 1, Vec2 { x: 10, y: 20 }, 64, 64);
    assert_eq!(p.hidden_idx(), 0);
    for input in [click(100, 100), reverse(), click(11, 21), idle()] {
        p.update(input);
        assert_eq!(places(&p), vec![Vec2 { x: 10, y: 20 }]);
        assert!(p.moves().is_empty());
        assert!(!p.revving());
    }
}

#[test]
fn clicks_on_a_board_of_empty_cells_pick_nothing() {
    let mut p = Puzzle::new(3, 4, Vec2 { x: 0, y: 0 }, 8, 8);
    assert!(p.mouse_is_in_bound(1, 1));
    assert_eq!(p.find_piece(1, 1), None);
    p.update(click(1, 1));
    assert!(p.moves().is_empty());
}
