use conway::{Board, BoardState};

fn parse(lines: &[&str]) -> Board {
    let height = lines.len();
    let width = if height == 0 { 0 } else { lines[0].len() };
    let rows: Vec<Vec<BoardState>> = lines
        .iter()
        .map(|l| {
            l.chars()
                .map(|c| if c == '#' { BoardState::Alive } else { BoardState::Dead })
                .collect()
        })
        .collect();
    Board::from_rows(width, height, rows).expect("rows of equal length")
}

fn render(board: &Board) -> Vec<String> {
    (0..board.get_height())
        .map(|y| {
            board
                .get_row(y)
                .iter()
                .map(|c| if *c == BoardState::Alive { '#' } else { '.' })
                .collect()
        })
        .collect()
}

#[test]
fn new_keeps_dimensions() {
    for &(w, h) in &[(0, 0), (0, 4), (5, 0), (1, 1), (7, 3), (3, 7)] {
        let b = Board::new(w, h);
        assert_eq!(b.get_width(), w);
        assert_eq!(b.get_height(), h);
    }
}

#[test]
fn new_fills_every_cell() {
    let b = Board::new(6, 4);
    for y in 0..4 {
        assert_eq!(b.get_row(y).len(), 6);
        for x in 0..6 {
            assert!(b.get(x, y).is_some());
        }
    }
    for x in 0..6 {
        assert_eq!(b.get_col(x).len(), 4);
    }
}

#[test]
fn empty_boards_have_no_cells() {
    let b = Board::new(0, 3);
    assert_eq!(b.get(0, 0), None);
    assert!(b.get_col(0).is_empty());
    assert!(b.get_row(0).is_empty());
    let c = Board::new(3, 0);
    assert_eq!(c.get(0, 0), None);
    assert!(c.get_row(0).is_empty());
    assert!(c.get_col(0).is_empty());
}

#[test]
fn get_outside_is_none() {
    let b = Board::new(4, 3);
    assert_eq!(b.get(4, 0), None);
    assert_eq!(b.get(0, 3), None);
    assert_eq!(b.get(4, 3), None);
    assert_eq!(b.get(usize::MAX, usize::MAX), None);
    assert!(b.get(3, 2).is_some());
}

#[test]
fn get_reads_row_and_column() {
    let b = parse(&["#..", ".#.", "..#", "##."]);
    assert_eq!(b.get(0, 0), Some(BoardState::Alive));
    assert_eq!(b.get(1, 0), Some(BoardState::Dead));
    assert_eq!(b.get(1, 3), Some(BoardState::Alive));
    assert_eq!(b.get(2, 3), Some(BoardState::Dead));
    assert_eq!(
        b.get_row(3),
        vec![BoardState::Alive, BoardState::Alive, BoardState::Dead]
    );
    assert_eq!(
        b.get_col(1),
        vec![BoardState::Dead, BoardState::Alive, BoardState::Dead, BoardState::Alive]
    );
}

#[test]
fn row_and_column_outside_are_empty() {
    let b = Board::new(4, 3);
    assert!(b.get_row(3).is_empty());
    assert!(b.get_row(100).is_empty());
    assert!(b.get_col(4).is_empty());
    assert!(b.get_col(usize::MAX).is_empty());
}

#[test]
fn from_rows_checks_shape() {
    let d = BoardState::Dead;
    assert!(Board::from_rows(2, 2, vec![vec![d, d], vec![d, d]]).is_some());
    assert!(Board::from_rows(2, 3, vec![vec![d, d], vec![d, d]]).is_none());
    assert!(Board::from_rows(2, 2, vec![vec![d, d], vec![d]]).is_none());
    assert!(Board::from_rows(3, 2, vec![vec![d, d], vec![d, d]]).is_none());
    let empty = Board::from_rows(5, 0, vec![]).unwrap();
    assert_eq!(empty.get_width(), 5);
    assert_eq!(empty.get_height(), 0);
}

#[test]
fn from_draw_maps_zero_to_alive() {
    assert_eq!(BoardState::from_draw(0), BoardState::Alive);
    assert_eq!(BoardState::from_draw(1), BoardState::Dead);
}

#[test]
fn random_gives_both_states() {
    let mut alive = 0;
    let mut dead = 0;
    for _ in 0..400 {
        match BoardState::random() {
            BoardState::Alive => alive += 1,
            BoardState::Dead => dead += 1,
        }
    }
    assert!(alive > 0 && dead > 0);
}

#[test]
fn lone_center_cell_dies() {
    let mut b = parse(&["...", ".#.", "..."]);
    b.update();
    assert_eq!(b.get(1, 1), Some(BoardState::Dead));
    assert_eq!(render(&b), vec!["...", "...", "..."]);
}

#[test]
fn three_neighbours_bring_birth() {
    let mut b = parse(&["#.#", "...", "#.."]);
    b.update();
    assert_eq!(render(&b), vec!["...", ".#.", "..."]);
}

#[test]
fn blinker_oscillates() {
    let mut b = parse(&[".....", "..#..", "..#..", "..#..", "....."]);
    b.update();
    assert_eq!(render(&b), vec![".....", ".....", ".###.", ".....", "....."]);
    b.update();
    assert_eq!(render(&b), vec![".....", "..#..", "..#..", "..#..", "....."]);
}

#[test]
fn glider_one_step() {
    let mut b = parse(&[".#...", "..#..", "###..", ".....", "....."]);
    b.update();
    assert_eq!(render(&b), vec![".....", "#.#..", ".##..", ".#...", "....."]);
}

#[test]
fn glider_moves_diagonally_in_four_steps() {
    let start = [
        ".#......", "..#.....", "###.....", "........", "........", "........", "........",
        "........",
    ];
    let shifted = [
        "........", "..#.....", "...#....", ".###....", "........", "........", "........",
        "........",
    ];
    let mut b = parse(&start);
    for _ in 0..4 {
        b.update();
    }
    assert_eq!(render(&b), shifted.iter().map(|s| s.to_string()).collect::<Vec<_>>());
}

#[test]
fn block_is_still_life() {
    let lines = ["......", "......", "..##..", "..##..", "......", "......"];
    let mut b = parse(&lines);
    b.update();
    assert_eq!(render(&b), lines.iter().map(|s| s.to_string()).collect::<Vec<_>>());
    let corner = ["##.", "##.", "..."];
    let mut c = parse(&corner);
    c.update();
    assert_eq!(render(&c), corner.iter().map(|s| s.to_string()).collect::<Vec<_>>());
}

#[test]
fn all_alive_border() {
    let mut b = parse(&["####", "####", "####", "####"]);
    b.update();
    assert_eq!(render(&b), vec!["#..#", "....", "....", "#..#"]);
    assert_eq!(b.get(0, 0), Some(BoardState::Alive));
    assert_eq!(b.get(3, 3), Some(BoardState::Alive));
    assert_eq!(b.get(1, 0), Some(BoardState::Dead));
    assert_eq!(b.get(0, 2), Some(BoardState::Dead));
}

#[test]
fn two_updates_from_same_grid_agree() {
    let lines = ["#.##.", ".##.#", "#...#", "##.#.", "..###"];
    let mut a = parse(&lines);
    let mut b = parse(&lines);
    a.update();
    a.update();
    b.update();
    b.update();
    assert_eq!(render(&a), render(&b));
    let r = Board::new(9, 7);
    let mut c = r.clone();
    let mut d = r.clone();
    c.update();
    c.update();
    d.update();
    d.update();
    assert_eq!(render(&c), render(&d));
}

#[test]
fn update_keeps_dimensions() {
    let mut b = Board::new(5, 2);
    b.update();
    assert_eq!(b.get_width(), 5);
    assert_eq!(b.get_height(), 2);
    let mut e = Board::new(0, 0);
    e.update();
    assert_eq!(e.get_height(), 0);
}

#[test]
fn next_row_matches_update() {
    let lines = [".#...", "..#..", "###..", ".....", "....."];
    let b = parse(&lines);
    let rows: Vec<Vec<BoardState>> = (0..5).map(|y| b.next_row(y)).collect();
    let mut u = parse(&lines);
    u.update();
    for y in 0..5 {
        assert_eq!(rows[y], u.get_row(y));
    }
    assert_eq!(render(&b), lines.iter().map(|s| s.to_string()).collect::<Vec<_>>());
}

#[test]
fn clone_copies_cells() {
    let b = Board::new(6, 5);
    let c = b.clone();
    assert_eq!(render(&b), render(&c));
    assert_eq!(c.get_width(), 6);
    assert_eq!(c.get_height(), 5);
}

#[test]
fn equality_compares_dimensions_and_cells() {
    let a = parse(&["#.", ".#"]);
    let b = parse(&["#.", ".#"]);
    let c = parse(&["#.", "##"]);
    assert_eq!(a, b);
    assert_ne!(a, c);
    let e1 = Board::from_rows(3, 0, vec![]).unwrap();
    let e2 = Board::from_rows(4, 0, vec![]).unwrap();
    assert_ne!(e1, e2);
    let mut x = parse(&["#.##", ".##.", "#..#"]);
    let mut y = x.clone();
    assert_eq!(x, y);
    x.update();
    x.update();
    y.update();
    y.update();
    assert_eq!(x, y);
}
