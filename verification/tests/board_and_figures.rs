use tetris::board::Board;
use tetris::direction::Direction;
use tetris::figure::{Figure, FigureKind};
use tetris::geometry::{Position, Size};

fn all_kinds() -> Vec<FigureKind> {
    vec![
        FigureKind::I,
        FigureKind::J,
        FigureKind::L,
        FigureKind::T,
        FigureKind::S,
        FigureKind::Z,
        FigureKind::O,
    ]
}

fn cells_of(figure: &Figure) -> Vec<bool> {
    let size = figure.size();
    let mut cells = Vec::new();
    for row in 0..size.height {
        for col in 0..size.width {
            cells.push(figure.cell(row, col));
        }
    }
    cells
}

#[test]
fn area_is_height_times_width() {
    assert_eq!(Size { height: 15, width: 10 }.area(), 150);
    assert_eq!(Size { height: 0, width: 10 }.area(), 0);
    assert_eq!(Size { height: 4, width: 1 }.area(), 4);
}

#[test]
fn checked_area_tells_overflow() {
    assert_eq!(Size { height: 3, width: 2 }.checked_area(), Some(6));
    assert_eq!(Size { height: usize::MAX, width: 2 }.checked_area(), None);
}

#[test]
fn positions_compare_by_coordinates() {
    let a: Position<i8> = Position { x: -1, y: 2 };
    assert_eq!(a, Position { x: -1, y: 2 });
    assert_ne!(a, Position { x: 2, y: -1 });
}

#[test]
fn new_board_is_empty() {
    let board = Board::new(Size { height: 15, width: 10 });
    let size = board.size();
    assert_eq!(size, Size { height: 15, width: 10 });
    assert_eq!(size.area(), 150);
    for row in 0..15 {
        for col in 0..10 {
            assert!(!board.is_occupied(row, col));
        }
    }
}

#[test]
fn board_without_cells() {
    let board = Board::new(Size { height: 0, width: 7 });
    assert_eq!(board.size().area(), 0);
}

#[test]
fn every_figure_has_a_cell_for_each_cell_of_its_box() {
    for kind in all_kinds() {
        let figure = Figure::variant(kind);
        let size = figure.size();
        assert_eq!(cells_of(&figure).len(), size.height * size.width);
        assert!(size.area() <= 8);
    }
}

#[test]
fn figures_have_their_shapes() {
    let i = Figure::variant(FigureKind::I);
    assert_eq!(i.size(), Size { height: 4, width: 1 });
    assert_eq!(cells_of(&i), vec![true, true, true, true]);

    let j = Figure::variant(FigureKind::J);
    assert_eq!(j.size(), Size { height: 3, width: 2 });
    assert_eq!(cells_of(&j), vec![false, true, false, true, true, true]);

    let l = Figure::variant(FigureKind::L);
    assert_eq!(l.size(), Size { height: 3, width: 2 });
    assert_eq!(cells_of(&l), vec![true, false, true, false, true, true]);

    let t = Figure::variant(FigureKind::T);
    assert_eq!(t.size(), Size { height: 2, width: 3 });
    assert_eq!(cells_of(&t), vec![true, true, true, false, true, false]);

    let s = Figure::variant(FigureKind::S);
    assert_eq!(s.size(), Size { height: 2, width: 3 });
    assert_eq!(cells_of(&s), vec![false, true, true, true, true, false]);

    let z = Figure::variant(FigureKind::Z);
    assert_eq!(z.size(), Size { height: 2, width: 3 });
    assert_eq!(cells_of(&z), vec![true, true, false, false, true, true]);

    let o = Figure::variant(FigureKind::O);
    assert_eq!(o.size(), Size { height: 2, width: 2 });
    assert_eq!(cells_of(&o), vec![true, true, true, true]);
}

#[test]
fn variants_come_in_order() {
    let all = Figure::variants();
    let kinds = all_kinds();
    assert_eq!(all.len(), 7);
    for i in 0..7 {
        assert_eq!(all[i], Figure::variant(kinds[i]));
    }
}

#[test]
fn random_figure_is_one_of_the_seven() {
    let all = Figure::variants();
    for _ in 0..200 {
        let figure = Figure::get_random();
        assert!(all.contains(&figure));
    }
}

#[test]
fn random_figures_differ() {
    let first = Figure::get_random();
    let mut other = false;
    for _ in 0..2000 {
        if Figure::get_random() != first {
            other = true;
        }
    }
    assert!(other);
}

#[test]
fn clockwise_turns() {
    assert_eq!(Direction::South.clockwise(), Direction::East);
    assert_eq!(Direction::East.clockwise(), Direction::North);
    assert_eq!(Direction::North.clockwise(), Direction::West);
    assert_eq!(Direction::West.clockwise(), Direction::South);
}

#[test]
fn counter_clockwise_turns() {
    assert_eq!(Direction::South.counter_clockwise(), Direction::West);
    assert_eq!(Direction::East.counter_clockwise(), Direction::South);
    assert_eq!(Direction::North.counter_clockwise(), Direction::East);
    assert_eq!(Direction::West.counter_clockwise(), Direction::North);
}

#[test]
fn three_clockwise_turns_from_south_face_west() {
    let mut direction = Direction::South;
    for _ in 0..3 {
        direction = direction.rotated(true);
    }
    assert_eq!(direction, Direction::West);
    direction = direction.rotated(true);
    assert_eq!(direction, Direction::South);
}

#[test]
fn four_turns_lead_back_and_turns_are_inverse() {
    for start in [Direction::South, Direction::East, Direction::North, Direction::West] {
        assert_eq!(start.clockwise().clockwise().clockwise().clockwise(), start);
        assert_eq!(
            start.counter_clockwise().counter_clockwise().counter_clockwise().counter_clockwise(),
            start
        );
        assert_eq!(start.clockwise().counter_clockwise(), start);
        assert_eq!(start.counter_clockwise().clockwise(), start);
        assert_eq!(start.rotated(false), start.counter_clockwise());
    }
}

#[test]
fn set_cell_is_read_back() {
    let mut board = Board::new(Size { height: 15, width: 10 });
    board.set(3, 4, true);
    board.set(14, 9, true);
    for row in 0..15 {
        for col in 0..10 {
            assert_eq!(board.is_occupied(row, col), (row, col) == (3, 4) || (row, col) == (14, 9));
        }
    }
    board.set(3, 4, false);
    assert!(!board.is_occupied(3, 4));
    assert!(board.is_occupied(14, 9));
    assert_eq!(board.size(), Size { height: 15, width: 10 });
}

#[test]
fn cells_lie_row_after_row() {
    let mut board = Board::new(Size { height: 2, width: 3 });
    board.set(0, 2, true);
    board.set(1, 0, true);
    let mut cells = Vec::new();
    for row in 0..2 {
        for col in 0..3 {
            cells.push(board.is_occupied(row, col));
        }
    }
    assert_eq!(cells, vec![false, false, true, true, false, false]);
}
