use tetris::direction::Direction;
use tetris::figure::{Figure, FigureKind};
use tetris::game::GameState;
use tetris::geometry::Size;

fn kinds() -> Vec<FigureKind> {
    vec![
        FigureKind::I,
        FigureKind::J,
        FigureKind::L,
        FigureKind::T,
        FigureKind::S,
        FigureKind::Z,
        FigureKind::O,
    ]
}

fn shape(figure: &Figure) -> (Size, Vec<u8>) {
    let size = figure.size();
    let mut cells = Vec::new();
    for row in 0..size.height {
        for col in 0..size.width {
            cells.push(if figure.cell(row, col) { 1 } else { 0 });
        }
    }
    (size, cells)
}

#[test]
fn t_turned_clockwise() {
    let turned = Figure::variant(FigureKind::T).rotated(true);
    assert_eq!(shape(&turned), (Size { height: 3, width: 2 }, vec![0, 1, 1, 1, 0, 1]));
}

#[test]
fn t_turned_counter_clockwise() {
    let turned = Figure::variant(FigureKind::T).rotated(false);
    assert_eq!(shape(&turned), (Size { height: 3, width: 2 }, vec![1, 0, 1, 1, 1, 0]));
}

#[test]
fn l_turned_clockwise() {
    let turned = Figure::variant(FigureKind::L).rotated(true);
    assert_eq!(shape(&turned), (Size { height: 2, width: 3 }, vec![1, 1, 1, 1, 0, 0]));
}

#[test]
fn i_lies_down_after_a_turn() {
    let turned = Figure::variant(FigureKind::I).rotated(true);
    assert_eq!(shape(&turned), (Size { height: 1, width: 4 }, vec![1, 1, 1, 1]));
    let other = Figure::variant(FigureKind::I).rotated(false);
    assert_eq!(shape(&other), (Size { height: 1, width: 4 }, vec![1, 1, 1, 1]));
}

#[test]
fn s_turned_twice_is_itself_and_j_is_reversed() {
    let s = Figure::variant(FigureKind::S);
    assert_eq!(s.rotated(true).rotated(true), s);
    let j = Figure::variant(FigureKind::J);
    let (size, mut cells) = shape(&j);
    cells.reverse();
    assert_eq!(shape(&j.rotated(true).rotated(true)), (size, cells));
}

#[test]
fn four_turns_give_back_every_shape() {
    for kind in kinds() {
        let figure = Figure::variant(kind);
        assert_eq!(figure.rotated(true).rotated(true).rotated(true).rotated(true), figure);
        assert_eq!(figure.rotated(false).rotated(false).rotated(false).rotated(false), figure);
    }
}

#[test]
fn opposite_turns_cancel() {
    for kind in kinds() {
        let figure = Figure::variant(kind);
        assert_eq!(figure.rotated(true).rotated(false), figure);
        assert_eq!(figure.rotated(false).rotated(true), figure);
        assert_eq!(
            figure.rotated(true).rotated(true).rotated(true),
            figure.rotated(false)
        );
    }
}

#[test]
fn turns_keep_the_number_of_cells() {
    for kind in kinds() {
        let figure = Figure::variant(kind);
        let turned = figure.rotated(true);
        assert_eq!(turned.size().area(), figure.size().area());
        let filled = |f: &Figure| shape(f).1.iter().filter(|c| **c == 1).count();
        assert_eq!(filled(&turned), 4);
        assert_eq!(filled(&figure), 4);
    }
}

#[test]
fn facing_follows_the_quarter_turns() {
    let z = Figure::variant(FigureKind::Z);
    assert_eq!(z.facing(Direction::South), z);
    assert_eq!(z.facing(Direction::East), z.rotated(true));
    assert_eq!(z.facing(Direction::North), z.rotated(true).rotated(true));
    assert_eq!(z.facing(Direction::West), z.rotated(false));
    assert_eq!(shape(&z.facing(Direction::East)), (Size { height: 3, width: 2 }, vec![0, 1, 1, 1, 1, 0]));
}

#[test]
fn shape_of_the_state_follows_its_rotation() {
    let mut state = GameState::with_figures(
        Figure::variant(FigureKind::T),
        Figure::variant(FigureKind::O),
        0,
    );
    assert_eq!(state.current_shape(), Figure::variant(FigureKind::T));
    state.rotate_current_figure(true);
    assert_eq!(
        shape(&state.current_shape()),
        (Size { height: 3, width: 2 }, vec![0, 1, 1, 1, 0, 1])
    );
    state.rotate_current_figure(false);
    state.rotate_current_figure(false);
    assert_eq!(
        shape(&state.current_shape()),
        (Size { height: 3, width: 2 }, vec![1, 0, 1, 1, 1, 0])
    );
    assert_eq!(state.current_figure, Figure::variant(FigureKind::T));
}
