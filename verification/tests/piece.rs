use tetris_engine::engine::geometry::{Coordinate, Offset};
use tetris_engine::engine::piece::{Kind, Piece, Rotation};
use tetris_engine::engine::Color;

fn at(kind: Kind, x: isize, y: isize) -> Piece {
    Piece { kind, rotation: Rotation::N, position: Offset::new(x, y) }
}

fn coords(cells: [(usize, usize); 4]) -> [Coordinate; 4] {
    cells.map(|(x, y)| Coordinate::new(x, y))
}

#[test]
fn offsets_add_component_wise() {
    assert_eq!(Offset::new(1, 2).checked_sum(Offset::new(3, 4)), Some(Offset::new(4, 6)));
    assert_eq!(Offset::new(-5, 7).checked_sum(Offset::new(2, -9)), Some(Offset::new(-3, -2)));
    assert_eq!(Offset::new(0, 0).checked_sum(Offset::new(0, 0)), Some(Offset::new(0, 0)));
    assert_eq!(
        Offset::new(isize::MAX - 1, isize::MIN + 1).checked_sum(Offset::new(1, -1)),
        Some(Offset::new(isize::MAX, isize::MIN))
    );
}

#[test]
fn offsets_that_do_not_fit_have_no_sum() {
    assert_eq!(Offset::new(isize::MAX, 0).checked_sum(Offset::new(1, 0)), None);
    assert_eq!(Offset::new(0, isize::MAX).checked_sum(Offset::new(0, 1)), None);
    assert_eq!(Offset::new(isize::MIN, 0).checked_sum(Offset::new(-1, 0)), None);
    assert_eq!(Offset::new(0, isize::MIN).checked_sum(Offset::new(0, -1)), None);
    assert_eq!(Offset::new(isize::MIN, isize::MIN).checked_sum(Offset::new(isize::MIN, 5)), None);
}

#[test]
fn offset_without_negative_component_names_a_cell() {
    assert_eq!(Offset::new(3, 4).to_coordinate(), Some(Coordinate::new(3, 4)));
    assert_eq!(Offset::new(0, 0).to_coordinate(), Some(Coordinate::origin()));
    assert_eq!(
        Offset::new(isize::MAX, 12).to_coordinate(),
        Some(Coordinate::new(isize::MAX as usize, 12))
    );
    assert_eq!(Offset::new(-1, 4).to_coordinate(), None);
    assert_eq!(Offset::new(3, -1).to_coordinate(), None);
    assert_eq!(Offset::new(isize::MIN, isize::MIN).to_coordinate(), None);
}

#[test]
fn grid_inc_walks_row_by_row() {
    let mut c = Coordinate::origin();
    c.grid_inc();
    assert_eq!(c, Coordinate::new(1, 0));
    let mut c = Coordinate::new(8, 3);
    c.grid_inc();
    assert_eq!(c, Coordinate::new(9, 3));
    c.grid_inc();
    assert_eq!(c, Coordinate::new(0, 4));
    let mut c = Coordinate::new(9, 19);
    c.grid_inc();
    assert_eq!(c, Coordinate::new(0, 20));
}

#[test]
fn every_kind_is_listed_once() {
    assert_eq!(
        Kind::ALL,
        [Kind::O, Kind::I, Kind::T, Kind::L, Kind::J, Kind::S, Kind::Z]
    );
    assert_eq!(Piece::CELL_COUNT, 4);
}

#[test]
fn each_kind_has_its_colour() {
    assert_eq!(Kind::O.color(), Color::Yellow);
    assert_eq!(Kind::I.color(), Color::Cyan);
    assert_eq!(Kind::T.color(), Color::Purple);
    assert_eq!(Kind::L.color(), Color::Orange);
    assert_eq!(Kind::J.color(), Color::Blue);
    assert_eq!(Kind::S.color(), Color::Green);
    assert_eq!(Kind::Z.color(), Color::Red);
}

#[test]
fn cell_tables_of_the_kinds() {
    let table = |kind: Kind| kind.cells(Rotation::N).map(|o| (o.x, o.y));
    assert_eq!(table(Kind::O), [(0, 0), (0, 1), (1, 0), (1, 1)]);
    assert_eq!(table(Kind::I), [(0, 0), (1, 0), (2, 0), (3, 0)]);
    assert_eq!(table(Kind::T), [(0, 0), (1, 0), (2, 0), (1, 1)]);
    assert_eq!(table(Kind::L), [(0, 0), (1, 0), (2, 0), (2, 1)]);
    assert_eq!(table(Kind::J), [(0, 0), (0, 1), (1, 0), (2, 0)]);
    assert_eq!(table(Kind::S), [(0, 0), (1, 0), (1, 1), (2, 1)]);
    assert_eq!(table(Kind::Z), [(0, 1), (1, 1), (1, 0), (2, 0)]);
}

#[test]
fn cells_are_the_table_shifted_to_the_anchor() {
    assert_eq!(at(Kind::I, 5, 5).cells(), Some(coords([(5, 5), (6, 5), (7, 5), (8, 5)])));
    assert_eq!(at(Kind::O, 0, 0).cells(), Some(coords([(0, 0), (0, 1), (1, 0), (1, 1)])));
    assert_eq!(at(Kind::T, 3, 18).cells(), Some(coords([(3, 18), (4, 18), (5, 18), (4, 19)])));
    assert_eq!(at(Kind::L, 7, 2).cells(), Some(coords([(7, 2), (8, 2), (9, 2), (9, 3)])));
    assert_eq!(at(Kind::J, 1, 9).cells(), Some(coords([(1, 9), (1, 10), (2, 9), (3, 9)])));
    assert_eq!(at(Kind::S, 4, 4).cells(), Some(coords([(4, 4), (5, 4), (5, 5), (6, 5)])));
    assert_eq!(at(Kind::Z, 4, 4).cells(), Some(coords([(4, 5), (5, 5), (5, 4), (6, 4)])));
}

#[test]
fn cells_beyond_the_field_are_still_cells() {
    assert_eq!(
        at(Kind::I, 100, 300).cells(),
        Some(coords([(100, 300), (101, 300), (102, 300), (103, 300)]))
    );
}

#[test]
fn piece_with_a_negative_cell_has_no_cells() {
    assert_eq!(at(Kind::I, -1, 5).cells(), None);
    assert_eq!(at(Kind::I, 5, -1).cells(), None);
    assert_eq!(at(Kind::O, -1, -1).cells(), None);
    assert_eq!(at(Kind::Z, 0, -1).cells(), None);
    assert_eq!(at(Kind::T, isize::MIN, 0).cells(), None);
}

#[test]
fn piece_beyond_the_range_of_an_anchor_has_no_cells() {
    assert_eq!(at(Kind::I, isize::MAX, 0).cells(), None);
    assert_eq!(at(Kind::I, isize::MAX - 2, 0).cells(), None);
    assert!(at(Kind::I, isize::MAX - 3, 0).cells().is_some());
    assert_eq!(at(Kind::O, 0, isize::MAX).cells(), None);
    assert!(at(Kind::O, 0, isize::MAX - 1).cells().is_some());
}

#[test]
fn moved_by_shifts_the_anchor_only() {
    let p = at(Kind::S, 4, 9);
    assert_eq!(p.moved_by(Offset::new(1, 0)), Some(at(Kind::S, 5, 9)));
    assert_eq!(p.moved_by(Offset::new(-1, 0)), Some(at(Kind::S, 3, 9)));
    assert_eq!(p.moved_by(Offset::new(0, -1)), Some(at(Kind::S, 4, 8)));
    assert_eq!(p.moved_by(Offset::new(-10, 7)), Some(at(Kind::S, -6, 16)));
    assert_eq!(p.moved_by(Offset::new(0, 0)), Some(p));
}

#[test]
fn moved_by_gives_none_where_the_anchor_does_not_fit() {
    assert_eq!(at(Kind::J, isize::MAX, 0).moved_by(Offset::new(1, 0)), None);
    assert_eq!(at(Kind::J, isize::MIN, 0).moved_by(Offset::new(-1, 0)), None);
    assert_eq!(at(Kind::J, 0, isize::MIN).moved_by(Offset::new(0, -1)), None);
    assert_eq!(
        at(Kind::J, isize::MAX, 0).moved_by(Offset::new(-1, 0)),
        Some(at(Kind::J, isize::MAX - 1, 0))
    );
}

#[test]
fn pairs_convert_to_coordinates_and_offsets() {
    assert_eq!(Coordinate::from((2, 7)), Coordinate::new(2, 7));
    assert_eq!(Offset::from((-3, 4)), Offset::new(-3, 4));
    let c: Coordinate = (9, 19).into();
    assert_eq!((c.x, c.y), (9, 19));
    let o: Offset = (5, 5).into();
    assert_eq!((o.x, o.y), (5, 5));
}
