use raytris::falling_piece::{FallingPiece, Orientation, RotationType, Shift};
use raytris::tetromino::Tetromino;

const ALL_KINDS: [Tetromino; 7] = [
    Tetromino::I,
    Tetromino::O,
    Tetromino::T,
    Tetromino::S,
    Tetromino::Z,
    Tetromino::J,
    Tetromino::L,
];

#[test]
fn four_clockwise_turns_restore_the_piece() {
    for t in ALL_KINDS {
        let original = FallingPiece::new(t, 4, 19);
        let mut p = original;
        for _ in 0..4 {
            p.rotate(RotationType::Clockwise);
        }
        assert_eq!(p, original);
    }
}

#[test]
fn four_counter_clockwise_turns_restore_the_piece() {
    for t in ALL_KINDS {
        let original = FallingPiece::new(t, 4, 19);
        let mut p = original;
        for _ in 0..4 {
            p.rotate(RotationType::CounterClockwise);
        }
        assert_eq!(p, original);
    }
}

#[test]
fn two_half_turns_restore_the_piece() {
    for t in ALL_KINDS {
        let original = FallingPiece::new(t, 4, 19);
        let mut p = original;
        p.rotate(RotationType::OneEighty);
        p.rotate(RotationType::OneEighty);
        assert_eq!(p, original);
    }
}

#[test]
fn clockwise_then_counter_clockwise_is_identity() {
    for t in ALL_KINDS {
        let original = FallingPiece::new(t, 4, 19);
        let mut p = original;
        p.rotate(RotationType::Clockwise);
        p.rotate(RotationType::CounterClockwise);
        assert_eq!(p, original);
    }
}

#[test]
fn clockwise_turn_advances_orientation_and_cells() {
    let mut p = FallingPiece::new(Tetromino::I, 4, 19);
    p.rotate(RotationType::Clockwise);
    assert_eq!(p.orientation, Orientation::Right);
    // With rows growing downward, clockwise maps (x, y) to (-y, x):
    // the flat I piece becomes a vertical bar through the pivot column.
    assert_eq!(p.map, [(0, -1), (0, 0), (0, 1), (0, 2)]);
}

#[test]
fn movement_operations_change_only_the_pivot() {
    let mut p = FallingPiece::new(Tetromino::T, 4, 19);
    p.fall();
    assert_eq!((p.x, p.y), (4, 20));
    p.unfall();
    assert_eq!((p.x, p.y), (4, 19));
    p.shift(Shift::Left);
    assert_eq!((p.x, p.y), (3, 19));
    p.shift(Shift::Right);
    assert_eq!((p.x, p.y), (4, 19));
    p.translate((-2, 3));
    assert_eq!((p.x, p.y), (2, 22));
    assert_eq!(p.map, Tetromino::T.initial_map());
    assert_eq!(p.orientation, Orientation::Up);
}

#[test]
fn initial_maps_match_the_catalog() {
    assert_eq!(Tetromino::I.initial_map(), [(-1, 0), (0, 0), (1, 0), (2, 0)]);
    assert_eq!(Tetromino::O.initial_map(), [(0, -1), (1, -1), (0, 0), (1, 0)]);
    assert_eq!(Tetromino::T.initial_map(), [(0, -1), (-1, 0), (0, 0), (1, 0)]);
    assert_eq!(Tetromino::S.initial_map(), [(0, -1), (1, -1), (-1, 0), (0, 0)]);
    assert_eq!(Tetromino::Z.initial_map(), [(-1, -1), (0, -1), (0, 0), (1, 0)]);
    assert_eq!(Tetromino::J.initial_map(), [(-1, -1), (-1, 0), (0, 0), (1, 0)]);
    assert_eq!(Tetromino::L.initial_map(), [(1, -1), (-1, 0), (0, 0), (1, 0)]);
}
