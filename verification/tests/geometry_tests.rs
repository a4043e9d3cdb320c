use tetris::geometry::{
    rotate_shape,
    Color,
    Shape,
    Tetromino,
    TetrominoType,
    GRID_HEIGHT,
    GRID_WIDTH,
    SPAWN_X,
    SPAWN_Y,
};

const STANDARD: [TetrominoType; 7] = [
    TetrominoType::I,
    TetrominoType::O,
    TetrominoType::T,
    TetrominoType::S,
    TetrominoType::Z,
    TetrominoType::J,
    TetrominoType::L,
];

#[test]
fn grid_is_ten_by_twenty() {
    assert_eq!(GRID_WIDTH, 10);
    assert_eq!(GRID_HEIGHT, 20);
    assert_eq!((SPAWN_X, SPAWN_Y), (3, 0));
}

#[test]
fn canonical_shapes_are_the_seven_tetrominoes() {
    assert_eq!(TetrominoType::I.canonical_shape(), [[0, 0], [1, 0], [2, 0], [3, 0]]);
    assert_eq!(TetrominoType::O.canonical_shape(), [[0, 0], [1, 0], [0, 1], [1, 1]]);
    assert_eq!(TetrominoType::T.canonical_shape(), [[1, 0], [0, 1], [1, 1], [2, 1]]);
    assert_eq!(TetrominoType::S.canonical_shape(), [[1, 0], [2, 0], [0, 1], [1, 1]]);
    assert_eq!(TetrominoType::Z.canonical_shape(), [[0, 0], [1, 0], [1, 1], [2, 1]]);
    assert_eq!(TetrominoType::J.canonical_shape(), [[0, 0], [0, 1], [1, 1], [2, 1]]);
    assert_eq!(TetrominoType::L.canonical_shape(), [[0, 0], [1, 0], [2, 0], [0, 1]]);
}

#[test]
fn pivots_are_fixed_per_kind() {
    assert_eq!(TetrominoType::I.rotation_offset(), [1, 0]);
    assert_eq!(TetrominoType::O.rotation_offset(), [0, 0]);
    for t in [TetrominoType::T, TetrominoType::S, TetrominoType::Z, TetrominoType::J, TetrominoType::L] {
        assert_eq!(t.rotation_offset(), [1, 1]);
    }
}

#[test]
fn kinds_have_their_colours() {
    assert_eq!(TetrominoType::I.color(), Color::Cyan);
    assert_eq!(TetrominoType::O.color(), Color::Yellow);
    assert_eq!(TetrominoType::T.color(), Color::Purple);
    assert_eq!(TetrominoType::S.color(), Color::Green);
    assert_eq!(TetrominoType::Z.color(), Color::Red);
    assert_eq!(TetrominoType::J.color(), Color::Blue);
    assert_eq!(TetrominoType::L.color(), Color::Orange);
    assert_eq!(TetrominoType::BonusGold.color(), Color::Gold);
    assert_eq!(TetrominoType::BonusSilver.color(), Color::Silver);
}

#[test]
fn index_orders_the_kinds() {
    for (i, t) in STANDARD.iter().enumerate() {
        assert_eq!(t.index(), i);
        assert!(!t.is_bonus());
        assert_eq!(TetrominoType::from_index(i as i32), *t);
    }
    assert_eq!(TetrominoType::BonusGold.index(), 7);
    assert_eq!(TetrominoType::BonusSilver.index(), 8);
    assert!(TetrominoType::BonusGold.is_bonus());
    assert!(TetrominoType::BonusSilver.is_bonus());
}

#[test]
fn from_index_maps_every_other_number_to_l() {
    assert_eq!(TetrominoType::from_index(6), TetrominoType::L);
    assert_eq!(TetrominoType::from_index(7), TetrominoType::L);
    assert_eq!(TetrominoType::from_index(-1), TetrominoType::L);
    assert_eq!(TetrominoType::from_index(i32::MAX), TetrominoType::L);
}

#[test]
fn rotate_t_clockwise_and_back() {
    let t = TetrominoType::T.canonical_shape();
    // Clockwise sends the offset (x, y) from the pivot (1, 1) to (y, -x).
    let cw = rotate_shape(&t, TetrominoType::T, true);
    assert_eq!(cw, [[0, 1], [1, 2], [1, 1], [1, 0]]);
    // Counter-clockwise sends it to (-y, x).
    let ccw = rotate_shape(&t, TetrominoType::T, false);
    assert_eq!(ccw, [[2, 1], [1, 0], [1, 1], [1, 2]]);
    assert_eq!(rotate_shape(&cw, TetrominoType::T, false), t);
    assert_eq!(rotate_shape(&ccw, TetrominoType::T, true), t);
}

#[test]
fn rotate_i_about_a_pivot_on_its_second_cell() {
    let i = TetrominoType::I.canonical_shape();
    let cw = rotate_shape(&i, TetrominoType::I, true);
    assert_eq!(cw, [[1, 1], [1, 0], [1, -1], [1, -2]]);
    let ccw = rotate_shape(&i, TetrominoType::I, false);
    assert_eq!(ccw, [[1, -1], [1, 0], [1, 1], [1, 2]]);
}

#[test]
fn rotate_o_about_its_first_cell() {
    let o = TetrominoType::O.canonical_shape();
    let cw = rotate_shape(&o, TetrominoType::O, true);
    assert_eq!(cw, [[0, 0], [0, -1], [1, 0], [1, -1]]);
    let ccw = rotate_shape(&o, TetrominoType::O, false);
    assert_eq!(ccw, [[0, 0], [0, 1], [-1, 0], [-1, 1]]);
}

#[test]
fn four_quarter_turns_give_the_shape_back() {
    for t in STANDARD {
        for clockwise in [true, false] {
            let start: Shape = t.canonical_shape();
            let mut shape = start;
            for _ in 0..4 {
                shape = rotate_shape(&shape, t, clockwise);
            }
            assert_eq!(shape, start);
        }
    }
}

#[test]
fn a_turn_and_the_opposite_turn_cancel() {
    for t in STANDARD {
        let mut shape = t.canonical_shape();
        for _ in 0..4 {
            let there = rotate_shape(&shape, t, true);
            assert_eq!(rotate_shape(&there, t, false), shape);
            let back = rotate_shape(&shape, t, false);
            assert_eq!(rotate_shape(&back, t, true), shape);
            shape = there;
        }
    }
}

#[test]
fn every_orientation_stays_within_two_of_the_pivot() {
    for t in STANDARD {
        let pivot = t.rotation_offset();
        let mut shape = t.canonical_shape();
        for _ in 0..4 {
            for cell in shape {
                assert!((cell[0] - pivot[0]).abs() <= 2);
                assert!((cell[1] - pivot[1]).abs() <= 2);
            }
            shape = rotate_shape(&shape, t, true);
        }
    }
}

#[test]
fn new_piece_enters_unturned_at_the_spawn_position() {
    for t in STANDARD {
        let piece = Tetromino::new(t);
        assert_eq!(piece.shape, t.canonical_shape());
        assert_eq!(piece.pos, (3, 0));
        assert_eq!(piece.color, t.color());
        assert_eq!(piece.t_type, t);
    }
}
