use raymond::texture::{checker_square, ramp_neighbours, CheckerSquare};

fn square_at(u: f32, v: f32) -> i32 {
    (u.floor() + v.floor()) as i32
}

#[test]
fn checkerboard_alternates_by_square() {
    assert_eq!(checker_square(square_at(0.4, 0.4)), CheckerSquare::First);
    assert_eq!(checker_square(square_at(1.4, 0.4)), CheckerSquare::Second);
    assert_eq!(checker_square(square_at(2.4, 0.4)), CheckerSquare::First);
    assert_eq!(checker_square(square_at(0.4, 1.4)), CheckerSquare::Second);
}

#[test]
fn checkerboard_negative_squares() {
    assert_eq!(checker_square(square_at(-0.5, 0.4)), CheckerSquare::Second);
    assert_eq!(checker_square(square_at(-1.5, 0.4)), CheckerSquare::First);
    assert_eq!(checker_square(i32::MIN), CheckerSquare::First);
    assert_eq!(checker_square(i32::MAX), CheckerSquare::Second);
}

#[test]
fn ramp_wraps_around() {
    assert_eq!(ramp_neighbours(0, 6), (0, 1));
    assert_eq!(ramp_neighbours(5, 6), (5, 0));
    assert_eq!(ramp_neighbours(13, 6), (1, 2));
    assert_eq!(ramp_neighbours(4, 1), (0, 0));
    assert_eq!(ramp_neighbours(usize::MAX, 2), (1, 0));
}
