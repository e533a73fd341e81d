use bomberhuman::geometry::{Direction, Point, GS};

#[test]
fn grid_size_is_sixty() {
    assert_eq!(GS, 60);
}

#[test]
fn align_to_grid_snaps_to_nearest_cell() {
    assert_eq!(Point::new(115, 160).align_to_grid(), Point::new(120, 180));
    assert_eq!(Point::new(0, 0).align_to_grid(), Point::new(0, 0));
    assert_eq!(Point::new(29, 30).align_to_grid(), Point::new(0, 60));
    assert_eq!(Point::new(89, 90).align_to_grid(), Point::new(60, 120));
}

#[test]
fn align_to_grid_truncates_asymmetrically_below_zero() {
    // The fixed truncating policy: these are intended values, not
    // bugs to fix.
    assert_eq!(Point::new(-30, -89).align_to_grid(), Point::new(0, 0));
    assert_eq!(Point::new(-90, -120).align_to_grid(), Point::new(-60, -60));
}

#[test]
fn align_to_grid_is_idempotent_on_nonnegative_points() {
    for x in [0, 1, 29, 30, 59, 60, 89, 115, 899, 2_000_000] {
        for y in [0, 7, 60, 777] {
            let once = Point::new(x, y).align_to_grid();
            assert_eq!(once.align_to_grid(), once);
        }
    }
    // Just above the band where truncation breaks idempotence.
    let p = Point::new(-89, -89).align_to_grid();
    assert_eq!(p.align_to_grid(), p);
}

#[test]
fn aligned_points_collide_exactly_when_equal() {
    let a = Point::new(60, 120);
    assert!(a.collides_with(Point::new(60, 120)));
    assert!(!a.collides_with(Point::new(120, 120)));
    assert!(!a.collides_with(Point::new(60, 60)));
    assert!(!a.collides_with(Point::new(0, 0)));
}

#[test]
fn collision_is_strict_overlap() {
    let origin = Point::new(0, 0);
    assert!(origin.collides_with(Point::new(59, 0)));
    assert!(origin.collides_with(Point::new(0, -59)));
    assert!(!origin.collides_with(Point::new(60, 0)));
    assert!(!origin.collides_with(Point::new(0, 60)));
    assert!(!origin.collides_with(Point::new(-60, 30)));
}

#[test]
fn length_is_chebyshev() {
    assert_eq!(Point::new(3, -7).length(), 7);
    assert_eq!(Point::new(-9, 4).length(), 9);
    assert_eq!(Point::new(0, 0).length(), 0);
}

#[test]
fn clip_length_clamps_each_axis() {
    assert_eq!(Point::new(10, -2).clip_length(5), Point::new(5, -2));
    assert_eq!(Point::new(-10, 12).clip_length(5), Point::new(-5, 5));
    assert_eq!(Point::new(3, 4).clip_length(5), Point::new(3, 4));
}

#[test]
fn cardinal_direction_prefers_x() {
    assert!(matches!(Point::new(-1, 5).cardinal_direction(), Some(Direction::W)));
    assert!(matches!(Point::new(2, -9).cardinal_direction(), Some(Direction::E)));
    assert!(matches!(Point::new(0, -1).cardinal_direction(), Some(Direction::N)));
    assert!(matches!(Point::new(0, 3).cardinal_direction(), Some(Direction::S)));
    assert!(matches!(Point::new(0, 0).cardinal_direction(), None));
}

#[test]
fn is_zero_and_to_tuple() {
    assert!(Point::new(0, 0).is_zero());
    assert!(!Point::new(0, 1).is_zero());
    assert_eq!(Point::new(-4, 9).to_tuple(), (-4, 9));
}

#[test]
fn vector_toward_grid_points_at_nearest_cell() {
    assert_eq!(Point::new(70, 60).vector_toward_grid(), Point::new(-10, 0));
    assert_eq!(Point::new(115, 160).vector_toward_grid(), Point::new(5, 20));
    assert_eq!(Point::new(60, 60).vector_toward_grid(), Point::new(0, 0));
}

#[test]
fn adjust_vector_keeps_zero_and_on_grid_moves() {
    let on_grid = Point::new(120, 60);
    assert_eq!(on_grid.adjust_vector_to_grid(Point::new(7, 0)), Point::new(7, 0));
    let off_grid = Point::new(70, 60);
    assert_eq!(off_grid.adjust_vector_to_grid(Point::new(0, 0)), Point::new(0, 0));
}

#[test]
fn adjust_vector_steers_toward_grid_center() {
    // Moving within 90 degrees of the grid center: the move becomes
    // the to-center vector, clipped to the original length.
    let p = Point::new(70, 60);
    assert_eq!(p.adjust_vector_to_grid(Point::new(-5, 0)), Point::new(-5, 0));
    assert_eq!(p.adjust_vector_to_grid(Point::new(-20, 0)), Point::new(-10, 0));
    // A sideways press still pulls toward the corridor center.
    assert_eq!(p.adjust_vector_to_grid(Point::new(0, 5)), Point::new(-5, 0));
}

#[test]
fn adjust_vector_leaves_moves_away_from_center() {
    let p = Point::new(70, 60);
    assert_eq!(p.adjust_vector_to_grid(Point::new(5, 0)), Point::new(5, 0));
}
