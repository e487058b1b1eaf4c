use snek::game::{Coords, Dir};

#[test]
fn wrapping_moves_one_cell() {
    let c = Coords { x: 2, y: 1 };
    assert_eq!(c.move_wrapping(Dir::Right, 5, 4), Coords { x: 3, y: 1 });
    assert_eq!(c.move_wrapping(Dir::Left, 5, 4), Coords { x: 1, y: 1 });
    assert_eq!(c.move_wrapping(Dir::Up, 5, 4), Coords { x: 2, y: 0 });
    assert_eq!(c.move_wrapping(Dir::Down, 5, 4), Coords { x: 2, y: 2 });
}

#[test]
fn wrapping_wraps_at_edges() {
    assert_eq!(
        Coords { x: 4, y: 1 }.move_wrapping(Dir::Right, 5, 4),
        Coords { x: 0, y: 1 }
    );
    assert_eq!(
        Coords { x: 0, y: 1 }.move_wrapping(Dir::Left, 5, 4),
        Coords { x: 4, y: 1 }
    );
    assert_eq!(
        Coords { x: 2, y: 0 }.move_wrapping(Dir::Up, 5, 4),
        Coords { x: 2, y: 3 }
    );
    assert_eq!(
        Coords { x: 2, y: 3 }.move_wrapping(Dir::Down, 5, 4),
        Coords { x: 2, y: 0 }
    );
}

#[test]
fn wrapping_round_trip_returns_to_origin() {
    // width steps for a horizontal direction, height steps for a vertical
    // one, on an asymmetric board
    let w = 7;
    let h = 3;
    for dir in [Dir::Left, Dir::Right, Dir::Up, Dir::Down] {
        let start = Coords { x: 4, y: 2 };
        let steps = match dir {
            Dir::Left | Dir::Right => w,
            Dir::Up | Dir::Down => h,
        };
        let mut c = start;
        for _ in 0..steps {
            c = c.move_wrapping(dir, w, h);
        }
        assert_eq!(c, start);
    }
}

#[test]
fn bumping_stops_exactly_at_each_edge() {
    let w = 5;
    let h = 4;
    for y in 0..h {
        for x in 0..w {
            let c = Coords { x, y };
            assert_eq!(c.move_bumping(Dir::Up, w, h).is_none(), y == 0);
            assert_eq!(c.move_bumping(Dir::Down, w, h).is_none(), y == h - 1);
            assert_eq!(c.move_bumping(Dir::Left, w, h).is_none(), x == 0);
            assert_eq!(c.move_bumping(Dir::Right, w, h).is_none(), x == w - 1);
        }
    }
}

#[test]
fn bumping_moves_like_wrapping_away_from_edges() {
    let c = Coords { x: 2, y: 2 };
    assert_eq!(c.move_bumping(Dir::Right, 5, 5), Some(Coords { x: 3, y: 2 }));
    assert_eq!(c.move_bumping(Dir::Left, 5, 5), Some(Coords { x: 1, y: 2 }));
    assert_eq!(c.move_bumping(Dir::Up, 5, 5), Some(Coords { x: 2, y: 1 }));
    assert_eq!(c.move_bumping(Dir::Down, 5, 5), Some(Coords { x: 2, y: 3 }));
}

#[test]
fn perpendicular_truth_table() {
    let horizontal = [Dir::Left, Dir::Right];
    let vertical = [Dir::Up, Dir::Down];
    for a in horizontal {
        for b in horizontal {
            assert!(!a.is_perpendicular(b));
        }
        for b in vertical {
            assert!(a.is_perpendicular(b));
            assert!(b.is_perpendicular(a));
        }
    }
    for a in vertical {
        for b in vertical {
            assert!(!a.is_perpendicular(b));
        }
    }
}

#[test]
fn compare_points_from_other_toward_self() {
    let w = 5;
    let h = 4;
    // plain adjacency
    assert_eq!(
        Coords { x: 3, y: 1 }.compare(&Coords { x: 2, y: 1 }, w, h),
        Dir::Right
    );
    assert_eq!(
        Coords { x: 2, y: 1 }.compare(&Coords { x: 3, y: 1 }, w, h),
        Dir::Left
    );
    assert_eq!(
        Coords { x: 2, y: 2 }.compare(&Coords { x: 2, y: 1 }, w, h),
        Dir::Down
    );
    assert_eq!(
        Coords { x: 2, y: 1 }.compare(&Coords { x: 2, y: 2 }, w, h),
        Dir::Up
    );
}

#[test]
fn compare_handles_wrap_adjacency_first() {
    let w = 5;
    let h = 4;
    assert_eq!(
        Coords { x: 0, y: 1 }.compare(&Coords { x: 4, y: 1 }, w, h),
        Dir::Right
    );
    assert_eq!(
        Coords { x: 4, y: 1 }.compare(&Coords { x: 0, y: 1 }, w, h),
        Dir::Left
    );
    assert_eq!(
        Coords { x: 2, y: 0 }.compare(&Coords { x: 2, y: 3 }, w, h),
        Dir::Down
    );
    assert_eq!(
        Coords { x: 2, y: 3 }.compare(&Coords { x: 2, y: 0 }, w, h),
        Dir::Up
    );
}
