use dungeon_gen::utils::rect::{Rect, SimpleRect};

#[test]
fn trim_outer_frame_1_to_4x5() {
    let r = SimpleRect::from((0, 0, 4, 5));

    assert_eq!(SimpleRect::from((1, 1, 2, 3)), r.trim_outer_frame(1).unwrap(),)
}

#[test]
fn contains_point_bottom_right() {
    let r = SimpleRect::from((0, 0, 4, 5));
    let p = (3, 4);

    assert!(r.contains_point(p.0, p.1))
}

#[test]
fn add_outer_frame_1_to_4x5() {
    let r = SimpleRect::from((1, 1, 5, 6));

    assert_eq!(SimpleRect::from((0, 0, 7, 8)), r.add_outer_frame(1),)
}

#[test]
fn add_then_trim_restores_rect() {
    let r = SimpleRect::from((1, 1, 5, 6));

    for a in 0..4 {
        assert_eq!(r.add_outer_frame(a).trim_outer_frame(a).unwrap(), r);
    }
}

#[test]
fn contains_point_rect_contains_all_its_points() {
    let r = SimpleRect::from((0, 2, 6, 12));

    for x in r.x..(r.x + r.w) {
        for y in r.y..(r.y + r.h) {
            assert!(r.contains_point(x, y))
        }
    }
}

#[test]
fn contains_point_rect_does_not_contain_its_outer_frame() {
    let r = SimpleRect {
        x: 1,
        y: 2,
        w: 6,
        h: 12,
    };

    for &x in &[r.x - 1, r.x + r.w + 1] {
        for y in r.y..=(r.y + r.h) {
            println!("{}, {}", x, y);
            assert!(!r.contains_point(x, y));
        }
    }

    for &y in &[r.y - 1, r.y + r.h + 1] {
        for x in r.x..=(r.x + r.w) {
            println!("{}, {}", x, y);
            assert!(!r.contains_point(x, y));
        }
    }
}

#[test]
fn contains_rect_rect_contains_itself() {
    let r = SimpleRect {
        x: 1,
        y: 2,
        w: 6,
        h: 12,
    };

    assert!(r.contains_rect(&r));
}

#[test]
fn trim_outer_frame_too_small_is_none() {
    let r = SimpleRect::from((0, 0, 1, 8));

    assert!(r.trim_outer_frame(1).is_none());
}

#[test]
fn grid_corners_and_containment() {
    let g = dungeon_gen::map::Grid::empty(4, 5);

    assert_eq!(g.get_corners(), (0, 0, 4, 5));
    assert!(g.contains_point(0, 0));
    assert!(g.contains_point(3, 4));
    assert!(!g.contains_point(4, 0));
    assert!(!g.contains_point(0, 5));
    assert_eq!(g.trim_outer_frame(1).unwrap(), SimpleRect::from((1, 1, 2, 3)));
}
