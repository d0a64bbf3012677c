use dungeon_gen::utils::dir::{Advance, Dir};

#[test]
fn cycle_returns_after_four_steps() {
    for d in [Dir::North, Dir::East, Dir::South, Dir::West] {
        let c1 = d.cycle();
        let c2 = c1.cycle();
        let c3 = c2.cycle();
        let c4 = c3.cycle();

        assert_ne!(c1, d);
        assert_ne!(c2, d);
        assert_ne!(c3, d);
        assert_eq!(c4, d);
    }
}

#[test]
fn cycle_visits_every_direction() {
    let d = Dir::North;
    let c1 = d.cycle();
    let c2 = c1.cycle();
    let c3 = c2.cycle();

    assert_ne!(c1, c2);
    assert_ne!(c1, c3);
    assert_ne!(c2, c3);
    assert_ne!(d, c1);
    assert_ne!(d, c2);
    assert_ne!(d, c3);
}

#[test]
fn advance_moves_one_axis() {
    assert_eq!((3, 4).advance(Dir::East, 1), (4, 4));
    assert_eq!((3, 4).advance(Dir::West, 1), (2, 4));
    assert_eq!((3, 4).advance(Dir::South, 1), (3, 5));
    assert_eq!((3, 4).advance(Dir::North, 1), (3, 3));
    assert_eq!((3, 4).advance(Dir::East, 5), (8, 4));
}
