use dungeon_gen::components::Viewshed;
use dungeon_gen::map::base::{Grid, Point};
use dungeon_gen::systems::visibility::update_viewshed;

#[test]
fn viewshed_new_is_empty() {
    let vs = Viewshed::new(10);

    assert_eq!(vs.range, 10);
    assert!(vs.visible_tiles.is_empty());
}

#[test]
fn update_viewshed_discards_off_map_points() {
    let map = Grid::empty(5, 3);
    let mut vs = Viewshed::new(8);

    let fov = vec![
        Point::new(1, 1),
        Point::new(7, 0),
        Point::new(-1, 2),
        Point::new(4, 2),
        Point::new(0, 3),
        Point::new(0, 0),
    ];
    update_viewshed(&mut vs, &map, fov);

    assert_eq!(vs.range, 8);
    assert_eq!(
        vs.visible_tiles,
        vec![Point::new(1, 1), Point::new(4, 2), Point::new(0, 0)]
    );
}
