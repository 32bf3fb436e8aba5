use battle::map::cube_to_hex;
use battle::map::dirs;
use battle::map::distance_cube;
use battle::map::distance_hex;
use battle::map::hex_to_cube;
use battle::map::radius_to_diameter;
use battle::map::Dir;
use battle::map::HexMap;
use battle::map::PosCube;
use battle::map::PosHex;

#[test]
fn test_map_height() {
    let map: HexMap<u8> = HexMap::new(3);
    let height = map.height();
    assert_eq!(height, 7);
}

#[test]
fn map_has_a_tile_for_every_cell_of_its_square() {
    let map: HexMap<u8> = HexMap::new(3);
    assert_eq!(map.tiles.len(), 49);
    assert_eq!(map.size, 7);
    assert_eq!(map.radius(), 3);
    assert_eq!(radius_to_diameter(5), 11);
}

#[test]
fn map_knows_its_cells() {
    let map: HexMap<u8> = HexMap::new(3);
    assert!(map.is_inboard(PosHex::new(0, 0)));
    assert!(map.is_inboard(PosHex::new(3, -3)));
    assert!(map.is_inboard(PosHex::new(-3, 0)));
    assert!(!map.is_inboard(PosHex::new(3, 1)));
    assert!(!map.is_inboard(PosHex::new(4, 0)));
    assert!(!map.is_inboard(PosHex::new(i32::MAX, i32::MAX)));
}

#[test]
fn map_sets_one_tile() {
    let mut map: HexMap<u8> = HexMap::new(2);
    map.set_tile(PosHex::new(1, -2), 9);
    assert_eq!(map.tile(PosHex::new(1, -2)), 9);
    assert_eq!(map.tile(PosHex::new(-2, 1)), 0);
    assert_eq!(map.tiles.iter().filter(|t| **t == 9).count(), 1);
}

#[test]
fn map_iter_walks_every_cell_once() {
    let map: HexMap<u8> = HexMap::new(2);
    let mut it = map.iter();
    let mut cells = Vec::new();
    while let Some(pos) = it.next() {
        assert!(map.is_inboard(pos));
        assert!(!cells.contains(&pos));
        cells.push(pos);
    }
    // 1 + 6 + 12 cells within two steps of the origin
    assert_eq!(cells.len(), 19);
    assert_eq!(it.next(), None);
    assert_eq!(cells[0], PosHex::new(0, -2));
    assert_eq!(cells[3], PosHex::new(-1, -1));
    assert_eq!(cells[18], PosHex::new(0, 2));
    for pair in cells.windows(2) {
        assert!((pair[0].r, pair[0].q) < (pair[1].r, pair[1].q));
    }
}

#[test]
fn map_iter_of_the_smallest_boards() {
    let single: HexMap<u8> = HexMap::new(0);
    assert_eq!(single.iter().next(), None);
    let map: HexMap<u8> = HexMap::new(1);
    let mut it = map.iter();
    let mut cells = Vec::new();
    while let Some(pos) = it.next() {
        cells.push(pos);
    }
    assert_eq!(
        cells,
        vec![
            PosHex::new(0, -1),
            PosHex::new(1, -1),
            PosHex::new(-1, 0),
            PosHex::new(0, 0),
            PosHex::new(1, 0),
            PosHex::new(-1, 1),
            PosHex::new(0, 1),
        ]
    );
}

#[test]
fn distances() {
    let origin = PosHex::new(0, 0);
    assert_eq!(distance_hex(origin, origin), 0);
    assert_eq!(distance_hex(origin, PosHex::new(1, -1)), 1);
    assert_eq!(distance_hex(origin, PosHex::new(2, 1)), 3);
    assert_eq!(distance_hex(PosHex::new(-2, 3), PosHex::new(1, -2)), 5);
    assert_eq!(distance_hex(PosHex::new(1, -2), PosHex::new(-2, 3)), 5);
    assert_eq!(
        distance_cube(PosCube { x: 0, y: 0, z: 0 }, PosCube { x: 2, y: -3, z: 1 }),
        3
    );
}

#[test]
fn distance_is_kept_within_i32() {
    let far = PosHex::new(i32::MAX, i32::MAX);
    let back = PosHex::new(i32::MIN, i32::MIN);
    assert_eq!(distance_hex(far, back), i32::MAX);
}

#[test]
fn cube_and_hex() {
    let hex = PosHex::new(2, -5);
    let cube = hex_to_cube(hex);
    assert_eq!(cube, PosCube { x: 2, y: 3, z: -5 });
    assert_eq!(cube_to_hex(cube), hex);
}

#[test]
fn directions() {
    let pos = PosHex::new(1, 1);
    let mut it = dirs();
    let mut seen = Vec::new();
    let mut n = 0;
    while let Some(dir) = it.next() {
        assert_eq!(dir.to_int(), n);
        assert_eq!(Dir::from_int(n), dir);
        let neighbor = Dir::get_neighbor_pos(pos, dir);
        assert_eq!(distance_hex(pos, neighbor), 1);
        assert_eq!(Dir::get_dir_from_to(pos, neighbor), dir);
        assert!(!seen.contains(&neighbor));
        seen.push(neighbor);
        n += 1;
    }
    assert_eq!(n, 6);
    assert_eq!(Dir::get_neighbor_pos(pos, Dir::SouthEast), PosHex::new(2, 1));
    assert_eq!(Dir::get_neighbor_pos(pos, Dir::East), PosHex::new(2, 0));
    assert_eq!(Dir::get_neighbor_pos(pos, Dir::NorthEast), PosHex::new(1, 0));
    assert_eq!(Dir::get_neighbor_pos(pos, Dir::NorthWest), PosHex::new(0, 1));
    assert_eq!(Dir::get_neighbor_pos(pos, Dir::West), PosHex::new(0, 2));
    assert_eq!(Dir::get_neighbor_pos(pos, Dir::SouthWest), PosHex::new(1, 2));
}

#[test]
fn the_tile_beyond() {
    assert_eq!(
        Dir::get_dir_pos(PosHex::new(0, 0), PosHex::new(1, -1)),
        PosHex::new(2, -2)
    );
    assert_eq!(
        Dir::get_dir_pos(PosHex::new(2, 1), PosHex::new(2, 2)),
        PosHex::new(2, 3)
    );
}
