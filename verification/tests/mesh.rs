use veloren_server::geometry::{Aabb, Vec3i, Vec3u};
use veloren_server::mesh::{has_sides, Block, Dyna, MeshVoxel, Rgb, VolMap};

const RED: Rgb = Rgb { r: 255, g: 0, b: 0 };
const BLUE: Rgb = Rgb { r: 0, g: 0, b: 255 };

fn at(x: i32, y: i32, z: i32) -> Vec3i {
    Vec3i { x, y, z }
}

/// A box of sides 3 with `color` everywhere.
fn solid_cube(color: Option<Rgb>) -> Dyna {
    Dyna::new(Vec3u { x: 3, y: 3, z: 3 }, vec![Block { color }; 27])
}

fn all_positions(side: i32) -> Vec<Vec3i> {
    let mut positions = Vec::new();
    for x in 0..side {
        for y in 0..side {
            for z in 0..side {
                positions.push(at(x, y, z));
            }
        }
    }
    positions
}

/// A box of sides 2 that is air but for the given corners.
fn corners(colored: &[(Vec3i, Rgb)]) -> Dyna {
    let mut blocks = vec![Block { color: None }; 8];
    for (pos, col) in colored {
        blocks[((pos.x * 2 + pos.y) * 2 + pos.z) as usize] = Block { color: Some(*col) };
    }
    Dyna::new(Vec3u { x: 2, y: 2, z: 2 }, blocks)
}

/// Two chunks of sides 2 beside each other on either side of the origin.
fn two_chunks() -> VolMap {
    let mut vol = VolMap::new(Vec3u { x: 2, y: 2, z: 2 });
    vol.insert(at(-1, 0, 0), corners(&[(at(1, 0, 0), RED)]));
    vol.insert(at(0, 0, 0), corners(&[(at(0, 0, 0), BLUE), (at(0, 0, 1), RED), (at(1, 1, 1), RED)]));
    vol
}

#[test]
fn blocks_of_a_box_are_found_by_position() {
    let mut blocks = vec![Block { color: None }; 24];
    blocks[(1 * 3 + 2) * 4 + 3] = Block { color: Some(RED) };
    let vol = Dyna::new(Vec3u { x: 2, y: 3, z: 4 }, blocks);
    assert_eq!(vol.get_size(), Vec3u { x: 2, y: 3, z: 4 });
    assert_eq!(vol.get(at(1, 2, 3)).and_then(|b| b.get_color()), Some(RED));
    assert_eq!(vol.get(at(0, 0, 0)), Some(Block { color: None }));
    for outside in [at(-1, 0, 0), at(0, -1, 0), at(0, 0, -1), at(2, 0, 0), at(0, 3, 0), at(0, 0, 4)] {
        assert_eq!(vol.get(outside), None);
    }
}

#[test]
fn only_the_interior_of_a_box_is_meshed() {
    let mesh = solid_cube(Some(RED)).generate_mesh(&all_positions(3));
    assert_eq!(mesh, vec![MeshVoxel { pos: at(1, 1, 1), local: at(1, 1, 1), col: RED }]);
}

#[test]
fn air_gets_no_faces() {
    assert_eq!(solid_cube(None).generate_mesh(&all_positions(3)), vec![]);
}

#[test]
fn a_box_without_interior_has_an_empty_mesh() {
    let vol = Dyna::new(Vec3u { x: 2, y: 2, z: 2 }, vec![Block { color: Some(RED) }; 8]);
    assert_eq!(vol.generate_mesh(&all_positions(2)), vec![]);
    let vol = Dyna::new(Vec3u { x: 0, y: 0, z: 0 }, vec![]);
    assert_eq!(vol.generate_mesh(&vec![at(0, 0, 0)]), vec![]);
}

#[test]
fn a_box_walked_in_two_goes_gives_both_meshes() {
    let vol = Dyna::new(Vec3u { x: 4, y: 3, z: 3 }, vec![Block { color: Some(BLUE) }; 36]);
    let first = vec![at(2, 1, 1), at(0, 0, 0)];
    let second = vec![at(1, 1, 1)];
    let both = vec![at(2, 1, 1), at(0, 0, 0), at(1, 1, 1)];
    let mut expected = vol.generate_mesh(&first);
    expected.append(&mut vol.generate_mesh(&second));
    assert_eq!(vol.generate_mesh(&both), expected);
    assert_eq!(expected.len(), 2);
    assert_eq!(expected[0].pos, at(2, 1, 1));
}

#[test]
fn a_range_is_meshed_across_chunks() {
    let vol = two_chunks();
    let mesh = vol.generate_mesh(Aabb { min: at(-1, 0, 0), max: at(2, 2, 2) });
    assert_eq!(
        mesh,
        vec![
            MeshVoxel { pos: at(-1, 0, 0), local: at(0, 0, 0), col: RED },
            MeshVoxel { pos: at(0, 0, 0), local: at(1, 0, 0), col: BLUE },
            MeshVoxel { pos: at(0, 0, 1), local: at(1, 0, 1), col: RED },
            MeshVoxel { pos: at(1, 1, 1), local: at(2, 1, 1), col: RED },
        ]
    );
}

#[test]
fn chunks_that_are_not_loaded_leave_gaps() {
    let vol = two_chunks();
    let mesh = vol.generate_mesh(Aabb { min: at(-4, -3, -3), max: at(5, 5, 5) });
    assert_eq!(mesh.len(), 4);
    assert_eq!(mesh[0].local, at(3, 3, 3));
    assert_eq!(vol.generate_mesh(Aabb { min: at(10, 10, 10), max: at(12, 12, 12) }), vec![]);
}

#[test]
fn an_inverted_range_is_empty() {
    let vol = two_chunks();
    assert_eq!(vol.generate_mesh(Aabb { min: at(0, 0, 0), max: at(-2, 2, 2) }), vec![]);
    assert_eq!(vol.generate_mesh(Aabb { min: at(0, 0, 0), max: at(2, 2, 0) }), vec![]);
}

#[test]
fn chunks_are_kept_by_key() {
    let mut vol = two_chunks();
    assert_eq!(vol.pos_key(at(-1, 1, 5)), at(-1, 0, 2));
    assert_eq!(vol.chunk_offs(at(-1, 1, 5)), at(1, 1, 1));
    assert_eq!(vol.get(at(-1, 0, 0)), Some(Block { color: Some(RED) }));
    assert_eq!(vol.get(at(-3, 0, 0)), None);
    assert!(vol.get_key(at(7, 7, 7)).is_none());
    vol.insert(at(-1, 0, 0), corners(&[]));
    assert_eq!(vol.get(at(-1, 0, 0)), Some(Block { color: None }));
    assert_eq!(vol.get(at(0, 0, 0)), Some(Block { color: Some(BLUE) }));
}

#[test]
fn a_short_chunk_has_no_blocks_beyond_its_end() {
    let mut vol = VolMap::new(Vec3u { x: 4, y: 4, z: 4 });
    vol.insert(at(0, 0, 0), corners(&[(at(1, 1, 1), BLUE)]));
    assert_eq!(vol.get(at(1, 1, 1)), Some(Block { color: Some(BLUE) }));
    assert_eq!(vol.get(at(2, 0, 0)), None);
    assert_eq!(vol.generate_mesh(Aabb { min: at(0, 0, 0), max: at(4, 4, 4) }).len(), 1);
}

#[test]
fn a_range_cut_along_x_gives_both_meshes() {
    let vol = two_chunks();
    let whole = vol.generate_mesh(Aabb { min: at(-2, 0, 0), max: at(2, 2, 2) });
    for x in -2..3 {
        let mut parts = vol.generate_mesh(Aabb { min: at(-2, 0, 0), max: at(x, 2, 2) });
        for mut v in vol.generate_mesh(Aabb { min: at(x, 0, 0), max: at(2, 2, 2) }) {
            v.local.x += x + 2;
            parts.push(v);
        }
        assert_eq!(parts, whole);
    }
}

#[test]
fn volumes_that_are_not_well_formed_are_noticed() {
    assert!(solid_cube(None).is_well_formed());
    let short = Dyna { size: Vec3u { x: 3, y: 3, z: 3 }, blocks: vec![Block { color: None }; 26] };
    assert!(!short.is_well_formed());
    let wide = Dyna { size: Vec3u { x: 0x8000_0000, y: 0, z: 0 }, blocks: vec![] };
    assert!(!wide.is_well_formed());
    let mut vol = two_chunks();
    assert!(vol.is_well_formed());
    vol.chunks.push((at(5, 5, 5), short));
    assert!(!vol.is_well_formed());
    let mut vol = two_chunks();
    vol.chunks.push((at(0, 0, 0), corners(&[])));
    assert!(!vol.is_well_formed());
    let mut vol = two_chunks();
    vol.chunk_size = Vec3u { x: 2, y: 0, z: 2 };
    assert!(!vol.is_well_formed());
}

#[test]
fn ranges_whose_sides_do_not_fit_are_noticed() {
    assert!(has_sides(Aabb { min: at(-1, 0, 0), max: at(i32::MAX - 1, 1, 1) }));
    assert!(!has_sides(Aabb { min: at(-1, 0, 0), max: at(i32::MAX, 1, 1) }));
    assert!(!has_sides(Aabb { min: at(0, 0, 2), max: at(1, 1, i32::MIN) }));
}
