use veloren_server::geometry::{
    can_measure, cell_of, chunk_relative, offset_in_cell, Vec2i, Vec2u, Vec3i, Vec3u,
};
use veloren_server::spawn::{
    can_measure_sites, can_place, can_search, find_spawn_point, spawn_chunk, spawn_column, spawn_wpos, Column, GroundBlock, MapSize, Site,
    SiteKind, SpawnPoint, SpawnSurvey,
};

const ROCK: Option<GroundBlock> = Some(GroundBlock { filled: true, solid: true });
const AIR: Option<GroundBlock> = Some(GroundBlock { filled: false, solid: false });
const WATER: Option<GroundBlock> = Some(GroundBlock { filled: true, solid: false });
const CHUNK: Vec2u = Vec2u { x: 32, y: 32 };

fn site(kind: SiteKind, x: i32, y: i32) -> Site {
    Site { kind, center: Vec2i { x, y } }
}

fn survey(sites: Vec<Site>, blocks: Vec<Option<GroundBlock>>) -> SpawnSurvey {
    let max_z = 10 + blocks.len() as i32;
    SpawnSurvey {
        map_size: MapSize { x: 1024, y: 1024 },
        sites,
        rect_size: CHUNK,
        min_z: 10,
        max_z,
        column: Column { bottom: 10, blocks },
    }
}

#[test]
fn cells_go_on_below_zero() {
    assert_eq!(cell_of(31, 32), 0);
    assert_eq!(cell_of(32, 32), 1);
    assert_eq!(cell_of(-1, 32), -1);
    assert_eq!(cell_of(-33, 32), -2);
    assert_eq!(offset_in_cell(-1, 32), 31);
    assert_eq!(offset_in_cell(33, 32), 1);
    assert_eq!(cell_of(i32::MIN, 1), i32::MIN);
    for e in [-65, -64, -1, 0, 1, 63, 64, i32::MAX, i32::MIN] {
        let start = cell_of(e, 32) as i64 * 32;
        assert_eq!(start + offset_in_cell(e, 32) as i64, e as i64);
    }
    assert_eq!(chunk_relative(Vec2i { x: -16, y: 48 }, CHUNK), Vec2i { x: 16, y: 16 });
}

#[test]
fn the_town_nearest_to_the_middle_is_chosen() {
    let sites = vec![
        site(SiteKind::Other, 512, 512),
        site(SiteKind::Settlement, 500, 512),
        site(SiteKind::Settlement, 509, 508),
        site(SiteKind::Settlement, 700, 20),
    ];
    assert_eq!(spawn_chunk(MapSize { x: 1024, y: 1024 }, &sites), Vec2i { x: 509, y: 508 });
}

#[test]
fn distance_is_not_taken_along_one_axis() {
    let sites = vec![site(SiteKind::Settlement, 5, 12), site(SiteKind::Settlement, 9, 9)];
    assert_eq!(spawn_chunk(MapSize { x: 10, y: 10 }, &sites), Vec2i { x: 9, y: 9 });
}

#[test]
fn of_towns_as_near_the_first_is_chosen() {
    let sites = vec![site(SiteKind::Settlement, 8, 4), site(SiteKind::Settlement, 2, 6)];
    assert_eq!(spawn_chunk(MapSize { x: 11, y: 11 }, &sites), Vec2i { x: 8, y: 4 });
}

#[test]
fn without_a_town_the_middle_is_chosen() {
    assert_eq!(spawn_chunk(MapSize { x: 11, y: 7 }, &vec![]), Vec2i { x: 5, y: 3 });
    let sites = vec![site(SiteKind::Other, 1, 1)];
    assert_eq!(spawn_chunk(MapSize { x: 11, y: 7 }, &sites), Vec2i { x: 5, y: 3 });
}

#[test]
fn the_column_lies_in_the_middle_of_its_chunk() {
    assert_eq!(spawn_wpos(Vec2i { x: 3, y: -2 }, CHUNK), Vec2i { x: 112, y: -48 });
    assert_eq!(spawn_column(Vec2i { x: 3, y: -2 }, CHUNK), Vec2i { x: 16, y: 16 });
    assert_eq!(spawn_column(Vec2i { x: -7, y: 0 }, Vec2u { x: 5, y: 1 }), Vec2i { x: 2, y: 0 });
}

#[test]
fn one_stands_on_filled_ground_with_room_above() {
    let column = Column { bottom: 0, blocks: vec![ROCK, AIR, AIR, ROCK, AIR, WATER, AIR, AIR] };
    assert!(!column.is_standable(0));
    assert!(!column.is_standable(1));
    assert!(!column.is_standable(2));
    assert!(column.is_standable(4));
    assert!(!column.is_standable(5));
    assert!(column.is_standable(6));
    assert_eq!(column.get(3), ROCK);
    assert_eq!(column.get(-1), None);
    assert_eq!(column.get(8), None);
}

#[test]
fn gaps_are_no_ground_and_no_obstacle() {
    let column = Column { bottom: -2, blocks: vec![None, ROCK, None] };
    assert!(!column.is_standable(-1));
    assert!(column.is_standable(0));
    assert_eq!(column.spawn_height(-2, 3), 0);
    assert_eq!(column.spawn_height(-2, 0), -2);
    assert_eq!(column.spawn_height(5, 1), 5);
}

#[test]
fn players_enter_on_the_lowest_free_spot() {
    let s = survey(
        vec![site(SiteKind::Settlement, 2, -1)],
        vec![ROCK, ROCK, AIR, AIR, AIR, ROCK, AIR, AIR, AIR],
    );
    assert_eq!(
        find_spawn_point(&Some(s)),
        SpawnPoint { block: Vec3i { x: 80, y: -16, z: 12 }, centred: true }
    );
}

#[test]
fn beyond_the_top_of_a_column_nothing_is_in_the_way() {
    let point = find_spawn_point(&Some(survey(vec![], vec![ROCK, ROCK, AIR])));
    assert_eq!(point.block.z, 12);
}

#[test]
fn a_world_without_a_free_spot_has_players_enter_at_its_bottom() {
    let s = survey(vec![], vec![AIR, AIR, AIR]);
    let point = find_spawn_point(&Some(s));
    assert_eq!(point.block, Vec3i { x: 512 * 32 + 16, y: 512 * 32 + 16, z: 10 });
}

#[test]
fn a_world_that_was_not_generated_has_a_fixed_spawn_point() {
    assert_eq!(
        find_spawn_point(&None),
        SpawnPoint { block: Vec3i { x: 0, y: 0, z: 256 }, centred: false }
    );
}

#[test]
fn chunks_need_sides_that_fit() {
    assert!(CHUNK.has_chunk_sides());
    assert!(!Vec2u { x: 0, y: 1 }.has_chunk_sides());
    assert!(Vec2u { x: 0x7fff_ffff, y: 1 }.has_chunk_sides());
    assert!(!Vec2u { x: 1, y: 0x8000_0000 }.has_chunk_sides());
    assert!(Vec3u { x: 1, y: 2, z: 3 }.has_chunk_sides());
    assert!(!Vec3u { x: 1, y: 2, z: 0 }.has_chunk_sides());
}

#[test]
fn distances_that_do_not_fit_are_noticed() {
    let origin = Vec2i { x: 0, y: 0 };
    assert!(can_measure(Vec2i { x: 46340, y: 0 }, origin));
    assert!(!can_measure(Vec2i { x: 46341, y: 0 }, origin));
    assert!(!can_measure(Vec2i { x: 46340, y: 46340 }, origin));
    assert!(!can_measure(Vec2i { x: i32::MIN, y: 0 }, Vec2i { x: 1, y: 0 }));
    let size = MapSize { x: 2, y: 2 };
    assert!(can_measure_sites(size, &vec![site(SiteKind::Other, 99999, 0)]));
    assert!(!can_measure_sites(size, &vec![site(SiteKind::Settlement, 99999, 0)]));
}

#[test]
fn columns_and_heights_that_do_not_fit_are_noticed() {
    assert!(can_place(Vec2i { x: 67108863, y: -67108864 }, CHUNK));
    assert!(!can_place(Vec2i { x: 67108864, y: 0 }, CHUNK));
    assert!(!can_place(Vec2i { x: 0, y: -67108865 }, CHUNK));
    assert!(can_search(0, 100));
    assert!(can_search(i32::MAX, i32::MAX));
    assert!(!can_search(0, i32::MAX));
    assert!(!can_search(i32::MIN, 0));
    assert!(!can_search(-2, i32::MAX - 1));
}

#[test]
fn surveys_are_held_to_the_limits() {
    assert!(survey(vec![site(SiteKind::Settlement, 2, -1)], vec![ROCK]).is_within_limits());
    assert!(!survey(vec![site(SiteKind::Settlement, 99999, -1)], vec![ROCK]).is_within_limits());
    let mut s = survey(vec![], vec![ROCK]);
    s.rect_size = Vec2u { x: 0x7fff_ffff, y: 1 };
    assert!(!s.is_within_limits());
    let mut s = survey(vec![], vec![ROCK]);
    s.min_z = i32::MIN;
    assert!(!s.is_within_limits());
}
