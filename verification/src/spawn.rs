//! Where new players enter the world: in the town nearest to its middle, on the
//! lowest free spot of the ground.

use crate::geometry::{
    can_measure, cell_is_unique, chunk_relative, column_key, column_offset, distance_fits, distance_squared,
    fits_i32, squared_distance, Vec2i, Vec2u, Vec3i,
};
use vstd::prelude::*;

verus! {

/// The sides of the world, in chunks.
#[derive(Clone, Copy, Debug, PartialEq, Eq, Structural)]
pub struct MapSize {
    pub x: u16,
    pub y: u16,
}

/// What stands at a site. Players spawn in settlements only.
#[derive(Clone, Copy, Debug, PartialEq, Eq, Structural)]
pub enum SiteKind {
    Settlement,
    Other,
}

/// A place that the history of the world left on the map.
#[derive(Clone, Copy, Debug, PartialEq, Eq, Structural)]
pub struct Site {
    pub kind: SiteKind,
    /// The chunk in the middle of the site.
    pub center: Vec2i,
}

/// What matters of a block to someone who stands on it or in it.
#[derive(Clone, Copy, Debug, PartialEq, Eq, Structural)]
pub struct GroundBlock {
    pub filled: bool,
    pub solid: bool,
}

/// One column of a chunk, from `bottom` upwards. A gap is a place at which the
/// chunk has no block; beyond both ends there is none either.
#[derive(Debug)]
pub struct Column {
    pub bottom: i32,
    pub blocks: Vec<Option<GroundBlock>>,
}

/// Where players enter the world. A world without towns or terrain of its own
/// has them enter at the corner of a block, any other in the middle of it.
#[derive(Clone, Copy, Debug, PartialEq, Eq, Structural)]
pub struct SpawnPoint {
    pub block: Vec3i,
    pub centred: bool,
}

/// What is known of the generated world when the spawn point is chosen.
#[derive(Debug)]
pub struct SpawnSurvey {
    pub map_size: MapSize,
    pub sites: Vec<Site>,
    /// The sides of a chunk.
    pub rect_size: Vec2u,
    /// The bottom and the top of the chunk at [`spawn_chunk`].
    pub min_z: i32,
    pub max_z: i32,
    /// The column of that chunk at [`spawn_column`].
    pub column: Column,
}

/// The chunk in the middle of the world.
pub open spec fn middle_chunk(map_size: MapSize) -> Vec2i {
    Vec2i { x: (map_size.x / 2) as i32, y: (map_size.y / 2) as i32 }
}

/// Site `i` is a settlement, none is nearer to `center`, and none before it in
/// the list is as near.
pub open spec fn is_first_nearest(sites: Seq<Site>, center: Vec2i, i: int) -> bool {
    &&& 0 <= i < sites.len()
    &&& sites[i].kind is Settlement
    &&& forall|j: int|
        0 <= j < sites.len() && (#[trigger] sites[j]).kind is Settlement ==> squared_distance(
            sites[i].center,
            center,
        ) <= squared_distance(sites[j].center, center)
    &&& forall|j: int|
        0 <= j < i && (#[trigger] sites[j]).kind is Settlement ==> squared_distance(
            sites[i].center,
            center,
        ) < squared_distance(sites[j].center, center)
}

/// There is a settlement among the sites.
pub open spec fn has_settlement(sites: Seq<Site>) -> bool {
    exists|i: int| 0 <= i < sites.len() && (#[trigger] sites[i]).kind is Settlement
}

/// Players spawn in `chunk`: that of the settlement nearest to the middle of the
/// world, the first of them where several are as near; the middle itself where
/// there is no settlement.
pub open spec fn is_spawn_chunk(map_size: MapSize, sites: Seq<Site>, chunk: Vec2i) -> bool {
    if has_settlement(sites) {
        exists|i: int|
            #[trigger] is_first_nearest(sites, middle_chunk(map_size), i) && chunk
                == sites[i].center
    } else {
        chunk == middle_chunk(map_size)
    }
}

/// The distances of all settlements from the middle of the world fit in `i32`.
pub open spec fn distances_fit(map_size: MapSize, sites: Seq<Site>) -> bool {
    forall|i: int|
        0 <= i < sites.len() && (#[trigger] sites[i]).kind is Settlement ==> distance_fits(
            sites[i].center,
            middle_chunk(map_size),
        )
}

/// The coordinate of the middle of cell `e` of length `side`.
pub open spec fn middle_of_cell(e: int, side: int) -> int {
    e * side + side / 2
}

/// The column in the middle of `chunk`.
pub open spec fn middle_column(chunk: Vec2i, size: Vec2u) -> Vec2i {
    Vec2i {
        x: middle_of_cell(chunk.x as int, size.x as int) as i32,
        y: middle_of_cell(chunk.y as int, size.y as int) as i32,
    }
}

/// The columns of `chunk` have coordinates that fit in `i32`.
pub open spec fn columns_fit(chunk: Vec2i, size: Vec2u) -> bool {
    &&& fits_i32(chunk.x * size.x)
    &&& fits_i32(chunk.y * size.y)
    &&& fits_i32(middle_of_cell(chunk.x as int, size.x as int))
    &&& fits_i32(middle_of_cell(chunk.y as int, size.y as int))
}

impl Column {
    /// The block at height `z`, if there is one.
    pub open spec fn block(self, z: int) -> Option<GroundBlock> {
        if self.bottom <= z < self.bottom + self.blocks@.len() {
            self.blocks@[z - self.bottom]
        } else {
            None
        }
    }

    /// One can stand at height `z`: the block below is filled, and nothing solid
    /// is in the way up to three blocks high.
    pub open spec fn standable(self, z: int) -> bool {
        &&& self.block(z - 1) matches Some(ground) && ground.filled
        &&& forall|h: int|
            0 <= h < 3 ==> (#[trigger] self.block(z + h) matches Some(b) ==> !b.solid)
    }

    /// `z` is the lowest height from `min_z` to below `max_z` at which one can
    /// stand; `min_z` where there is none.
    pub open spec fn is_spawn_height(self, min_z: int, max_z: int, z: int) -> bool {
        if exists|h: int| min_z <= h < max_z && #[trigger] self.standable(h) {
            &&& min_z <= z < max_z
            &&& self.standable(z)
            &&& forall|h: int| min_z <= h < z ==> !#[trigger] self.standable(h)
        } else {
            z == min_z
        }
    }

    /// The block at height `z`, if there is one.
    pub fn get(&self, z: i32) -> (block: Option<GroundBlock>)
        ensures
            block == self.block(z as int),
    {
        if z < self.bottom {
            return None;
        }
        let up: u64 = (z as i64 - self.bottom as i64) as u64;
        if up < self.blocks.len() as u64 {
            self.blocks[up as usize]
        } else {
            None
        }
    }

    /// Whether one can stand at height `z`.
    pub fn is_standable(&self, z: i32) -> (r: bool)
        requires
            i32::MIN < z,
            z + 2 <= i32::MAX,
        ensures
            r == self.standable(z as int),
    {
        let on_ground = match self.get(z - 1) {
            Some(below) => below.filled,
            None => false,
        };
        if !on_ground {
            return false;
        }
        let mut h: i32 = 0;
        while h < 3
            invariant
                z + 2 <= i32::MAX,
                0 <= h <= 3,
                forall|k: int|
                    0 <= k < h ==> (#[trigger] self.block(z + k) matches Some(b) ==> !b.solid),
            decreases 3 - h,
        {
            if let Some(block) = self.get(z + h) {
                if block.solid {
                    assert(self.block(z + h as int) is Some);
                    return false;
                }
            }
            h = h + 1;
        }
        true
    }

    /// The lowest height from `min_z` to below `max_z` at which one can stand;
    /// `min_z` where there is none.
    pub fn spawn_height(&self, min_z: i32, max_z: i32) -> (z: i32)
        requires
            heights_fit(min_z, max_z),
        ensures
            self.is_spawn_height(min_z as int, max_z as int, z as int),
    {
        let mut z: i32 = min_z;
        while z < max_z
            invariant
                heights_fit(min_z, max_z),
                min_z <= z,
                forall|h: int| min_z <= h < z ==> !#[trigger] self.standable(h),
            decreases max_z - z,
        {
            if self.is_standable(z) {
                return z;
            }
            z = z + 1;
        }
        min_z
    }
}

/// The heights that are tried, and the blocks looked at around them, have
/// coordinates that fit in `i32`, and so does their number.
pub open spec fn heights_fit(min_z: i32, max_z: i32) -> bool {
    &&& fits_i32(max_z - min_z)
    &&& min_z < max_z ==> i32::MIN < min_z && max_z < i32::MAX
}

impl SpawnSurvey {
    /// The numbers met while the spawn point is chosen fit in `i32`.
    pub open spec fn fits(self) -> bool {
        &&& self.rect_size.is_chunk_size()
        &&& distances_fit(self.map_size, self.sites@)
        &&& forall|chunk: Vec2i|
            #[trigger] is_spawn_chunk(self.map_size, self.sites@, chunk) ==> columns_fit(
                chunk,
                self.rect_size,
            )
        &&& heights_fit(self.min_z, self.max_z)
    }

    /// Whether the spawn point of the surveyed world can be chosen.
    pub fn is_within_limits(&self) -> (r: bool)
        ensures
            r == self.fits(),
    {
        if !self.rect_size.has_chunk_sides() || !can_measure_sites(self.map_size, &self.sites)
            || !can_search(self.min_z, self.max_z) {
            return false;
        }
        let chunk = spawn_chunk(self.map_size, &self.sites);
        proof {
            assert forall|other: Vec2i|
                #[trigger] is_spawn_chunk(self.map_size, self.sites@, other) implies other
                == chunk by {
                spawn_chunk_is_unique(self.map_size, self.sites@, other, chunk);
            }
        }
        can_place(chunk, self.rect_size)
    }
}

/// Whether the distances of all settlements from the middle of the world fit in
/// `i32`.
pub fn can_measure_sites(map_size: MapSize, sites: &Vec<Site>) -> (r: bool)
    ensures
        r == distances_fit(map_size, sites@),
{
    let center = Vec2i { x: map_size.x as i32 / 2, y: map_size.y as i32 / 2 };
    let mut i: usize = 0;
    while i < sites.len()
        invariant
            center == middle_chunk(map_size),
            i <= sites@.len(),
            forall|j: int|
                0 <= j < i && (#[trigger] sites@[j]).kind is Settlement ==> distance_fits(
                    sites@[j].center,
                    center,
                ),
        decreases sites@.len() - i,
    {
        if let SiteKind::Settlement = sites[i].kind {
            if !can_measure(sites[i].center, center) {
                assert(sites@[i as int].kind is Settlement);
                return false;
            }
        }
        i = i + 1;
    }
    true
}

/// Whether the middle of cell `e` of length `side`, and its start, fit in `i32`.
fn has_middle(e: i32, side: u32) -> (r: bool)
    requires
        0 < side <= i32::MAX,
    ensures
        r == (fits_i32(e * side) && fits_i32(middle_of_cell(e as int, side as int))),
{
    match e.checked_mul(side as i32) {
        Some(start) => start.checked_add(side as i32 / 2).is_some(),
        None => false,
    }
}

/// Whether the columns of `chunk` have coordinates that fit in `i32`.
pub fn can_place(chunk: Vec2i, size: Vec2u) -> (r: bool)
    requires
        size.is_chunk_size(),
    ensures
        r == columns_fit(chunk, size),
{
    has_middle(chunk.x, size.x) && has_middle(chunk.y, size.y)
}

/// Whether the heights that are tried, and the blocks looked at around them, have
/// coordinates that fit in `i32`, and so does their number.
pub fn can_search(min_z: i32, max_z: i32) -> (r: bool)
    ensures
        r == heights_fit(min_z, max_z),
{
    max_z.checked_sub(min_z).is_some() && (min_z >= max_z || (i32::MIN < min_z && max_z
        < i32::MAX))
}

/// `point` is the spawn point of a world: of a surveyed one, the middle column of
/// the spawn chunk at its spawn height; of one that was not generated, a fixed
/// point high above the origin.
pub open spec fn is_spawn_point(survey: Option<SpawnSurvey>, point: SpawnPoint) -> bool {
    match survey {
        Some(s) => exists|chunk: Vec2i|
            {
                &&& #[trigger] is_spawn_chunk(s.map_size, s.sites@, chunk)
                &&& point.block.x == middle_column(chunk, s.rect_size).x
                &&& point.block.y == middle_column(chunk, s.rect_size).y
                &&& s.column.is_spawn_height(s.min_z as int, s.max_z as int, point.block.z as int)
                &&& point.centred
            },
        None => point == (SpawnPoint { block: Vec3i { x: 0, y: 0, z: 256 }, centred: false }),
    }
}

/// The chunk that players spawn in.
pub fn spawn_chunk(map_size: MapSize, sites: &Vec<Site>) -> (chunk: Vec2i)
    requires
        distances_fit(map_size, sites@),
    ensures
        is_spawn_chunk(map_size, sites@, chunk),
{
    let center = Vec2i { x: map_size.x as i32 / 2, y: map_size.y as i32 / 2 };
    let mut nearest: Option<(usize, i32)> = None;
    let mut i: usize = 0;
    while i < sites.len()
        invariant
            distances_fit(map_size, sites@),
            center == middle_chunk(map_size),
            i <= sites@.len(),
            match nearest {
                Some((n, d)) => {
                    &&& n < i
                    &&& is_first_nearest(sites@.take(i as int), center, n as int)
                    &&& d == squared_distance(sites@[n as int].center, center)
                },
                None => !has_settlement(sites@.take(i as int)),
            },
        decreases sites@.len() - i,
    {
        let ghost seen = sites@.take(i as int);
        let ghost next = sites@.take(i + 1);
        let site = sites[i];
        proof {
            assert(forall|j: int| 0 <= j < i ==> seen[j] == next[j]);
            assert(next[i as int] == site);
        }
        if let SiteKind::Settlement = site.kind {
            let d: i32 = distance_squared(site.center, center);
            match nearest {
                Some((n, best)) => {
                    if d < best {
                        nearest = Some((i, d));
                        assert(is_first_nearest(next, center, i as int)) by {
                            assert forall|j: int|
                                0 <= j < i && (#[trigger] next[j]).kind is Settlement implies d
                                < squared_distance(next[j].center, center) by {
                                assert(seen[j].kind is Settlement);
                            }
                        }
                    } else {
                        assert(is_first_nearest(next, center, n as int)) by {
                            assert forall|j: int|
                                0 <= j < next.len() && (
                                #[trigger] next[j]).kind is Settlement implies squared_distance(
                                next[n as int].center,
                                center,
                            ) <= squared_distance(next[j].center, center) by {
                                if j < i {
                                    assert(seen[j].kind is Settlement);
                                }
                            }
                            assert forall|j: int|
                                0 <= j < n && (
                                #[trigger] next[j]).kind is Settlement implies squared_distance(
                                next[n as int].center,
                                center,
                            ) < squared_distance(next[j].center, center) by {
                                assert(seen[j].kind is Settlement);
                            }
                        }
                    }
                },
                None => {
                    nearest = Some((i, d));
                    assert(is_first_nearest(next, center, i as int)) by {
                        assert forall|j: int| 0 <= j < i implies !((
                        #[trigger] next[j]).kind is Settlement) by {
                            assert(!(seen[j].kind is Settlement));
                        }
                    }
                },
            }
        } else {
            match nearest {
                Some((n, best)) => {
                    assert(is_first_nearest(next, center, n as int)) by {
                        assert forall|j: int|
                            0 <= j < next.len() && (
                            #[trigger] next[j]).kind is Settlement implies squared_distance(
                            next[n as int].center,
                            center,
                        ) <= squared_distance(next[j].center, center) by {
                            assert(seen[j].kind is Settlement);
                        }
                        assert forall|j: int|
                            0 <= j < n && (
                            #[trigger] next[j]).kind is Settlement implies squared_distance(
                            next[n as int].center,
                            center,
                        ) < squared_distance(next[j].center, center) by {
                            assert(seen[j].kind is Settlement);
                        }
                    }
                },
                None => {
                    assert forall|j: int| 0 <= j < next.len() implies !((
                    #[trigger] next[j]).kind is Settlement) by {
                        if j < i {
                            assert(!(seen[j].kind is Settlement));
                        }
                    }
                },
            }
        }
        i = i + 1;
    }
    assert(sites@.take(sites@.len() as int) =~= sites@);
    match nearest {
        Some((n, _)) => {
            assert(sites@[n as int].kind is Settlement);
            sites[n].center
        },
        None => center,
    }
}

/// The column, by its place in the world, in the middle of `chunk`.
pub fn spawn_wpos(chunk: Vec2i, size: Vec2u) -> (wpos: Vec2i)
    requires
        size.is_chunk_size(),
        columns_fit(chunk, size),
    ensures
        wpos == middle_column(chunk, size),
{
    let width: i32 = size.x as i32;
    let height: i32 = size.y as i32;
    Vec2i { x: chunk.x * width + width / 2, y: chunk.y * height + height / 2 }
}

/// The column of the spawn chunk, by its place in the chunk, that is searched for
/// a spot to stand on.
pub fn spawn_column(chunk: Vec2i, size: Vec2u) -> (column: Vec2i)
    requires
        size.is_chunk_size(),
        columns_fit(chunk, size),
    ensures
        column == column_offset(middle_column(chunk, size), size),
{
    chunk_relative(spawn_wpos(chunk, size), size)
}

/// The column searched for a spot to stand on lies in the spawn chunk, in the
/// middle of it, wherever that chunk is.
pub proof fn spawn_column_is_central(chunk: Vec2i, size: Vec2u)
    requires
        size.is_chunk_size(),
        columns_fit(chunk, size),
    ensures
        column_key(middle_column(chunk, size), size) == chunk,
        column_offset(middle_column(chunk, size), size) == (Vec2i {
            x: (size.x / 2) as i32,
            y: (size.y / 2) as i32,
        }),
{
    let x = middle_of_cell(chunk.x as int, size.x as int);
    let y = middle_of_cell(chunk.y as int, size.y as int);
    cell_is_unique(x, size.x as int, chunk.x as int, size.x as int / 2);
    cell_is_unique(y, size.y as int, chunk.y as int, size.y as int / 2);
}

/// Where players enter the world.
pub fn find_spawn_point(survey: &Option<SpawnSurvey>) -> (point: SpawnPoint)
    requires
        survey matches Some(s) ==> s.fits(),
    ensures
        is_spawn_point(*survey, point),
{
    match survey {
        Some(s) => {
            let chunk = spawn_chunk(s.map_size, &s.sites);
            let wpos = spawn_wpos(chunk, s.rect_size);
            let z: i32 = s.column.spawn_height(s.min_z, s.max_z);
            SpawnPoint { block: Vec3i { x: wpos.x, y: wpos.y, z }, centred: true }
        },
        None => SpawnPoint { block: Vec3i { x: 0, y: 0, z: 256 }, centred: false },
    }
}

/// A world has one spawn chunk.
pub proof fn spawn_chunk_is_unique(map_size: MapSize, sites: Seq<Site>, a: Vec2i, b: Vec2i)
    requires
        is_spawn_chunk(map_size, sites, a),
        is_spawn_chunk(map_size, sites, b),
    ensures
        a == b,
{
    if has_settlement(sites) {
        let center = middle_chunk(map_size);
        let i = choose|i: int| #[trigger] is_first_nearest(sites, center, i) && a == sites[i].center;
        let j = choose|j: int| #[trigger] is_first_nearest(sites, center, j) && b == sites[j].center;
        if i < j {
            assert(sites[i].kind is Settlement);
        } else if j < i {
            assert(sites[j].kind is Settlement);
        }
    }
}

/// A column has one spawn height.
pub proof fn spawn_height_is_unique(column: Column, min_z: int, max_z: int, a: int, b: int)
    requires
        column.is_spawn_height(min_z, max_z, a),
        column.is_spawn_height(min_z, max_z, b),
    ensures
        a == b,
{
    if a < b {
        assert(column.standable(a) || !column.standable(a));
    } else if b < a {
        assert(column.standable(b) || !column.standable(b));
    }
}

/// A world has one spawn point.
pub proof fn spawn_point_is_unique(survey: Option<SpawnSurvey>, a: SpawnPoint, b: SpawnPoint)
    requires
        is_spawn_point(survey, a),
        is_spawn_point(survey, b),
    ensures
        a == b,
{
    if let Some(s) = survey {
        let i = choose|chunk: Vec2i|
            {
                &&& #[trigger] is_spawn_chunk(s.map_size, s.sites@, chunk)
                &&& a.block.x == middle_column(chunk, s.rect_size).x
                &&& a.block.y == middle_column(chunk, s.rect_size).y
            };
        let j = choose|chunk: Vec2i|
            {
                &&& #[trigger] is_spawn_chunk(s.map_size, s.sites@, chunk)
                &&& b.block.x == middle_column(chunk, s.rect_size).x
                &&& b.block.y == middle_column(chunk, s.rect_size).y
            };
        spawn_chunk_is_unique(s.map_size, s.sites@, i, j);
        spawn_height_is_unique(
            s.column,
            s.min_z as int,
            s.max_z as int,
            a.block.z as int,
            b.block.z as int,
        );
    }
}

/// A column has the block that is listed for a height, counted from its bottom, and
/// none below its bottom or above its top.
pub proof fn blocks_are_listed_from_the_bottom(column: Column, z: int)
    ensures
        column.bottom <= z < column.bottom + column.blocks@.len() ==> column.block(z)
            == column.blocks@[z - column.bottom],
        z < column.bottom || z >= column.bottom + column.blocks@.len() ==> column.block(z) is None,
{
}

/// One can stand just where the block below is filled, and neither the block itself
/// nor the two above it are solid. What is not there is neither filled nor solid.
pub proof fn standing_takes_ground_and_room(column: Column, z: int)
    ensures
        column.standable(z) <==> {
            &&& column.bottom <= z - 1 < column.bottom + column.blocks@.len()
            &&& column.blocks@[z - 1 - column.bottom] matches Some(ground)
            &&& ground.filled
            &&& column.bottom <= z < column.bottom + column.blocks@.len() ==> (
            column.blocks@[z - column.bottom] matches Some(b) ==> !b.solid)
            &&& column.bottom <= z + 1 < column.bottom + column.blocks@.len() ==> (
            column.blocks@[z + 1 - column.bottom] matches Some(b) ==> !b.solid)
            &&& column.bottom <= z + 2 < column.bottom + column.blocks@.len() ==> (
            column.blocks@[z + 2 - column.bottom] matches Some(b) ==> !b.solid)
        },
{
    assert(column.standable(z) ==> {
        &&& column.block(z + 0) matches Some(b) ==> !b.solid
        &&& column.block(z + 1) matches Some(b) ==> !b.solid
        &&& column.block(z + 2) matches Some(b) ==> !b.solid
    });
}

/// Where one can stand at any height of the range at all, one can stand at the spawn
/// height, and it is no higher than that one.
pub proof fn spawn_height_is_standable_and_lowest(
    column: Column,
    min_z: int,
    max_z: int,
    z: int,
    h: int,
)
    requires
        column.is_spawn_height(min_z, max_z, z),
        min_z <= h < max_z,
        ({
            &&& column.bottom <= h - 1 < column.bottom + column.blocks@.len()
            &&& column.blocks@[h - 1 - column.bottom] matches Some(ground)
            &&& ground.filled
            &&& column.bottom <= h < column.bottom + column.blocks@.len() ==> (
            column.blocks@[h - column.bottom] matches Some(b) ==> !b.solid)
            &&& column.bottom <= h + 1 < column.bottom + column.blocks@.len() ==> (
            column.blocks@[h + 1 - column.bottom] matches Some(b) ==> !b.solid)
            &&& column.bottom <= h + 2 < column.bottom + column.blocks@.len() ==> (
            column.blocks@[h + 2 - column.bottom] matches Some(b) ==> !b.solid)
        }),
    ensures
        min_z <= z <= h,
        ({
            &&& column.bottom <= z - 1 < column.bottom + column.blocks@.len()
            &&& column.blocks@[z - 1 - column.bottom] matches Some(ground)
            &&& ground.filled
            &&& column.bottom <= z < column.bottom + column.blocks@.len() ==> (
            column.blocks@[z - column.bottom] matches Some(b) ==> !b.solid)
            &&& column.bottom <= z + 1 < column.bottom + column.blocks@.len() ==> (
            column.blocks@[z + 1 - column.bottom] matches Some(b) ==> !b.solid)
            &&& column.bottom <= z + 2 < column.bottom + column.blocks@.len() ==> (
            column.blocks@[z + 2 - column.bottom] matches Some(b) ==> !b.solid)
        }),
{
    standing_takes_ground_and_room(column, h);
    standing_takes_ground_and_room(column, z);
    if h < z {
        assert(!column.standable(h));
    }
}

/// The spawn height lies in the range and can be stood at, or is the bottom of the
/// range.
pub proof fn spawn_height_is_standable_or_the_bottom(
    column: Column,
    min_z: int,
    max_z: int,
    z: int,
)
    requires
        column.is_spawn_height(min_z, max_z, z),
        z != min_z,
    ensures
        min_z <= z < max_z,
        ({
            &&& column.bottom <= z - 1 < column.bottom + column.blocks@.len()
            &&& column.blocks@[z - 1 - column.bottom] matches Some(ground)
            &&& ground.filled
            &&& column.bottom <= z < column.bottom + column.blocks@.len() ==> (
            column.blocks@[z - column.bottom] matches Some(b) ==> !b.solid)
            &&& column.bottom <= z + 1 < column.bottom + column.blocks@.len() ==> (
            column.blocks@[z + 1 - column.bottom] matches Some(b) ==> !b.solid)
            &&& column.bottom <= z + 2 < column.bottom + column.blocks@.len() ==> (
            column.blocks@[z + 2 - column.bottom] matches Some(b) ==> !b.solid)
        }),
{
    standing_takes_ground_and_room(column, z);
}

/// The spawn chunk is that of a settlement, of which none is nearer to the middle of
/// the world, and none that is as near comes before it. From the middle it is
/// `dx` and `dy` to the spawn chunk, and `ex` and `ey` to settlement `j`.
pub proof fn towns_are_chosen_by_distance(
    map_size: MapSize,
    sites: Seq<Site>,
    chunk: Vec2i,
    j: int,
    dx: int,
    dy: int,
    ex: int,
    ey: int,
)
    requires
        is_spawn_chunk(map_size, sites, chunk),
        0 <= j < sites.len(),
        sites[j].kind is Settlement,
        dx == chunk.x - map_size.x as int / 2,
        dy == chunk.y - map_size.y as int / 2,
        ex == sites[j].center.x - map_size.x as int / 2,
        ey == sites[j].center.y - map_size.y as int / 2,
    ensures
        dx * dx + dy * dy <= ex * ex + ey * ey,
        exists|i: int|
            0 <= i < sites.len() && (#[trigger] sites[i]).kind is Settlement && sites[i].center
                == chunk && (dx * dx + dy * dy == ex * ex + ey * ey ==> i <= j),
{
    let center = middle_chunk(map_size);
    let i = choose|i: int| #[trigger] is_first_nearest(sites, center, i) && chunk == sites[i].center;
    assert(sites[i].kind is Settlement);
    assert(squared_distance(sites[i].center, center) == dx * dx + dy * dy);
    assert(squared_distance(sites[j].center, center) == ex * ex + ey * ey);
}

/// Without a settlement players spawn in the middle of the world.
pub proof fn without_towns_the_middle_is_chosen(
    map_size: MapSize,
    sites: Seq<Site>,
    chunk: Vec2i,
)
    requires
        is_spawn_chunk(map_size, sites, chunk),
        forall|i: int| 0 <= i < sites.len() ==> !((#[trigger] sites[i]).kind is Settlement),
    ensures
        chunk.x == map_size.x as int / 2,
        chunk.y == map_size.y as int / 2,
{
}

/// The spawn point lies in the middle column of the spawn chunk, at the spawn height
/// of the surveyed column, and players enter in the middle of its block. A world that
/// was not generated has them enter at a corner, high above the origin.
pub proof fn spawn_points_lie_in_the_middle_column(
    survey: Option<SpawnSurvey>,
    point: SpawnPoint,
    chunk: Vec2i,
)
    requires
        survey matches Some(s) ==> s.fits() && is_spawn_chunk(s.map_size, s.sites@, chunk),
        is_spawn_point(survey, point),
    ensures
        survey matches Some(s) ==> {
            &&& point.block.x == chunk.x * s.rect_size.x + s.rect_size.x as int / 2
            &&& point.block.y == chunk.y * s.rect_size.y + s.rect_size.y as int / 2
            &&& s.column.is_spawn_height(s.min_z as int, s.max_z as int, point.block.z as int)
            &&& point.centred
        },
        survey is None ==> {
            &&& point.block.x == 0
            &&& point.block.y == 0
            &&& point.block.z == 256
            &&& !point.centred
        },
{
    if let Some(s) = survey {
        let other = choose|other: Vec2i|
            {
                &&& #[trigger] is_spawn_chunk(s.map_size, s.sites@, other)
                &&& point.block.x == middle_column(other, s.rect_size).x
                &&& point.block.y == middle_column(other, s.rect_size).y
            };
        spawn_chunk_is_unique(s.map_size, s.sites@, other, chunk);
    }
}

/// The middle column of a chunk is half a side away from its lower corner.
pub proof fn middle_columns_lie_half_a_side_in(chunk: Vec2i, size: Vec2u)
    requires
        columns_fit(chunk, size),
    ensures
        middle_column(chunk, size).x == chunk.x * size.x + size.x as int / 2,
        middle_column(chunk, size).y == chunk.y * size.y + size.y as int / 2,
{
}

/// The numbers met while the spawn point is chosen fit just where each of them is a
/// value of an `i32`.
pub proof fn spawn_limits_are_those_of_the_numbers(
    chunk: Vec2i,
    size: Vec2u,
    min_z: i32,
    max_z: i32,
    map_size: MapSize,
    sites: Seq<Site>,
)
    ensures
        columns_fit(chunk, size) <==> {
            &&& i32::MIN <= chunk.x * size.x <= i32::MAX
            &&& i32::MIN <= chunk.y * size.y <= i32::MAX
            &&& i32::MIN <= chunk.x * size.x + size.x as int / 2 <= i32::MAX
            &&& i32::MIN <= chunk.y * size.y + size.y as int / 2 <= i32::MAX
        },
        heights_fit(min_z, max_z) <==> {
            &&& i32::MIN <= max_z - min_z <= i32::MAX
            &&& min_z < max_z ==> i32::MIN <= min_z - 1 && max_z - 1 + 2 <= i32::MAX
        },
        distances_fit(map_size, sites) <==> forall|i: int|
            0 <= i < sites.len() && (#[trigger] sites[i]).kind is Settlement ==> distance_fits(
                sites[i].center,
                Vec2i { x: (map_size.x / 2) as i32, y: (map_size.y / 2) as i32 },
            ),
{
}

/// A survey can be used just where all the numbers that it leads to fit.
pub proof fn surveys_fit_where_their_numbers_do(s: SpawnSurvey, chunk: Vec2i)
    requires
        is_spawn_chunk(s.map_size, s.sites@, chunk),
    ensures
        s.fits() <==> {
            &&& s.rect_size.is_chunk_size()
            &&& distances_fit(s.map_size, s.sites@)
            &&& columns_fit(chunk, s.rect_size)
            &&& heights_fit(s.min_z, s.max_z)
        },
{
    assert forall|other: Vec2i|
        #[trigger] is_spawn_chunk(s.map_size, s.sites@, other) implies other == chunk by {
        spawn_chunk_is_unique(s.map_size, s.sites@, other, chunk);
    }
}

} // verus!
