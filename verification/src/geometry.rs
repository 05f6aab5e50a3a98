//! Integer vectors, and the arithmetic of a world cut into equal chunks.

use vstd::prelude::*;

verus! {

/// A point or an extent in the plane.
#[derive(Clone, Copy, Debug, PartialEq, Eq, Structural)]
pub struct Vec2i {
    pub x: i32,
    pub y: i32,
}

/// A point or an extent in space.
#[derive(Clone, Copy, Debug, PartialEq, Eq, Structural)]
pub struct Vec3i {
    pub x: i32,
    pub y: i32,
    pub z: i32,
}

/// The sides of a rectangle of columns.
#[derive(Clone, Copy, Debug, PartialEq, Eq, Structural)]
pub struct Vec2u {
    pub x: u32,
    pub y: u32,
}

/// The sides of a box of voxels.
#[derive(Clone, Copy, Debug, PartialEq, Eq, Structural)]
pub struct Vec3u {
    pub x: u32,
    pub y: u32,
    pub z: u32,
}

/// The corners of a box of voxels: `min` belongs to it, `max` does not.
#[derive(Clone, Copy, Debug, PartialEq, Eq, Structural)]
pub struct Aabb {
    pub min: Vec3i,
    pub max: Vec3i,
}

impl Vec2u {
    /// A chunk of these sides has columns, and its coordinates fit in an `i32`.
    pub open spec fn is_chunk_size(self) -> bool {
        &&& 0 < self.x <= i32::MAX
        &&& 0 < self.y <= i32::MAX
    }

    /// Whether a chunk of these sides has columns, and coordinates that fit in an
    /// `i32`.
    pub fn has_chunk_sides(&self) -> (r: bool)
        ensures
            r == self.is_chunk_size(),
    {
        0 < self.x && self.x <= 0x7fff_ffff && 0 < self.y && self.y <= 0x7fff_ffff
    }
}

impl Vec3u {
    /// A chunk of these sides has voxels, and its coordinates fit in an `i32`.
    pub open spec fn is_chunk_size(self) -> bool {
        &&& 0 < self.x <= i32::MAX
        &&& 0 < self.y <= i32::MAX
        &&& 0 < self.z <= i32::MAX
    }

    /// Whether a chunk of these sides has voxels, and coordinates that fit in an
    /// `i32`.
    pub fn has_chunk_sides(&self) -> (r: bool)
        ensures
            r == self.is_chunk_size(),
    {
        0 < self.x && self.x <= 0x7fff_ffff && 0 < self.y && self.y <= 0x7fff_ffff && 0 < self.z
            && self.z <= 0x7fff_ffff
    }

    /// How many voxels a box of these sides holds.
    pub open spec fn volume(self) -> int {
        self.x * self.y * self.z
    }
}

/// `n` is the value of some `i32`.
pub open spec fn fits_i32(n: int) -> bool {
    i32::MIN <= n <= i32::MAX
}

/// The square of the distance between two points.
pub open spec fn squared_distance(a: Vec2i, b: Vec2i) -> int {
    (a.x - b.x) * (a.x - b.x) + (a.y - b.y) * (a.y - b.y)
}

/// Every number met on the way to [`squared_distance`] fits in an `i32`.
pub open spec fn distance_fits(a: Vec2i, b: Vec2i) -> bool {
    &&& fits_i32(a.x - b.x)
    &&& fits_i32(a.y - b.y)
    &&& fits_i32((a.x - b.x) * (a.x - b.x))
    &&& fits_i32((a.y - b.y) * (a.y - b.y))
    &&& fits_i32(squared_distance(a, b))
}

/// The square of the difference of two numbers, where it can be computed.
fn square_of_difference(a: i32, b: i32) -> (square: Option<i32>)
    ensures
        match square {
            Some(s) => fits_i32(a - b) && s == (a - b) * (a - b),
            None => !fits_i32(a - b) || !fits_i32((a - b) * (a - b)),
        },
{
    match a.checked_sub(b) {
        Some(d) => d.checked_mul(d),
        None => None,
    }
}

/// Whether the square of the distance between two points can be computed.
pub fn can_measure(a: Vec2i, b: Vec2i) -> (r: bool)
    ensures
        r == distance_fits(a, b),
{
    match (square_of_difference(a.x, b.x), square_of_difference(a.y, b.y)) {
        (Some(x), Some(y)) => x.checked_add(y).is_some(),
        _ => false,
    }
}

/// Calls `vek::Vec2::distance_squared` on the two points. It subtracts the
/// points side by side, squares the differences and adds the squares, all in
/// `i32`: the contract claims that sum, where none of these steps overflows.
#[verifier::external_body]
pub(crate) fn distance_squared(a: Vec2i, b: Vec2i) -> (d: i32)
    requires
        distance_fits(a, b),
    ensures
        d == squared_distance(a, b),
{
    vek::Vec2::new(a.x, a.y).distance_squared(vek::Vec2::new(b.x, b.y))
}

/// Which cell of length `side` holds the coordinate `e`.
pub open spec fn cell(e: int, side: int) -> int {
    e / side
}

/// How far into its cell of length `side` the coordinate `e` lies.
pub open spec fn cell_offset(e: int, side: int) -> int {
    e % side
}

/// The key of the chunk, of sides `size`, that holds the column `pos`.
pub open spec fn column_key(pos: Vec2i, size: Vec2u) -> Vec2i {
    Vec2i { x: cell(pos.x as int, size.x as int) as i32, y: cell(pos.y as int, size.y as int) as i32 }
}

/// Where in its chunk, of sides `size`, the column `pos` lies.
pub open spec fn column_offset(pos: Vec2i, size: Vec2u) -> Vec2i {
    Vec2i {
        x: cell_offset(pos.x as int, size.x as int) as i32,
        y: cell_offset(pos.y as int, size.y as int) as i32,
    }
}

/// The key of the chunk, of sides `size`, that holds the voxel `pos`.
pub open spec fn voxel_key(pos: Vec3i, size: Vec3u) -> Vec3i {
    Vec3i {
        x: cell(pos.x as int, size.x as int) as i32,
        y: cell(pos.y as int, size.y as int) as i32,
        z: cell(pos.z as int, size.z as int) as i32,
    }
}

/// Where in its chunk, of sides `size`, the voxel `pos` lies.
pub open spec fn voxel_offset(pos: Vec3i, size: Vec3u) -> Vec3i {
    Vec3i {
        x: cell_offset(pos.x as int, size.x as int) as i32,
        y: cell_offset(pos.y as int, size.y as int) as i32,
        z: cell_offset(pos.z as int, size.z as int) as i32,
    }
}

/// A coordinate is the start of its cell plus its offset, the offset lies in
/// the cell, and neither the cell nor the offset leaves the range of `i32`.
pub proof fn cell_and_offset(e: int, side: int)
    requires
        fits_i32(e),
        0 < side <= i32::MAX,
    ensures
        e == cell(e, side) * side + cell_offset(e, side),
        0 <= cell_offset(e, side) < side,
        fits_i32(cell(e, side)),
        fits_i32(cell_offset(e, side)),
{
    vstd::arithmetic::div_mod::lemma_fundamental_div_mod(e, side);
    vstd::arithmetic::div_mod::lemma_mod_bound(e, side);
    assert(side * (e / side) == (e / side) * side) by (nonlinear_arith);
    let q = e / side;
    let r = e % side;
    assert(i32::MIN <= q <= i32::MAX) by (nonlinear_arith)
        requires
            e == side * q + r,
            0 <= r < side,
            0 < side,
            i32::MIN <= e <= i32::MAX,
    ;
}

/// A coordinate lies in one cell only, and in one place of it.
pub proof fn cell_is_unique(e: int, side: int, c: int, o: int)
    requires
        e == c * side + o,
        0 <= o < side,
    ensures
        cell(e, side) == c,
        cell_offset(e, side) == o,
{
    vstd::arithmetic::div_mod::lemma_fundamental_div_mod_converse(e, side, c, o);
}

/// The key of its chunk and its offset in it give the position of a voxel back,
/// and the offset lies within the chunk.
pub proof fn voxel_key_and_offset(pos: Vec3i, size: Vec3u)
    requires
        size.is_chunk_size(),
    ensures
        pos.x == voxel_key(pos, size).x * size.x + voxel_offset(pos, size).x,
        pos.y == voxel_key(pos, size).y * size.y + voxel_offset(pos, size).y,
        pos.z == voxel_key(pos, size).z * size.z + voxel_offset(pos, size).z,
        0 <= voxel_offset(pos, size).x < size.x,
        0 <= voxel_offset(pos, size).y < size.y,
        0 <= voxel_offset(pos, size).z < size.z,
{
    cell_and_offset(pos.x as int, size.x as int);
    cell_and_offset(pos.y as int, size.y as int);
    cell_and_offset(pos.z as int, size.z as int);
}

/// The key of its chunk and its offset in it give the position of a column back,
/// and the offset lies within the chunk.
pub proof fn column_key_and_offset(pos: Vec2i, size: Vec2u)
    requires
        size.is_chunk_size(),
    ensures
        pos.x == column_key(pos, size).x * size.x + column_offset(pos, size).x,
        pos.y == column_key(pos, size).y * size.y + column_offset(pos, size).y,
        0 <= column_offset(pos, size).x < size.x,
        0 <= column_offset(pos, size).y < size.y,
{
    cell_and_offset(pos.x as int, size.x as int);
    cell_and_offset(pos.y as int, size.y as int);
}

/// Which cell of length `side` holds the coordinate `e`.
pub fn cell_of(e: i32, side: u32) -> (c: i32)
    requires
        0 < side <= i32::MAX,
    ensures
        c == cell(e as int, side as int),
{
    proof {
        cell_and_offset(e as int, side as int);
    }
    e.checked_div_euclid(side as i32).unwrap()
}

/// How far into its cell of length `side` the coordinate `e` lies.
pub fn offset_in_cell(e: i32, side: u32) -> (o: i32)
    requires
        0 < side <= i32::MAX,
    ensures
        o == cell_offset(e as int, side as int),
{
    proof {
        cell_and_offset(e as int, side as int);
    }
    e.checked_rem_euclid(side as i32).unwrap()
}

/// The place in its chunk of the column `pos`.
pub fn chunk_relative(pos: Vec2i, size: Vec2u) -> (o: Vec2i)
    requires
        size.is_chunk_size(),
    ensures
        o == column_offset(pos, size),
{
    Vec2i { x: offset_in_cell(pos.x, size.x), y: offset_in_cell(pos.y, size.y) }
}

/// A chunk needs at least one place along each side, and no more than an `i32` can
/// count.
pub proof fn chunk_sides_are_positive_and_countable(flat: Vec2u, solid: Vec3u)
    ensures
        flat.is_chunk_size() <==> {
            &&& 1 <= flat.x <= 0x7fff_ffff
            &&& 1 <= flat.y <= 0x7fff_ffff
        },
        solid.is_chunk_size() <==> {
            &&& 1 <= solid.x <= 0x7fff_ffff
            &&& 1 <= solid.y <= 0x7fff_ffff
            &&& 1 <= solid.z <= 0x7fff_ffff
        },
        solid.volume() == solid.x * solid.y * solid.z,
{
}

/// Distance is that of the plane: the same both ways, none just between a point and
/// itself, along an axis the difference, and across both by the theorem of
/// Pythagoras over the corner at which one axis is left for the other.
pub proof fn distance_is_that_of_the_plane(a: Vec2i, b: Vec2i)
    ensures
        squared_distance(a, b) == squared_distance(b, a),
        squared_distance(a, b) == 0 <==> a == b,
        a.y == b.y ==> squared_distance(a, b) == (a.x - b.x) * (a.x - b.x),
        a.x == b.x ==> squared_distance(a, b) == (a.y - b.y) * (a.y - b.y),
        squared_distance(a, b) == squared_distance(a, Vec2i { x: b.x, y: a.y })
            + squared_distance(Vec2i { x: b.x, y: a.y }, b),
{
    let dx = a.x - b.x;
    let dy = a.y - b.y;
    assert(dx * dx == (-dx) * (-dx)) by (nonlinear_arith);
    assert(dy * dy == (-dy) * (-dy)) by (nonlinear_arith);
    assert(dx * dx >= 0 && (dx * dx == 0 <==> dx == 0)) by (nonlinear_arith);
    assert(dy * dy >= 0 && (dy * dy == 0 <==> dy == 0)) by (nonlinear_arith);
    assert(0int * 0int == 0);
}

/// A distance can be computed just where both differences, their squares and the
/// sum of the squares are values of an `i32`.
pub proof fn distances_fit_where_every_step_does(a: Vec2i, b: Vec2i, dx: int, dy: int)
    requires
        dx == a.x - b.x,
        dy == a.y - b.y,
    ensures
        distance_fits(a, b) <==> {
            &&& i32::MIN <= dx <= i32::MAX
            &&& i32::MIN <= dy <= i32::MAX
            &&& i32::MIN <= dx * dx <= i32::MAX
            &&& i32::MIN <= dy * dy <= i32::MAX
            &&& i32::MIN <= dx * dx + dy * dy <= i32::MAX
        },
{
}

} // verus!
