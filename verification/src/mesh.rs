//! Which voxels of a volume are turned into geometry, where, and in what colour.

use crate::geometry::{
    cell_is_unique, cell_of, fits_i32, offset_in_cell, voxel_key, voxel_offset, Aabb, Vec3i,
    Vec3u,
};
use vstd::prelude::*;

verus! {

/// A colour of 256 steps a channel.
#[derive(Clone, Copy, Debug, PartialEq, Eq, Structural)]
pub struct Rgb {
    pub r: u8,
    pub g: u8,
    pub b: u8,
}

/// A voxel of terrain. Air and the like have no colour.
#[derive(Clone, Copy, Debug, PartialEq, Eq, Structural)]
pub struct Block {
    pub color: Option<Rgb>,
}

impl Block {
    /// The colour of the block, if it has one.
    pub fn get_color(&self) -> (color: Option<Rgb>)
        ensures
            color == self.color,
    {
        self.color
    }
}

/// A voxel that gets faces: where it lies in the volume it was read from, where
/// it lies in the mesh (one voxel further than its vertices are placed), and
/// its colour.
#[derive(Clone, Copy, Debug, PartialEq, Eq, Structural)]
pub struct MeshVoxel {
    pub pos: Vec3i,
    pub local: Vec3i,
    pub col: Rgb,
}

/// A box of voxels with one corner at the origin.
#[derive(Debug)]
pub struct Dyna {
    pub size: Vec3u,
    pub blocks: Vec<Block>,
}

/// Where in a box of sides `size` the voxel `pos` is stored.
pub open spec fn block_index(size: Vec3u, pos: Vec3i) -> int {
    (pos.x * size.y + pos.y) * size.z + pos.z
}

/// `pos` lies in the box of sides `size` at the origin.
pub open spec fn in_box(size: Vec3u, pos: Vec3i) -> bool {
    &&& 0 <= pos.x < size.x
    &&& 0 <= pos.y < size.y
    &&& 0 <= pos.z < size.z
}

/// `pos` lies in the box of sides `size` at the origin, and does not touch its
/// surface.
pub open spec fn in_interior(size: Vec3u, pos: Vec3i) -> bool {
    &&& 1 <= pos.x < size.x - 1
    &&& 1 <= pos.y < size.y - 1
    &&& 1 <= pos.z < size.z - 1
}

proof fn block_index_in_range(size: Vec3u, pos: Vec3i)
    requires
        in_box(size, pos),
    ensures
        0 <= pos.x * size.y,
        0 <= pos.x * size.y + pos.y < size.x * size.y,
        0 <= (pos.x * size.y + pos.y) * size.z,
        0 <= block_index(size, pos) < size.volume(),
{
    let row = pos.x * size.y + pos.y;
    assert(0 <= pos.x * size.y && pos.x * size.y + size.y <= size.x * size.y) by (nonlinear_arith)
        requires
            0 <= pos.x < size.x,
    ;
    assert(0 <= row * size.z && row * size.z + size.z <= (size.x * size.y) * size.z)
        by (nonlinear_arith)
        requires
            0 <= row < size.x * size.y,
    ;
}

impl Dyna {
    /// The box holds one block for each of its places, and its coordinates fit
    /// in an `i32`.
    pub open spec fn wf(self) -> bool {
        &&& self.size.x <= i32::MAX
        &&& self.size.y <= i32::MAX
        &&& self.size.z <= i32::MAX
        &&& self.blocks@.len() == self.size.volume()
    }

    /// The block at `pos`; none outside the box.
    pub open spec fn block(self, pos: Vec3i) -> Option<Block> {
        if in_box(self.size, pos) {
            Some(self.blocks@[block_index(self.size, pos)])
        } else {
            None
        }
    }

    /// The colour of the block at `pos`; none outside the box.
    pub open spec fn color(self, pos: Vec3i) -> Option<Rgb> {
        match self.block(pos) {
            Some(block) => block.color,
            None => None,
        }
    }

    /// What the voxel at `pos` adds to the mesh of this box: itself where it is
    /// coloured and does not touch the surface, nothing otherwise.
    pub open spec fn contribution(self, pos: Vec3i) -> Seq<MeshVoxel> {
        match self.color(pos) {
            Some(col) => if in_interior(self.size, pos) {
                seq![MeshVoxel { pos, local: pos, col }]
            } else {
                Seq::empty()
            },
            None => Seq::empty(),
        }
    }

    /// The mesh of this box, its voxels taken in the order of `positions`.
    pub open spec fn mesh(self, positions: Seq<Vec3i>) -> Seq<MeshVoxel>
        decreases positions.len(),
    {
        if positions.len() == 0 {
            Seq::empty()
        } else {
            self.mesh(positions.drop_last()) + self.contribution(positions.last())
        }
    }

    /// A box of sides `size`. The blocks come by `x`, then by `y`, then by `z`.
    pub fn new(size: Vec3u, blocks: Vec<Block>) -> (vol: Dyna)
        requires
            size.x <= i32::MAX,
            size.y <= i32::MAX,
            size.z <= i32::MAX,
            blocks@.len() == size.volume(),
        ensures
            vol.wf(),
            vol.size == size,
            vol.blocks@ == blocks@,
    {
        Dyna { size, blocks }
    }

    /// Whether the box holds one block for each of its places, and its coordinates
    /// fit in an `i32`.
    pub fn is_well_formed(&self) -> (r: bool)
        ensures
            r == self.wf(),
    {
        let size = self.size;
        if size.x > 0x7fff_ffff || size.y > 0x7fff_ffff || size.z > 0x7fff_ffff {
            return false;
        }
        proof {
            let area = size.x * size.y;
            assert(0 <= area <= 0x7fff_ffff * 0x7fff_ffff) by (nonlinear_arith)
                requires
                    area == size.x * size.y,
                    size.x <= 0x7fff_ffff,
                    size.y <= 0x7fff_ffff,
            ;
            assert(0 <= area * size.z <= 0x7fff_ffff * 0x7fff_ffff * 0x7fff_ffff)
                by (nonlinear_arith)
                requires
                    0 <= area <= 0x7fff_ffff * 0x7fff_ffff,
                    size.z <= 0x7fff_ffff,
            ;
        }
        let volume: u128 = size.x as u128 * size.y as u128 * size.z as u128;
        self.blocks.len() as u128 == volume
    }

    /// The sides of the box.
    pub fn get_size(&self) -> (size: Vec3u)
        ensures
            size == self.size,
    {
        self.size
    }

    /// The block at `pos`; none outside the box.
    pub fn get(&self, pos: Vec3i) -> (block: Option<Block>)
        requires
            self.wf(),
        ensures
            block == self.block(pos),
    {
        let size = self.size;
        if pos.x < 0 || pos.y < 0 || pos.z < 0 {
            return None;
        }
        if pos.x as u32 >= size.x || pos.y as u32 >= size.y || pos.z as u32 >= size.z {
            return None;
        }
        let ghost len = self.blocks.len();
        proof {
            block_index_in_range(size, pos);
            let row = pos.x * size.y + pos.y;
            assert(block_index(size, pos) < len);
            assert(row <= row * size.z) by (nonlinear_arith)
                requires
                    0 <= row,
                    0 < size.z,
            ;
        }
        let row: usize = pos.x as usize * size.y as usize + pos.y as usize;
        Some(self.blocks[row * size.z as usize + pos.z as usize])
    }

    /// The voxels of this box that get faces. `positions` are the positions of
    /// the box in the order in which they are walked.
    pub fn generate_mesh(&self, positions: &Vec<Vec3i>) -> (mesh: Vec<MeshVoxel>)
        requires
            self.wf(),
        ensures
            mesh@ == self.mesh(positions@),
    {
        let mut mesh: Vec<MeshVoxel> = Vec::new();
        let size = self.get_size();
        let mut i: usize = 0;
        while i < positions.len()
            invariant
                self.wf(),
                size == self.size,
                i <= positions@.len(),
                mesh@ == self.mesh(positions@.take(i as int)),
            decreases positions@.len() - i,
        {
            let pos = positions[i];
            proof {
                let next = positions@.take(i + 1);
                assert(next.drop_last() =~= positions@.take(i as int));
                assert(next.last() == pos);
            }
            let off_low_faces = pos.x >= 1 && pos.y >= 1 && pos.z >= 1;
            let off_high_faces = pos.x < size.x as i32 - 1 && pos.y < size.y as i32 - 1 && pos.z
                < size.z as i32 - 1;
            if off_low_faces && off_high_faces {
                if let Some(block) = self.get(pos) {
                    if let Some(col) = block.get_color() {
                        mesh.push(MeshVoxel { pos, local: pos, col });
                    }
                }
            }
            i = i + 1;
        }
        assert(positions@.take(positions@.len() as int) =~= positions@);
        mesh
    }
}

/// What is meshed of a box is what its positions name: a voxel is in the mesh
/// just when its position is walked, lies off the surface and is coloured. Each
/// lies in the mesh where it lies in the box.
pub proof fn dyna_mesh_members(vol: Dyna, positions: Seq<Vec3i>, v: MeshVoxel)
    ensures
        vol.mesh(positions).contains(v) <==> {
            &&& positions.contains(v.pos)
            &&& in_interior(vol.size, v.pos)
            &&& vol.color(v.pos) == Some(v.col)
            &&& v.local == v.pos
        },
    decreases positions.len(),
{
    if positions.len() > 0 {
        let rest = positions.drop_last();
        let last = positions.last();
        dyna_mesh_members(vol, rest, v);
        let head = vol.mesh(rest);
        let tail = vol.contribution(last);
        lemma_contains_concat(head, tail, v);
        assert(positions =~= rest.push(last));
        assert(positions.contains(v.pos) <==> rest.contains(v.pos) || v.pos == last) by {
            if rest.contains(v.pos) {
                let i = rest.index_of(v.pos);
                assert(positions[i] == v.pos);
            }
            if v.pos == last {
                assert(positions[positions.len() - 1] == v.pos);
            }
            if positions.contains(v.pos) && v.pos != last {
                let i = positions.index_of(v.pos);
                assert(rest[i] == v.pos);
            }
        }
        if v.pos == last && vol.color(last) == Some(v.col) && in_interior(vol.size, last) && v.local
            == last {
            assert(tail[0] == v);
        }
    }
}

/// A box that is walked in two goes gives the two meshes, one after the other.
pub proof fn dyna_mesh_concat(vol: Dyna, first: Seq<Vec3i>, second: Seq<Vec3i>)
    ensures
        vol.mesh(first + second) == vol.mesh(first) + vol.mesh(second),
    decreases second.len(),
{
    if second.len() == 0 {
        assert(first + second =~= first);
    } else {
        dyna_mesh_concat(vol, first, second.drop_last());
        assert((first + second).drop_last() =~= first + second.drop_last());
        assert((first + second).last() == second.last());
    }
}

proof fn lemma_contains_concat(a: Seq<MeshVoxel>, b: Seq<MeshVoxel>, v: MeshVoxel)
    ensures
        (a + b).contains(v) <==> a.contains(v) || b.contains(v),
{
    if a.contains(v) {
        let i = a.index_of(v);
        assert((a + b)[i] == v);
    }
    if b.contains(v) {
        let i = b.index_of(v);
        assert((a + b)[a.len() + i] == v);
    }
    if (a + b).contains(v) {
        let i = (a + b).index_of(v);
        if i < a.len() {
            assert(a[i] == v);
        } else {
            assert(b[i - a.len()] == v);
        }
    }
}

/// A world of voxels, loaded chunk by chunk.
#[derive(Debug)]
pub struct VolMap {
    pub chunk_size: Vec3u,
    pub chunks: Vec<(Vec3i, Dyna)>,
}

/// The chunk stored under `key`, if there is one.
pub open spec fn find_chunk(chunks: Seq<(Vec3i, Dyna)>, key: Vec3i) -> Option<Dyna>
    decreases chunks.len(),
{
    if chunks.len() == 0 {
        None
    } else if chunks[0].0 == key {
        Some(chunks[0].1)
    } else {
        find_chunk(chunks.drop_first(), key)
    }
}

/// The sum of two positions.
pub open spec fn offset_by(a: Vec3i, b: Vec3i) -> Vec3i {
    Vec3i { x: (a.x + b.x) as i32, y: (a.y + b.y) as i32, z: (a.z + b.z) as i32 }
}

/// The length of the range from 0 to `e`.
pub open spec fn extent(e: int) -> nat {
    if e > 0 {
        e as nat
    } else {
        0
    }
}

/// The sides of a range can be computed.
pub open spec fn sides_fit(range: Aabb) -> bool {
    &&& fits_i32(range.max.x - range.min.x)
    &&& fits_i32(range.max.y - range.min.y)
    &&& fits_i32(range.max.z - range.min.z)
}

/// Whether the sides of a range can be computed.
pub fn has_sides(range: Aabb) -> (r: bool)
    ensures
        r == sides_fit(range),
{
    range.max.x.checked_sub(range.min.x).is_some() && range.max.y.checked_sub(
        range.min.y,
    ).is_some() && range.max.z.checked_sub(range.min.z).is_some()
}

/// `local` lies in the range, counted from its lower corner.
pub open spec fn in_range(range: Aabb, local: Vec3i) -> bool {
    &&& 0 <= local.x < range.max.x - range.min.x
    &&& 0 <= local.y < range.max.y - range.min.y
    &&& 0 <= local.z < range.max.z - range.min.z
}

/// `a` comes before `b` by `x`, then by `y`, then by `z`.
pub open spec fn comes_before(a: Vec3i, b: Vec3i) -> bool {
    ||| a.x < b.x
    ||| a.x == b.x && a.y < b.y
    ||| a.x == b.x && a.y == b.y && a.z < b.z
}

impl VolMap {
    /// The chunks have sides, each chunk has the blocks that its own sides ask
    /// for, and no key is used twice.
    pub open spec fn wf(self) -> bool {
        &&& self.chunk_size.is_chunk_size()
        &&& forall|i: int| 0 <= i < self.chunks@.len() ==> (#[trigger] self.chunks@[i]).1.wf()
        &&& forall|i: int, j: int|
            0 <= i < j < self.chunks@.len() ==> (#[trigger] self.chunks@[i]).0 != (
            #[trigger] self.chunks@[j]).0
    }

    /// The chunk stored under `key`, if it is loaded.
    pub open spec fn chunk(self, key: Vec3i) -> Option<Dyna> {
        find_chunk(self.chunks@, key)
    }

    /// The block at `pos`; none where its chunk is not loaded or does not reach
    /// that far.
    pub open spec fn block(self, pos: Vec3i) -> Option<Block> {
        match self.chunk(voxel_key(pos, self.chunk_size)) {
            Some(chunk) => chunk.block(voxel_offset(pos, self.chunk_size)),
            None => None,
        }
    }

    /// The colour of the block at `pos`, if there is one.
    pub open spec fn color(self, pos: Vec3i) -> Option<Rgb> {
        match self.block(pos) {
            Some(block) => block.color,
            None => None,
        }
    }

    /// What the voxel at `local`, counted from `min`, adds to a mesh: itself
    /// where it is coloured, nothing otherwise.
    pub open spec fn contribution(self, min: Vec3i, local: Vec3i) -> Seq<MeshVoxel> {
        let pos = offset_by(min, local);
        match self.color(pos) {
            Some(col) => seq![MeshVoxel { pos, local, col }],
            None => Seq::empty(),
        }
    }

    /// The first `z` voxels of one row along `z`.
    pub open spec fn row_mesh(self, min: Vec3i, x: int, y: int, z: nat) -> Seq<MeshVoxel>
        decreases z,
    {
        if z == 0 {
            Seq::empty()
        } else {
            self.row_mesh(min, x, y, (z - 1) as nat) + self.contribution(
                min,
                Vec3i { x: x as i32, y: y as i32, z: (z - 1) as i32 },
            )
        }
    }

    /// The first `y` rows of one slab, each `depth` voxels long.
    pub open spec fn slab_mesh(self, min: Vec3i, x: int, y: nat, depth: nat) -> Seq<MeshVoxel>
        decreases y,
    {
        if y == 0 {
            Seq::empty()
        } else {
            self.slab_mesh(min, x, (y - 1) as nat, depth) + self.row_mesh(min, x, y - 1, depth)
        }
    }

    /// The first `x` slabs, each of `height` rows of `depth` voxels.
    pub open spec fn box_mesh(self, min: Vec3i, x: nat, height: nat, depth: nat) -> Seq<MeshVoxel>
        decreases x,
    {
        if x == 0 {
            Seq::empty()
        } else {
            self.box_mesh(min, (x - 1) as nat, height, depth) + self.slab_mesh(
                min,
                x - 1,
                height,
                depth,
            )
        }
    }

    /// The mesh of a range of the world: its coloured voxels by `x`, then by
    /// `y`, then by `z`.
    pub open spec fn mesh(self, range: Aabb) -> Seq<MeshVoxel> {
        self.box_mesh(
            range.min,
            extent(range.max.x - range.min.x),
            extent(range.max.y - range.min.y),
            extent(range.max.z - range.min.z),
        )
    }

    /// A world of chunks of the given sides, none of them loaded.
    pub fn new(chunk_size: Vec3u) -> (vol: VolMap)
        requires
            chunk_size.is_chunk_size(),
        ensures
            vol.wf(),
            vol.chunk_size == chunk_size,
            forall|key: Vec3i| vol.chunk(key) is None,
    {
        VolMap { chunk_size, chunks: Vec::new() }
    }

    /// Whether the chunks have sides, each chunk has the blocks that its own sides
    /// ask for, and no key is used twice.
    pub fn is_well_formed(&self) -> (r: bool)
        ensures
            r == self.wf(),
    {
        if !self.chunk_size.has_chunk_sides() {
            return false;
        }
        let ghost all = self.chunks@;
        let mut i: usize = 0;
        while i < self.chunks.len()
            invariant
                all == self.chunks@,
                i <= all.len(),
                forall|j: int| 0 <= j < i ==> (#[trigger] all[j]).1.wf(),
                forall|j: int, k: int|
                    0 <= j < k < i ==> (#[trigger] all[j]).0 != (#[trigger] all[k]).0,
            decreases all.len() - i,
        {
            if !self.chunks[i].1.is_well_formed() {
                assert(!all[i as int].1.wf());
                return false;
            }
            let mut j: usize = 0;
            while j < i
                invariant
                    all == self.chunks@,
                    j <= i < all.len(),
                    forall|k: int| 0 <= k < j ==> (#[trigger] all[k]).0 != all[i as int].0,
                decreases i - j,
            {
                if self.chunks[j].0 == self.chunks[i].0 {
                    assert(all[j as int].0 == all[i as int].0);
                    return false;
                }
                j = j + 1;
            }
            i = i + 1;
        }
        true
    }

    /// Stores a chunk under `key`, in place of the one that was there.
    pub fn insert(&mut self, key: Vec3i, chunk: Dyna)
        requires
            old(self).wf(),
            chunk.wf(),
        ensures
            final(self).wf(),
            final(self).chunk_size == old(self).chunk_size,
            final(self).chunk(key) == Some(chunk),
            forall|other: Vec3i| other != key ==> final(self).chunk(other) == old(self).chunk(other),
    {
        let ghost before = self.chunks@;
        let mut i: usize = 0;
        while i < self.chunks.len()
            invariant
                *self == *old(self),
                self.wf(),
                chunk.wf(),
                before == self.chunks@,
                i <= before.len(),
                forall|j: int| 0 <= j < i ==> (#[trigger] before[j]).0 != key,
            decreases before.len() - i,
        {
            if self.chunks[i].0 == key {
                self.chunks.set(i, (key, chunk));
                proof {
                    assert forall|sought: Vec3i|
                        self.chunk(sought) == if sought == key {
                            Some(chunk)
                        } else {
                            find_chunk(before, sought)
                        } by {
                        lemma_find_updated(before, i as int, key, chunk, sought);
                    }
                    assert forall|j: int, k: int| 0 <= j < k < self.chunks@.len() implies (
                    #[trigger] self.chunks@[j]).0 != (#[trigger] self.chunks@[k]).0 by {
                        assert(before[j].0 != before[k].0);
                    }
                }
                return ;
            }
            i = i + 1;
        }
        self.chunks.push((key, chunk));
        proof {
            assert forall|sought: Vec3i|
                self.chunk(sought) == if sought == key {
                    Some(chunk)
                } else {
                    find_chunk(before, sought)
                } by {
                lemma_find_pushed(before, key, chunk, sought);
            }
        }
    }

    /// The key of the chunk that holds `pos`.
    pub fn pos_key(&self, pos: Vec3i) -> (key: Vec3i)
        requires
            self.wf(),
        ensures
            key == voxel_key(pos, self.chunk_size),
    {
        let size = self.chunk_size;
        Vec3i { x: cell_of(pos.x, size.x), y: cell_of(pos.y, size.y), z: cell_of(pos.z, size.z) }
    }

    /// Where in its chunk the voxel `pos` lies.
    pub fn chunk_offs(&self, pos: Vec3i) -> (offs: Vec3i)
        requires
            self.wf(),
        ensures
            offs == voxel_offset(pos, self.chunk_size),
    {
        let size = self.chunk_size;
        Vec3i {
            x: offset_in_cell(pos.x, size.x),
            y: offset_in_cell(pos.y, size.y),
            z: offset_in_cell(pos.z, size.z),
        }
    }

    /// The chunk stored under `key`, if it is loaded.
    pub fn get_key(&self, key: Vec3i) -> (chunk: Option<&Dyna>)
        requires
            self.wf(),
        ensures
            match chunk {
                Some(c) => self.chunk(key) == Some(*c) && c.wf(),
                None => self.chunk(key) is None,
            },
    {
        let mut i: usize = 0;
        assert(self.chunks@.skip(0) =~= self.chunks@);
        while i < self.chunks.len()
            invariant
                self.wf(),
                i <= self.chunks@.len(),
                self.chunk(key) == find_chunk(self.chunks@.skip(i as int), key),
            decreases self.chunks@.len() - i,
        {
            assert(self.chunks@.skip(i as int)[0] == self.chunks@[i as int]);
            if self.chunks[i].0 == key {
                return Some(&self.chunks[i].1);
            }
            assert(self.chunks@.skip(i as int).drop_first() =~= self.chunks@.skip(i + 1));
            i = i + 1;
        }
        None
    }

    /// The block at `pos`; none where its chunk is not loaded or does not reach
    /// that far.
    pub fn get(&self, pos: Vec3i) -> (block: Option<Block>)
        requires
            self.wf(),
        ensures
            block == self.block(pos),
    {
        match self.get_key(self.pos_key(pos)) {
            Some(chunk) => chunk.get(self.chunk_offs(pos)),
            None => None,
        }
    }

    /// The voxels of a range of the world that get faces. The chunk read last is
    /// kept at hand, and looked up anew only where the walk enters another.
    pub fn generate_mesh(&self, range: Aabb) -> (mesh: Vec<MeshVoxel>)
        requires
            self.wf(),
            sides_fit(range),
        ensures
            mesh@ == self.mesh(range),
    {
        let mut mesh: Vec<MeshVoxel> = Vec::new();
        let mut last_chunk_pos = self.pos_key(range.min);
        let mut last_chunk = self.get_key(last_chunk_pos);
        let min = range.min;
        let width: i32 = range.max.x - min.x;
        let height: i32 = range.max.y - min.y;
        let depth: i32 = range.max.z - min.z;
        let ghost tall = extent(height as int);
        let ghost deep = extent(depth as int);
        let mut x: i32 = 0;
        while x < width
            invariant
                self.wf(),
                min == range.min,
                width == range.max.x - min.x,
                height == range.max.y - min.y,
                depth == range.max.z - min.z,
                tall == extent(height as int),
                deep == extent(depth as int),
                0 <= x <= extent(width as int),
                match last_chunk {
                    Some(c) => self.chunk(last_chunk_pos) == Some(*c) && c.wf(),
                    None => self.chunk(last_chunk_pos) is None,
                },
                mesh@ == self.box_mesh(min, x as nat, tall, deep),
            decreases width - x,
        {
            let ghost slabs = mesh@;
            let mut y: i32 = 0;
            while y < height
                invariant
                    self.wf(),
                    min == range.min,
                    width == range.max.x - min.x,
                    height == range.max.y - min.y,
                    depth == range.max.z - min.z,
                    tall == extent(height as int),
                    deep == extent(depth as int),
                    0 <= x < width,
                    0 <= y <= tall,
                    match last_chunk {
                        Some(c) => self.chunk(last_chunk_pos) == Some(*c) && c.wf(),
                        None => self.chunk(last_chunk_pos) is None,
                    },
                    mesh@ == slabs + self.slab_mesh(min, x as int, y as nat, deep),
                decreases height - y,
            {
                let ghost rows = mesh@;
                let mut z: i32 = 0;
                while z < depth
                    invariant
                        self.wf(),
                        min == range.min,
                        width == range.max.x - min.x,
                        height == range.max.y - min.y,
                        depth == range.max.z - min.z,
                        deep == extent(depth as int),
                        0 <= x < width,
                        0 <= y < height,
                        0 <= z <= deep,
                        match last_chunk {
                            Some(c) => self.chunk(last_chunk_pos) == Some(*c) && c.wf(),
                            None => self.chunk(last_chunk_pos) is None,
                        },
                        mesh@ == rows + self.row_mesh(min, x as int, y as int, z as nat),
                    decreases depth - z,
                {
                    let ghost before = mesh@;
                    let local = Vec3i { x, y, z };
                    let pos = Vec3i { x: min.x + x, y: min.y + y, z: min.z + z };
                    assert(pos == offset_by(min, local));
                    let new_chunk_pos = self.pos_key(pos);
                    if last_chunk_pos != new_chunk_pos {
                        last_chunk = self.get_key(new_chunk_pos);
                        last_chunk_pos = new_chunk_pos;
                    }
                    let block = match last_chunk {
                        Some(chunk) => chunk.get(self.chunk_offs(pos)),
                        None => self.get(pos),
                    };
                    assert(block == self.block(pos));
                    if let Some(block) = block {
                        if let Some(col) = block.get_color() {
                            mesh.push(MeshVoxel { pos, local, col });
                        }
                    }
                    assert(mesh@ =~= before + self.contribution(min, local));
                    z = z + 1;
                    assert(mesh@ =~= rows + self.row_mesh(min, x as int, y as int, z as nat));
                }
                y = y + 1;
                assert(mesh@ =~= slabs + self.slab_mesh(min, x as int, y as nat, deep));
            }
            x = x + 1;
        }
        mesh
    }
}

proof fn lemma_find_updated(
    chunks: Seq<(Vec3i, Dyna)>,
    i: int,
    key: Vec3i,
    chunk: Dyna,
    sought: Vec3i,
)
    requires
        0 <= i < chunks.len(),
        chunks[i].0 == key,
        forall|j: int| 0 <= j < i ==> (#[trigger] chunks[j]).0 != key,
    ensures
        find_chunk(chunks.update(i, (key, chunk)), sought) == if sought == key {
            Some(chunk)
        } else {
            find_chunk(chunks, sought)
        },
    decreases chunks.len(),
{
    let after = chunks.update(i, (key, chunk));
    let rest = chunks.drop_first();
    if i == 0 {
        assert(after.drop_first() =~= rest);
    } else {
        assert(after.drop_first() =~= rest.update(i - 1, (key, chunk)));
        assert forall|j: int| 0 <= j < i - 1 implies (#[trigger] rest[j]).0 != key by {
            assert(rest[j] == chunks[j + 1]);
        }
        lemma_find_updated(rest, i - 1, key, chunk, sought);
    }
}

proof fn lemma_find_pushed(chunks: Seq<(Vec3i, Dyna)>, key: Vec3i, chunk: Dyna, sought: Vec3i)
    requires
        forall|j: int| 0 <= j < chunks.len() ==> (#[trigger] chunks[j]).0 != key,
    ensures
        find_chunk(chunks.push((key, chunk)), sought) == if sought == key {
            Some(chunk)
        } else {
            find_chunk(chunks, sought)
        },
    decreases chunks.len(),
{
    let after = chunks.push((key, chunk));
    if chunks.len() == 0 {
        assert(after.drop_first() =~= chunks);
    } else {
        let rest = chunks.drop_first();
        assert(after.drop_first() =~= rest.push((key, chunk)));
        assert forall|j: int| 0 <= j < rest.len() implies (#[trigger] rest[j]).0 != key by {
            assert(rest[j] == chunks[j + 1]);
        }
        lemma_find_pushed(rest, key, chunk, sought);
    }
}

/// A range of the world is meshed voxel by voxel: a voxel is in the mesh just
/// when it lies in the range and the world has a colour there, whichever chunk
/// it is read from.
pub proof fn vol_map_mesh_members(vol: VolMap, range: Aabb, v: MeshVoxel)
    requires
        sides_fit(range),
    ensures
        vol.mesh(range).contains(v) <==> {
            &&& in_range(range, v.local)
            &&& v.pos == offset_by(range.min, v.local)
            &&& vol.color(v.pos) == Some(v.col)
        },
{
    lemma_box_members(
        vol,
        range.min,
        extent(range.max.x - range.min.x),
        extent(range.max.y - range.min.y),
        extent(range.max.z - range.min.z),
        v,
    );
}

/// The voxels of a mesh come by `x`, then by `y`, then by `z`; so none comes
/// twice.
pub proof fn vol_map_mesh_ordered(vol: VolMap, range: Aabb)
    requires
        sides_fit(range),
    ensures
        forall|i: int, j: int|
            0 <= i < j < vol.mesh(range).len() ==> comes_before(
                (#[trigger] vol.mesh(range)[i]).local,
                (#[trigger] vol.mesh(range)[j]).local,
            ),
        vol.mesh(range).no_duplicates(),
{
    let mesh = vol.mesh(range);
    lemma_box_ordered(
        vol,
        range.min,
        extent(range.max.x - range.min.x),
        extent(range.max.y - range.min.y),
        extent(range.max.z - range.min.z),
    );
    assert forall|i: int, j: int| 0 <= i < mesh.len() && 0 <= j < mesh.len() && i != j implies mesh[i]
        != mesh[j] by {
        if i < j {
            assert(comes_before(mesh[i].local, mesh[j].local));
        } else {
            assert(comes_before(mesh[j].local, mesh[i].local));
        }
    }
}

/// A voxel that lies `by` further along `x` in the mesh.
pub open spec fn moved_voxel(v: MeshVoxel, by: int) -> MeshVoxel {
    MeshVoxel {
        pos: v.pos,
        local: Vec3i { x: (v.local.x + by) as i32, y: v.local.y, z: v.local.z },
        col: v.col,
    }
}

/// A mesh that lies `by` further along `x`.
pub open spec fn moved(mesh: Seq<MeshVoxel>, by: int) -> Seq<MeshVoxel> {
    mesh.map_values(|v: MeshVoxel| moved_voxel(v, by))
}

/// A range that is cut along `x` gives the meshes of its two parts, one after the
/// other, the second moved to where it was cut off.
pub proof fn vol_map_mesh_splits(vol: VolMap, range: Aabb, x: i32)
    requires
        sides_fit(range),
        range.min.x <= x <= range.max.x,
    ensures
        vol.mesh(range) == vol.mesh(
            Aabb { min: range.min, max: Vec3i { x, y: range.max.y, z: range.max.z } },
        ) + moved(
            vol.mesh(Aabb { min: Vec3i { x, y: range.min.y, z: range.min.z }, max: range.max }),
            x - range.min.x,
        ),
{
    lemma_box_split(
        vol,
        range.min,
        (x - range.min.x) as nat,
        (range.max.x - x) as nat,
        extent(range.max.y - range.min.y),
        extent(range.max.z - range.min.z),
    );
}

spec fn cut_at(min: Vec3i, by: nat) -> Vec3i {
    Vec3i { x: (min.x + by) as i32, y: min.y, z: min.z }
}

proof fn lemma_moved_concat(a: Seq<MeshVoxel>, b: Seq<MeshVoxel>, by: int)
    ensures
        moved(a + b, by) == moved(a, by) + moved(b, by),
{
    assert(moved(a + b, by) =~= moved(a, by) + moved(b, by));
}

proof fn lemma_row_moved(vol: VolMap, min: Vec3i, by: nat, x: int, y: int, z: nat)
    requires
        fits_i32(min.x + by),
        0 <= x,
        x + by <= i32::MAX,
        0 <= y <= i32::MAX,
        z <= i32::MAX,
    ensures
        vol.row_mesh(min, x + by, y, z) == moved(
            vol.row_mesh(cut_at(min, by), x, y, z),
            by as int,
        ),
    decreases z,
{
    let cut = cut_at(min, by);
    if z == 0 {
        assert(moved(vol.row_mesh(cut, x, y, z), by as int) =~= Seq::empty());
    } else {
        let far = Vec3i { x: (x + by) as i32, y: y as i32, z: (z - 1) as i32 };
        let near = Vec3i { x: x as i32, y: y as i32, z: (z - 1) as i32 };
        lemma_row_moved(vol, min, by, x, y, (z - 1) as nat);
        assert(offset_by(min, far) == offset_by(cut, near));
        assert(vol.contribution(min, far) =~= moved(vol.contribution(cut, near), by as int));
        lemma_moved_concat(
            vol.row_mesh(cut, x, y, (z - 1) as nat),
            vol.contribution(cut, near),
            by as int,
        );
    }
}

proof fn lemma_slab_moved(vol: VolMap, min: Vec3i, by: nat, x: int, y: nat, depth: nat)
    requires
        fits_i32(min.x + by),
        0 <= x,
        x + by <= i32::MAX,
        y <= i32::MAX,
        depth <= i32::MAX,
    ensures
        vol.slab_mesh(min, x + by, y, depth) == moved(
            vol.slab_mesh(cut_at(min, by), x, y, depth),
            by as int,
        ),
    decreases y,
{
    let cut = cut_at(min, by);
    if y == 0 {
        assert(moved(vol.slab_mesh(cut, x, y, depth), by as int) =~= Seq::empty());
    } else {
        lemma_slab_moved(vol, min, by, x, (y - 1) as nat, depth);
        lemma_row_moved(vol, min, by, x, y - 1, depth);
        lemma_moved_concat(
            vol.slab_mesh(cut, x, (y - 1) as nat, depth),
            vol.row_mesh(cut, x, y - 1, depth),
            by as int,
        );
    }
}

proof fn lemma_box_split(
    vol: VolMap,
    min: Vec3i,
    left: nat,
    right: nat,
    height: nat,
    depth: nat,
)
    requires
        fits_i32(min.x + left),
        left + right <= i32::MAX,
        height <= i32::MAX,
        depth <= i32::MAX,
    ensures
        vol.box_mesh(min, left + right, height, depth) == vol.box_mesh(min, left, height, depth)
            + moved(vol.box_mesh(cut_at(min, left), right, height, depth), left as int),
    decreases right,
{
    let cut = cut_at(min, left);
    let first = vol.box_mesh(min, left, height, depth);
    let second = moved(vol.box_mesh(cut, right, height, depth), left as int);
    if right == 0 {
        assert(second =~= Seq::empty());
        assert(first + second =~= first);
    } else {
        let rest = (right - 1) as nat;
        lemma_box_split(vol, min, left, rest, height, depth);
        lemma_slab_moved(vol, min, left, rest as int, height, depth);
        lemma_moved_concat(
            vol.box_mesh(cut, rest, height, depth),
            vol.slab_mesh(cut, rest as int, height, depth),
            left as int,
        );
        assert((left + right - 1) as nat == left + rest);
        assert(vol.box_mesh(min, left + right, height, depth) =~= first + second);
    }
}

spec fn placed(vol: VolMap, min: Vec3i, v: MeshVoxel) -> bool {
    &&& v.pos == offset_by(min, v.local)
    &&& vol.color(v.pos) == Some(v.col)
}

proof fn lemma_row_members(vol: VolMap, min: Vec3i, x: int, y: int, z: nat, v: MeshVoxel)
    requires
        0 <= x <= i32::MAX,
        0 <= y <= i32::MAX,
        z <= i32::MAX,
    ensures
        vol.row_mesh(min, x, y, z).contains(v) <==> {
            &&& v.local.x == x
            &&& v.local.y == y
            &&& 0 <= v.local.z < z
            &&& placed(vol, min, v)
        },
    decreases z,
{
    if z > 0 {
        let local = Vec3i { x: x as i32, y: y as i32, z: (z - 1) as i32 };
        let one = vol.contribution(min, local);
        lemma_row_members(vol, min, x, y, (z - 1) as nat, v);
        lemma_contains_concat(vol.row_mesh(min, x, y, (z - 1) as nat), one, v);
        if v.local == local && placed(vol, min, v) {
            assert(one[0] == v);
        }
    }
}

proof fn lemma_slab_members(vol: VolMap, min: Vec3i, x: int, y: nat, depth: nat, v: MeshVoxel)
    requires
        0 <= x <= i32::MAX,
        y <= i32::MAX,
        depth <= i32::MAX,
    ensures
        vol.slab_mesh(min, x, y, depth).contains(v) <==> {
            &&& v.local.x == x
            &&& 0 <= v.local.y < y
            &&& 0 <= v.local.z < depth
            &&& placed(vol, min, v)
        },
    decreases y,
{
    if y > 0 {
        lemma_slab_members(vol, min, x, (y - 1) as nat, depth, v);
        lemma_row_members(vol, min, x, y - 1, depth, v);
        lemma_contains_concat(
            vol.slab_mesh(min, x, (y - 1) as nat, depth),
            vol.row_mesh(min, x, y - 1, depth),
            v,
        );
    }
}

proof fn lemma_box_members(
    vol: VolMap,
    min: Vec3i,
    x: nat,
    height: nat,
    depth: nat,
    v: MeshVoxel,
)
    requires
        x <= i32::MAX,
        height <= i32::MAX,
        depth <= i32::MAX,
    ensures
        vol.box_mesh(min, x, height, depth).contains(v) <==> {
            &&& 0 <= v.local.x < x
            &&& 0 <= v.local.y < height
            &&& 0 <= v.local.z < depth
            &&& placed(vol, min, v)
        },
    decreases x,
{
    if x > 0 {
        lemma_box_members(vol, min, (x - 1) as nat, height, depth, v);
        lemma_slab_members(vol, min, x - 1, height, depth, v);
        lemma_contains_concat(
            vol.box_mesh(min, (x - 1) as nat, height, depth),
            vol.slab_mesh(min, x - 1, height, depth),
            v,
        );
    }
}

spec fn ordered(mesh: Seq<MeshVoxel>) -> bool {
    forall|i: int, j: int|
        0 <= i < j < mesh.len() ==> comes_before(
            (#[trigger] mesh[i]).local,
            (#[trigger] mesh[j]).local,
        )
}

proof fn lemma_ordered_concat(a: Seq<MeshVoxel>, b: Seq<MeshVoxel>)
    requires
        ordered(a),
        ordered(b),
        forall|i: int, j: int|
            0 <= i < a.len() && 0 <= j < b.len() ==> comes_before(
                (#[trigger] a[i]).local,
                (#[trigger] b[j]).local,
            ),
    ensures
        ordered(a + b),
{
    let all = a + b;
    assert forall|i: int, j: int| 0 <= i < j < all.len() implies comes_before(
        (#[trigger] all[i]).local,
        (#[trigger] all[j]).local,
    ) by {
        if j < a.len() {
            assert(comes_before(a[i].local, a[j].local));
        } else if i < a.len() {
            assert(comes_before(a[i].local, b[j - a.len()].local));
        } else {
            assert(comes_before(b[i - a.len()].local, b[j - a.len()].local));
        }
    }
}

proof fn lemma_row_ordered(vol: VolMap, min: Vec3i, x: int, y: int, z: nat)
    requires
        0 <= x <= i32::MAX,
        0 <= y <= i32::MAX,
        z <= i32::MAX,
    ensures
        ordered(vol.row_mesh(min, x, y, z)),
    decreases z,
{
    if z > 0 {
        let head = vol.row_mesh(min, x, y, (z - 1) as nat);
        let local = Vec3i { x: x as i32, y: y as i32, z: (z - 1) as i32 };
        let one = vol.contribution(min, local);
        lemma_row_ordered(vol, min, x, y, (z - 1) as nat);
        assert forall|i: int, j: int| 0 <= i < head.len() && 0 <= j < one.len() implies comes_before(
            (#[trigger] head[i]).local,
            (#[trigger] one[j]).local,
        ) by {
            lemma_row_members(vol, min, x, y, (z - 1) as nat, head[i]);
            assert(head.contains(head[i]));
        }
        lemma_ordered_concat(head, one);
    }
}

proof fn lemma_slab_ordered(vol: VolMap, min: Vec3i, x: int, y: nat, depth: nat)
    requires
        0 <= x <= i32::MAX,
        y <= i32::MAX,
        depth <= i32::MAX,
    ensures
        ordered(vol.slab_mesh(min, x, y, depth)),
    decreases y,
{
    if y > 0 {
        let head = vol.slab_mesh(min, x, (y - 1) as nat, depth);
        let row = vol.row_mesh(min, x, y - 1, depth);
        lemma_slab_ordered(vol, min, x, (y - 1) as nat, depth);
        lemma_row_ordered(vol, min, x, y - 1, depth);
        assert forall|i: int, j: int| 0 <= i < head.len() && 0 <= j < row.len() implies comes_before(
            (#[trigger] head[i]).local,
            (#[trigger] row[j]).local,
        ) by {
            lemma_slab_members(vol, min, x, (y - 1) as nat, depth, head[i]);
            lemma_row_members(vol, min, x, y - 1, depth, row[j]);
            assert(head.contains(head[i]));
            assert(row.contains(row[j]));
        }
        lemma_ordered_concat(head, row);
    }
}

proof fn lemma_box_ordered(vol: VolMap, min: Vec3i, x: nat, height: nat, depth: nat)
    requires
        x <= i32::MAX,
        height <= i32::MAX,
        depth <= i32::MAX,
    ensures
        ordered(vol.box_mesh(min, x, height, depth)),
    decreases x,
{
    if x > 0 {
        let head = vol.box_mesh(min, (x - 1) as nat, height, depth);
        let slab = vol.slab_mesh(min, x - 1, height, depth);
        lemma_box_ordered(vol, min, (x - 1) as nat, height, depth);
        lemma_slab_ordered(vol, min, x - 1, height, depth);
        assert forall|i: int, j: int|
            0 <= i < head.len() && 0 <= j < slab.len() implies comes_before(
            (#[trigger] head[i]).local,
            (#[trigger] slab[j]).local,
        ) by {
            lemma_box_members(vol, min, (x - 1) as nat, height, depth, head[i]);
            lemma_slab_members(vol, min, x - 1, height, depth, slab[j]);
            assert(head.contains(head[i]));
            assert(slab.contains(slab[j]));
        }
        lemma_ordered_concat(head, slab);
    }
}

/// A box is well formed just when it holds as many blocks as its sides ask for, and
/// an `i32` can count along each side.
pub proof fn well_formed_boxes(vol: Dyna)
    ensures
        vol.wf() <==> {
            &&& vol.size.x <= 0x7fff_ffff
            &&& vol.size.y <= 0x7fff_ffff
            &&& vol.size.z <= 0x7fff_ffff
            &&& vol.blocks@.len() == vol.size.x * vol.size.y * vol.size.z
        },
{
}

/// A world is well formed just when its chunks have sides, every chunk is well formed,
/// and no two chunks share a key.
pub proof fn well_formed_worlds(vol: VolMap)
    ensures
        vol.wf() <==> {
            &&& vol.chunk_size.is_chunk_size()
            &&& forall|i: int| 0 <= i < vol.chunks@.len() ==> (#[trigger] vol.chunks@[i]).1.wf()
            &&& forall|i: int, j: int|
                0 <= i < j < vol.chunks@.len() ==> (#[trigger] vol.chunks@[i]).0 != (
                #[trigger] vol.chunks@[j]).0
        },
{
}

/// The blocks of a box come by `x`, then by `y`, then by `z`; outside there are none.
pub proof fn blocks_of_a_box_come_by_position(vol: Dyna, pos: Vec3i)
    requires
        vol.wf(),
    ensures
        (0 <= pos.x < vol.size.x && 0 <= pos.y < vol.size.y && 0 <= pos.z < vol.size.z) ==> {
            let i = (pos.x * vol.size.y + pos.y) * vol.size.z + pos.z;
            &&& 0 <= i < vol.blocks@.len()
            &&& vol.block(pos) == Some(vol.blocks@[i])
            &&& vol.color(pos) == vol.blocks@[i].color
        },
        !(0 <= pos.x < vol.size.x && 0 <= pos.y < vol.size.y && 0 <= pos.z < vol.size.z) ==> {
            &&& vol.block(pos) is None
            &&& vol.color(pos) is None
        },
{
    if 0 <= pos.x < vol.size.x && 0 <= pos.y < vol.size.y && 0 <= pos.z < vol.size.z {
        block_index_in_range(vol.size, pos);
    }
}

/// A single position of a box gives one voxel, where it is and in the colour that it
/// has, if it is coloured and does not touch the surface; and nothing otherwise.
pub proof fn a_position_of_a_box_gives_itself(vol: Dyna, pos: Vec3i)
    requires
        vol.wf(),
    ensures
        vol.mesh(Seq::empty()).len() == 0,
        (1 <= pos.x < vol.size.x - 1 && 1 <= pos.y < vol.size.y - 1 && 1 <= pos.z < vol.size.z - 1)
            ==> vol.mesh(seq![pos]) == match vol.blocks@[(pos.x * vol.size.y + pos.y) * vol.size.z
            + pos.z].color {
            Some(col) => seq![MeshVoxel { pos, local: pos, col }],
            None => Seq::empty(),
        },
        !(1 <= pos.x < vol.size.x - 1 && 1 <= pos.y < vol.size.y - 1 && 1 <= pos.z < vol.size.z
            - 1) ==> vol.mesh(seq![pos]).len() == 0,
{
    reveal_with_fuel(Dyna::mesh, 2);
    blocks_of_a_box_come_by_position(vol, pos);
    assert(seq![pos].drop_last() =~= Seq::empty());
    assert(vol.mesh(seq![pos]) =~= vol.contribution(pos));
}

/// A chunk is found under its key just when it is stored under it.
pub proof fn chunks_are_found_by_key(vol: VolMap, key: Vec3i, chunk: Dyna)
    requires
        vol.wf(),
    ensures
        vol.chunk(key) == Some(chunk) <==> vol.chunks@.contains((key, chunk)),
        vol.chunk(key) is None <==> forall|i: int|
            0 <= i < vol.chunks@.len() ==> (#[trigger] vol.chunks@[i]).0 != key,
{
    lemma_find_chunk(vol.chunks@, key);
    if vol.chunks@.contains((key, chunk)) {
        let i = vol.chunks@.index_of((key, chunk));
        assert(vol.chunks@[i].0 == key);
        let found = vol.chunk(key)->0;
        let j = vol.chunks@.index_of((key, found));
        if i < j {
            assert(vol.chunks@[i].0 != vol.chunks@[j].0);
        } else if j < i {
            assert(vol.chunks@[j].0 != vol.chunks@[i].0);
        }
    }
    if let Some(found) = vol.chunk(key) {
        let j = vol.chunks@.index_of((key, found));
        assert(vol.chunks@[j].0 == key);
    }
}

proof fn lemma_find_chunk(chunks: Seq<(Vec3i, Dyna)>, key: Vec3i)
    ensures
        match find_chunk(chunks, key) {
            Some(chunk) => chunks.contains((key, chunk)),
            None => forall|i: int| 0 <= i < chunks.len() ==> (#[trigger] chunks[i]).0 != key,
        },
    decreases chunks.len(),
{
    if chunks.len() > 0 {
        let rest = chunks.drop_first();
        lemma_find_chunk(rest, key);
        if chunks[0].0 == key {
            assert(chunks[0] == (key, chunks[0].1));
        } else {
            match find_chunk(rest, key) {
                Some(chunk) => {
                    let i = rest.index_of((key, chunk));
                    assert(chunks[i + 1] == (key, chunk));
                },
                None => {
                    assert forall|i: int| 0 <= i < chunks.len() implies (
                    #[trigger] chunks[i]).0 != key by {
                        if i > 0 {
                            assert(rest[i - 1].0 != key);
                        }
                    }
                },
            }
        }
    }
}

/// The world has, at the position that an offset in a chunk leads to, the block that
/// the chunk has at that offset; where the chunk is not loaded, it has none there.
/// `chunk` is what is stored under `key`, if anything is.
pub proof fn the_world_is_made_of_its_chunks(
    vol: VolMap,
    key: Vec3i,
    chunk: Option<Dyna>,
    offset: Vec3i,
    pos: Vec3i,
)
    requires
        vol.wf(),
        match chunk {
            Some(c) => vol.chunks@.contains((key, c)),
            None => forall|i: int|
                0 <= i < vol.chunks@.len() ==> (#[trigger] vol.chunks@[i]).0 != key,
        },
        0 <= offset.x < vol.chunk_size.x,
        0 <= offset.y < vol.chunk_size.y,
        0 <= offset.z < vol.chunk_size.z,
        pos.x == key.x * vol.chunk_size.x + offset.x,
        pos.y == key.y * vol.chunk_size.y + offset.y,
        pos.z == key.z * vol.chunk_size.z + offset.z,
    ensures
        match chunk {
            Some(c) => if offset.x < c.size.x && offset.y < c.size.y && offset.z < c.size.z {
                let i = (offset.x * c.size.y + offset.y) * c.size.z + offset.z;
                &&& 0 <= i < c.blocks@.len()
                &&& vol.block(pos) == Some(c.blocks@[i])
                &&& vol.color(pos) == c.blocks@[i].color
            } else {
                vol.block(pos) is None && vol.color(pos) is None
            },
            None => vol.block(pos) is None && vol.color(pos) is None,
        },
{
    let size = vol.chunk_size;
    cell_is_unique(pos.x as int, size.x as int, key.x as int, offset.x as int);
    cell_is_unique(pos.y as int, size.y as int, key.y as int, offset.y as int);
    cell_is_unique(pos.z as int, size.z as int, key.z as int, offset.z as int);
    assert(voxel_key(pos, size) == key);
    assert(voxel_offset(pos, size) == offset);
    match chunk {
        Some(c) => {
            chunks_are_found_by_key(vol, key, c);
            let i = vol.chunks@.index_of((key, c));
            assert(vol.chunks@[i].1.wf());
            blocks_of_a_box_come_by_position(c, offset);
        },
        None => {
            lemma_find_chunk(vol.chunks@, key);
            if let Some(found) = vol.chunk(key) {
                let i = vol.chunks@.index_of((key, found));
                assert(vol.chunks@[i].0 != key);
            }
        },
    }
}

/// A voxel is in the mesh of a range just when it lies in the range, as far from its
/// lower corner as its place in the mesh says, and is coloured as the world is there.
pub proof fn a_mesh_holds_the_coloured_voxels_of_its_range(vol: VolMap, range: Aabb, v: MeshVoxel)
    requires
        range.max.x - range.min.x <= i32::MAX,
        range.max.y - range.min.y <= i32::MAX,
        range.max.z - range.min.z <= i32::MAX,
        i32::MIN <= range.max.x - range.min.x,
        i32::MIN <= range.max.y - range.min.y,
        i32::MIN <= range.max.z - range.min.z,
    ensures
        vol.mesh(range).contains(v) <==> {
            &&& range.min.x <= v.pos.x < range.max.x
            &&& range.min.y <= v.pos.y < range.max.y
            &&& range.min.z <= v.pos.z < range.max.z
            &&& v.local.x == v.pos.x - range.min.x
            &&& v.local.y == v.pos.y - range.min.y
            &&& v.local.z == v.pos.z - range.min.z
            &&& vol.block(v.pos) matches Some(block)
            &&& block.color == Some(v.col)
        },
{
    vol_map_mesh_members(vol, range, v);
}

/// A chunk is drawn where it is: what a mesh shows at the position that an offset in
/// a chunk leads to is the colour that the block of the chunk has at that offset. It
/// shows nothing where the chunk is not loaded, does not reach that far, or has no
/// colour. `chunk` is what is stored under `key`, if anything is.
pub proof fn chunks_are_drawn_where_they_are(
    vol: VolMap,
    range: Aabb,
    key: Vec3i,
    chunk: Option<Dyna>,
    offset: Vec3i,
    v: MeshVoxel,
)
    requires
        vol.wf(),
        sides_fit(range),
        match chunk {
            Some(c) => vol.chunks@.contains((key, c)),
            None => forall|i: int|
                0 <= i < vol.chunks@.len() ==> (#[trigger] vol.chunks@[i]).0 != key,
        },
        0 <= offset.x < vol.chunk_size.x,
        0 <= offset.y < vol.chunk_size.y,
        0 <= offset.z < vol.chunk_size.z,
        v.pos.x == key.x * vol.chunk_size.x + offset.x,
        v.pos.y == key.y * vol.chunk_size.y + offset.y,
        v.pos.z == key.z * vol.chunk_size.z + offset.z,
        range.min.x <= v.pos.x < range.max.x,
        range.min.y <= v.pos.y < range.max.y,
        range.min.z <= v.pos.z < range.max.z,
        v.local.x == v.pos.x - range.min.x,
        v.local.y == v.pos.y - range.min.y,
        v.local.z == v.pos.z - range.min.z,
    ensures
        vol.mesh(range).contains(v) <==> {
            &&& chunk matches Some(c)
            &&& offset.x < c.size.x
            &&& offset.y < c.size.y
            &&& offset.z < c.size.z
            &&& c.blocks@[(offset.x * c.size.y + offset.y) * c.size.z + offset.z].color == Some(
                v.col,
            )
        },
{
    the_world_is_made_of_its_chunks(vol, key, chunk, offset, v.pos);
    a_mesh_holds_the_coloured_voxels_of_its_range(vol, range, v);
}

/// The mesh of the box of a chunk holds exactly the coloured blocks of that chunk,
/// each at its offset in the chunk.
pub proof fn the_box_of_a_chunk_shows_that_chunk(
    vol: VolMap,
    key: Vec3i,
    chunk: Dyna,
    range: Aabb,
    v: MeshVoxel,
)
    requires
        vol.wf(),
        vol.chunks@.contains((key, chunk)),
        range.min.x == key.x * vol.chunk_size.x,
        range.min.y == key.y * vol.chunk_size.y,
        range.min.z == key.z * vol.chunk_size.z,
        range.max.x == range.min.x + vol.chunk_size.x,
        range.max.y == range.min.y + vol.chunk_size.y,
        range.max.z == range.min.z + vol.chunk_size.z,
    ensures
        vol.mesh(range).contains(v) <==> {
            let o = v.local;
            &&& 0 <= o.x < vol.chunk_size.x
            &&& 0 <= o.y < vol.chunk_size.y
            &&& 0 <= o.z < vol.chunk_size.z
            &&& v.pos.x == key.x * vol.chunk_size.x + o.x
            &&& v.pos.y == key.y * vol.chunk_size.y + o.y
            &&& v.pos.z == key.z * vol.chunk_size.z + o.z
            &&& o.x < chunk.size.x
            &&& o.y < chunk.size.y
            &&& o.z < chunk.size.z
            &&& chunk.blocks@[(o.x * chunk.size.y + o.y) * chunk.size.z + o.z].color == Some(v.col)
        },
{
    a_mesh_holds_the_coloured_voxels_of_its_range(vol, range, v);
    let o = v.local;
    if 0 <= o.x < vol.chunk_size.x && 0 <= o.y < vol.chunk_size.y && 0 <= o.z < vol.chunk_size.z
        && v.pos.x == range.min.x + o.x && v.pos.y == range.min.y + o.y && v.pos.z == range.min.z
        + o.z {
        chunks_are_drawn_where_they_are(vol, range, key, Some(chunk), o, v);
    }
}

/// The voxels of a mesh come by `x`, then by `y`, then by `z`.
pub proof fn meshes_go_along_z_first(vol: VolMap, range: Aabb, i: int, j: int)
    requires
        sides_fit(range),
        0 <= i < j < vol.mesh(range).len(),
    ensures
        ({
            let a = vol.mesh(range)[i].local;
            let b = vol.mesh(range)[j].local;
            ||| a.x < b.x
            ||| a.x == b.x && a.y < b.y
            ||| a.x == b.x && a.y == b.y && a.z < b.z
        }),
{
    vol_map_mesh_ordered(vol, range);
}

/// The sides of a range can be computed just where they are values of an `i32`, and
/// a mesh moved along `x` is the same but for where it lies.
pub proof fn ranges_and_moves_are_exact(range: Aabb, mesh: Seq<MeshVoxel>, by: int, i: int)
    requires
        0 <= i < mesh.len(),
        i32::MIN <= mesh[i].local.x + by <= i32::MAX,
    ensures
        sides_fit(range) <==> {
            &&& i32::MIN <= range.max.x - range.min.x <= i32::MAX
            &&& i32::MIN <= range.max.y - range.min.y <= i32::MAX
            &&& i32::MIN <= range.max.z - range.min.z <= i32::MAX
        },
        moved(mesh, by).len() == mesh.len(),
        moved(mesh, by)[i].pos == mesh[i].pos,
        moved(mesh, by)[i].col == mesh[i].col,
        moved(mesh, by)[i].local.x == mesh[i].local.x + by,
        moved(mesh, by)[i].local.y == mesh[i].local.y,
        moved(mesh, by)[i].local.z == mesh[i].local.z,
{
}

} // verus!
