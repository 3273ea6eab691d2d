use vstd::prelude::*;
use crate::block::{BlockType, IntVec3};
use crate::chunk::{cell_index, in_chunk, Chunk, CHUNK_CELLS};
use crate::coordinates::{GridCoordinates, CHUNK_HEIGHT, CHUNK_WIDTH};
use crate::grid::{loaded_cell_solid, ChunkEntries, ChunkGridInner, ChunkKey};
use crate::mesh_builder::{Face, Mesh, MeshBuilder, MeshBuilderSettings, MeshModel};

verus! {

/// Whether a boundary cell of a neighbouring chunk counts as solid. A chunk
/// that is not loaded counts as solid throughout, so that no face is drawn
/// towards it.
pub open spec fn neighbor_solid(entries: ChunkEntries, key: ChunkKey, x: int, y: int, z: int)
    -> bool {
    match loaded_cell_solid(entries, key, x, y, z) {
        Some(solid) => solid,
        None => true,
    }
}

/// The local position of the `n`-th cell in storage order.
pub open spec fn voxel_x(n: int) -> int {
    n / (CHUNK_HEIGHT * CHUNK_WIDTH)
}

pub open spec fn voxel_y(n: int) -> int {
    (n / (CHUNK_WIDTH as int)) % (CHUNK_HEIGHT as int)
}

pub open spec fn voxel_z(n: int) -> int {
    n % (CHUNK_WIDTH as int)
}

/// `m` with one more quad where `exposed` holds, and `m` itself otherwise.
pub open spec fn with_face_if(
    m: MeshModel,
    exposed: bool,
    face: Face,
    size: u32,
    position: IntVec3,
    block: Option<BlockType>,
) -> MeshModel {
    if exposed {
        m.with_face(face, size, position, block)
    } else {
        m
    }
}

/// Adds the quad of one side where that side is exposed.
fn emit(builder: &mut MeshBuilder, exposed: bool, face: Face)
    requires
        old(builder).wf(),
        old(builder).has_room(),
    ensures
        final(builder).wf(),
        final(builder)@ == with_face_if(
            old(builder)@,
            exposed,
            face,
            old(builder).voxel_size(),
            old(builder).cursor(),
            old(builder).block(),
        ),
        final(builder)@.positions.len() <= old(builder)@.positions.len() + 4,
        final(builder).cursor() == old(builder).cursor(),
        final(builder).block() == old(builder).block(),
        final(builder).voxel_size() == old(builder).voxel_size(),
{
    if exposed {
        match face {
            Face::Top => builder.face_top(),
            Face::Bottom => builder.face_bottom(),
            Face::Front => builder.face_front(),
            Face::Back => builder.face_back(),
            Face::Right => builder.face_right(),
            Face::Left => builder.face_left(),
        }
    }
}

impl Chunk {
    /// Whether the cell one step beside a voxel of this chunk is solid. A
    /// step over the x or z boundary reads the facing boundary cell of the
    /// neighbouring chunk in the store.
    pub open spec fn adjacent_solid(&self, entries: ChunkEntries, x: int, y: int, z: int) -> bool {
        let c = self.position();
        if x < 0 {
            neighbor_solid(entries, c.plus(-CHUNK_WIDTH, 0, 0).key(), CHUNK_WIDTH - 1, y, z)
        } else if x > CHUNK_WIDTH - 1 {
            neighbor_solid(entries, c.plus(CHUNK_WIDTH as int, 0, 0).key(), 0, y, z)
        } else if z < 0 {
            neighbor_solid(entries, c.plus(0, 0, -CHUNK_WIDTH).key(), x, y, CHUNK_WIDTH - 1)
        } else if z > CHUNK_WIDTH - 1 {
            neighbor_solid(entries, c.plus(0, 0, CHUNK_WIDTH as int).key(), x, y, 0)
        } else {
            self.solid_at(x, y, z)
        }
    }

    /// Whether a side of the voxel at a local position borders on an empty
    /// cell. Above the top layer and below the bottom layer there is nothing,
    /// so those sides are exposed.
    pub open spec fn face_exposed(&self, entries: ChunkEntries, x: int, y: int, z: int, face: Face)
        -> bool {
        match face {
            Face::Top => y == CHUNK_HEIGHT - 1 || !self.solid_at(x, y + 1, z),
            Face::Bottom => y == 0 || !self.solid_at(x, y - 1, z),
            Face::Right => !self.adjacent_solid(entries, x - 1, y, z),
            Face::Left => !self.adjacent_solid(entries, x + 1, y, z),
            Face::Front => !self.adjacent_solid(entries, x, y, z - 1),
            Face::Back => !self.adjacent_solid(entries, x, y, z + 1),
        }
    }

    /// `m` with the quads of one voxel: none for an empty cell, and for a
    /// solid one a quad for each exposed side, in the order top, bottom,
    /// right, left, front, back.
    pub open spec fn mesh_voxel(
        &self,
        m: MeshModel,
        entries: ChunkEntries,
        size: u32,
        x: int,
        y: int,
        z: int,
    ) -> MeshModel {
        if !self.solid_at(x, y, z) {
            m
        } else {
            let p = IntVec3 { x: x as i64, y: y as i64, z: z as i64 };
            let b = self.cell(x, y, z);
            let m1 = with_face_if(m, self.face_exposed(entries, x, y, z, Face::Top), Face::Top, size, p, b);
            let m2 = with_face_if(m1, self.face_exposed(entries, x, y, z, Face::Bottom), Face::Bottom, size, p, b);
            let m3 = with_face_if(m2, self.face_exposed(entries, x, y, z, Face::Right), Face::Right, size, p, b);
            let m4 = with_face_if(m3, self.face_exposed(entries, x, y, z, Face::Left), Face::Left, size, p, b);
            let m5 = with_face_if(m4, self.face_exposed(entries, x, y, z, Face::Front), Face::Front, size, p, b);
            with_face_if(m5, self.face_exposed(entries, x, y, z, Face::Back), Face::Back, size, p, b)
        }
    }

    /// The mesh of the first `n` cells in storage order.
    pub open spec fn mesh_prefix(&self, entries: ChunkEntries, size: u32, n: nat) -> MeshModel
        decreases n,
    {
        if n == 0 {
            MeshModel::empty()
        } else {
            let k = (n - 1) as int;
            self.mesh_voxel(
                self.mesh_prefix(entries, size, (n - 1) as nat),
                entries,
                size,
                voxel_x(k),
                voxel_y(k),
                voxel_z(k),
            )
        }
    }

    /// The mesh of the whole chunk, given the chunks around it.
    pub open spec fn mesh(&self, entries: ChunkEntries, size: u32) -> MeshModel {
        self.mesh_prefix(entries, size, CHUNK_CELLS as nat)
    }

    /// Whether the chunks beside this one, along x and z, have positions
    /// that can be represented.
    pub open spec fn neighbors_in_range(&self) -> bool {
        self.position().neighbors_representable()
    }

    fn check_adjacent_chunk(
        &self,
        grid: &ChunkGridInner,
        grid_offset: [isize; 3],
        chunk_coordinates: [isize; 3],
    ) -> (r: bool)
        requires
            grid.wf(),
            self.position().can_add(
                grid_offset[0] as int,
                grid_offset[1] as int,
                grid_offset[2] as int,
            ),
            in_chunk(
                chunk_coordinates[0] as int,
                chunk_coordinates[1] as int,
                chunk_coordinates[2] as int,
            ),
        ensures
            r == neighbor_solid(
                grid@,
                self.position().plus(
                    grid_offset[0] as int,
                    grid_offset[1] as int,
                    grid_offset[2] as int,
                ).key(),
                chunk_coordinates[0] as int,
                chunk_coordinates[1] as int,
                chunk_coordinates[2] as int,
            ),
    {
        let neighbor: GridCoordinates = self.coordinates().add_offset(grid_offset);
        match grid.cell_is_solid(&neighbor, chunk_coordinates) {
            Some(solid) => solid,
            None => true,
        }
    }

    fn adjacent_is_solid(&self, position: [isize; 3], grid: &ChunkGridInner) -> (r: bool)
        requires
            self.wf(),
            grid.wf(),
            self.neighbors_in_range(),
            -1 <= position[0] <= CHUNK_WIDTH,
            0 <= position[1] < CHUNK_HEIGHT,
            -1 <= position[2] <= CHUNK_WIDTH,
            0 <= position[0] < CHUNK_WIDTH || 0 <= position[2] < CHUNK_WIDTH,
        ensures
            r == self.adjacent_solid(
                grid@,
                position[0] as int,
                position[1] as int,
                position[2] as int,
            ),
    {
        let x: isize = position[0];
        let y: isize = position[1];
        let z: isize = position[2];
        if x < 0 {
            return self.check_adjacent_chunk(grid, [-CHUNK_WIDTH, 0, 0], [CHUNK_WIDTH - 1, y, z]);
        }
        if x > CHUNK_WIDTH - 1 {
            return self.check_adjacent_chunk(grid, [CHUNK_WIDTH, 0, 0], [0, y, z]);
        }
        if z < 0 {
            return self.check_adjacent_chunk(grid, [0, 0, -CHUNK_WIDTH], [x, y, CHUNK_WIDTH - 1]);
        }
        if z > CHUNK_WIDTH - 1 {
            return self.check_adjacent_chunk(grid, [0, 0, CHUNK_WIDTH], [x, y, 0]);
        }
        self.is_solid([x, y, z])
    }

    fn adjacent_is_air(&self, position: [isize; 3], grid: &ChunkGridInner) -> (r: bool)
        requires
            self.wf(),
            grid.wf(),
            self.neighbors_in_range(),
            -1 <= position[0] <= CHUNK_WIDTH,
            0 <= position[1] < CHUNK_HEIGHT,
            -1 <= position[2] <= CHUNK_WIDTH,
            0 <= position[0] < CHUNK_WIDTH || 0 <= position[2] < CHUNK_WIDTH,
        ensures
            r == !self.adjacent_solid(
                grid@,
                position[0] as int,
                position[1] as int,
                position[2] as int,
            ),
    {
        !self.adjacent_is_solid(position, grid)
    }

    /// Adds the quads of one voxel to a builder.
    fn mesh_one_voxel(&self, builder: &mut MeshBuilder, grid: &ChunkGridInner, x: isize, y: isize, z: isize)
        requires
            self.wf(),
            grid.wf(),
            self.neighbors_in_range(),
            in_chunk(x as int, y as int, z as int),
            old(builder).wf(),
            old(builder)@.positions.len() + 24 <= u32::MAX,
        ensures
            final(builder).wf(),
            final(builder).voxel_size() == old(builder).voxel_size(),
            final(builder)@ == self.mesh_voxel(
                old(builder)@,
                grid@,
                old(builder).voxel_size(),
                x as int,
                y as int,
                z as int,
            ),
            final(builder)@.positions.len() <= old(builder)@.positions.len() + 24,
    {
        builder.move_to(IntVec3::new(x as i64, y as i64, z as i64));
        builder.set_block_type(self.get([x, y, z]));
        if self.is_solid([x, y, z]) {
            let top: bool = y == CHUNK_HEIGHT - 1 || self.is_air([x, y + 1, z]);
            emit(builder, top, Face::Top);
            let bottom: bool = y == 0 || self.is_air([x, y - 1, z]);
            emit(builder, bottom, Face::Bottom);
            let right: bool = self.adjacent_is_air([x - 1, y, z], grid);
            emit(builder, right, Face::Right);
            let left: bool = self.adjacent_is_air([x + 1, y, z], grid);
            emit(builder, left, Face::Left);
            let front: bool = self.adjacent_is_air([x, y, z - 1], grid);
            emit(builder, front, Face::Front);
            let back: bool = self.adjacent_is_air([x, y, z + 1], grid);
            emit(builder, back, Face::Back);
        }
    }

    /// Extracts the visible surface: one quad for every side of a solid
    /// voxel that borders on an empty cell, looking into the neighbouring
    /// chunks of the store across the x and z boundaries.
    pub fn compute_mesh(&self, settings: MeshBuilderSettings, grid: &ChunkGridInner) -> (mesh: Mesh)
        requires
            self.wf(),
            grid.wf(),
            self.neighbors_in_range(),
        ensures
            mesh@ == self.mesh(grid@, settings.voxel_size),
            mesh@.wf(),
    {
        let mut builder = MeshBuilder::new(settings);
        let mut x: isize = 0;
        while x < CHUNK_WIDTH
            invariant
                self.wf(),
                grid.wf(),
                self.neighbors_in_range(),
                0 <= x <= CHUNK_WIDTH,
                builder.wf(),
                builder.voxel_size() == settings.voxel_size,
                builder@ == self.mesh_prefix(grid@, settings.voxel_size, cell_index(x as int, 0, 0) as nat),
                builder@.positions.len() <= 24 * cell_index(x as int, 0, 0),
            decreases CHUNK_WIDTH - x,
        {
            let mut y: isize = 0;
            while y < CHUNK_HEIGHT
                invariant
                    self.wf(),
                    grid.wf(),
                    self.neighbors_in_range(),
                    0 <= x < CHUNK_WIDTH,
                    0 <= y <= CHUNK_HEIGHT,
                    builder.wf(),
                    builder.voxel_size() == settings.voxel_size,
                    builder@ == self.mesh_prefix(grid@, settings.voxel_size, cell_index(x as int, y as int, 0) as nat),
                    builder@.positions.len() <= 24 * cell_index(x as int, y as int, 0),
                decreases CHUNK_HEIGHT - y,
            {
                let mut z: isize = 0;
                while z < CHUNK_WIDTH
                    invariant
                        self.wf(),
                        grid.wf(),
                        self.neighbors_in_range(),
                        0 <= x < CHUNK_WIDTH,
                        0 <= y < CHUNK_HEIGHT,
                        0 <= z <= CHUNK_WIDTH,
                        builder.wf(),
                        builder.voxel_size() == settings.voxel_size,
                        builder@ == self.mesh_prefix(grid@, settings.voxel_size, cell_index(x as int, y as int, z as int) as nat),
                        builder@.positions.len() <= 24 * cell_index(x as int, y as int, z as int),
                    decreases CHUNK_WIDTH - z,
                {
                    proof {
                        let n = cell_index(x as int, y as int, z as int);
                        assert(voxel_x(n) == x && voxel_y(n) == y && voxel_z(n) == z);
                        assert(cell_index(x as int, y as int, z + 1) == n + 1);
                    }
                    self.mesh_one_voxel(&mut builder, grid, x, y, z);
                    z = z + 1;
                }
                y = y + 1;
            }
            x = x + 1;
        }
        builder.build()
    }
}

impl ChunkGridInner {
    /// Meshes a freshly generated chunk against the chunks already in the
    /// store, then stores it as loaded under `coordinates`.
    pub fn compute_mesh(
        &mut self,
        coordinates: GridCoordinates,
        chunk: Chunk,
        mesh_builder_settings: MeshBuilderSettings,
    ) -> (mesh: Mesh)
        requires
            old(self).wf(),
            chunk.wf(),
            chunk.neighbors_in_range(),
        ensures
            final(self).wf(),
            mesh@ == chunk.mesh(old(self)@, mesh_builder_settings.voxel_size),
            mesh@.wf(),
            final(self)@ == old(self)@.insert(coordinates.key(), Some(chunk)),
    {
        let mesh = chunk.compute_mesh(mesh_builder_settings, &*self);
        self.commit(coordinates, chunk);
        mesh
    }
}

/// A solid voxel inside the chunk's height whose six neighbours are solid,
/// those in neighbouring chunks included, adds no quad.
pub proof fn lemma_enclosed_voxel_emits_nothing(
    chunk: Chunk,
    m: MeshModel,
    entries: ChunkEntries,
    size: u32,
    x: int,
    y: int,
    z: int,
)
    requires
        0 < y < CHUNK_HEIGHT - 1,
        chunk.solid_at(x, y + 1, z),
        chunk.solid_at(x, y - 1, z),
        chunk.adjacent_solid(entries, x - 1, y, z),
        chunk.adjacent_solid(entries, x + 1, y, z),
        chunk.adjacent_solid(entries, x, y, z - 1),
        chunk.adjacent_solid(entries, x, y, z + 1),
    ensures
        chunk.mesh_voxel(m, entries, size, x, y, z) == m,
{
}

/// An empty cell adds no quad.
pub proof fn lemma_empty_cell_emits_nothing(
    chunk: Chunk,
    m: MeshModel,
    entries: ChunkEntries,
    size: u32,
    x: int,
    y: int,
    z: int,
)
    requires
        !chunk.solid_at(x, y, z),
    ensures
        chunk.mesh_voxel(m, entries, size, x, y, z) == m,
{
}

/// A solid voxel whose six sides are all exposed adds exactly six quads:
/// 24 vertices with their normals and texture coordinates, 36 indices and
/// 24 texture layers.
pub proof fn lemma_isolated_voxel_emits_six_quads(
    chunk: Chunk,
    m: MeshModel,
    entries: ChunkEntries,
    size: u32,
    x: int,
    y: int,
    z: int,
)
    requires
        chunk.solid_at(x, y, z),
        chunk.face_exposed(entries, x, y, z, Face::Top),
        chunk.face_exposed(entries, x, y, z, Face::Bottom),
        chunk.face_exposed(entries, x, y, z, Face::Right),
        chunk.face_exposed(entries, x, y, z, Face::Left),
        chunk.face_exposed(entries, x, y, z, Face::Front),
        chunk.face_exposed(entries, x, y, z, Face::Back),
    ensures
        chunk.mesh_voxel(m, entries, size, x, y, z).positions.len() == m.positions.len() + 24,
        chunk.mesh_voxel(m, entries, size, x, y, z).normals.len() == m.normals.len() + 24,
        chunk.mesh_voxel(m, entries, size, x, y, z).uvs.len() == m.uvs.len() + 24,
        chunk.mesh_voxel(m, entries, size, x, y, z).indices.len() == m.indices.len() + 36,
        chunk.mesh_voxel(m, entries, size, x, y, z).texture_indices.len()
            == m.texture_indices.len() + 24,
{
    let p = IntVec3 { x: x as i64, y: y as i64, z: z as i64 };
    let b = chunk.cell(x, y, z);
    let m1 = m.with_face(Face::Top, size, p, b);
    let m2 = m1.with_face(Face::Bottom, size, p, b);
    let m3 = m2.with_face(Face::Right, size, p, b);
    let m4 = m3.with_face(Face::Left, size, p, b);
    let m5 = m4.with_face(Face::Front, size, p, b);
    let m6 = m5.with_face(Face::Back, size, p, b);
    assert(chunk.mesh_voxel(m, entries, size, x, y, z) == m6);
}

} // verus!
