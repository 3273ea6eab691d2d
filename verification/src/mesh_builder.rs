use vstd::prelude::*;
use crate::block::{BlockType, IntVec3};

verus! {

/// How a mesh is laid out in space.
#[derive(Debug, Clone, Copy, PartialEq, Eq, Structural)]
pub struct MeshBuilderSettings {
    /// Edge length of one voxel.
    pub voxel_size: u32,
}

impl Default for MeshBuilderSettings {
    fn default() -> (r: Self)
        ensures
            r.voxel_size == 1,
    {
        Self { voxel_size: 1 }
    }
}

/// A texture coordinate; each component is 0 or 1 on a quad's corner.
#[derive(Debug, Clone, Copy, PartialEq, Eq, Structural)]
pub struct TexCoord {
    pub u: u8,
    pub v: u8,
}

/// A face list as parallel arrays. Every quad owns four vertices and six
/// indices that split it into two triangles.
#[derive(Debug)]
pub struct Mesh {
    pub positions: Vec<IntVec3>,
    pub normals: Vec<IntVec3>,
    pub uvs: Vec<TexCoord>,
    pub texture_indices: Vec<u32>,
    pub indices: Vec<u32>,
}

/// The mathematical content of a mesh.
#[verifier::ext_equal]
pub struct MeshModel {
    pub positions: Seq<IntVec3>,
    pub normals: Seq<IntVec3>,
    pub uvs: Seq<TexCoord>,
    pub texture_indices: Seq<u32>,
    pub indices: Seq<u32>,
}

impl View for Mesh {
    type V = MeshModel;

    open spec fn view(&self) -> MeshModel {
        MeshModel {
            positions: self.positions@,
            normals: self.normals@,
            uvs: self.uvs@,
            texture_indices: self.texture_indices@,
            indices: self.indices@,
        }
    }
}

/// A unit-cube corner scaled by the voxel size and moved to `position`.
pub open spec fn corner(unit: IntVec3, size: u32, position: IntVec3) -> IntVec3 {
    IntVec3 {
        x: (unit.x * size + position.x) as i64,
        y: (unit.y * size + position.y) as i64,
        z: (unit.z * size + position.z) as i64,
    }
}

/// Whether each component is 0 or 1.
pub open spec fn is_unit_corner(v: IntVec3) -> bool {
    &&& 0 <= v.x <= 1
    &&& 0 <= v.y <= 1
    &&& 0 <= v.z <= 1
}

/// The six indices of the quad whose first vertex is `base`: the triangles
/// (0, 1, 2) and (2, 3, 0).
pub open spec fn quad_indices(base: int) -> Seq<u32> {
    seq![
        base as u32,
        (base + 1) as u32,
        (base + 2) as u32,
        (base + 2) as u32,
        (base + 3) as u32,
        base as u32,
    ]
}

/// The texture coordinates of a quad's four corners.
pub open spec fn quad_uvs() -> Seq<TexCoord> {
    seq![
        TexCoord { u: 1, v: 1 },
        TexCoord { u: 1, v: 0 },
        TexCoord { u: 0, v: 0 },
        TexCoord { u: 0, v: 1 },
    ]
}

/// One side of a voxel.
#[derive(Debug, Clone, Copy, PartialEq, Eq, Structural)]
pub enum Face {
    Top,
    Bottom,
    Front,
    Back,
    Right,
    Left,
}

pub open spec fn unit(x: int, y: int, z: int) -> IntVec3 {
    IntVec3 { x: x as i64, y: y as i64, z: z as i64 }
}

impl Face {
    /// The four unit-cube corners of this side, in winding order.
    pub open spec fn corners(self) -> Seq<IntVec3> {
        match self {
            Face::Top => seq![unit(0, 1, 0), unit(0, 1, 1), unit(1, 1, 1), unit(1, 1, 0)],
            Face::Bottom => seq![unit(0, 0, 0), unit(1, 0, 0), unit(1, 0, 1), unit(0, 0, 1)],
            Face::Front => seq![unit(0, 0, 0), unit(0, 1, 0), unit(1, 1, 0), unit(1, 0, 0)],
            Face::Back => seq![unit(1, 0, 1), unit(1, 1, 1), unit(0, 1, 1), unit(0, 0, 1)],
            Face::Right => seq![unit(0, 0, 1), unit(0, 1, 1), unit(0, 1, 0), unit(0, 0, 0)],
            Face::Left => seq![unit(1, 0, 0), unit(1, 1, 0), unit(1, 1, 1), unit(1, 0, 1)],
        }
    }

    /// The direction this side looks in.
    pub open spec fn normal(self) -> IntVec3 {
        match self {
            Face::Top => unit(0, 1, 0),
            Face::Bottom => unit(0, -1, 0),
            Face::Front => unit(0, 0, -1),
            Face::Back => unit(0, 0, 1),
            Face::Right => unit(-1, 0, 0),
            Face::Left => unit(1, 0, 0),
        }
    }
}

impl MeshModel {
    pub open spec fn empty() -> Self {
        MeshModel {
            positions: Seq::empty(),
            normals: Seq::empty(),
            uvs: Seq::empty(),
            texture_indices: Seq::empty(),
            indices: Seq::empty(),
        }
    }

    /// Normals and texture coordinates run parallel to the vertices, the
    /// vertex count fits the index type, every four vertices come with six
    /// indices, and every index names a vertex.
    pub open spec fn wf(self) -> bool {
        &&& self.normals.len() == self.positions.len()
        &&& self.uvs.len() == self.positions.len()
        &&& self.positions.len() <= u32::MAX
        &&& self.positions.len() % 4 == 0
        &&& self.indices.len() == 6 * (self.positions.len() / 4)
        &&& forall|i: int| 0 <= i < self.indices.len() ==> (#[trigger] self.indices[i]) < self.positions.len()
    }

    /// This mesh with one more quad: four corners, four copies of the normal,
    /// the fixed texture coordinates, six indices, and, where the voxel has a
    /// block type, four copies of its texture layer for that normal.
    pub open spec fn with_quad(
        self,
        corners: Seq<IntVec3>,
        normal: IntVec3,
        size: u32,
        position: IntVec3,
        block: Option<BlockType>,
    ) -> Self {
        MeshModel {
            positions: self.positions + seq![
                corner(corners[0], size, position),
                corner(corners[1], size, position),
                corner(corners[2], size, position),
                corner(corners[3], size, position),
            ],
            normals: self.normals + seq![normal, normal, normal, normal],
            uvs: self.uvs + quad_uvs(),
            texture_indices: match block {
                Some(b) => {
                    let layer = b.layers().layer_for(normal);
                    self.texture_indices + seq![layer, layer, layer, layer]
                },
                None => self.texture_indices,
            },
            indices: self.indices + quad_indices(self.positions.len() as int),
        }
    }

    /// This mesh with one more quad on the given side of a voxel.
    pub open spec fn with_face(
        self,
        face: Face,
        size: u32,
        position: IntVec3,
        block: Option<BlockType>,
    ) -> Self {
        self.with_quad(face.corners(), face.normal(), size, position, block)
    }
}

/// Collects quads one voxel side at a time.
#[derive(Debug)]
pub struct MeshBuilder {
    vertices: Vec<IntVec3>,
    indices: Vec<u32>,
    vertex_count: u32,
    normals: Vec<IntVec3>,
    uvs: Vec<TexCoord>,
    texture_indices: Vec<u32>,
    position: IntVec3,
    block_type: Option<BlockType>,
    settings: MeshBuilderSettings,
}

impl View for MeshBuilder {
    type V = MeshModel;

    closed spec fn view(&self) -> MeshModel {
        MeshModel {
            positions: self.vertices@,
            normals: self.normals@,
            uvs: self.uvs@,
            texture_indices: self.texture_indices@,
            indices: self.indices@,
        }
    }
}

fn scaled(unit: IntVec3, size: u32, position: IntVec3) -> (r: IntVec3)
    requires
        is_unit_corner(unit),
        i64::MIN <= position.x && position.x + size <= i64::MAX,
        i64::MIN <= position.y && position.y + size <= i64::MAX,
        i64::MIN <= position.z && position.z + size <= i64::MAX,
    ensures
        r == corner(unit, size, position),
{
    let s: i64 = size as i64;
    let x: i64 = if unit.x == 1 { s + position.x } else { position.x };
    let y: i64 = if unit.y == 1 { s + position.y } else { position.y };
    let z: i64 = if unit.z == 1 { s + position.z } else { position.z };
    IntVec3 { x, y, z }
}

impl MeshBuilder {
    pub closed spec fn wf(&self) -> bool {
        &&& self@.wf()
        &&& self.vertex_count == self.vertices@.len()
    }

    /// Where the next quad is placed.
    pub closed spec fn cursor(&self) -> IntVec3 {
        self.position
    }

    /// The block type whose texture layers the next quad gets.
    pub closed spec fn block(&self) -> Option<BlockType> {
        self.block_type
    }

    pub closed spec fn voxel_size(&self) -> u32 {
        self.settings.voxel_size
    }

    /// Whether one more quad fits: four more vertices can be indexed, and the
    /// far corner of the voxel at the cursor can be represented.
    pub open spec fn has_room(&self) -> bool {
        &&& self@.positions.len() + 4 <= u32::MAX
        &&& self.cursor().x + self.voxel_size() <= i64::MAX
        &&& self.cursor().y + self.voxel_size() <= i64::MAX
        &&& self.cursor().z + self.voxel_size() <= i64::MAX
    }

    pub fn new(settings: MeshBuilderSettings) -> (r: Self)
        ensures
            r.wf(),
            r@ == MeshModel::empty(),
            r.cursor() == (IntVec3 { x: 0, y: 0, z: 0 }),
            r.block().is_none(),
            r.voxel_size() == settings.voxel_size,
    {
        Self {
            settings,
            vertices: Vec::new(),
            indices: Vec::new(),
            vertex_count: 0,
            normals: Vec::new(),
            uvs: Vec::new(),
            texture_indices: Vec::new(),
            position: IntVec3 { x: 0, y: 0, z: 0 },
            block_type: None,
        }
    }

    /// Hands out the collected arrays unchanged.
    pub fn build(self) -> (mesh: Mesh)
        requires
            self.wf(),
        ensures
            mesh@ == self@,
            mesh@.wf(),
    {
        Mesh {
            positions: self.vertices,
            normals: self.normals,
            uvs: self.uvs,
            texture_indices: self.texture_indices,
            indices: self.indices,
        }
    }

    pub fn move_to(&mut self, position: IntVec3)
        ensures
            final(self)@ == old(self)@,
            final(self).wf() == old(self).wf(),
            final(self).cursor() == position,
            final(self).block() == old(self).block(),
            final(self).voxel_size() == old(self).voxel_size(),
    {
        self.position = position;
    }

    pub fn set_block_type(&mut self, block_type: Option<BlockType>)
        ensures
            final(self)@ == old(self)@,
            final(self).wf() == old(self).wf(),
            final(self).cursor() == old(self).cursor(),
            final(self).block() == block_type,
            final(self).voxel_size() == old(self).voxel_size(),
    {
        self.block_type = block_type;
    }

    fn add_face(&mut self, unit_vertices: [IntVec3; 4], normal: IntVec3)
        requires
            old(self).wf(),
            old(self).has_room(),
            normal.is_axis(),
            forall|k: int| 0 <= k < 4 ==> is_unit_corner(#[trigger] unit_vertices[k]),
        ensures
            final(self).wf(),
            final(self)@ == old(self)@.with_quad(
                unit_vertices@,
                normal,
                old(self).voxel_size(),
                old(self).cursor(),
                old(self).block(),
            ),
            final(self).cursor() == old(self).cursor(),
            final(self).block() == old(self).block(),
            final(self).voxel_size() == old(self).voxel_size(),
    {
        let size: u32 = self.settings.voxel_size;
        let position: IntVec3 = self.position;
        let base: u32 = self.vertex_count;
        assert(is_unit_corner(unit_vertices[0]) && is_unit_corner(unit_vertices[1])
            && is_unit_corner(unit_vertices[2]) && is_unit_corner(unit_vertices[3]));
        self.vertices.push(scaled(unit_vertices[0], size, position));
        self.vertices.push(scaled(unit_vertices[1], size, position));
        self.vertices.push(scaled(unit_vertices[2], size, position));
        self.vertices.push(scaled(unit_vertices[3], size, position));
        self.indices.push(base);
        self.indices.push(base + 1);
        self.indices.push(base + 2);
        self.indices.push(base + 2);
        self.indices.push(base + 3);
        self.indices.push(base);
        self.normals.push(normal);
        self.normals.push(normal);
        self.normals.push(normal);
        self.normals.push(normal);
        self.vertex_count = base + 4;
        self.uvs.push(TexCoord { u: 1, v: 1 });
        self.uvs.push(TexCoord { u: 1, v: 0 });
        self.uvs.push(TexCoord { u: 0, v: 0 });
        self.uvs.push(TexCoord { u: 0, v: 1 });
        match self.block_type {
            Some(block_type) => {
                let layer: u32 = block_type.texture_indices().index_by_normal(normal);
                self.texture_indices.push(layer);
                self.texture_indices.push(layer);
                self.texture_indices.push(layer);
                self.texture_indices.push(layer);
            },
            None => {},
        }
        proof {
            let goal = old(self)@.with_quad(
                unit_vertices@,
                normal,
                old(self).voxel_size(),
                old(self).cursor(),
                old(self).block(),
            );
            assert(self@.positions =~= goal.positions);
            assert(self@.normals =~= goal.normals);
            assert(self@.uvs =~= goal.uvs);
            assert(self@.texture_indices =~= goal.texture_indices);
            assert(self@.indices =~= goal.indices);
        }
    }

    pub fn face_top(&mut self)
        requires
            old(self).wf(),
            old(self).has_room(),
        ensures
            final(self).wf(),
            final(self)@ == old(self)@.with_face(
                Face::Top,
                old(self).voxel_size(),
                old(self).cursor(),
                old(self).block(),
            ),
            final(self).cursor() == old(self).cursor(),
            final(self).block() == old(self).block(),
            final(self).voxel_size() == old(self).voxel_size(),
    {
        let corners: [IntVec3; 4] = [
            IntVec3 { x: 0, y: 1, z: 0 },
            IntVec3 { x: 0, y: 1, z: 1 },
            IntVec3 { x: 1, y: 1, z: 1 },
            IntVec3 { x: 1, y: 1, z: 0 },
        ];
        assert(corners@ =~= Face::Top.corners());
        self.add_face(corners, IntVec3 { x: 0, y: 1, z: 0 });
    }

    pub fn face_bottom(&mut self)
        requires
            old(self).wf(),
            old(self).has_room(),
        ensures
            final(self).wf(),
            final(self)@ == old(self)@.with_face(
                Face::Bottom,
                old(self).voxel_size(),
                old(self).cursor(),
                old(self).block(),
            ),
            final(self).cursor() == old(self).cursor(),
            final(self).block() == old(self).block(),
            final(self).voxel_size() == old(self).voxel_size(),
    {
        let corners: [IntVec3; 4] = [
            IntVec3 { x: 0, y: 0, z: 0 },
            IntVec3 { x: 1, y: 0, z: 0 },
            IntVec3 { x: 1, y: 0, z: 1 },
            IntVec3 { x: 0, y: 0, z: 1 },
        ];
        assert(corners@ =~= Face::Bottom.corners());
        self.add_face(corners, IntVec3 { x: 0, y: -1, z: 0 });
    }

    pub fn face_front(&mut self)
        requires
            old(self).wf(),
            old(self).has_room(),
        ensures
            final(self).wf(),
            final(self)@ == old(self)@.with_face(
                Face::Front,
                old(self).voxel_size(),
                old(self).cursor(),
                old(self).block(),
            ),
            final(self).cursor() == old(self).cursor(),
            final(self).block() == old(self).block(),
            final(self).voxel_size() == old(self).voxel_size(),
    {
        let corners: [IntVec3; 4] = [
            IntVec3 { x: 0, y: 0, z: 0 },
            IntVec3 { x: 0, y: 1, z: 0 },
            IntVec3 { x: 1, y: 1, z: 0 },
            IntVec3 { x: 1, y: 0, z: 0 },
        ];
        assert(corners@ =~= Face::Front.corners());
        self.add_face(corners, IntVec3 { x: 0, y: 0, z: -1 });
    }

    pub fn face_back(&mut self)
        requires
            old(self).wf(),
            old(self).has_room(),
        ensures
            final(self).wf(),
            final(self)@ == old(self)@.with_face(
                Face::Back,
                old(self).voxel_size(),
                old(self).cursor(),
                old(self).block(),
            ),
            final(self).cursor() == old(self).cursor(),
            final(self).block() == old(self).block(),
            final(self).voxel_size() == old(self).voxel_size(),
    {
        let corners: [IntVec3; 4] = [
            IntVec3 { x: 1, y: 0, z: 1 },
            IntVec3 { x: 1, y: 1, z: 1 },
            IntVec3 { x: 0, y: 1, z: 1 },
            IntVec3 { x: 0, y: 0, z: 1 },
        ];
        assert(corners@ =~= Face::Back.corners());
        self.add_face(corners, IntVec3 { x: 0, y: 0, z: 1 });
    }

    pub fn face_right(&mut self)
        requires
            old(self).wf(),
            old(self).has_room(),
        ensures
            final(self).wf(),
            final(self)@ == old(self)@.with_face(
                Face::Right,
                old(self).voxel_size(),
                old(self).cursor(),
                old(self).block(),
            ),
            final(self).cursor() == old(self).cursor(),
            final(self).block() == old(self).block(),
            final(self).voxel_size() == old(self).voxel_size(),
    {
        let corners: [IntVec3; 4] = [
            IntVec3 { x: 0, y: 0, z: 1 },
            IntVec3 { x: 0, y: 1, z: 1 },
            IntVec3 { x: 0, y: 1, z: 0 },
            IntVec3 { x: 0, y: 0, z: 0 },
        ];
        assert(corners@ =~= Face::Right.corners());
        self.add_face(corners, IntVec3 { x: -1, y: 0, z: 0 });
    }

    pub fn face_left(&mut self)
        requires
            old(self).wf(),
            old(self).has_room(),
        ensures
            final(self).wf(),
            final(self)@ == old(self)@.with_face(
                Face::Left,
                old(self).voxel_size(),
                old(self).cursor(),
                old(self).block(),
            ),
            final(self).cursor() == old(self).cursor(),
            final(self).block() == old(self).block(),
            final(self).voxel_size() == old(self).voxel_size(),
    {
        let corners: [IntVec3; 4] = [
            IntVec3 { x: 1, y: 0, z: 0 },
            IntVec3 { x: 1, y: 1, z: 0 },
            IntVec3 { x: 1, y: 1, z: 1 },
            IntVec3 { x: 1, y: 0, z: 1 },
        ];
        assert(corners@ =~= Face::Left.corners());
        self.add_face(corners, IntVec3 { x: 1, y: 0, z: 0 });
    }
}

} // verus!
