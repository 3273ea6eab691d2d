use vstd::prelude::*;
use crate::block::IntVec3;
use crate::mesh_builder::{Mesh, MeshModel};

verus! {

/// Three vertex indices.
#[derive(Debug, Clone, Copy, PartialEq, Eq, Structural)]
pub struct Triangle {
    pub a: u32,
    pub b: u32,
    pub c: u32,
}

/// A triangle mesh to collide with: the vertices of a mesh and its indices
/// in groups of three.
#[derive(Debug)]
pub struct CollisionShape {
    pub vertices: Vec<IntVec3>,
    pub triangles: Vec<Triangle>,
}

/// Whether the indices of a mesh form whole triangles over its vertices.
pub open spec fn is_triangle_list(m: MeshModel) -> bool {
    &&& m.indices.len() % 3 == 0
    &&& forall|i: int| 0 <= i < m.indices.len() ==> (#[trigger] m.indices[i]) < m.positions.len()
}

/// The indices of a mesh in groups of three.
pub open spec fn triangles_of(indices: Seq<u32>) -> Seq<Triangle> {
    Seq::new(
        (indices.len() / 3) as nat,
        |t: int| Triangle { a: indices[3 * t], b: indices[3 * t + 1], c: indices[3 * t + 2] },
    )
}

impl CollisionShape {
    /// Derives the collision shape of a mesh. A mesh whose indices do not
    /// form whole triangles over its vertices has none.
    pub fn from_mesh(mesh: &Mesh) -> (r: Option<CollisionShape>)
        ensures
            r.is_some() == is_triangle_list(mesh@),
            match r {
                Some(shape) => shape.vertices@ == mesh@.positions && shape.triangles@ == triangles_of(
                    mesh@.indices,
                ),
                None => true,
            },
    {
        let count: usize = mesh.indices.len();
        if count % 3 != 0 {
            return None;
        }
        let mut i: usize = 0;
        while i < count
            invariant
                i <= count,
                count == mesh.indices@.len(),
                forall|k: int| 0 <= k < i ==> (#[trigger] mesh.indices@[k]) < mesh.positions@.len(),
            decreases count - i,
        {
            if mesh.indices[i] as usize >= mesh.positions.len() {
                return None;
            }
            i = i + 1;
        }
        let mut vertices: Vec<IntVec3> = Vec::new();
        let mut v: usize = 0;
        while v < mesh.positions.len()
            invariant
                v <= mesh.positions@.len(),
                vertices@ == mesh.positions@.take(v as int),
            decreases mesh.positions@.len() - v,
        {
            vertices.push(mesh.positions[v]);
            assert(vertices@ =~= mesh.positions@.take(v + 1));
            v = v + 1;
        }
        assert(vertices@ =~= mesh.positions@);
        let mut triangles: Vec<Triangle> = Vec::new();
        let mut t: usize = 0;
        while t < count / 3
            invariant
                count == mesh.indices@.len(),
                count % 3 == 0,
                t <= count / 3,
                triangles@ =~= triangles_of(mesh.indices@).take(t as int),
            decreases count / 3 - t,
        {
            triangles.push(
                Triangle {
                    a: mesh.indices[3 * t],
                    b: mesh.indices[3 * t + 1],
                    c: mesh.indices[3 * t + 2],
                },
            );
            t = t + 1;
        }
        assert(triangles@ =~= triangles_of(mesh.indices@));
        Some(CollisionShape { vertices, triangles })
    }
}

/// A well-formed mesh, such as a builder hands out, has a collision shape.
pub proof fn lemma_sound_mesh_has_shape(m: MeshModel)
    requires
        m.wf(),
    ensures
        is_triangle_list(m),
{
}

} // verus!
