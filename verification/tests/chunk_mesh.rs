use voxel_terrain::block::{BlockType, IntVec3, TextureIndices};
use voxel_terrain::chunk::Chunk;
use voxel_terrain::collision::{CollisionShape, Triangle};
use voxel_terrain::coordinates::GridCoordinates;
use voxel_terrain::grid::ChunkGridInner;
use voxel_terrain::mesh_builder::{Mesh, MeshBuilder, MeshBuilderSettings, TexCoord};

fn settings() -> MeshBuilderSettings {
    MeshBuilderSettings::default()
}

#[test]
fn texture_layers_follow_block_and_normal() {
    let grass = BlockType::Grass.texture_indices();
    assert_eq!(
        grass,
        TextureIndices { pos_x: 1, neg_x: 1, pos_y: 0, neg_y: 2, pos_z: 1, neg_z: 1 }
    );
    assert_eq!(grass.index_by_normal(IntVec3::new(0, 1, 0)), 0);
    assert_eq!(grass.index_by_normal(IntVec3::new(0, -1, 0)), 2);
    assert_eq!(grass.index_by_normal(IntVec3::new(1, 0, 0)), 1);
    assert_eq!(grass.index_by_normal(IntVec3::new(-1, 0, 0)), 1);
    assert_eq!(grass.index_by_normal(IntVec3::new(0, 0, 1)), 1);
    assert_eq!(grass.index_by_normal(IntVec3::new(0, 0, -1)), 1);
    let stone = BlockType::Stone.texture_indices();
    assert_eq!(stone.index_by_normal(IntVec3::new(0, 1, 0)), 3);
    assert_eq!(stone.index_by_normal(IntVec3::new(0, 0, -1)), 3);
}

#[test]
fn chunk_cells_are_set_and_read_one_by_one() {
    let mut chunk = Chunk::new(GridCoordinates::new(16, 0, -16));
    assert_eq!(chunk.coordinates(), GridCoordinates::new(16, 0, -16));
    assert!(chunk.is_air([0, 0, 0]));
    assert!(chunk.is_air([15, 255, 15]));
    chunk.set(15, 255, 15, Some(BlockType::Stone));
    chunk.set(1, 2, 3, Some(BlockType::Grass));
    assert_eq!(chunk.get([15, 255, 15]), Some(BlockType::Stone));
    assert_eq!(chunk.get([1, 2, 3]), Some(BlockType::Grass));
    assert_eq!(chunk.get([3, 2, 1]), None);
    assert!(chunk.is_solid([1, 2, 3]));
    assert!(!chunk.is_air([1, 2, 3]));
    chunk.set(1, 2, 3, None);
    assert!(chunk.is_air([1, 2, 3]));
    assert!(chunk.is_solid([15, 255, 15]));
}

#[test]
fn builder_emits_one_quad_per_face() {
    let mut builder = MeshBuilder::new(MeshBuilderSettings { voxel_size: 2 });
    builder.move_to(IntVec3::new(3, 4, 5));
    builder.set_block_type(Some(BlockType::Grass));
    builder.face_top();
    builder.set_block_type(Some(BlockType::Stone));
    builder.face_right();
    let mesh = builder.build();
    assert_eq!(
        mesh.positions,
        vec![
            IntVec3::new(3, 6, 5),
            IntVec3::new(3, 6, 7),
            IntVec3::new(5, 6, 7),
            IntVec3::new(5, 6, 5),
            IntVec3::new(3, 4, 7),
            IntVec3::new(3, 6, 7),
            IntVec3::new(3, 6, 5),
            IntVec3::new(3, 4, 5),
        ]
    );
    assert_eq!(mesh.indices, vec![0, 1, 2, 2, 3, 0, 4, 5, 6, 6, 7, 4]);
    assert_eq!(
        mesh.normals,
        vec![
            IntVec3::new(0, 1, 0),
            IntVec3::new(0, 1, 0),
            IntVec3::new(0, 1, 0),
            IntVec3::new(0, 1, 0),
            IntVec3::new(-1, 0, 0),
            IntVec3::new(-1, 0, 0),
            IntVec3::new(-1, 0, 0),
            IntVec3::new(-1, 0, 0),
        ]
    );
    let quad = [
        TexCoord { u: 1, v: 1 },
        TexCoord { u: 1, v: 0 },
        TexCoord { u: 0, v: 0 },
        TexCoord { u: 0, v: 1 },
    ];
    assert_eq!(mesh.uvs, [quad, quad].concat());
    assert_eq!(mesh.texture_indices, vec![0, 0, 0, 0, 3, 3, 3, 3]);
}

#[test]
fn builder_faces_have_their_corners_and_normals() {
    let mut builder = MeshBuilder::new(settings());
    builder.face_bottom();
    builder.face_front();
    builder.face_back();
    builder.face_left();
    let mesh = builder.build();
    assert_eq!(mesh.positions.len(), 16);
    assert_eq!(mesh.uvs.len(), 16);
    assert_eq!(mesh.indices.len(), 24);
    assert!(mesh.texture_indices.is_empty());
    assert_eq!(
        &mesh.positions[0..4],
        &[IntVec3::new(0, 0, 0), IntVec3::new(1, 0, 0), IntVec3::new(1, 0, 1), IntVec3::new(0, 0, 1)]
    );
    assert_eq!(
        &mesh.positions[4..8],
        &[IntVec3::new(0, 0, 0), IntVec3::new(0, 1, 0), IntVec3::new(1, 1, 0), IntVec3::new(1, 0, 0)]
    );
    assert_eq!(
        &mesh.positions[8..12],
        &[IntVec3::new(1, 0, 1), IntVec3::new(1, 1, 1), IntVec3::new(0, 1, 1), IntVec3::new(0, 0, 1)]
    );
    assert_eq!(
        &mesh.positions[12..16],
        &[IntVec3::new(1, 0, 0), IntVec3::new(1, 1, 0), IntVec3::new(1, 1, 1), IntVec3::new(1, 0, 1)]
    );
    assert_eq!(mesh.normals[0], IntVec3::new(0, -1, 0));
    assert_eq!(mesh.normals[4], IntVec3::new(0, 0, -1));
    assert_eq!(mesh.normals[8], IntVec3::new(0, 0, 1));
    assert_eq!(mesh.normals[12], IntVec3::new(1, 0, 0));
}

#[test]
fn empty_builder_gives_an_empty_mesh() {
    let mesh = MeshBuilder::new(settings()).build();
    assert!(mesh.positions.is_empty());
    assert!(mesh.normals.is_empty());
    assert!(mesh.uvs.is_empty());
    assert!(mesh.texture_indices.is_empty());
    assert!(mesh.indices.is_empty());
}

#[test]
fn lone_voxel_emits_six_quads() {
    let mut chunk = Chunk::new(GridCoordinates::new(0, 0, 0));
    chunk.set(5, 7, 9, Some(BlockType::Stone));
    let grid = ChunkGridInner::new();
    let mesh = chunk.compute_mesh(settings(), &grid);
    assert_eq!(mesh.positions.len(), 24);
    assert_eq!(mesh.normals.len(), 24);
    assert_eq!(mesh.uvs.len(), 24);
    assert_eq!(mesh.texture_indices, vec![3; 24]);
    assert_eq!(mesh.indices.len(), 36);
    assert_eq!(&mesh.indices[30..36], &[20, 21, 22, 22, 23, 20]);
    let faces: Vec<IntVec3> = (0..6).map(|f| mesh.normals[f * 4]).collect();
    assert_eq!(
        faces,
        vec![
            IntVec3::new(0, 1, 0),
            IntVec3::new(0, -1, 0),
            IntVec3::new(-1, 0, 0),
            IntVec3::new(1, 0, 0),
            IntVec3::new(0, 0, -1),
            IntVec3::new(0, 0, 1),
        ]
    );
    assert_eq!(mesh.positions[0], IntVec3::new(5, 8, 9));
}

#[test]
fn enclosed_voxel_emits_nothing() {
    let mut chunk = Chunk::new(GridCoordinates::new(0, 0, 0));
    for x in 4..7 {
        for y in 4..7 {
            for z in 4..7 {
                chunk.set(x, y, z, Some(BlockType::Stone));
            }
        }
    }
    let grid = ChunkGridInner::new();
    let mesh = chunk.compute_mesh(settings(), &grid);
    assert_eq!(mesh.positions.len(), 54 * 4);
    assert_eq!(mesh.indices.len(), 54 * 6);
    let inner = IntVec3::new(5, 5, 5);
    let mut quads_at_center = 0;
    for quad in 0..54 {
        let corners = &mesh.positions[quad * 4..quad * 4 + 4];
        let low = corners.iter().fold(corners[0], |a, b| {
            IntVec3::new(a.x.min(b.x), a.y.min(b.y), a.z.min(b.z))
        });
        let normal = mesh.normals[quad * 4];
        let owner = IntVec3::new(
            low.x - normal.x.max(0),
            low.y - normal.y.max(0),
            low.z - normal.z.max(0),
        );
        if owner == inner {
            quads_at_center += 1;
        }
    }
    assert_eq!(quads_at_center, 0);
}

#[test]
fn boundary_faces_wait_for_the_neighbour() {
    let mut chunk = Chunk::new(GridCoordinates::new(0, 0, 0));
    chunk.set(0, 10, 8, Some(BlockType::Grass));
    let mut grid = ChunkGridInner::new();

    let mesh = chunk.compute_mesh(settings(), &grid);
    assert_eq!(mesh.positions.len(), 20);
    assert!(!mesh.normals.contains(&IntVec3::new(-1, 0, 0)));

    assert!(grid.reserve(GridCoordinates::new(-16, 0, 0)));
    let mesh = chunk.compute_mesh(settings(), &grid);
    assert_eq!(mesh.positions.len(), 20);

    grid.commit(GridCoordinates::new(-16, 0, 0), Chunk::new(GridCoordinates::new(-16, 0, 0)));
    let mesh = chunk.compute_mesh(settings(), &grid);
    assert_eq!(mesh.positions.len(), 24);
    assert_eq!(mesh.texture_indices[0], 0);
    assert_eq!(mesh.texture_indices[4], 2);
    assert_eq!(mesh.texture_indices[8], 1);

    let mut solid = Chunk::new(GridCoordinates::new(-16, 0, 0));
    solid.set(15, 10, 8, Some(BlockType::Stone));
    grid.commit(GridCoordinates::new(-16, 0, 0), solid);
    let mesh = chunk.compute_mesh(settings(), &grid);
    assert_eq!(mesh.positions.len(), 20);
}

#[test]
fn top_and_bottom_layers_are_always_exposed() {
    let mut chunk = Chunk::new(GridCoordinates::new(0, 0, 0));
    chunk.set(3, 0, 3, Some(BlockType::Stone));
    chunk.set(3, 255, 3, Some(BlockType::Stone));
    let grid = ChunkGridInner::new();
    let mesh = chunk.compute_mesh(settings(), &grid);
    assert_eq!(mesh.positions.len(), 48);
}

#[test]
fn store_meshes_then_holds_the_chunk() {
    let mut grid = ChunkGridInner::new();
    let at = GridCoordinates::new(32, 0, 48);
    assert!(grid.reserve(at));
    assert_eq!(grid.cell_is_solid(&at, [1, 1, 1]), None);
    let mut chunk = Chunk::new(at);
    chunk.set(1, 1, 1, Some(BlockType::Grass));
    let mesh = grid.compute_mesh(at, chunk, settings());
    assert_eq!(mesh.positions.len(), 24);
    assert!(grid.contains_key(&at));
    assert_eq!(grid.cell_is_solid(&at, [1, 1, 1]), Some(true));
    assert_eq!(grid.cell_is_solid(&at, [1, 2, 1]), Some(false));
}

#[test]
fn collision_shape_groups_the_indices() {
    let mut builder = MeshBuilder::new(settings());
    builder.face_top();
    let mesh = builder.build();
    let shape = CollisionShape::from_mesh(&mesh).unwrap();
    assert_eq!(shape.vertices, mesh.positions);
    assert_eq!(
        shape.triangles,
        vec![Triangle { a: 0, b: 1, c: 2 }, Triangle { a: 2, b: 3, c: 0 }]
    );
}

#[test]
fn malformed_meshes_have_no_collision_shape() {
    let vertex = IntVec3::new(0, 0, 0);
    let dangling = Mesh {
        positions: vec![vertex, vertex, vertex],
        normals: vec![vertex, vertex, vertex],
        uvs: vec![],
        texture_indices: vec![],
        indices: vec![0, 1, 3],
    };
    assert!(CollisionShape::from_mesh(&dangling).is_none());
    let ragged = Mesh {
        positions: vec![vertex, vertex, vertex],
        normals: vec![vertex, vertex, vertex],
        uvs: vec![],
        texture_indices: vec![],
        indices: vec![0, 1, 2, 0],
    };
    assert!(CollisionShape::from_mesh(&ragged).is_none());
    let empty = Mesh {
        positions: vec![],
        normals: vec![],
        uvs: vec![],
        texture_indices: vec![],
        indices: vec![],
    };
    let shape = CollisionShape::from_mesh(&empty).unwrap();
    assert!(shape.vertices.is_empty() && shape.triangles.is_empty());
}
