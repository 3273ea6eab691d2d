use voxel_terrain::block::BlockType;
use voxel_terrain::chunk::Chunk;
use voxel_terrain::coordinates::GridCoordinates;
use voxel_terrain::grid::ChunkGridInner;

#[test]
fn a_position_is_reserved_once() {
    let mut grid = ChunkGridInner::new();
    let c = GridCoordinates::new(16, 0, -32);
    assert!(!grid.contains_key(&c));
    assert!(grid.reserve(c));
    assert!(grid.contains_key(&c));
    assert!(!grid.reserve(c));
    assert!(!grid.reserve(c));
    assert!(grid.reserve(GridCoordinates::new(16, 0, -16)));
}

#[test]
fn a_committed_chunk_keeps_reservations_out() {
    let mut grid = ChunkGridInner::new();
    let c = GridCoordinates::new(0, 0, 0);
    assert!(grid.reserve(c));
    let mut chunk = Chunk::new(c);
    chunk.set(2, 3, 4, Some(BlockType::Stone));
    grid.commit(c, chunk);
    assert!(!grid.reserve(c));
    assert_eq!(grid.cell_is_solid(&c, [2, 3, 4]), Some(true));
    assert_eq!(grid.cell_is_solid(&c, [4, 3, 2]), Some(false));
}

#[test]
fn a_removed_position_can_be_reserved_again() {
    let mut grid = ChunkGridInner::new();
    let c = GridCoordinates::new(48, 0, 48);
    assert!(!grid.remove(&c));
    assert!(grid.reserve(c));
    assert!(grid.remove(&c));
    assert!(!grid.contains_key(&c));
    assert!(grid.reserve(c));
    grid.commit(c, Chunk::new(c));
    assert!(grid.remove(&c));
    assert_eq!(grid.cell_is_solid(&c, [0, 0, 0]), None);
    assert!(grid.reserve(c));
}

#[test]
fn entries_are_kept_apart_by_every_axis() {
    let mut grid = ChunkGridInner::new();
    assert!(grid.reserve(GridCoordinates::new(16, 0, 0)));
    assert!(grid.reserve(GridCoordinates::new(0, 16, 0)));
    assert!(grid.reserve(GridCoordinates::new(0, 0, 16)));
    assert!(!grid.contains_key(&GridCoordinates::new(0, 0, 0)));
    assert!(grid.remove(&GridCoordinates::new(0, 16, 0)));
    assert!(grid.contains_key(&GridCoordinates::new(16, 0, 0)));
    assert!(grid.contains_key(&GridCoordinates::new(0, 0, 16)));
}

#[test]
fn only_loaded_chunks_are_handed_out() {
    let mut grid = ChunkGridInner::new();
    let c = GridCoordinates::new(-16, 0, 32);
    assert!(grid.get(&c).is_none());
    assert!(grid.reserve(c));
    assert!(grid.get(&c).is_none());
    let mut chunk = Chunk::new(c);
    chunk.set(9, 200, 1, Some(BlockType::Grass));
    grid.commit(c, chunk);
    let copy = grid.get(&c).unwrap();
    assert_eq!(copy.coordinates(), c);
    assert_eq!(copy.get([9, 200, 1]), Some(BlockType::Grass));
    assert_eq!(copy.get([9, 201, 1]), None);
    assert!(grid.get(&GridCoordinates::new(-16, 0, 48)).is_none());
    assert!(grid.remove(&c));
    assert!(grid.get(&c).is_none());
}

#[test]
fn a_copied_chunk_is_independent() {
    let mut chunk = Chunk::new(GridCoordinates::new(0, 0, 0));
    chunk.set(1, 1, 1, Some(BlockType::Stone));
    let mut copy = chunk.clone();
    copy.set(1, 1, 1, None);
    copy.set(2, 2, 2, Some(BlockType::Grass));
    assert_eq!(chunk.get([1, 1, 1]), Some(BlockType::Stone));
    assert_eq!(chunk.get([2, 2, 2]), None);
    assert_eq!(copy.get([2, 2, 2]), Some(BlockType::Grass));
    assert_eq!(copy.coordinates(), chunk.coordinates());
}
