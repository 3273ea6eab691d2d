use voxel_terrain::block::BlockType;
use voxel_terrain::chunk_data_generation_future::{ChunkDataGenerationFuture, PollResult};
use voxel_terrain::coordinates::GridCoordinates;
use voxel_terrain::generator::{
    ChunkGenerator, ContinentalGenerator, TerrainGenerator, CHUNK_COLUMNS, SAMPLE_UNIT,
};
use voxel_terrain::spline::{ControlPoint, HeightSpline};
use voxel_terrain::grid::ChunkGridInner;
use voxel_terrain::mesh_builder::MeshBuilderSettings;

fn flat(sample: i32) -> Vec<i32> {
    vec![sample; CHUNK_COLUMNS]
}

fn fractal() -> TerrainGenerator {
    TerrainGenerator::Fractal(ChunkGenerator::default())
}

fn spline() -> HeightSpline {
    HeightSpline::new(
        64,
        vec![
            ControlPoint { t: -1000, height: 0 },
            ControlPoint { t: 0, height: 10 },
            ControlPoint { t: 1000, height: 50 },
        ],
    )
    .unwrap()
}

#[test]
fn heights_are_half_the_scale_times_the_sample() {
    let generator = ChunkGenerator::default();
    assert_eq!(generator.scale(), 100);
    assert_eq!(SAMPLE_UNIT, 1000);
    assert_eq!(generator.height_of(0), 0);
    assert_eq!(generator.height_of(1000), 50);
    assert_eq!(generator.height_of(-1000), 50);
    assert_eq!(generator.height_of(2000), 100);
    assert_eq!(generator.height_of(30), 2);
    assert_eq!(generator.height_of(29), 1);
    assert_eq!(generator.height_of(9), 0);
    assert_eq!(generator.height_of(10), 1);
    let mut generator = generator;
    generator.set_scale(7);
    assert_eq!(generator.scale(), 7);
    assert_eq!(generator.height_of(1000), 4);
    generator.set_scale(u32::MAX);
    assert_eq!(generator.height_of(i32::MIN), 4611686017353646);
}

#[test]
fn columns_are_stone_capped_with_grass() {
    let generator = ChunkGenerator::default();
    let mut samples = flat(0);
    samples[3 * 16 + 5] = 200;
    samples[15 * 16 + 15] = -5100;
    assert!(generator.accepts(&samples));
    let chunk = generator.generate_chunk([32, 0, -16], &samples);
    assert_eq!(chunk.coordinates(), GridCoordinates::new(32, 0, -16));
    assert_eq!(chunk.get([0, 0, 0]), Some(BlockType::Grass));
    assert_eq!(chunk.get([0, 1, 0]), None);
    for y in 0..10 {
        assert_eq!(chunk.get([3, y, 5]), Some(BlockType::Stone));
    }
    assert_eq!(chunk.get([3, 10, 5]), Some(BlockType::Grass));
    assert_eq!(chunk.get([3, 11, 5]), None);
    assert_eq!(chunk.get([5, 1, 3]), None);
    assert_eq!(chunk.get([15, 254, 15]), Some(BlockType::Stone));
    assert_eq!(chunk.get([15, 255, 15]), Some(BlockType::Grass));
}

#[test]
fn columns_that_leave_the_chunk_are_not_accepted() {
    let generator = ChunkGenerator::default();
    let mut samples = flat(10);
    assert!(generator.accepts(&samples));
    samples[77] = 5110;
    assert!(!generator.accepts(&samples));
    samples[77] = 5109;
    assert!(generator.accepts(&samples));
    assert!(!generator.accepts(&vec![0; CHUNK_COLUMNS - 1]));
    assert!(!generator.accepts(&vec![0; CHUNK_COLUMNS + 1]));
}

#[test]
fn generation_is_repeatable() {
    let mut generator = ChunkGenerator::default();
    generator.set_scale(40);
    let samples: Vec<i32> = (0..CHUNK_COLUMNS as i32).map(|i| (i * 37) % 1900 - 950).collect();
    let first = generator.generate_chunk([-16, 0, 16], &samples);
    let second = generator.generate_chunk([-16, 0, 16], &samples);
    for x in 0..16 {
        for y in 0..256 {
            for z in 0..16 {
                assert_eq!(first.get([x, y, z]), second.get([x, y, z]));
            }
        }
    }
}

#[test]
fn an_evicted_chunk_is_generated_again_with_the_same_content() {
    let generator = ChunkGenerator::default();
    let samples: Vec<i32> = (0..CHUNK_COLUMNS as i32).map(|i| i * 3).collect();
    let at = GridCoordinates::new(16, 0, 16);
    let mut grid = ChunkGridInner::new();

    assert!(grid.reserve(at));
    let first = generator.generate_chunk(at.to_array(), &samples);
    let first_mesh = grid.compute_mesh(at, first, MeshBuilderSettings::default());
    let before: Vec<Option<bool>> =
        (0..256).map(|y| grid.cell_is_solid(&at, [7, y, 9])).collect();

    assert!(grid.remove(&at));
    assert!(grid.reserve(at));
    let second = generator.generate_chunk(at.to_array(), &samples);
    let second_mesh = grid.compute_mesh(at, second, MeshBuilderSettings::default());
    let after: Vec<Option<bool>> =
        (0..256).map(|y| grid.cell_is_solid(&at, [7, y, 9])).collect();

    assert_eq!(before, after);
    assert_eq!(first_mesh.positions, second_mesh.positions);
    assert_eq!(first_mesh.indices, second_mesh.indices);
    assert_eq!(first_mesh.texture_indices, second_mesh.texture_indices);
}

#[test]
fn a_task_takes_four_polls() {
    let at = GridCoordinates::new(0, 0, 0);
    let mut grid = ChunkGridInner::new();
    assert!(grid.reserve(at));
    let mut task = ChunkDataGenerationFuture::new(
        at,
        fractal(),
        flat(0),
        MeshBuilderSettings::default(),
    )
    .unwrap();
    assert_eq!(task.target(), at);
    assert!(!task.is_finished());

    assert!(matches!(task.poll(&mut grid), PollResult::Pending));
    assert_eq!(grid.cell_is_solid(&at, [0, 0, 0]), None);

    assert!(matches!(task.poll(&mut grid), PollResult::Pending));
    assert_eq!(grid.cell_is_solid(&at, [0, 0, 0]), Some(true));
    assert_eq!(grid.cell_is_solid(&at, [0, 1, 0]), Some(false));

    assert!(matches!(task.poll(&mut grid), PollResult::Pending));
    assert!(!task.is_finished());

    match task.poll(&mut grid) {
        PollResult::Ready(data) => {
            assert_eq!(data.mesh.positions.len(), 16 * 16 * 2 * 4);
            assert_eq!(data.mesh.indices.len(), 16 * 16 * 2 * 6);
            assert_eq!(data.collider.vertices, data.mesh.positions);
            assert_eq!(data.collider.triangles.len(), 16 * 16 * 2 * 2);
        }
        other => panic!("unexpected result: {:?}", other),
    }
    assert!(task.is_finished());
    assert!(grid.contains_key(&at));
}

#[test]
fn tasks_are_made_for_valid_inputs_only() {
    let settings = MeshBuilderSettings::default();
    assert!(ChunkDataGenerationFuture::new(GridCoordinates::new(0, 0, 0), fractal(), flat(6000), settings).is_none());
    assert!(ChunkDataGenerationFuture::new(GridCoordinates::new(0, 0, 0), fractal(), vec![0; 3], settings).is_none());
    assert!(ChunkDataGenerationFuture::new(GridCoordinates::new(isize::MAX - 15, 0, 0), fractal(), flat(0), settings).is_none());
    assert!(ChunkDataGenerationFuture::new(GridCoordinates::new(0, 0, isize::MIN), fractal(), flat(0), settings).is_none());
    assert!(ChunkDataGenerationFuture::new(GridCoordinates::new(isize::MAX - 16, 77, isize::MIN + 16), fractal(), flat(0), settings).is_some());
}

#[test]
fn a_failed_stage_releases_the_reservation() {
    let at = GridCoordinates::new(16, 0, 0);
    let mut grid = ChunkGridInner::new();
    assert!(grid.reserve(at));
    let corner = voxel_terrain::block::IntVec3::new(0, 0, 0);
    let malformed = voxel_terrain::mesh_builder::Mesh {
        positions: vec![corner, corner, corner],
        normals: vec![corner, corner, corner],
        uvs: vec![],
        texture_indices: vec![],
        indices: vec![0, 1, 9],
    };
    let mut task = ChunkDataGenerationFuture::with_mesh(
        at,
        fractal(),
        flat(0),
        MeshBuilderSettings::default(),
        malformed,
    )
    .unwrap();
    assert!(matches!(task.poll(&mut grid), PollResult::Failed));
    assert!(task.is_finished());
    assert!(!grid.contains_key(&at));
    assert!(grid.reserve(at));
}

#[test]
fn a_task_with_a_sound_mesh_goes_on() {
    let at = GridCoordinates::new(16, 0, 0);
    let mut grid = ChunkGridInner::new();
    assert!(grid.reserve(at));
    let mut builder = voxel_terrain::mesh_builder::MeshBuilder::new(MeshBuilderSettings::default());
    builder.face_top();
    let mut task = ChunkDataGenerationFuture::with_mesh(
        at,
        fractal(),
        flat(0),
        MeshBuilderSettings::default(),
        builder.build(),
    )
    .unwrap();
    assert!(matches!(task.poll(&mut grid), PollResult::Pending));
    match task.poll(&mut grid) {
        PollResult::Ready(data) => {
            assert_eq!(data.mesh.indices, vec![0, 1, 2, 2, 3, 0]);
            assert_eq!(data.collider.triangles.len(), 2);
        }
        other => panic!("unexpected result: {:?}", other),
    }
    assert!(grid.contains_key(&at));
    assert!(ChunkDataGenerationFuture::with_mesh(
        at,
        fractal(),
        flat(9000),
        MeshBuilderSettings::default(),
        voxel_terrain::mesh_builder::MeshBuilder::new(MeshBuilderSettings::default()).build(),
    )
    .is_none());
}

#[test]
fn a_spline_is_linear_between_its_points() {
    let spline = spline();
    assert_eq!(spline.height_at(i32::MIN), 64);
    assert_eq!(spline.height_at(-2000), 64);
    assert_eq!(spline.height_at(-1000), 64);
    assert_eq!(spline.height_at(-500), 69);
    assert_eq!(spline.height_at(-1), 73);
    assert_eq!(spline.height_at(0), 74);
    assert_eq!(spline.height_at(250), 84);
    assert_eq!(spline.height_at(999), 113);
    assert_eq!(spline.height_at(1000), 114);
    assert_eq!(spline.height_at(5000), 114);
    assert_eq!(spline.height_at(i32::MAX), 114);
    let single = HeightSpline::new(7, vec![ControlPoint { t: 3, height: 5 }]).unwrap();
    assert_eq!(single.height_at(-9), 12);
    assert_eq!(single.height_at(3), 12);
    assert_eq!(single.height_at(9), 12);
    let wide = HeightSpline::new(
        u32::MAX,
        vec![
            ControlPoint { t: i32::MIN, height: 0 },
            ControlPoint { t: i32::MAX, height: u32::MAX },
        ],
    )
    .unwrap();
    assert_eq!(wide.height_at(i32::MAX), 2 * (u32::MAX as u64));
    assert_eq!(wide.height_at(i32::MAX - 1), 2 * (u32::MAX as u64) - 1);
}

#[test]
fn a_spline_never_falls() {
    let spline = spline();
    let mut last = spline.height_at(-1500);
    for t in -1500..1500 {
        let height = spline.height_at(t);
        assert!(height >= last);
        last = height;
    }
}

#[test]
fn splines_need_ordered_points() {
    assert!(HeightSpline::new(0, vec![]).is_none());
    let p = |t: i32, height: u32| ControlPoint { t, height };
    assert!(HeightSpline::new(0, vec![p(0, 1), p(0, 2)]).is_none());
    assert!(HeightSpline::new(0, vec![p(1, 1), p(0, 2)]).is_none());
    assert!(HeightSpline::new(0, vec![p(0, 2), p(1, 1)]).is_none());
    assert!(HeightSpline::new(0, vec![p(0, 1), p(1, 1), p(2, 0)]).is_none());
    assert!(HeightSpline::new(0, vec![p(0, 1), p(1, 1), p(2, 1)]).is_some());
}

#[test]
fn continental_terrain_follows_the_spline() {
    let generator = ContinentalGenerator::new(spline());
    assert_eq!(generator.height_of(250), 84);
    let mut samples = flat(-1000);
    samples[2 * 16 + 9] = 500;
    assert!(generator.accepts(&samples));
    let chunk = generator.generate_chunk([0, 0, 16], &samples);
    assert_eq!(chunk.coordinates(), GridCoordinates::new(0, 0, 16));
    assert_eq!(chunk.get([0, 63, 0]), Some(BlockType::Stone));
    assert_eq!(chunk.get([0, 64, 0]), Some(BlockType::Grass));
    assert_eq!(chunk.get([0, 65, 0]), None);
    assert_eq!(chunk.get([2, 93, 9]), Some(BlockType::Stone));
    assert_eq!(chunk.get([2, 94, 9]), Some(BlockType::Grass));
    assert_eq!(chunk.get([2, 95, 9]), None);
    assert_eq!(chunk.get([9, 94, 2]), None);

    let tall = ContinentalGenerator::new(
        HeightSpline::new(250, vec![ControlPoint { t: 0, height: 0 }, ControlPoint { t: 10, height: 10 }]).unwrap(),
    );
    assert!(tall.accepts(&flat(5)));
    assert!(!tall.accepts(&flat(6)));
    assert!(!tall.accepts(&vec![0; 7]));

    let mut tuned = ContinentalGenerator::new(spline());
    tuned.set_spline(HeightSpline::new(1, vec![ControlPoint { t: 0, height: 1 }]).unwrap());
    assert_eq!(tuned.height_of(123), 2);
}

#[test]
fn a_task_generates_by_its_strategy() {
    let at = GridCoordinates::new(0, 0, 0);
    let mut grid = ChunkGridInner::new();
    assert!(grid.reserve(at));
    let generator = TerrainGenerator::Continental(ContinentalGenerator::new(spline()));
    assert!(generator.accepts(&flat(0)));
    let whole = generator.generate_chunk([0, 0, 0], &flat(0));
    assert_eq!(whole.get([4, 74, 4]), Some(BlockType::Grass));
    let mut task = ChunkDataGenerationFuture::new(at, generator, flat(0), MeshBuilderSettings::default()).unwrap();
    assert!(matches!(task.poll(&mut grid), PollResult::Pending));
    assert!(matches!(task.poll(&mut grid), PollResult::Pending));
    assert_eq!(grid.cell_is_solid(&at, [4, 74, 4]), Some(true));
    assert_eq!(grid.cell_is_solid(&at, [4, 75, 4]), Some(false));
    assert!(!fractal().accepts(&flat(6000)));
}
