use voxel_terrain::spatial_hash_grid::{is_within, IVec3, SpatialHashGrid};

fn point(x: f32, y: f32, z: f32) -> IVec3 {
    IVec3::new(x as i32, y as i32, z as i32)
}

fn sorted(mut ids: Vec<u64>) -> Vec<u64> {
    ids.sort();
    ids
}

#[test]
fn update_works() {
    let mut grid = SpatialHashGrid::new(5);
    let entity: u64 = 1;

    let position = point(1.0, 1.0, 1.0);
    grid.update(entity, position);
    assert_eq!(grid.get_in_cell(IVec3::new(0, 0, 0), entity), Some(position));

    let position = point(5.5, 5.5, 5.5);
    grid.update(entity, position);
    assert_eq!(grid.get_in_cell(IVec3::new(0, 0, 0), entity), None);
    assert_eq!(grid.get_in_cell(IVec3::new(1, 1, 1), entity), Some(position));
}

#[test]
fn get_nearby_works() {
    let mut grid = SpatialHashGrid::new(5);
    let entity_positions = [
        (0u64, point(0.0, 0.0, 0.0)),
        (1u64, point(5.0, 5.0, 5.0)),
        (2u64, point(10.0, 10.0, 10.0)),
    ];

    for (entity, position) in entity_positions {
        grid.update(entity, position);
    }

    let distance = (75.0f32).sqrt().ceil() as u32;
    let nearby = grid.get_nearby(entity_positions[0].1, distance);
    assert!(nearby.contains(&entity_positions[0].0));
    assert!(nearby.contains(&entity_positions[1].0));

    let nearby = grid.get_nearby(entity_positions[1].1, distance);
    assert!(nearby.contains(&entity_positions[0].0));
    assert!(nearby.contains(&entity_positions[1].0));
    assert!(nearby.contains(&entity_positions[2].0));
}

#[test]
fn get_nearby_leaves_out_what_is_too_far() {
    let mut grid = SpatialHashGrid::new(5);
    grid.update(0, IVec3::new(0, 0, 0));
    grid.update(1, IVec3::new(5, 5, 5));
    grid.update(2, IVec3::new(10, 10, 10));
    assert_eq!(sorted(grid.get_nearby(IVec3::new(0, 0, 0), 9)), vec![0, 1]);
    assert_eq!(sorted(grid.get_nearby(IVec3::new(0, 0, 0), 8)), vec![0]);
    assert_eq!(sorted(grid.get_nearby(IVec3::new(0, 0, 0), 0)), vec![0]);
    assert_eq!(sorted(grid.get_nearby(IVec3::new(100, 0, 0), 3)), Vec::<u64>::new());
}

#[test]
fn both_searches_agree() {
    let mut grid = SpatialHashGrid::new(4);
    let mut id: u64 = 0;
    for x in -6..6 {
        for y in -2..2 {
            for z in -6..6 {
                grid.update(id, IVec3::new(x * 3, y * 5, z * 3 - 1));
                id += 1;
            }
        }
    }
    for e in 0..40u64 {
        grid.update(e * 7, IVec3::new(e as i32 - 20, 2, 11 - e as i32));
    }
    for (center, distance) in [
        (IVec3::new(0, 0, 0), 0u32),
        (IVec3::new(0, 0, 0), 5),
        (IVec3::new(-7, 3, 2), 9),
        (IVec3::new(13, -9, -17), 12),
        (IVec3::new(1, 1, 1), 1000),
    ] {
        let fast = sorted(grid.get_nearby(center, distance));
        let slow = sorted(grid.get_nearby_naive(center, distance));
        assert_eq!(fast, slow);
        let mut unique = fast.clone();
        unique.dedup();
        assert_eq!(unique, fast);
    }
}

#[test]
fn negative_positions_round_down_to_their_cell() {
    let mut grid = SpatialHashGrid::new(5);
    grid.update(9, IVec3::new(-1, -5, -6));
    assert_eq!(grid.get_in_cell(IVec3::new(-1, -1, -2), 9), Some(IVec3::new(-1, -5, -6)));
    assert_eq!(grid.get_in_cell(IVec3::new(0, -1, -1), 9), None);
    assert_eq!(grid.cell_size(), 5);
}

#[test]
fn an_entity_is_in_one_cell_only() {
    let mut grid = SpatialHashGrid::new(5);
    grid.update(3, IVec3::new(1, 1, 1));
    grid.update(4, IVec3::new(2, 2, 2));
    grid.update(3, IVec3::new(2, 1, 1));
    assert_eq!(grid.get_in_cell(IVec3::new(0, 0, 0), 3), Some(IVec3::new(2, 1, 1)));
    grid.update(3, IVec3::new(21, 1, 1));
    assert_eq!(grid.get_in_cell(IVec3::new(0, 0, 0), 3), None);
    assert_eq!(grid.get_in_cell(IVec3::new(0, 0, 0), 4), Some(IVec3::new(2, 2, 2)));
    assert_eq!(grid.get_in_cell(IVec3::new(4, 0, 0), 3), Some(IVec3::new(21, 1, 1)));
    assert_eq!(sorted(grid.get_nearby_naive(IVec3::new(0, 0, 0), 100)), vec![3, 4]);
}

#[test]
fn distance_test_is_exact_at_the_extremes() {
    let low = IVec3::new(i32::MIN, i32::MIN, i32::MIN);
    let high = IVec3::new(i32::MAX, i32::MAX, i32::MAX);
    assert!(!is_within(low, high, u32::MAX));
    assert!(is_within(IVec3::new(i32::MIN, 0, 0), IVec3::new(i32::MAX, 0, 0), u32::MAX));
    assert!(is_within(IVec3::new(3, 4, 0), IVec3::new(0, 0, 0), 5));
    assert!(!is_within(IVec3::new(3, 4, 1), IVec3::new(0, 0, 0), 5));
}

#[test]
fn cells_at_the_ends_of_the_range() {
    let mut grid = SpatialHashGrid::new(7);
    let corner = IVec3::new(i32::MIN, i32::MAX, -7);
    grid.update(5, corner);
    assert_eq!(grid.get_in_cell(IVec3::new(-306783379, 306783378, -1), 5), Some(corner));
    assert_eq!(grid.get_in_cell(IVec3::new(-306783378, 306783378, -1), 5), None);
    assert_eq!(grid.get_nearby(corner, 0), vec![5]);
    assert_eq!(grid.get_nearby(IVec3::new(i32::MAX, i32::MIN, 0), u32::MAX), Vec::<u64>::new());
    assert_eq!(grid.get_nearby(IVec3::new(0, 0, 0), u32::MAX), vec![5]);

    let mut unit = SpatialHashGrid::new(1);
    unit.update(1, IVec3::new(-3, 0, 3));
    assert_eq!(unit.get_in_cell(IVec3::new(-3, 0, 3), 1), Some(IVec3::new(-3, 0, 3)));
    let mut huge = SpatialHashGrid::new(i32::MAX);
    huge.update(1, IVec3::new(-1, i32::MAX, i32::MAX - 1));
    assert_eq!(
        huge.get_in_cell(IVec3::new(-1, 1, 0), 1),
        Some(IVec3::new(-1, i32::MAX, i32::MAX - 1))
    );
    assert_eq!(huge.get_nearby(IVec3::new(0, i32::MAX, i32::MAX), 2), vec![1]);
    assert_eq!(huge.get_nearby(IVec3::new(0, i32::MAX, i32::MAX), 1), Vec::<u64>::new());
}
