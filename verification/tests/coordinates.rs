use voxel_terrain::coordinates::{align_axis, GridCoordinates, CHUNK_HEIGHT, CHUNK_WIDTH};
use voxel_terrain::utils::{ToIsize, ToUsize};

#[test]
fn aligning_snaps_to_the_lower_corner() {
    assert_eq!(CHUNK_WIDTH, 16);
    assert_eq!(CHUNK_HEIGHT, 256);
    assert_eq!(GridCoordinates::new(0, 0, 0).to_grid(), GridCoordinates::new(0, 0, 0));
    assert_eq!(GridCoordinates::new(15, 16, 17).to_grid(), GridCoordinates::new(0, 16, 16));
    assert_eq!(GridCoordinates::new(-1, -16, -17).to_grid(), GridCoordinates::new(-16, -16, -32));
    assert_eq!(GridCoordinates::new(31, 32, 33).to_grid(), GridCoordinates::new(16, 32, 32));
}

#[test]
fn aligning_is_idempotent_and_stays_within_one_chunk() {
    let mut values: Vec<isize> = (-70..70).collect();
    values.push(isize::MIN);
    values.push(isize::MIN + 1);
    values.push(isize::MIN + 17);
    values.push(isize::MAX);
    values.push(isize::MAX - 15);
    values.push(isize::MAX - 16);
    for v in values {
        let a = align_axis(v);
        assert_eq!(a.rem_euclid(CHUNK_WIDTH), 0);
        assert!(a <= v);
        assert!(v - a <= CHUNK_WIDTH - 1);
        assert_eq!(align_axis(a), a);
        let c = GridCoordinates::new(v, 3, -v.max(isize::MIN + 1)).to_grid();
        assert_eq!(c.to_grid(), c);
    }
}

#[test]
fn coordinates_add_and_subtract_by_axis() {
    let a = GridCoordinates::new(1, -2, 3);
    let b = GridCoordinates::new(10, 20, -30);
    assert_eq!(a.add(b), GridCoordinates::new(11, 18, -27));
    assert_eq!(a.sub(b), GridCoordinates::new(-9, -22, 33));
    assert_eq!(a.add_offset([-16, 0, 16]), GridCoordinates::new(-15, -2, 19));
    assert_eq!(a.to_array(), [1, -2, 3]);
    assert_eq!(GridCoordinates::from_array([7, 8, 9]), GridCoordinates::new(7, 8, 9));
}

#[test]
fn index_conversions_keep_the_value() {
    let signed: isize = 42;
    assert_eq!(signed.to_usize(), 42usize);
    let unsigned: usize = 17;
    assert_eq!(unsigned.to_isize(), 17usize);
    assert_eq!(0isize.to_usize(), 0usize);
}

#[test]
fn neighbours_exist_away_from_the_ends_of_the_range() {
    assert!(GridCoordinates::new(0, 0, 0).has_representable_neighbors());
    assert!(GridCoordinates::new(isize::MAX - 16, isize::MAX, isize::MIN + 16).has_representable_neighbors());
    assert!(!GridCoordinates::new(isize::MAX - 15, 0, 0).has_representable_neighbors());
    assert!(!GridCoordinates::new(0, 0, isize::MIN + 15).has_representable_neighbors());
}
