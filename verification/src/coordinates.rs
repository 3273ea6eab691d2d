use vstd::prelude::*;

verus! {

/// Width of a chunk along x and z, in voxels.
pub const CHUNK_WIDTH: isize = 16;

/// Height of a chunk along y, in voxels.
pub const CHUNK_HEIGHT: isize = 256;

/// A position on the voxel grid; one unit is one voxel.
#[derive(Debug, Clone, Copy, PartialEq, Eq, Structural, Hash)]
pub struct GridCoordinates {
    pub x: isize,
    pub y: isize,
    pub z: isize,
}

/// The largest multiple of the chunk width that is not above `v`.
pub open spec fn align_down(v: int) -> int {
    v - v % (CHUNK_WIDTH as int)
}

/// Whether `v` is a multiple of the chunk width.
pub open spec fn is_multiple_of_width(v: int) -> bool {
    v % (CHUNK_WIDTH as int) == 0
}

/// Floor alignment of one axis. Negative values move towards negative
/// infinity, so the result is the lower corner of the chunk that holds `v`.
pub fn align_axis(v: isize) -> (r: isize)
    ensures
        r as int == align_down(v as int),
        is_multiple_of_width(r as int),
        r <= v,
        v - r <= CHUNK_WIDTH - 1,
{
    if v >= 0 {
        let rem: isize = v % CHUNK_WIDTH;
        v - rem
    } else {
        let below: isize = -(v + 1);
        let rem: isize = below % CHUNK_WIDTH;
        let up: isize = CHUNK_WIDTH - 1 - rem;
        v - up
    }
}

impl GridCoordinates {
    pub fn new(x: isize, y: isize, z: isize) -> (r: Self)
        ensures
            r.x == x,
            r.y == y,
            r.z == z,
    {
        Self { x, y, z }
    }

    /// The lower corner of the chunk that holds this position.
    pub open spec fn aligned(self) -> Self {
        GridCoordinates {
            x: align_down(self.x as int) as isize,
            y: align_down(self.y as int) as isize,
            z: align_down(self.z as int) as isize,
        }
    }

    /// Whether every axis is a multiple of the chunk width.
    pub open spec fn is_aligned(self) -> bool {
        &&& is_multiple_of_width(self.x as int)
        &&& is_multiple_of_width(self.y as int)
        &&& is_multiple_of_width(self.z as int)
    }

    /// Snaps each axis down to the chunk's lower corner.
    pub fn to_grid(self) -> (r: Self)
        ensures
            r == self.aligned(),
            r.is_aligned(),
            r.x <= self.x && self.x - r.x <= CHUNK_WIDTH - 1,
            r.y <= self.y && self.y - r.y <= CHUNK_WIDTH - 1,
            r.z <= self.z && self.z - r.z <= CHUNK_WIDTH - 1,
    {
        Self { x: align_axis(self.x), y: align_axis(self.y), z: align_axis(self.z) }
    }

    pub open spec fn can_add(self, x: int, y: int, z: int) -> bool {
        &&& isize::MIN <= self.x + x <= isize::MAX
        &&& isize::MIN <= self.y + y <= isize::MAX
        &&& isize::MIN <= self.z + z <= isize::MAX
    }

    pub open spec fn plus(self, x: int, y: int, z: int) -> Self {
        GridCoordinates {
            x: (self.x + x) as isize,
            y: (self.y + y) as isize,
            z: (self.z + z) as isize,
        }
    }

    /// Componentwise sum.
    pub fn add(self, other: Self) -> (r: Self)
        requires
            self.can_add(other.x as int, other.y as int, other.z as int),
        ensures
            r == self.plus(other.x as int, other.y as int, other.z as int),
    {
        Self { x: self.x + other.x, y: self.y + other.y, z: self.z + other.z }
    }

    /// Componentwise difference.
    pub fn sub(self, other: Self) -> (r: Self)
        requires
            self.can_add(-(other.x as int), -(other.y as int), -(other.z as int)),
        ensures
            r == self.plus(-(other.x as int), -(other.y as int), -(other.z as int)),
    {
        Self { x: self.x - other.x, y: self.y - other.y, z: self.z - other.z }
    }

    /// Sum with a raw offset triple.
    pub fn add_offset(self, offset: [isize; 3]) -> (r: Self)
        requires
            self.can_add(offset[0] as int, offset[1] as int, offset[2] as int),
        ensures
            r == self.plus(offset[0] as int, offset[1] as int, offset[2] as int),
    {
        Self { x: self.x + offset[0], y: self.y + offset[1], z: self.z + offset[2] }
    }

    /// Whether the chunks beside the one at this position, along x and z,
    /// have positions that can be represented.
    pub open spec fn neighbors_representable(self) -> bool {
        &&& self.can_add(-CHUNK_WIDTH, 0, 0)
        &&& self.can_add(CHUNK_WIDTH as int, 0, 0)
        &&& self.can_add(0, 0, -CHUNK_WIDTH)
        &&& self.can_add(0, 0, CHUNK_WIDTH as int)
    }

    /// Tests whether the positions of the neighbouring chunks can be
    /// represented.
    pub fn has_representable_neighbors(self) -> (r: bool)
        ensures
            r == self.neighbors_representable(),
    {
        let low: isize = isize::MIN + CHUNK_WIDTH;
        let high: isize = isize::MAX - CHUNK_WIDTH;
        low <= self.x && self.x <= high && low <= self.z && self.z <= high
    }

    /// The three axes as a plain triple.
    pub fn to_array(self) -> (r: [isize; 3])
        ensures
            r[0] == self.x,
            r[1] == self.y,
            r[2] == self.z,
    {
        [self.x, self.y, self.z]
    }

    /// A position from a plain triple.
    pub fn from_array(a: [isize; 3]) -> (r: Self)
        ensures
            r.x == a[0],
            r.y == a[1],
            r.z == a[2],
    {
        Self { x: a[0], y: a[1], z: a[2] }
    }
}

/// Aligning is idempotent, and an aligned position is a multiple of the
/// chunk width on every axis.
pub proof fn lemma_aligned_idempotent(c: GridCoordinates)
    ensures
        c.aligned().aligned() == c.aligned(),
        c.aligned().is_aligned(),
{
    lemma_align_down_fits(c.x);
    lemma_align_down_fits(c.y);
    lemma_align_down_fits(c.z);
}

/// Aligning one axis stays inside the machine range and lands on a multiple
/// of the chunk width within one chunk below the input.
pub proof fn lemma_align_down_fits(v: isize)
    ensures
        isize::MIN <= align_down(v as int) <= v,
        v - align_down(v as int) <= CHUNK_WIDTH - 1,
        is_multiple_of_width(align_down(v as int)),
        align_down(align_down(v as int)) == align_down(v as int),
{
}

} // verus!
