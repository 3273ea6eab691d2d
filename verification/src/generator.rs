use vstd::prelude::*;
use crate::block::BlockType;
use crate::chunk::{cell_index, in_chunk, Chunk, CHUNK_CELLS};
use crate::coordinates::{GridCoordinates, CHUNK_HEIGHT, CHUNK_WIDTH};
use crate::grid::{after_reserve, reserve_succeeds, ChunkEntries};
use crate::spline::{spline_height, HeightSpline};

verus! {

/// Number of columns in a chunk.
pub const CHUNK_COLUMNS: usize = 256;

/// Noise samples are fixed-point numbers with this many units to one.
pub const SAMPLE_UNIT: u64 = 1000;

/// Where the sample of a column is stored: x-major, then z.
pub open spec fn column_index(x: int, z: int) -> int {
    x * CHUNK_WIDTH + z
}

/// The terrain height of a column under the fractal strategy: half the
/// scale times the magnitude of the noise sample, rounded to the nearest
/// integer, halves upwards.
pub open spec fn column_height(sample: int, scale: int) -> int {
    let magnitude = if sample < 0 { -sample } else { sample };
    (magnitude * scale + SAMPLE_UNIT) / (2 * SAMPLE_UNIT)
}

/// What a column of height `height` holds at level `y`: stone below the
/// height, grass at it, nothing above.
pub open spec fn generated_cell(height: int, y: int) -> Option<BlockType> {
    if y < height {
        Some(BlockType::Stone)
    } else if y == height {
        Some(BlockType::Grass)
    } else {
        None
    }
}

/// Whether there is a height for every column and each lies inside a chunk.
pub open spec fn heights_in_chunk(heights: Seq<int>) -> bool {
    &&& heights.len() == CHUNK_COLUMNS
    &&& forall|i: int| 0 <= i < heights.len() ==> 0 <= #[trigger] heights[i] < CHUNK_HEIGHT
}

/// Whether `chunk` is the terrain of the given position and column heights.
pub open spec fn is_terrain(chunk: Chunk, position: GridCoordinates, heights: Seq<int>) -> bool {
    &&& chunk.wf()
    &&& chunk.position() == position
    &&& forall|x: int, y: int, z: int|
        in_chunk(x, y, z) ==> #[trigger] chunk.cell(x, y, z) == generated_cell(
            heights[column_index(x, z)],
            y,
        )
}

/// The column heights the fractal strategy gives for the samples of a chunk.
pub open spec fn fractal_heights(samples: Seq<i32>, scale: u32) -> Seq<int> {
    Seq::new(samples.len(), |i: int| column_height(samples[i] as int, scale as int))
}

/// The column heights a spline gives for the samples of a chunk.
pub open spec fn spline_heights(samples: Seq<i32>, spline: HeightSpline) -> Seq<int> {
    Seq::new(samples.len(), |i: int| spline_height(spline.base(), spline.points(), samples[i] as int))
}

/// Builds the chunk of the given column heights: each column is stone below
/// its height and capped with grass.
fn fill_columns(position: [isize; 3], heights: &Vec<u64>) -> (chunk: Chunk)
    requires
        heights_in_chunk(as_ints(heights@)),
    ensures
        is_terrain(
            chunk,
            GridCoordinates { x: position[0], y: position[1], z: position[2] },
            as_ints(heights@),
        ),
{
    proof {
        assert(as_ints(heights@).len() == heights@.len());
        assert forall|i: int| 0 <= i < heights@.len() implies (#[trigger] heights@[i]) < CHUNK_HEIGHT by {
            assert(as_ints(heights@)[i] == heights@[i] as int);
        }
    }
    let mut chunk = Chunk::new(GridCoordinates::from_array(position));
    let mut x: usize = 0;
    while x < 16
        invariant
            x <= CHUNK_WIDTH,
            heights@.len() == CHUNK_COLUMNS,
            forall|i: int| 0 <= i < heights@.len() ==> (#[trigger] heights@[i]) < CHUNK_HEIGHT,
            chunk.wf(),
            chunk.position() == (GridCoordinates { x: position[0], y: position[1], z: position[2] }),
            forall|a: int, b: int, c: int|
                in_chunk(a, b, c) ==> #[trigger] chunk.cell(a, b, c) == (if a < x {
                    generated_cell(heights@[column_index(a, c)] as int, b)
                } else {
                    None
                }),
        decreases CHUNK_WIDTH - x,
    {
        let mut z: usize = 0;
        while z < 16
            invariant
                x < CHUNK_WIDTH,
                z <= CHUNK_WIDTH,
                heights@.len() == CHUNK_COLUMNS,
                forall|i: int| 0 <= i < heights@.len() ==> (#[trigger] heights@[i]) < CHUNK_HEIGHT,
                chunk.wf(),
                chunk.position() == (GridCoordinates { x: position[0], y: position[1], z: position[2] }),
                forall|a: int, b: int, c: int|
                    in_chunk(a, b, c) ==> #[trigger] chunk.cell(a, b, c) == (if a < x || (a == x && c < z) {
                        generated_cell(heights@[column_index(a, c)] as int, b)
                    } else {
                        None
                    }),
            decreases CHUNK_WIDTH - z,
        {
            let top: usize = heights[x * 16 + z] as usize;
            let mut y: usize = 0;
            while y < top
                invariant
                    x < CHUNK_WIDTH,
                    z < CHUNK_WIDTH,
                    y <= top < CHUNK_HEIGHT,
                    heights@.len() == CHUNK_COLUMNS,
                    top == heights@[column_index(x as int, z as int)],
                    chunk.wf(),
                    chunk.position() == (GridCoordinates { x: position[0], y: position[1], z: position[2] }),
                    forall|a: int, b: int, c: int|
                        in_chunk(a, b, c) ==> #[trigger] chunk.cell(a, b, c) == (if a < x || (a == x && c < z) {
                            generated_cell(heights@[column_index(a, c)] as int, b)
                        } else if a == x && c == z && b < y {
                            Some(BlockType::Stone)
                        } else {
                            None
                        }),
                decreases top - y,
            {
                let ghost before = chunk;
                chunk.set(x, y, z, Some(BlockType::Stone));
                proof {
                    assert forall|a: int, b: int, c: int| in_chunk(a, b, c) implies #[trigger] chunk.cell(a, b, c)
                        == (if a == x && b == y && c == z {
                        Some(BlockType::Stone)
                    } else {
                        before.cell(a, b, c)
                    }) by {}
                }
                y = y + 1;
            }
            let ghost before = chunk;
            chunk.set(x, top, z, Some(BlockType::Grass));
            proof {
                assert forall|a: int, b: int, c: int| in_chunk(a, b, c) implies #[trigger] chunk.cell(a, b, c)
                    == (if a == x && b == top && c == z {
                    Some(BlockType::Grass)
                } else {
                    before.cell(a, b, c)
                }) by {}
            }
            z = z + 1;
        }
        x = x + 1;
    }
    proof {
        assert forall|a: int, b: int, c: int| in_chunk(a, b, c) implies #[trigger] chunk.cell(a, b, c)
            == generated_cell(as_ints(heights@)[column_index(a, c)], b) by {
            assert(as_ints(heights@)[column_index(a, c)] == heights@[column_index(a, c)] as int);
        }
    }
    chunk
}

/// The fractal strategy: the height of a column is the magnitude of its
/// noise sample times half the scale. The scale can be tuned while running.
#[derive(Debug, Clone, Copy, PartialEq, Eq, Structural)]
pub struct ChunkGenerator {
    scale: u32,
}

impl Default for ChunkGenerator {
    fn default() -> (r: Self)
        ensures
            r.scale_value() == 100,
    {
        Self { scale: 100 }
    }
}

impl ChunkGenerator {
    pub closed spec fn scale_value(&self) -> u32 {
        self.scale
    }

    /// The column heights of a chunk with the given samples.
    pub open spec fn heights(&self, samples: Seq<i32>) -> Seq<int> {
        fractal_heights(samples, self.scale_value())
    }

    pub fn scale(&self) -> (r: u32)
        ensures
            r == self.scale_value(),
    {
        self.scale
    }

    pub fn set_scale(&mut self, scale: u32)
        ensures
            final(self).scale_value() == scale,
    {
        self.scale = scale;
    }

    /// The height of one column.
    pub fn height_of(&self, sample: i32) -> (r: u64)
        ensures
            r as int == column_height(sample as int, self.scale_value() as int),
    {
        let wide: i64 = sample as i64;
        let magnitude: u64 = if wide < 0 { (-wide) as u64 } else { wide as u64 };
        assert(magnitude * (self.scale as u64) <= 0x8000_0000 * 0xffff_ffff) by (nonlinear_arith)
            requires
                magnitude <= 0x8000_0000,
                self.scale <= 0xffff_ffff,
        ;
        (magnitude * (self.scale as u64) + SAMPLE_UNIT) / (2 * SAMPLE_UNIT)
    }

    /// The heights of all columns, where there is a sample for every column
    /// and every height lies inside a chunk.
    fn column_heights(&self, samples: &Vec<i32>) -> (r: Option<Vec<u64>>)
        ensures
            r.is_some() == heights_in_chunk(self.heights(samples@)),
            match r {
                Some(heights) => as_ints(heights@) == self.heights(samples@),
                None => true,
            },
    {
        if samples.len() != CHUNK_COLUMNS {
            return None;
        }
        let mut heights: Vec<u64> = Vec::new();
        let mut i: usize = 0;
        while i < CHUNK_COLUMNS
            invariant
                i <= CHUNK_COLUMNS,
                samples@.len() == CHUNK_COLUMNS,
                heights@.len() == i,
                forall|k: int|
                    0 <= k < i ==> (#[trigger] heights@[k]) as int == self.heights(samples@)[k]
                        && heights@[k] < CHUNK_HEIGHT,
            decreases CHUNK_COLUMNS - i,
        {
            let height: u64 = self.height_of(samples[i]);
            if height >= 256 {
                assert(!(self.heights(samples@)[i as int] < CHUNK_HEIGHT));
                return None;
            }
            heights.push(height);
            i = i + 1;
        }
        assert(as_ints(heights@) =~= self.heights(samples@));
        Some(heights)
    }

    /// Whether there is a sample for every column and every height lies
    /// inside a chunk, so that `generate_chunk` can be called.
    pub fn accepts(&self, samples: &Vec<i32>) -> (r: bool)
        ensures
            r == heights_in_chunk(self.heights(samples@)),
    {
        self.column_heights(samples).is_some()
    }

    /// Fills each column with stone below its height and caps it with grass.
    pub fn generate_chunk(&self, position: [isize; 3], samples: &Vec<i32>) -> (chunk: Chunk)
        requires
            heights_in_chunk(self.heights(samples@)),
        ensures
            is_terrain(
                chunk,
                GridCoordinates { x: position[0], y: position[1], z: position[2] },
                self.heights(samples@),
            ),
    {
        let heights: Vec<u64> = self.column_heights(samples).unwrap();
        fill_columns(position, &heights)
    }
}

/// The heights of a list as mathematical integers.
pub open spec fn as_ints(heights: Seq<u64>) -> Seq<int> {
    Seq::new(heights.len(), |i: int| heights[i] as int)
}

/// The continental strategy: a coarse noise sample is mapped through a
/// monotonic spline to the height of the column.
#[derive(Debug)]
pub struct ContinentalGenerator {
    spline: HeightSpline,
}

impl ContinentalGenerator {
    pub closed spec fn spline_value(&self) -> HeightSpline {
        self.spline
    }

    pub open spec fn wf(&self) -> bool {
        self.spline_value().wf()
    }

    /// The column heights of a chunk with the given samples.
    pub open spec fn heights(&self, samples: Seq<i32>) -> Seq<int> {
        spline_heights(samples, self.spline_value())
    }

    pub fn new(spline: HeightSpline) -> (r: Self)
        ensures
            r.spline_value() == spline,
    {
        Self { spline }
    }

    /// The height of one column.
    pub fn height_of(&self, sample: i32) -> (r: u64)
        requires
            self.wf(),
        ensures
            r as int == self.spline_value().height(sample as int),
    {
        self.spline.height_at(sample)
    }

    /// Replaces the spline, for tuning while running.
    pub fn set_spline(&mut self, spline: HeightSpline)
        ensures
            final(self).spline_value() == spline,
    {
        self.spline = spline;
    }

    fn column_heights(&self, samples: &Vec<i32>) -> (r: Option<Vec<u64>>)
        requires
            self.wf(),
        ensures
            r.is_some() == heights_in_chunk(self.heights(samples@)),
            match r {
                Some(heights) => as_ints(heights@) == self.heights(samples@),
                None => true,
            },
    {
        if samples.len() != CHUNK_COLUMNS {
            return None;
        }
        let mut heights: Vec<u64> = Vec::new();
        let mut i: usize = 0;
        while i < CHUNK_COLUMNS
            invariant
                i <= CHUNK_COLUMNS,
                self.wf(),
                samples@.len() == CHUNK_COLUMNS,
                heights@.len() == i,
                forall|k: int|
                    0 <= k < i ==> (#[trigger] heights@[k]) as int == self.heights(samples@)[k]
                        && heights@[k] < CHUNK_HEIGHT,
            decreases CHUNK_COLUMNS - i,
        {
            let height: u64 = self.spline.height_at(samples[i]);
            if height >= 256 {
                assert(!(self.heights(samples@)[i as int] < CHUNK_HEIGHT));
                return None;
            }
            heights.push(height);
            i = i + 1;
        }
        assert(as_ints(heights@) =~= self.heights(samples@));
        Some(heights)
    }

    /// Whether there is a sample for every column and every height lies
    /// inside a chunk, so that `generate_chunk` can be called.
    pub fn accepts(&self, samples: &Vec<i32>) -> (r: bool)
        requires
            self.wf(),
        ensures
            r == heights_in_chunk(self.heights(samples@)),
    {
        self.column_heights(samples).is_some()
    }

    /// Fills each column with stone below its height and caps it with grass.
    pub fn generate_chunk(&self, position: [isize; 3], samples: &Vec<i32>) -> (chunk: Chunk)
        requires
            self.wf(),
            heights_in_chunk(self.heights(samples@)),
        ensures
            is_terrain(
                chunk,
                GridCoordinates { x: position[0], y: position[1], z: position[2] },
                self.heights(samples@),
            ),
    {
        let heights: Vec<u64> = self.column_heights(samples).unwrap();
        fill_columns(position, &heights)
    }
}

/// A way of turning noise samples into terrain.
#[derive(Debug)]
pub enum TerrainGenerator {
    Fractal(ChunkGenerator),
    Continental(ContinentalGenerator),
}

impl TerrainGenerator {
    pub open spec fn wf(&self) -> bool {
        match self {
            TerrainGenerator::Fractal(_) => true,
            TerrainGenerator::Continental(generator) => generator.wf(),
        }
    }

    /// The column heights of a chunk with the given samples.
    pub open spec fn heights(&self, samples: Seq<i32>) -> Seq<int> {
        match self {
            TerrainGenerator::Fractal(generator) => generator.heights(samples),
            TerrainGenerator::Continental(generator) => generator.heights(samples),
        }
    }

    /// Whether there is a sample for every column and every height lies
    /// inside a chunk, so that `generate_chunk` can be called.
    pub fn accepts(&self, samples: &Vec<i32>) -> (r: bool)
        requires
            self.wf(),
        ensures
            r == heights_in_chunk(self.heights(samples@)),
    {
        match self {
            TerrainGenerator::Fractal(generator) => generator.accepts(samples),
            TerrainGenerator::Continental(generator) => generator.accepts(samples),
        }
    }

    /// Generates the chunk at `position` by the strategy at hand.
    pub fn generate_chunk(&self, position: [isize; 3], samples: &Vec<i32>) -> (chunk: Chunk)
        requires
            self.wf(),
            heights_in_chunk(self.heights(samples@)),
        ensures
            is_terrain(
                chunk,
                GridCoordinates { x: position[0], y: position[1], z: position[2] },
                self.heights(samples@),
            ),
    {
        match self {
            TerrainGenerator::Fractal(generator) => generator.generate_chunk(position, samples),
            TerrainGenerator::Continental(generator) => generator.generate_chunk(position, samples),
        }
    }
}

/// Generation is a function of its inputs: two chunks generated for the same
/// position from the same column heights hold the same cells. The heights
/// are themselves a function of the samples and the generator's parameters.
pub proof fn lemma_generation_deterministic(
    a: Chunk,
    b: Chunk,
    position: GridCoordinates,
    heights: Seq<int>,
)
    requires
        is_terrain(a, position, heights),
        is_terrain(b, position, heights),
    ensures
        a@ == b@,
        a.position() == b.position(),
{
    assert forall|i: int| 0 <= i < CHUNK_CELLS implies a@[i] == b@[i] by {
        let x = i / (CHUNK_HEIGHT * CHUNK_WIDTH);
        let y = (i / (CHUNK_WIDTH as int)) % (CHUNK_HEIGHT as int);
        let z = i % (CHUNK_WIDTH as int);
        assert(in_chunk(x, y, z));
        assert(cell_index(x, y, z) == i);
        assert(a.cell(x, y, z) == b.cell(x, y, z));
    }
    assert(a@ =~= b@);
}

/// A chunk that was evicted and is requested again comes back with the
/// content it had: its position can be reserved anew once its entry is
/// gone, and generating it with unchanged parameters gives the same cells.
pub proof fn lemma_reload_restores_content(
    entries: ChunkEntries,
    evicted: Chunk,
    reloaded: Chunk,
    position: GridCoordinates,
    generator: TerrainGenerator,
    samples: Seq<i32>,
)
    requires
        entries.contains_key(position.key()),
        entries[position.key()] == Some(evicted),
        is_terrain(evicted, position, generator.heights(samples)),
        is_terrain(reloaded, position, generator.heights(samples)),
    ensures
        reserve_succeeds(entries.remove(position.key()), position.key()),
        reloaded@ == evicted@,
        after_reserve(entries.remove(position.key()), position.key()).insert(
            position.key(),
            Some(reloaded),
        )[position.key()].unwrap()@ == entries[position.key()].unwrap()@,
{
    lemma_generation_deterministic(evicted, reloaded, position, generator.heights(samples));
}

} // verus!
