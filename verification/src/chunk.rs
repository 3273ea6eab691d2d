use vstd::prelude::*;
use crate::block::BlockType;
use crate::coordinates::{GridCoordinates, CHUNK_HEIGHT, CHUNK_WIDTH};

verus! {

/// Number of cells in a chunk.
pub const CHUNK_CELLS: usize = 65536;

/// Whether a local position lies inside a chunk.
pub open spec fn in_chunk(x: int, y: int, z: int) -> bool {
    &&& 0 <= x < CHUNK_WIDTH
    &&& 0 <= y < CHUNK_HEIGHT
    &&& 0 <= z < CHUNK_WIDTH
}

/// Where the cell at a local position is stored: x-major, then y, then z.
pub open spec fn cell_index(x: int, y: int, z: int) -> int {
    (x * CHUNK_HEIGHT + y) * CHUNK_WIDTH + z
}

/// A dense block of voxel cells, each empty or of one block type, named by
/// the grid position of its lower corner.
#[derive(Debug)]
pub struct Chunk {
    data: Vec<Option<BlockType>>,
    coordinates: GridCoordinates,
}

impl View for Chunk {
    type V = Seq<Option<BlockType>>;

    closed spec fn view(&self) -> Seq<Option<BlockType>> {
        self.data@
    }
}

impl Clone for Chunk {
    /// A chunk with the same cells and the same position.
    fn clone(&self) -> (r: Self)
        ensures
            r@ == self@,
            r.position() == self.position(),
    {
        let mut data: Vec<Option<BlockType>> = Vec::new();
        let mut i: usize = 0;
        while i < self.data.len()
            invariant
                i <= self.data@.len(),
                data@ == self.data@.take(i as int),
            decreases self.data@.len() - i,
        {
            data.push(self.data[i]);
            assert(data@ =~= self.data@.take(i + 1));
            i = i + 1;
        }
        assert(data@ =~= self.data@);
        Self { data, coordinates: self.coordinates }
    }
}

impl Chunk {
    /// Every chunk holds exactly `CHUNK_CELLS` cells.
    pub open spec fn wf(&self) -> bool {
        self@.len() == CHUNK_CELLS
    }

    /// The grid position this chunk was made for.
    pub closed spec fn position(&self) -> GridCoordinates {
        self.coordinates
    }

    /// The cell at a local position.
    pub open spec fn cell(&self, x: int, y: int, z: int) -> Option<BlockType> {
        self@[cell_index(x, y, z)]
    }

    /// Whether the cell at a local position holds a block.
    pub open spec fn solid_at(&self, x: int, y: int, z: int) -> bool {
        self.cell(x, y, z).is_some()
    }

    /// A chunk of empty cells.
    pub fn new(coordinates: GridCoordinates) -> (r: Self)
        ensures
            r.wf(),
            r.position() == coordinates,
            forall|i: int| 0 <= i < CHUNK_CELLS ==> (#[trigger] r@[i]).is_none(),
    {
        let mut data: Vec<Option<BlockType>> = Vec::new();
        let mut i: usize = 0;
        while i < CHUNK_CELLS
            invariant
                i <= CHUNK_CELLS,
                data@.len() == i,
                forall|k: int| 0 <= k < i ==> (#[trigger] data@[k]).is_none(),
            decreases CHUNK_CELLS - i,
        {
            data.push(None);
            i = i + 1;
        }
        Self { data, coordinates }
    }

    pub fn coordinates(&self) -> (r: GridCoordinates)
        ensures
            r == self.position(),
    {
        self.coordinates
    }

    fn index_of(x: usize, y: usize, z: usize) -> (r: usize)
        requires
            in_chunk(x as int, y as int, z as int),
        ensures
            r as int == cell_index(x as int, y as int, z as int),
            r < CHUNK_CELLS,
    {
        (x * 256 + y) * 16 + z
    }

    pub fn is_solid(&self, position: [isize; 3]) -> (r: bool)
        requires
            self.wf(),
            in_chunk(position[0] as int, position[1] as int, position[2] as int),
        ensures
            r == self.solid_at(position[0] as int, position[1] as int, position[2] as int),
    {
        self.get(position).is_some()
    }

    pub fn is_air(&self, position: [isize; 3]) -> (r: bool)
        requires
            self.wf(),
            in_chunk(position[0] as int, position[1] as int, position[2] as int),
        ensures
            r == !self.solid_at(position[0] as int, position[1] as int, position[2] as int),
    {
        !self.is_solid(position)
    }

    /// Overwrites one cell and leaves every other cell as it was.
    pub fn set(&mut self, x: usize, y: usize, z: usize, value: Option<BlockType>)
        requires
            old(self).wf(),
            in_chunk(x as int, y as int, z as int),
        ensures
            final(self).wf(),
            final(self).position() == old(self).position(),
            final(self)@ == old(self)@.update(cell_index(x as int, y as int, z as int), value),
    {
        let i: usize = Self::index_of(x, y, z);
        self.data.set(i, value);
    }

    pub fn get(&self, position: [isize; 3]) -> (r: Option<BlockType>)
        requires
            self.wf(),
            in_chunk(position[0] as int, position[1] as int, position[2] as int),
        ensures
            r == self.cell(position[0] as int, position[1] as int, position[2] as int),
    {
        let x: usize = position[0] as usize;
        let y: usize = position[1] as usize;
        let z: usize = position[2] as usize;
        self.data[Self::index_of(x, y, z)]
    }
}

} // verus!
