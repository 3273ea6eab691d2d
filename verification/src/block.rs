use vstd::prelude::*;

verus! {

/// An integer vector: a vertex position, an offset or a face normal.
#[derive(Debug, Clone, Copy, PartialEq, Eq, Structural, Hash)]
pub struct IntVec3 {
    pub x: i64,
    pub y: i64,
    pub z: i64,
}

impl IntVec3 {
    pub fn new(x: i64, y: i64, z: i64) -> (r: Self)
        ensures
            r == (IntVec3 { x, y, z }),
    {
        Self { x, y, z }
    }

    /// Whether this is one of the six unit vectors along an axis.
    pub open spec fn is_axis(self) -> bool {
        ||| (self.x == 1 || self.x == -1) && self.y == 0 && self.z == 0
        ||| self.x == 0 && (self.y == 1 || self.y == -1) && self.z == 0
        ||| self.x == 0 && self.y == 0 && (self.z == 1 || self.z == -1)
    }
}

/// The material of a solid voxel.
#[derive(Debug, Clone, Copy, PartialEq, Eq, Structural)]
pub enum BlockType {
    Grass,
    Stone,
}

/// The texture layer of each of a block's six faces.
#[derive(Debug, Clone, Copy, PartialEq, Eq, Structural)]
pub struct TextureIndices {
    pub pos_x: u32,
    pub neg_x: u32,
    pub pos_y: u32,
    pub neg_y: u32,
    pub pos_z: u32,
    pub neg_z: u32,
}

impl BlockType {
    /// Grass shows layer 0 on top, 2 below and 1 on its sides; stone shows
    /// layer 3 everywhere.
    pub open spec fn layers(self) -> TextureIndices {
        match self {
            BlockType::Grass => TextureIndices {
                pos_x: 1,
                neg_x: 1,
                pos_y: 0,
                neg_y: 2,
                pos_z: 1,
                neg_z: 1,
            },
            BlockType::Stone => TextureIndices {
                pos_x: 3,
                neg_x: 3,
                pos_y: 3,
                neg_y: 3,
                pos_z: 3,
                neg_z: 3,
            },
        }
    }

    pub fn texture_indices(self) -> (r: TextureIndices)
        ensures
            r == self.layers(),
    {
        match self {
            BlockType::Grass => TextureIndices {
                pos_x: 1,
                neg_x: 1,
                pos_y: 0,
                neg_y: 2,
                pos_z: 1,
                neg_z: 1,
            },
            BlockType::Stone => TextureIndices {
                pos_x: 3,
                neg_x: 3,
                pos_y: 3,
                neg_y: 3,
                pos_z: 3,
                neg_z: 3,
            },
        }
    }
}

impl TextureIndices {
    /// The layer of the face that looks along `normal`.
    pub open spec fn layer_for(self, normal: IntVec3) -> u32 {
        if normal.x == 1 {
            self.pos_x
        } else if normal.x == -1 {
            self.neg_x
        } else if normal.y == 1 {
            self.pos_y
        } else if normal.y == -1 {
            self.neg_y
        } else if normal.z == 1 {
            self.pos_z
        } else {
            self.neg_z
        }
    }

    /// Selects a layer by face normal. Only the six axis directions name a face.
    pub fn index_by_normal(self, normal: IntVec3) -> (r: u32)
        requires
            normal.is_axis(),
        ensures
            r == self.layer_for(normal),
    {
        if normal.x == 1 {
            self.pos_x
        } else if normal.x == -1 {
            self.neg_x
        } else if normal.y == 1 {
            self.pos_y
        } else if normal.y == -1 {
            self.neg_y
        } else if normal.z == 1 {
            self.pos_z
        } else {
            self.neg_z
        }
    }
}

} // verus!
