use vstd::prelude::*;
use crate::chunk::Chunk;
use crate::collision::{is_triangle_list, triangles_of, CollisionShape};
use crate::coordinates::GridCoordinates;
use crate::generator::{heights_in_chunk, is_terrain, TerrainGenerator};
use crate::grid::{ChunkEntries, ChunkGridInner};
use crate::mesh_builder::{Mesh, MeshBuilderSettings};

verus! {

/// What a finished task hands over: the surface of a chunk and the shape to
/// collide with.
#[derive(Debug)]
pub struct GeneratedChunkData {
    pub mesh: Mesh,
    pub collider: CollisionShape,
}

/// How far a task has come.
#[derive(Debug)]
pub enum State {
    Initial,
    GeneratedChunk(Chunk),
    ComputedMesh(Mesh),
    Done(Mesh, CollisionShape),
}

/// What one poll of a task gives.
#[derive(Debug)]
pub enum PollResult {
    /// One stage was done; poll again.
    Pending,
    /// The task is complete.
    Ready(GeneratedChunkData),
    /// A stage failed. The task is dead and its reservation was released.
    Failed,
}

/// The work for one chunk, cut into stages so that each poll does one of
/// them: generate the cells, extract the surface and store the chunk, derive
/// the collision shape, hand over.
#[derive(Debug)]
pub struct ChunkDataGenerationFuture {
    coordinates: GridCoordinates,
    generator: TerrainGenerator,
    samples: Vec<i32>,
    mesh_builder_settings: MeshBuilderSettings,
    state: Option<State>,
}

/// What a poll does, by the stage it finds: the result, the task's next
/// stage and the store afterwards.
pub open spec fn poll_step(
    task: ChunkDataGenerationFuture,
    before: State,
    store_before: ChunkEntries,
    result: PollResult,
    after: Option<State>,
    store_after: ChunkEntries,
) -> bool {
    match before {
        State::Initial => {
            &&& result is Pending
            &&& store_after == store_before
            &&& after matches Some(State::GeneratedChunk(chunk))
            &&& is_terrain(chunk, task.coordinates(), task.generator().heights(task.samples()))
        },
        State::GeneratedChunk(chunk) => {
            &&& result is Pending
            &&& store_after == store_before.insert(task.coordinates().key(), Some(chunk))
            &&& after matches Some(State::ComputedMesh(mesh))
            &&& mesh@ == chunk.mesh(store_before, task.settings().voxel_size)
        },
        State::ComputedMesh(mesh) => {
            if is_triangle_list(mesh@) {
                &&& result is Pending
                &&& store_after == store_before
                &&& after matches Some(State::Done(same, shape))
                &&& same == mesh
                &&& shape.vertices@ == mesh@.positions
                &&& shape.triangles@ == triangles_of(mesh@.indices)
            } else {
                &&& result is Failed
                &&& store_after == store_before.remove(task.coordinates().key())
                &&& after is None
            }
        },
        State::Done(mesh, collider) => {
            &&& result matches PollResult::Ready(data)
            &&& data.mesh == mesh
            &&& data.collider == collider
            &&& store_after == store_before
            &&& after is None
        },
    }
}

impl ChunkDataGenerationFuture {
    pub closed spec fn coordinates(&self) -> GridCoordinates {
        self.coordinates
    }

    pub closed spec fn generator(&self) -> TerrainGenerator {
        self.generator
    }

    pub closed spec fn samples(&self) -> Seq<i32> {
        self.samples@
    }

    pub closed spec fn settings(&self) -> MeshBuilderSettings {
        self.mesh_builder_settings
    }

    /// The stage the next poll finds; `None` once the task has handed over
    /// its result or failed.
    pub closed spec fn state(&self) -> Option<State> {
        self.state
    }

    /// The samples fit the generator, the neighbouring positions can be
    /// represented, and a chunk held between stages is the one made for this
    /// task.
    pub open spec fn wf(&self) -> bool {
        &&& self.generator().wf()
        &&& heights_in_chunk(self.generator().heights(self.samples()))
        &&& self.coordinates().neighbors_representable()
        &&& match self.state() {
            Some(State::GeneratedChunk(chunk)) => chunk.wf() && chunk.position()
                == self.coordinates(),
            _ => true,
        }
    }

    /// Whether a surface held between stages is well formed. A task that
    /// extracted its surface itself always is in this state, and no stage of
    /// it fails.
    pub open spec fn sound(&self) -> bool {
        match self.state() {
            Some(State::ComputedMesh(mesh)) => mesh@.wf(),
            _ => true,
        }
    }

    /// Whether a task can be made for these inputs.
    pub open spec fn accepts(coordinates: GridCoordinates, generator: TerrainGenerator, samples: Seq<i32>)
        -> bool {
        &&& heights_in_chunk(generator.heights(samples))
        &&& coordinates.neighbors_representable()
    }

    /// A task at its first stage. There is none where a column would rise
    /// above the chunk or a neighbouring position cannot be represented.
    pub fn new(
        coordinates: GridCoordinates,
        generator: TerrainGenerator,
        samples: Vec<i32>,
        mesh_builder_settings: MeshBuilderSettings,
    ) -> (r: Option<Self>)
        requires
            generator.wf(),
        ensures
            r.is_some() == Self::accepts(coordinates, generator, samples@),
            match r {
                Some(task) => {
                    &&& task.wf()
                    &&& task.coordinates() == coordinates
                    &&& task.generator() == generator
                    &&& task.samples() == samples@
                    &&& task.settings() == mesh_builder_settings
                    &&& task.state() == Some(State::Initial)
                    &&& task.sound()
                },
                None => true,
            },
    {
        if !coordinates.has_representable_neighbors() {
            return None;
        }
        if !generator.accepts(&samples) {
            return None;
        }
        Some(Self { coordinates, generator, samples, mesh_builder_settings, state: Some(State::Initial) })
    }

    /// A task that starts from a surface that was extracted already: its
    /// next stage derives the collision shape.
    pub fn with_mesh(
        coordinates: GridCoordinates,
        generator: TerrainGenerator,
        samples: Vec<i32>,
        mesh_builder_settings: MeshBuilderSettings,
        mesh: Mesh,
    ) -> (r: Option<Self>)
        requires
            generator.wf(),
        ensures
            r.is_some() == Self::accepts(coordinates, generator, samples@),
            match r {
                Some(task) => {
                    &&& task.wf()
                    &&& task.coordinates() == coordinates
                    &&& task.generator() == generator
                    &&& task.samples() == samples@
                    &&& task.settings() == mesh_builder_settings
                    &&& task.state() == Some(State::ComputedMesh(mesh))
                },
                None => true,
            },
    {
        match Self::new(coordinates, generator, samples, mesh_builder_settings) {
            Some(task) => Some(
                Self {
                    coordinates: task.coordinates,
                    generator: task.generator,
                    samples: task.samples,
                    mesh_builder_settings: task.mesh_builder_settings,
                    state: Some(State::ComputedMesh(mesh)),
                },
            ),
            None => None,
        }
    }

    pub fn target(&self) -> (r: GridCoordinates)
        ensures
            r == self.coordinates(),
    {
        self.coordinates
    }

    /// Whether the task has handed over its result or has failed.
    pub fn is_finished(&self) -> (r: bool)
        ensures
            r == self.state().is_none(),
    {
        self.state.is_none()
    }

    /// Does the work of one stage. Only the last poll hands over the result;
    /// a task that has done so, or has failed, is not polled again.
    pub fn poll(&mut self, grid: &mut ChunkGridInner) -> (r: PollResult)
        requires
            old(self).wf(),
            old(self).state().is_some(),
            old(grid).wf(),
        ensures
            final(self).wf(),
            final(grid).wf(),
            final(self).coordinates() == old(self).coordinates(),
            final(self).generator() == old(self).generator(),
            final(self).samples() == old(self).samples(),
            final(self).settings() == old(self).settings(),
            poll_step(
                *old(self),
                old(self).state().unwrap(),
                old(grid)@,
                r,
                final(self).state(),
                final(grid)@,
            ),
            old(self).sound() ==> final(self).sound() && !(r is Failed),
    {
        let state: State = self.state.take().expect("future should not be polled with empty state");
        match state {
            State::Initial => {
                let chunk = self.generator.generate_chunk(self.coordinates.to_array(), &self.samples);
                self.state = Some(State::GeneratedChunk(chunk));
                PollResult::Pending
            },
            State::GeneratedChunk(chunk) => {
                let mesh = grid.compute_mesh(self.coordinates, chunk, self.mesh_builder_settings);
                self.state = Some(State::ComputedMesh(mesh));
                PollResult::Pending
            },
            State::ComputedMesh(mesh) => {
                match CollisionShape::from_mesh(&mesh) {
                    Some(collider) => {
                        self.state = Some(State::Done(mesh, collider));
                        PollResult::Pending
                    },
                    None => {
                        grid.remove(&self.coordinates);
                        PollResult::Failed
                    },
                }
            },
            State::Done(mesh, collider) => PollResult::Ready(GeneratedChunkData { mesh, collider }),
        }
    }
}

} // verus!
