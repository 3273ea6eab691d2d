use vstd::prelude::*;
use crate::mesh_builder::MeshBuilderSettings;

verus! {

/// The tunable part of terrain generation.
#[derive(Debug, Clone, Copy, PartialEq, Eq, Structural)]
pub struct NoiseSettings {
    pub scale: u32,
}

impl Default for NoiseSettings {
    fn default() -> (r: Self)
        ensures
            r.scale == 100,
    {
        Self { scale: 100 }
    }
}

/// What the streaming of chunks is run with.
#[derive(Debug, Clone, Copy)]
pub struct Settings {
    /// How many chunks around the observer are kept loaded, along x and z.
    pub render_distance: isize,
    /// Whether chunks are requested and evicted at all.
    pub update_chunks: bool,
    /// How many generation tasks are advanced in one tick.
    pub task_polls_per_frame: usize,
    /// How many finished chunks are handed to presentation in one tick.
    pub mesh_updates_per_frame: usize,
    pub mesh_builder: MeshBuilderSettings,
    pub noise: NoiseSettings,
    /// The noise settings that `detect_changes` saw last.
    pub prev_noise: NoiseSettings,
}

impl Default for Settings {
    fn default() -> (r: Self)
        ensures
            r.render_distance == 16,
            r.update_chunks,
            r.task_polls_per_frame == 1,
            r.mesh_updates_per_frame == 1,
            r.mesh_builder.voxel_size == 1,
            r.noise.scale == 100,
            r.prev_noise.scale == 100,
    {
        Self {
            render_distance: 16,
            update_chunks: true,
            task_polls_per_frame: 1,
            mesh_updates_per_frame: 1,
            mesh_builder: MeshBuilderSettings { voxel_size: 1 },
            noise: NoiseSettings { scale: 100 },
            prev_noise: NoiseSettings { scale: 100 },
        }
    }
}

impl Settings {
    /// The render distance after the keys for a larger and a smaller one
    /// were looked at: one more, one less, or both, and never below zero.
    pub open spec fn adjusted_distance(distance: isize, increase: bool, decrease: bool) -> int {
        let raised = if increase { distance + 1 } else { distance as int };
        let lowered = if decrease { raised - 1 } else { raised };
        if lowered < 0 { 0 } else { lowered }
    }

    /// Steps the render distance up or down as asked, and keeps it from
    /// going below zero.
    pub fn update_render_distance(&mut self, increase: bool, decrease: bool)
        requires
            old(self).render_distance < isize::MAX,
            old(self).render_distance > isize::MIN,
        ensures
            final(self).render_distance == Self::adjusted_distance(
                old(self).render_distance,
                increase,
                decrease,
            ),
            final(self).update_chunks == old(self).update_chunks,
            final(self).task_polls_per_frame == old(self).task_polls_per_frame,
            final(self).mesh_updates_per_frame == old(self).mesh_updates_per_frame,
            final(self).mesh_builder == old(self).mesh_builder,
            final(self).noise == old(self).noise,
            final(self).prev_noise == old(self).prev_noise,
    {
        if increase {
            self.render_distance = self.render_distance + 1;
        }
        if decrease {
            self.render_distance = self.render_distance - 1;
        }
        if self.render_distance < 0 {
            self.render_distance = 0;
        }
    }

    /// Says whether the noise settings differ from those seen last, and
    /// remembers them.
    pub fn detect_changes(&mut self) -> (r: bool)
        ensures
            r == (old(self).noise != old(self).prev_noise),
            final(self).prev_noise == old(self).noise,
            final(self).noise == old(self).noise,
            final(self).render_distance == old(self).render_distance,
            final(self).update_chunks == old(self).update_chunks,
            final(self).task_polls_per_frame == old(self).task_polls_per_frame,
            final(self).mesh_updates_per_frame == old(self).mesh_updates_per_frame,
            final(self).mesh_builder == old(self).mesh_builder,
    {
        if self.noise.scale != self.prev_noise.scale {
            self.prev_noise = self.noise;
            true
        } else {
            false
        }
    }
}

} // verus!
