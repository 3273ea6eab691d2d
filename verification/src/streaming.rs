use vstd::prelude::*;
use crate::chunk_data_generation_future::{
    poll_step, ChunkDataGenerationFuture, GeneratedChunkData, PollResult, State,
};
use crate::coordinates::{align_down, GridCoordinates, CHUNK_WIDTH};
use crate::generator::{ChunkGenerator, TerrainGenerator};
use crate::grid::{ChunkEntries, ChunkGridInner, ChunkKey};
use crate::mesh_builder::MeshBuilderSettings;
use crate::settings::Settings;

verus! {

/// How many chunks are despawned in one tick at most.
pub const DESPAWNS_PER_FRAME: usize = 20;

/// The lower corner of the chunk column the observer stands in. Height is
/// ignored: chunks are streamed along x and z only.
pub open spec fn observer_chunk(x: isize, z: isize) -> GridCoordinates {
    GridCoordinates { x: align_down(x as int) as isize, y: 0, z: align_down(z as int) as isize }
}

/// Whether the square of chunks around `center` can be represented.
pub open spec fn square_in_range(center: GridCoordinates, render_distance: isize) -> bool {
    render_distance >= 0 ==> {
        &&& isize::MIN <= center.x - render_distance * CHUNK_WIDTH
        &&& center.x + render_distance * CHUNK_WIDTH <= isize::MAX
        &&& isize::MIN <= center.z - render_distance * CHUNK_WIDTH
        &&& center.z + render_distance * CHUNK_WIDTH <= isize::MAX
    }
}

/// Whether `key` names a chunk of the square around `center` that comes
/// before the chunk at offset (`x`, `z`), in chunks, when the square is
/// walked along x and, within one x, along z.
pub open spec fn square_prefix(
    key: ChunkKey,
    center: GridCoordinates,
    render_distance: isize,
    x: int,
    z: int,
) -> bool {
    let dx = key.0 - center.x;
    let dz = key.2 - center.z;
    let bound = render_distance * CHUNK_WIDTH;
    &&& key.1 == 0
    &&& dx % (CHUNK_WIDTH as int) == 0
    &&& dz % (CHUNK_WIDTH as int) == 0
    &&& -bound <= dx <= bound
    &&& -bound <= dz <= bound
    &&& (dx < x * CHUNK_WIDTH || (dx == x * CHUNK_WIDTH && dz < z * CHUNK_WIDTH))
}

/// Whether `key` names one of the (2 * render_distance + 1)^2 chunks of the
/// square around `center`.
pub open spec fn in_square(key: ChunkKey, center: GridCoordinates, render_distance: isize) -> bool {
    square_prefix(key, center, render_distance, render_distance + 1, 0)
}

/// The store after every chunk of the square before offset (`x`, `z`) has
/// been reserved: entries stay as they are, and each missing chunk of that
/// part gets a reservation.
pub open spec fn with_reservations(
    entries: ChunkEntries,
    center: GridCoordinates,
    render_distance: isize,
    x: int,
    z: int,
) -> ChunkEntries {
    Map::new(
        |k: ChunkKey| entries.contains_key(k) || square_prefix(k, center, render_distance, x, z),
        |k: ChunkKey|
            if entries.contains_key(k) {
                entries[k]
            } else {
                None
            },
    )
}

/// Whether `a` comes before `b` in the order the square is walked in.
pub open spec fn walked_before(a: GridCoordinates, b: GridCoordinates) -> bool {
    a.x < b.x || (a.x == b.x && a.z < b.z)
}

/// Whether a chunk lies outside the render distance of `center` on the x or
/// the z axis.
pub open spec fn outside_render_distance(
    c: GridCoordinates,
    center: GridCoordinates,
    render_distance: isize,
) -> bool {
    let bound = render_distance * CHUNK_WIDTH;
    ||| center.x + bound < c.x
    ||| center.x - bound > c.x
    ||| center.z + bound < c.z
    ||| center.z - bound > c.z
}

/// The keys of the first `n` chunks that lie outside the render distance.
pub open spec fn outside_keys(
    chunks: Seq<GridCoordinates>,
    center: GridCoordinates,
    render_distance: isize,
    n: nat,
) -> Set<ChunkKey>
    decreases n,
{
    if n == 0 {
        Set::empty()
    } else {
        let rest = outside_keys(chunks, center, render_distance, (n - 1) as nat);
        if outside_render_distance(chunks[n - 1], center, render_distance) {
            rest.insert(chunks[n - 1].key())
        } else {
            rest
        }
    }
}

/// Whether the chunk at `index` is evicted: it lies outside the render
/// distance, the store has an entry for it, and no earlier chunk of the list
/// took that entry away.
pub open spec fn is_evicted(
    entries: ChunkEntries,
    chunks: Seq<GridCoordinates>,
    center: GridCoordinates,
    render_distance: isize,
    index: int,
) -> bool {
    &&& 0 <= index < chunks.len()
    &&& outside_render_distance(chunks[index], center, render_distance)
    &&& entries.contains_key(chunks[index].key())
    &&& !outside_keys(chunks, center, render_distance, index as nat).contains(chunks[index].key())
}

/// The keys of the first `n` chunks.
pub open spec fn keys_of(chunks: Seq<GridCoordinates>, n: nat) -> Set<ChunkKey>
    decreases n,
{
    if n == 0 {
        Set::empty()
    } else {
        keys_of(chunks, (n - 1) as nat).insert(chunks[n - 1].key())
    }
}

/// Reserves every chunk of the square around the observer that the store
/// has no entry for, and returns the reserved positions in the order the
/// square is walked in. Each of them needs a generation task.
pub fn trigger_generation(
    player_x: isize,
    player_z: isize,
    grid: &mut ChunkGridInner,
    settings: &Settings,
) -> (reserved: Vec<GridCoordinates>)
    requires
        old(grid).wf(),
        settings.update_chunks ==> square_in_range(
            observer_chunk(player_x, player_z),
            settings.render_distance,
        ),
    ensures
        final(grid).wf(),
        !settings.update_chunks ==> final(grid)@ == old(grid)@ && reserved@.len() == 0,
        settings.update_chunks ==> {
            let center = observer_chunk(player_x, player_z);
            &&& final(grid)@ == with_reservations(
                old(grid)@,
                center,
                settings.render_distance,
                settings.render_distance + 1,
                0,
            )
            &&& forall|c: GridCoordinates| #[trigger]
                reserved@.contains(c) <==> in_square(c.key(), center, settings.render_distance)
                    && !old(grid)@.contains_key(c.key())
            &&& forall|i: int, j: int|
                0 <= i < j < reserved@.len() ==> walked_before(
                    #[trigger] reserved@[i],
                    #[trigger] reserved@[j],
                )
        },
{
    let mut reserved: Vec<GridCoordinates> = Vec::new();
    if !settings.update_chunks {
        return reserved;
    }
    let center: GridCoordinates = GridCoordinates::new(player_x, 0, player_z).to_grid();
    let rd: isize = settings.render_distance;
    if rd < 0 {
        proof {
            assert(grid@ =~= with_reservations(old(grid)@, center, rd, rd + 1, 0));
        }
        return reserved;
    }
    assert(center == observer_chunk(player_x, player_z));
    assert(with_reservations(old(grid)@, center, rd, -rd, -rd) =~= old(grid)@);
    let mut x: isize = -rd;
    while x <= rd
        invariant
            rd >= 0,
            rd == settings.render_distance,
            square_in_range(center, rd),
            center.y == 0,
            -rd <= x <= rd + 1,
            grid.wf(),
            grid@ == with_reservations(old(grid)@, center, rd, x as int, -rd),
            forall|c: GridCoordinates| #[trigger]
                reserved@.contains(c) <==> square_prefix(c.key(), center, rd, x as int, -rd)
                    && !old(grid)@.contains_key(c.key()),
            forall|i: int, j: int|
                0 <= i < j < reserved@.len() ==> walked_before(
                    #[trigger] reserved@[i],
                    #[trigger] reserved@[j],
                ),
        decreases rd + 1 - x,
    {
        let mut z: isize = -rd;
        while z <= rd
            invariant
                rd >= 0,
                rd == settings.render_distance,
                square_in_range(center, rd),
                center.y == 0,
                -rd <= x <= rd,
                -rd <= z <= rd + 1,
                grid.wf(),
                grid@ == with_reservations(old(grid)@, center, rd, x as int, z as int),
                forall|c: GridCoordinates| #[trigger]
                    reserved@.contains(c) <==> square_prefix(c.key(), center, rd, x as int, z as int)
                        && !old(grid)@.contains_key(c.key()),
                forall|i: int, j: int|
                    0 <= i < j < reserved@.len() ==> walked_before(
                        #[trigger] reserved@[i],
                        #[trigger] reserved@[j],
                    ),
            decreases rd + 1 - z,
        {
            let chunk_coordinates: GridCoordinates = center.add_offset(
                [x * CHUNK_WIDTH, 0, z * CHUNK_WIDTH],
            );
            let ghost before = grid@;
            let ghost listed = reserved@;
            let fresh: bool = grid.reserve(chunk_coordinates);
            if fresh {
                reserved.push(chunk_coordinates);
            }
            proof {
                let k0 = chunk_coordinates.key();
                assert forall|k: ChunkKey| #[trigger]
                    square_prefix(k, center, rd, x as int, z + 1) <==> (square_prefix(
                        k,
                        center,
                        rd,
                        x as int,
                        z as int,
                    ) || k == k0) by {
                    let dx = k.0 - center.x;
                    let dz = k.2 - center.z;
                    assert(dx == 16 * (dx / 16) + dx % 16);
                    assert(dz == 16 * (dz / 16) + dz % 16);
                    assert((x * 16) % 16 == 0);
                    assert((z * 16) % 16 == 0);
                }
                assert(grid@ =~= with_reservations(old(grid)@, center, rd, x as int, z + 1));
                assert(before.contains_key(k0) <==> old(grid)@.contains_key(k0));
                assert forall|c: GridCoordinates| #[trigger]
                    reserved@.contains(c) <==> square_prefix(c.key(), center, rd, x as int, z + 1)
                        && !old(grid)@.contains_key(c.key()) by {
                    if fresh {
                        assert(reserved@ == listed.push(chunk_coordinates));
                        if listed.contains(c) {
                            let i = choose|i: int| 0 <= i < listed.len() && listed[i] == c;
                            assert(reserved@[i] == c);
                        }
                        if c == chunk_coordinates {
                            assert(reserved@[listed.len() as int] == c);
                        }
                        if c.key() == k0 {
                            assert(c == chunk_coordinates);
                        }
                    }
                }
                assert forall|i: int, j: int| 0 <= i < j < reserved@.len() implies walked_before(
                    #[trigger] reserved@[i],
                    #[trigger] reserved@[j],
                ) by {
                    if fresh && j == listed.len() {
                        assert(listed.contains(listed[i]));
                    }
                }
            }
            z = z + 1;
        }
        proof {
            assert forall|k: ChunkKey| #[trigger]
                square_prefix(k, center, rd, x as int, rd + 1) <==> square_prefix(
                    k,
                    center,
                    rd,
                    x + 1,
                    -rd,
                ) by {}
            assert(with_reservations(old(grid)@, center, rd, x as int, rd + 1)
                =~= with_reservations(old(grid)@, center, rd, x + 1, -rd));
        }
        x = x + 1;
    }
    proof {
        assert forall|k: ChunkKey| #[trigger]
            square_prefix(k, center, rd, rd + 1, -rd) <==> square_prefix(k, center, rd, rd + 1, 0) by {}
        assert(with_reservations(old(grid)@, center, rd, rd + 1, -rd) =~= with_reservations(
            old(grid)@,
            center,
            rd,
            rd + 1,
            0,
        ));
    }
    reserved
}

/// Whether the bounds of the render distance around `center` can be
/// represented.
pub open spec fn bounds_in_range(center: GridCoordinates, render_distance: isize) -> bool {
    &&& isize::MIN <= center.x - render_distance * CHUNK_WIDTH <= isize::MAX
    &&& isize::MIN <= center.x + render_distance * CHUNK_WIDTH <= isize::MAX
    &&& isize::MIN <= center.z - render_distance * CHUNK_WIDTH <= isize::MAX
    &&& isize::MIN <= center.z + render_distance * CHUNK_WIDTH <= isize::MAX
    &&& isize::MIN <= render_distance * CHUNK_WIDTH <= isize::MAX
}

/// The first `n` chunks of a list without those that are evicted, in their
/// order.
pub open spec fn kept_chunks(
    entries: ChunkEntries,
    chunks: Seq<GridCoordinates>,
    center: GridCoordinates,
    render_distance: isize,
    n: nat,
) -> Seq<GridCoordinates>
    decreases n,
{
    if n == 0 {
        Seq::empty()
    } else {
        let rest = kept_chunks(entries, chunks, center, render_distance, (n - 1) as nat);
        if is_evicted(entries, chunks, center, render_distance, n - 1) {
            rest
        } else {
            rest.push(chunks[n - 1])
        }
    }
}

/// Those of the first `n` chunks of a list that are evicted, in their order.
pub open spec fn evicted_chunks(
    entries: ChunkEntries,
    chunks: Seq<GridCoordinates>,
    center: GridCoordinates,
    render_distance: isize,
    n: nat,
) -> Seq<GridCoordinates>
    decreases n,
{
    if n == 0 {
        Seq::empty()
    } else {
        let rest = evicted_chunks(entries, chunks, center, render_distance, (n - 1) as nat);
        if is_evicted(entries, chunks, center, render_distance, n - 1) {
            rest.push(chunks[n - 1])
        } else {
            rest
        }
    }
}

/// Evicts the chunks that lie outside the render distance of the observer:
/// their entries leave the store, and they move from the list of chunks to
/// the end of the queue of chunks to despawn.
pub fn unload_chunks(
    chunks: &mut Vec<GridCoordinates>,
    despawning: &mut Vec<GridCoordinates>,
    player_x: isize,
    player_z: isize,
    grid: &mut ChunkGridInner,
    settings: &Settings,
)
    requires
        old(grid).wf(),
        settings.update_chunks ==> bounds_in_range(
            observer_chunk(player_x, player_z),
            settings.render_distance,
        ),
    ensures
        final(grid).wf(),
        !settings.update_chunks ==> {
            &&& final(grid)@ == old(grid)@
            &&& final(chunks)@ == old(chunks)@
            &&& final(despawning)@ == old(despawning)@
        },
        settings.update_chunks ==> {
            let center = observer_chunk(player_x, player_z);
            let rd = settings.render_distance;
            &&& final(grid)@ == old(grid)@.remove_keys(
                outside_keys(old(chunks)@, center, rd, old(chunks)@.len()),
            )
            &&& final(chunks)@ == kept_chunks(old(grid)@, old(chunks)@, center, rd, old(chunks)@.len())
            &&& final(despawning)@ == old(despawning)@ + evicted_chunks(
                old(grid)@,
                old(chunks)@,
                center,
                rd,
                old(chunks)@.len(),
            )
        },
{
    if !settings.update_chunks {
        return ;
    }
    let center: GridCoordinates = GridCoordinates::new(player_x, 0, player_z).to_grid();
    let rd: isize = settings.render_distance;
    let bounds_distance: isize = CHUNK_WIDTH * rd;
    let mut kept: Vec<GridCoordinates> = Vec::new();
    assert(grid@ =~= old(grid)@.remove_keys(outside_keys(chunks@, center, rd, 0)));
    assert(despawning@ =~= old(despawning)@ + evicted_chunks(old(grid)@, chunks@, center, rd, 0));
    let mut i: usize = 0;
    while i < chunks.len()
        invariant
            i <= chunks@.len(),
            chunks@ == old(chunks)@,
            rd == settings.render_distance,
            bounds_distance == rd * CHUNK_WIDTH,
            center == observer_chunk(player_x, player_z),
            bounds_in_range(center, rd),
            grid.wf(),
            grid@ == old(grid)@.remove_keys(outside_keys(chunks@, center, rd, i as nat)),
            kept@ == kept_chunks(old(grid)@, chunks@, center, rd, i as nat),
            despawning@ == old(despawning)@ + evicted_chunks(old(grid)@, chunks@, center, rd, i as nat),
        decreases chunks@.len() - i,
    {
        let coordinates: GridCoordinates = chunks[i];
        let is_outside_pos_x: bool = center.x + bounds_distance < coordinates.x;
        let is_outside_neg_x: bool = center.x - bounds_distance > coordinates.x;
        let is_outside_pos_z: bool = center.z + bounds_distance < coordinates.z;
        let is_outside_neg_z: bool = center.z - bounds_distance > coordinates.z;
        let is_outside_render_distance: bool = is_outside_pos_x || is_outside_neg_x
            || is_outside_pos_z || is_outside_neg_z;
        let ghost queued = despawning@;
        let ghost gone = evicted_chunks(old(grid)@, chunks@, center, rd, i as nat);
        if is_outside_render_distance && grid.contains_key(&coordinates) {
            grid.remove(&coordinates);
            despawning.push(coordinates);
            assert(despawning@ =~= old(despawning)@ + gone.push(coordinates));
        } else {
            kept.push(coordinates);
        }
        proof {
            assert(is_outside_render_distance == outside_render_distance(coordinates, center, rd));
            assert(grid@ =~= old(grid)@.remove_keys(outside_keys(chunks@, center, rd, (i + 1) as nat)));
        }
        i = i + 1;
    }
    *chunks = kept;
}

/// Applies changed noise settings: the generator takes the new scale, and
/// every listed chunk leaves the store and moves to the end of the queue of
/// chunks to despawn, so that it is generated anew. The result says whether
/// the settings had changed.
pub fn apply_noise_settings(
    settings: &mut Settings,
    generator: &mut ChunkGenerator,
    chunks: &mut Vec<GridCoordinates>,
    despawning: &mut Vec<GridCoordinates>,
    grid: &mut ChunkGridInner,
) -> (changed: bool)
    requires
        old(grid).wf(),
    ensures
        final(grid).wf(),
        changed == (old(settings).noise != old(settings).prev_noise),
        final(settings).prev_noise == old(settings).noise,
        final(settings).noise == old(settings).noise,
        final(settings).render_distance == old(settings).render_distance,
        final(settings).update_chunks == old(settings).update_chunks,
        final(settings).task_polls_per_frame == old(settings).task_polls_per_frame,
        final(settings).mesh_updates_per_frame == old(settings).mesh_updates_per_frame,
        final(settings).mesh_builder == old(settings).mesh_builder,
        changed ==> {
            &&& final(generator).scale_value() == old(settings).noise.scale
            &&& final(grid)@ == old(grid)@.remove_keys(keys_of(old(chunks)@, old(chunks)@.len()))
            &&& final(chunks)@ == Seq::<GridCoordinates>::empty()
            &&& final(despawning)@ == old(despawning)@ + old(chunks)@
        },
        !changed ==> {
            &&& *final(generator) == *old(generator)
            &&& final(grid)@ == old(grid)@
            &&& final(chunks)@ == old(chunks)@
            &&& final(despawning)@ == old(despawning)@
        },
{
    if settings.detect_changes() {
        generator.set_scale(settings.noise.scale);
        assert(grid@ =~= old(grid)@.remove_keys(keys_of(chunks@, 0)));
        assert(despawning@ =~= old(despawning)@ + chunks@.take(0));
        let mut i: usize = 0;
        while i < chunks.len()
            invariant
                i <= chunks@.len(),
                chunks@ == old(chunks)@,
                grid.wf(),
                grid@ == old(grid)@.remove_keys(keys_of(chunks@, i as nat)),
                despawning@ == old(despawning)@ + chunks@.take(i as int),
            decreases chunks@.len() - i,
        {
            let coordinates: GridCoordinates = chunks[i];
            grid.remove(&coordinates);
            despawning.push(coordinates);
            assert(grid@ =~= old(grid)@.remove_keys(keys_of(chunks@, (i + 1) as nat)));
            assert(despawning@ =~= old(despawning)@ + chunks@.take(i + 1));
            i = i + 1;
        }
        assert(chunks@.take(chunks@.len() as int) =~= chunks@);
        chunks.clear();
        true
    } else {
        false
    }
}

/// Starts the generation of a reserved chunk: a task at its first stage
/// joins the list. Where no task can be made for these inputs, the
/// reservation is released instead, so that the chunk can be requested
/// again.
pub fn dispatch_task(
    tasks: &mut Vec<ChunkDataGenerationFuture>,
    grid: &mut ChunkGridInner,
    coordinates: GridCoordinates,
    generator: TerrainGenerator,
    samples: Vec<i32>,
    mesh_builder_settings: MeshBuilderSettings,
) -> (dispatched: bool)
    requires
        generator.wf(),
        old(grid).wf(),
    ensures
        final(grid).wf(),
        dispatched == ChunkDataGenerationFuture::accepts(coordinates, generator, samples@),
        dispatched ==> {
            let task = final(tasks)@.last();
            &&& final(grid)@ == old(grid)@
            &&& final(tasks)@ == old(tasks)@.push(task)
            &&& task.wf()
            &&& task.coordinates() == coordinates
            &&& task.generator() == generator
            &&& task.samples() == samples@
            &&& task.settings() == mesh_builder_settings
            &&& task.state() == Some(State::Initial)
        },
        !dispatched ==> final(tasks)@ == old(tasks)@ && final(grid)@ == old(grid)@.remove(
            coordinates.key(),
        ),
{
    match ChunkDataGenerationFuture::new(coordinates, generator, samples, mesh_builder_settings) {
        Some(task) => {
            tasks.push(task);
            true
        },
        None => {
            grid.remove(&coordinates);
            false
        },
    }
}

/// The smaller of two counts.
pub open spec fn at_most(cap: usize, available: nat) -> nat {
    if cap <= available {
        cap as nat
    } else {
        available
    }
}

/// Whether every task of a list can be polled.
pub open spec fn all_pollable(tasks: Seq<ChunkDataGenerationFuture>) -> bool {
    forall|i: int| 0 <= i < tasks.len() ==> (#[trigger] tasks[i]).wf() && tasks[i].state().is_some()
}

/// Whether `after` and `results` are what comes of polling the first
/// `results.len()` tasks of `before` once each, in order, with the store
/// passing through `stores` from poll to poll.
pub open spec fn polled_in_turn(
    before: Seq<ChunkDataGenerationFuture>,
    after: Seq<ChunkDataGenerationFuture>,
    results: Seq<PollResult>,
    stores: Seq<ChunkEntries>,
) -> bool {
    &&& after.len() == before.len()
    &&& results.len() <= before.len()
    &&& stores.len() == results.len() + 1
    &&& forall|i: int|
        0 <= i < results.len() ==> {
            &&& (#[trigger] after[i]).coordinates() == before[i].coordinates()
            &&& after[i].generator() == before[i].generator()
            &&& after[i].samples() == before[i].samples()
            &&& after[i].settings() == before[i].settings()
            &&& poll_step(
                before[i],
                before[i].state().unwrap(),
                stores[i],
                results[i],
                after[i].state(),
                stores[i + 1],
            )
        }
    &&& forall|i: int| results.len() <= i < before.len() ==> #[trigger] after[i] == before[i]
}

/// A finished chunk that waits to be presented.
#[derive(Debug)]
pub struct ReadyChunk {
    pub coordinates: GridCoordinates,
    pub data: GeneratedChunkData,
}

/// The chunks that the first `n` polls completed, each with the position of
/// its task, in the order of the polls.
pub open spec fn finished_chunks(
    tasks: Seq<ChunkDataGenerationFuture>,
    results: Seq<PollResult>,
    n: nat,
) -> Seq<ReadyChunk>
    decreases n,
{
    if n == 0 {
        Seq::empty()
    } else {
        let rest = finished_chunks(tasks, results, (n - 1) as nat);
        match results[n - 1] {
            PollResult::Ready(data) => rest.push(
                ReadyChunk { coordinates: tasks[n - 1].coordinates(), data },
            ),
            _ => rest,
        }
    }
}

/// What the polling of one tick comes to: the first `polled` tasks were
/// polled once each, in order; the chunks they completed joined the queue
/// of chunks to present; and the tasks that completed or failed left the
/// list.
pub open spec fn tick_polled(
    tasks_before: Seq<ChunkDataGenerationFuture>,
    store_before: ChunkEntries,
    ready_before: Seq<ReadyChunk>,
    polled: nat,
    tasks_after: Seq<ChunkDataGenerationFuture>,
    store_after: ChunkEntries,
    ready_after: Seq<ReadyChunk>,
) -> bool {
    exists|between: Seq<ChunkDataGenerationFuture>, results: Seq<PollResult>, stores: Seq<ChunkEntries>|
        {
            &&& #[trigger] polled_in_turn(tasks_before, between, results, stores)
            &&& results.len() == polled
            &&& stores[0] == store_before
            &&& stores[polled as int] == store_after
            &&& tasks_after == unfinished(between)
            &&& ready_after == ready_before + finished_chunks(tasks_before, results, polled)
        }
}

/// The tasks that `unfinished` keeps can all be polled.
proof fn lemma_unfinished_pollable(tasks: Seq<ChunkDataGenerationFuture>)
    requires
        forall|i: int| 0 <= i < tasks.len() ==> (#[trigger] tasks[i]).wf(),
    ensures
        all_pollable(unfinished(tasks)),
    decreases tasks.len(),
{
    if tasks.len() > 0 {
        let front = tasks.drop_last();
        assert forall|i: int| 0 <= i < front.len() implies (#[trigger] front[i]).wf() by {
            assert(front[i] == tasks[i]);
        }
        lemma_unfinished_pollable(front);
    }
}

/// Advances the first tasks of the list by one stage each, as many as the
/// budget of the tick allows. A chunk that a poll completes joins the queue
/// of chunks to present; a task that completes or fails leaves the list.
/// The result is the number of tasks polled.
pub fn poll_generation_tasks(
    tasks: &mut Vec<ChunkDataGenerationFuture>,
    grid: &mut ChunkGridInner,
    ready: &mut Vec<ReadyChunk>,
    task_polls_per_frame: usize,
) -> (polled: usize)
    requires
        all_pollable(old(tasks)@),
        old(grid).wf(),
    ensures
        final(grid).wf(),
        all_pollable(final(tasks)@),
        polled == at_most(task_polls_per_frame, old(tasks)@.len()),
        polled <= task_polls_per_frame,
        tick_polled(
            old(tasks)@,
            old(grid)@,
            old(ready)@,
            polled as nat,
            final(tasks)@,
            final(grid)@,
            final(ready)@,
        ),
{
    let count: usize = if task_polls_per_frame <= tasks.len() {
        task_polls_per_frame
    } else {
        tasks.len()
    };
    let ghost mut results: Seq<PollResult> = Seq::empty();
    let ghost mut stores: Seq<ChunkEntries> = seq![grid@];
    assert(ready@ =~= old(ready)@ + finished_chunks(old(tasks)@, results, 0));
    let mut i: usize = 0;
    while i < count
        invariant
            i <= count <= old(tasks)@.len(),
            grid.wf(),
            results.len() == i,
            stores.len() == i + 1,
            stores[0] == old(grid)@,
            stores[i as int] == grid@,
            all_pollable(old(tasks)@),
            polled_in_turn(old(tasks)@, tasks@, results, stores),
            forall|k: int| 0 <= k < tasks@.len() ==> (#[trigger] tasks@[k]).wf(),
            ready@ == old(ready)@ + finished_chunks(old(tasks)@, results, i as nat),
        decreases count - i,
    {
        let ghost seen = tasks@;
        let ghost given = results;
        let ghost passed = stores;
        let ghost queued = ready@;
        let result: PollResult = tasks[i].poll(grid);
        let coordinates: GridCoordinates = tasks[i].target();
        proof {
            results = results.push(result);
            stores = stores.push(grid@);
        }
        match result {
            PollResult::Ready(data) => {
                ready.push(ReadyChunk { coordinates, data });
            },
            _ => {},
        }
        proof {
            assert forall|k: int| 0 <= k < results.len() implies {
                &&& (#[trigger] tasks@[k]).coordinates() == old(tasks)@[k].coordinates()
                &&& tasks@[k].generator() == old(tasks)@[k].generator()
                &&& tasks@[k].samples() == old(tasks)@[k].samples()
                &&& tasks@[k].settings() == old(tasks)@[k].settings()
                &&& poll_step(
                    old(tasks)@[k],
                    old(tasks)@[k].state().unwrap(),
                    stores[k],
                    results[k],
                    tasks@[k].state(),
                    stores[k + 1],
                )
            } by {
                if k < i {
                    assert(tasks@[k] == seen[k]);
                    assert(results[k] == given[k]);
                    assert(stores[k] == passed[k] && stores[k + 1] == passed[k + 1]);
                } else {
                    assert(seen[k] == old(tasks)@[k]);
                }
            }
            assert forall|k: int| results.len() <= k < old(tasks)@.len() implies #[trigger] tasks@[k]
                == old(tasks)@[k] by {
                assert(tasks@[k] == seen[k]);
            }
            lemma_finished_chunks_extend(old(tasks)@, given, results, i as nat);
            assert(ready@ =~= old(ready)@ + finished_chunks(old(tasks)@, results, (i + 1) as nat));
        }
        i = i + 1;
    }
    let ghost between = tasks@;
    remove_finished_tasks(tasks);
    proof {
        lemma_unfinished_pollable(between);
        assert(polled_in_turn(old(tasks)@, between, results, stores));
    }
    count
}

/// The chunks of the first `n` polls do not depend on later results.
proof fn lemma_finished_chunks_extend(
    tasks: Seq<ChunkDataGenerationFuture>,
    shorter: Seq<PollResult>,
    longer: Seq<PollResult>,
    n: nat,
)
    requires
        n <= shorter.len() <= longer.len(),
        forall|k: int| 0 <= k < shorter.len() ==> shorter[k] == longer[k],
    ensures
        finished_chunks(tasks, shorter, n) == finished_chunks(tasks, longer, n),
    decreases n,
{
    if n > 0 {
        lemma_finished_chunks_extend(tasks, shorter, longer, (n - 1) as nat);
    }
}

/// The tasks of a list that can still be polled, in their order.
pub open spec fn unfinished(tasks: Seq<ChunkDataGenerationFuture>) -> Seq<ChunkDataGenerationFuture>
    decreases tasks.len(),
{
    if tasks.len() == 0 {
        Seq::empty()
    } else if tasks.last().state().is_some() {
        unfinished(tasks.drop_last()).push(tasks.last())
    } else {
        unfinished(tasks.drop_last())
    }
}

/// Drops the tasks that have handed over their result or have failed, and
/// keeps the others in their order.
pub fn remove_finished_tasks(tasks: &mut Vec<ChunkDataGenerationFuture>)
    ensures
        final(tasks)@ == unfinished(old(tasks)@),
{
    let mut kept: usize = 0;
    let ghost mut seen: int = 0;
    while kept < tasks.len()
        invariant
            0 <= seen <= old(tasks)@.len(),
            kept <= tasks@.len(),
            tasks@.len() - kept == old(tasks)@.len() - seen,
            tasks@.take(kept as int) == unfinished(old(tasks)@.take(seen)),
            tasks@.skip(kept as int) == old(tasks)@.skip(seen),
        decreases tasks@.len() - kept,
    {
        proof {
            assert(tasks@[kept as int] == tasks@.skip(kept as int)[0]);
            assert(old(tasks)@[seen] == old(tasks)@.skip(seen)[0]);
            assert(old(tasks)@.take(seen + 1).drop_last() =~= old(tasks)@.take(seen));
            assert(old(tasks)@.take(seen + 1).last() == old(tasks)@[seen]);
        }
        let ghost current = tasks@;
        if tasks[kept].is_finished() {
            tasks.remove(kept);
            proof {
                assert(tasks@.take(kept as int) =~= current.take(kept as int));
                let ahead = tasks@.skip(kept as int);
                assert forall|j: int| 0 <= j < ahead.len() implies #[trigger] ahead[j]
                    == old(tasks)@.skip(seen + 1)[j] by {
                    assert(current.skip(kept as int)[j + 1] == old(tasks)@.skip(seen)[j + 1]);
                }
                assert(tasks@.skip(kept as int) =~= old(tasks)@.skip(seen + 1));
                seen = seen + 1;
            }
        } else {
            proof {
                assert(tasks@.take(kept + 1) =~= current.take(kept as int).push(current[kept as int]));
                let ahead = tasks@.skip(kept + 1);
                assert forall|j: int| 0 <= j < ahead.len() implies #[trigger] ahead[j]
                    == old(tasks)@.skip(seen + 1)[j] by {
                    assert(current.skip(kept as int)[j + 1] == old(tasks)@.skip(seen)[j + 1]);
                }
                assert(tasks@.skip(kept + 1) =~= old(tasks)@.skip(seen + 1));
                seen = seen + 1;
            }
            kept = kept + 1;
        }
    }
    proof {
        assert(tasks@.take(kept as int) =~= tasks@);
        assert(old(tasks)@.take(seen) =~= old(tasks)@);
    }
}

/// The positions of a list of finished chunks.
pub open spec fn positions_of(chunks: Seq<ReadyChunk>) -> Seq<GridCoordinates> {
    Seq::new(chunks.len(), |i: int| chunks[i].coordinates)
}

/// Takes the finished chunks that are presented in this tick: the first of
/// the queue, as many as the budget of the tick allows. Their positions
/// join the list of presented chunks. The others wait.
pub fn insert_meshes_and_colliders(
    ready: &mut Vec<ReadyChunk>,
    chunks: &mut Vec<GridCoordinates>,
    mesh_updates_per_frame: usize,
) -> (presented: Vec<ReadyChunk>)
    ensures
        presented@.len() == at_most(mesh_updates_per_frame, old(ready)@.len()),
        presented@.len() <= mesh_updates_per_frame,
        presented@ == old(ready)@.subrange(0, presented@.len() as int),
        final(ready)@ == old(ready)@.subrange(presented@.len() as int, old(ready)@.len() as int),
        final(chunks)@ == old(chunks)@ + positions_of(presented@),
{
    let count: usize = if mesh_updates_per_frame <= ready.len() {
        mesh_updates_per_frame
    } else {
        ready.len()
    };
    let mut rest: Vec<ReadyChunk> = ready.split_off(count);
    core::mem::swap(ready, &mut rest);
    let presented: Vec<ReadyChunk> = rest;
    assert(chunks@ =~= old(chunks)@ + positions_of(presented@).take(0));
    let mut i: usize = 0;
    while i < presented.len()
        invariant
            i <= presented@.len(),
            chunks@ == old(chunks)@ + positions_of(presented@).take(i as int),
        decreases presented@.len() - i,
    {
        chunks.push(presented[i].coordinates);
        assert(chunks@ =~= old(chunks)@ + positions_of(presented@).take(i + 1));
        i = i + 1;
    }
    assert(positions_of(presented@).take(presented@.len() as int) =~= positions_of(presented@));
    presented
}

/// Takes the chunks that are despawned in this tick: the first of the queue,
/// `DESPAWNS_PER_FRAME` at most. The others wait.
pub fn despawn_chunks(marked: &mut Vec<GridCoordinates>) -> (despawned: Vec<GridCoordinates>)
    ensures
        despawned@.len() == at_most(DESPAWNS_PER_FRAME, old(marked)@.len()),
        despawned@.len() <= DESPAWNS_PER_FRAME,
        despawned@ == old(marked)@.subrange(0, despawned@.len() as int),
        final(marked)@ == old(marked)@.subrange(despawned@.len() as int, old(marked)@.len() as int),
{
    let count: usize = if DESPAWNS_PER_FRAME <= marked.len() {
        DESPAWNS_PER_FRAME
    } else {
        marked.len()
    };
    let mut rest: Vec<GridCoordinates> = marked.split_off(count);
    core::mem::swap(marked, &mut rest);
    rest
}

} // verus!
