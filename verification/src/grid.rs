use vstd::prelude::*;
use dashmap::DashMap;
use crate::chunk::{in_chunk, Chunk};
use crate::coordinates::GridCoordinates;

verus! {

/// The concurrent map of the `dashmap` crate; nothing is known of a value of
/// it but what the functions below state.
#[verifier::external_type_specification]
#[verifier::external_body]
#[verifier::reject_recursive_types(K)]
#[verifier::reject_recursive_types(V)]
#[verifier::reject_recursive_types(S)]
pub struct ExDashMap<K, V, S>(DashMap<K, V, S>);

/// The key of a chunk in the store: the three axes of its lower corner.
pub type ChunkKey = (isize, isize, isize);

/// What a store holds under each key: `None` while the chunk is being
/// generated, `Some` once it is loaded.
pub type ChunkEntries = Map<ChunkKey, Option<Chunk>>;

/// The entries of a `DashMap` of chunks.
pub uninterp spec fn chunk_entries(m: DashMap<ChunkKey, Option<Chunk>>) -> ChunkEntries;

impl GridCoordinates {
    /// This position as a store key.
    pub open spec fn key(self) -> ChunkKey {
        (self.x, self.y, self.z)
    }
}

/// `DashMap::new`: a map without entries.
#[verifier::external_body]
fn map_new() -> (r: DashMap<ChunkKey, Option<Chunk>>)
    ensures
        chunk_entries(r) == no_entries(),
{
    DashMap::new()
}

/// `DashMap::contains_key`: whether the map holds an entry under `key`.
#[verifier::external_body]
fn map_contains_key(m: &DashMap<ChunkKey, Option<Chunk>>, key: ChunkKey) -> (r: bool)
    ensures
        r == chunk_entries(*m).contains_key(key),
{
    m.contains_key(&key)
}

/// `DashMap::insert`: afterwards the map holds `value` under `key`, in place
/// of what it held there, and every other entry as before.
#[verifier::external_body]
fn map_insert(m: &mut DashMap<ChunkKey, Option<Chunk>>, key: ChunkKey, value: Option<Chunk>)
    ensures
        chunk_entries(*final(m)) == chunk_entries(*old(m)).insert(key, value),
{
    m.insert(key, value);
}

/// `DashMap::remove`: afterwards the map holds nothing under `key`, and every
/// other entry as before.
#[verifier::external_body]
fn map_remove(m: &mut DashMap<ChunkKey, Option<Chunk>>, key: ChunkKey)
    ensures
        chunk_entries(*final(m)) == chunk_entries(*old(m)).remove(key),
{
    m.remove(&key);
}

/// `DashMap::get`, read through to one cell: for a loaded chunk under `key`,
/// whether its cell at `local` is solid; `None` where the map has no entry
/// there or only a reservation.
#[verifier::external_body]
fn map_cell_is_solid(m: &DashMap<ChunkKey, Option<Chunk>>, key: ChunkKey, local: [isize; 3]) -> (r:
    Option<bool>)
    requires
        in_chunk(local[0] as int, local[1] as int, local[2] as int),
        entries_wf(chunk_entries(*m)),
    ensures
        r == loaded_cell_solid(
            chunk_entries(*m),
            key,
            local[0] as int,
            local[1] as int,
            local[2] as int,
        ),
{
    m.get(&key).and_then(|r| r.value().as_ref().map(|chunk| chunk.is_solid(local)))
}

/// `DashMap::get`, copied out: a copy of the chunk loaded under `key`, with
/// the same cells and position; `None` where the map has no entry there or
/// only a reservation.
#[verifier::external_body]
fn map_get_loaded(m: &DashMap<ChunkKey, Option<Chunk>>, key: ChunkKey) -> (r: Option<Chunk>)
    ensures
        r.is_some() == is_loaded(chunk_entries(*m), key),
        match r {
            Some(chunk) => chunk@ == chunk_entries(*m)[key].unwrap()@ && chunk.position()
                == chunk_entries(*m)[key].unwrap().position(),
            None => true,
        },
{
    m.get(&key).and_then(|r| r.value().as_ref().map(|chunk| chunk.clone()))
}

/// Whether a chunk is loaded under `key`, not merely reserved.
pub open spec fn is_loaded(entries: ChunkEntries, key: ChunkKey) -> bool {
    entries.contains_key(key) && entries[key].is_some()
}

/// A store without entries.
pub open spec fn no_entries() -> ChunkEntries {
    Map::empty()
}

/// Every loaded chunk is well formed.
pub open spec fn entries_wf(entries: ChunkEntries) -> bool {
    forall|k: ChunkKey| #[trigger]
        entries.contains_key(k) ==> match entries[k] {
            Some(chunk) => chunk.wf(),
            None => true,
        }
}

/// Whether the cell at a local position of the chunk loaded under `key` is
/// solid; `None` where no chunk is loaded there.
pub open spec fn loaded_cell_solid(entries: ChunkEntries, key: ChunkKey, x: int, y: int, z: int)
    -> Option<bool> {
    if entries.contains_key(key) {
        match entries[key] {
            Some(chunk) => Some(chunk.solid_at(x, y, z)),
            None => None,
        }
    } else {
        None
    }
}

/// Whether `reserve` inserts: only where the store has no entry yet.
pub open spec fn reserve_succeeds(entries: ChunkEntries, key: ChunkKey) -> bool {
    !entries.contains_key(key)
}

/// The store after `reserve`: a reservation is added where there was no
/// entry, and nothing changes otherwise.
pub open spec fn after_reserve(entries: ChunkEntries, key: ChunkKey) -> ChunkEntries {
    if entries.contains_key(key) {
        entries
    } else {
        entries.insert(key, None)
    }
}

/// The store of chunks, keyed by the grid position of each chunk's lower
/// corner.
pub struct ChunkGridInner {
    chunks: DashMap<ChunkKey, Option<Chunk>>,
}

impl View for ChunkGridInner {
    type V = ChunkEntries;

    closed spec fn view(&self) -> ChunkEntries {
        chunk_entries(self.chunks)
    }
}

impl ChunkGridInner {
    /// Every loaded chunk is well formed.
    pub open spec fn wf(&self) -> bool {
        entries_wf(self@)
    }

    /// A store without entries.
    pub fn new() -> (r: Self)
        ensures
            r.wf(),
            r@ == no_entries(),
    {
        Self { chunks: map_new() }
    }

    /// Whether the store holds an entry, reserved or loaded.
    pub fn contains_key(&self, coordinates: &GridCoordinates) -> (r: bool)
        ensures
            r == self@.contains_key(coordinates.key()),
    {
        map_contains_key(&self.chunks, (coordinates.x, coordinates.y, coordinates.z))
    }

    /// Marks a chunk as being generated, unless the store already has an
    /// entry for it. The result says whether this call made the reservation.
    pub fn reserve(&mut self, coordinates: GridCoordinates) -> (r: bool)
        requires
            old(self).wf(),
        ensures
            final(self).wf(),
            r == reserve_succeeds(old(self)@, coordinates.key()),
            final(self)@ == after_reserve(old(self)@, coordinates.key()),
    {
        let key: ChunkKey = (coordinates.x, coordinates.y, coordinates.z);
        if map_contains_key(&self.chunks, key) {
            false
        } else {
            map_insert(&mut self.chunks, key, None);
            true
        }
    }

    /// Stores a loaded chunk, in place of its reservation.
    pub fn commit(&mut self, coordinates: GridCoordinates, chunk: Chunk)
        requires
            old(self).wf(),
            chunk.wf(),
        ensures
            final(self).wf(),
            final(self)@ == old(self)@.insert(coordinates.key(), Some(chunk)),
    {
        map_insert(&mut self.chunks, (coordinates.x, coordinates.y, coordinates.z), Some(chunk));
    }

    /// Drops the entry of a chunk, reserved or loaded. The result says
    /// whether there was one.
    pub fn remove(&mut self, coordinates: &GridCoordinates) -> (r: bool)
        requires
            old(self).wf(),
        ensures
            final(self).wf(),
            final(self)@ == old(self)@.remove(coordinates.key()),
            r == old(self)@.contains_key(coordinates.key()),
    {
        let key: ChunkKey = (coordinates.x, coordinates.y, coordinates.z);
        let held: bool = map_contains_key(&self.chunks, key);
        map_remove(&mut self.chunks, key);
        held
    }

    /// A copy of a loaded chunk. A missing entry and a reservation both
    /// give `None`: the chunk is not available yet.
    pub fn get(&self, coordinates: &GridCoordinates) -> (r: Option<Chunk>)
        requires
            self.wf(),
        ensures
            r.is_some() == is_loaded(self@, coordinates.key()),
            match r {
                Some(chunk) => {
                    &&& chunk.wf()
                    &&& chunk@ == self@[coordinates.key()].unwrap()@
                    &&& chunk.position() == self@[coordinates.key()].unwrap().position()
                },
                None => true,
            },
    {
        map_get_loaded(&self.chunks, (coordinates.x, coordinates.y, coordinates.z))
    }

    /// Reads one cell of a loaded chunk. A missing entry and a reservation
    /// both give `None`.
    pub fn cell_is_solid(&self, coordinates: &GridCoordinates, local: [isize; 3]) -> (r: Option<bool>)
        requires
            self.wf(),
            in_chunk(local[0] as int, local[1] as int, local[2] as int),
        ensures
            r == loaded_cell_solid(
                self@,
                coordinates.key(),
                local[0] as int,
                local[1] as int,
                local[2] as int,
            ),
    {
        map_cell_is_solid(&self.chunks, (coordinates.x, coordinates.y, coordinates.z), local)
    }
}

/// A first reservation of a free position succeeds, and a second one, made
/// before any commit or removal, fails and changes nothing.
pub proof fn lemma_reserve_once(entries: ChunkEntries, key: ChunkKey)
    ensures
        !entries.contains_key(key) ==> reserve_succeeds(entries, key),
        !reserve_succeeds(after_reserve(entries, key), key),
        after_reserve(after_reserve(entries, key), key) == after_reserve(entries, key),
{
}

/// A reservation stays in force until the entry is removed: committing the
/// chunk keeps further reservations out, and removal admits one again.
pub proof fn lemma_reserve_after_commit_and_remove(entries: ChunkEntries, key: ChunkKey, chunk: Chunk)
    ensures
        !reserve_succeeds(after_reserve(entries, key).insert(key, Some(chunk)), key),
        reserve_succeeds(entries.remove(key), key),
        after_reserve(entries.remove(key), key) == entries.insert(key, None),
{
    assert(after_reserve(entries.remove(key), key) =~= entries.insert(key, None));
}

} // verus!
