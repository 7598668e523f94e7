//! The hash collections of `bevy_utils`, held opaquely.
//!
//! Each store keeps one `bevy_utils` collection in a private field. Its
//! contents are named by an uninterpreted spec function, and each operation
//! that the crate performs on it is a small trusted function whose contract
//! states what the collection does to those contents.

use vstd::prelude::*;
use bevy_ecs::entity::Entity;
use crate::chunk::Chunk;
use crate::tile::RawTile;

verus! {

/// The tiles of a sparse layer, keyed by their local index.
#[verifier::external_body]
pub struct TileStore {
    map: bevy_utils::HashMap<usize, RawTile>,
}

/// What a `TileStore` holds: local index to tile.
pub uninterp spec fn stored_tiles(s: TileStore) -> Map<usize, RawTile>;

impl View for TileStore {
    type V = Map<usize, RawTile>;

    open spec fn view(&self) -> Map<usize, RawTile> {
        stored_tiles(*self)
    }
}

impl TileStore {
    /// Relies on `HashMap::default`: a new map holds no entry.
    #[verifier::external_body]
    pub(crate) fn empty() -> (r: TileStore)
        ensures
            stored_tiles(r).dom() == Set::<usize>::empty(),
    {
        TileStore { map: bevy_utils::HashMap::default() }
    }

    /// Relies on `HashMap::insert`: the key now maps to the value, other keys keep theirs.
    #[verifier::external_body]
    pub(crate) fn insert(&mut self, index: usize, tile: RawTile)
        ensures
            stored_tiles(*final(self)) == stored_tiles(*old(self)).insert(index, tile),
    {
        self.map.insert(index, tile);
    }

    /// Relies on `HashMap::remove`: the key no longer has an entry, other keys keep theirs.
    #[verifier::external_body]
    pub(crate) fn remove(&mut self, index: usize)
        ensures
            stored_tiles(*final(self)) == stored_tiles(*old(self)).remove(index),
    {
        self.map.remove(&index);
    }

    /// Relies on `HashMap::get`: the entry of the key, if there is one.
    #[verifier::external_body]
    pub(crate) fn get(&self, index: usize) -> (r: Option<&RawTile>)
        ensures
            match r {
                Some(t) => stored_tiles(*self).contains_key(index) && *t == stored_tiles(*self)[index],
                None => !stored_tiles(*self).contains_key(index),
            },
    {
        self.map.get(&index)
    }

    /// Relies on `HashMap::keys`: every key once, in the map's own order.
    #[verifier::external_body]
    pub(crate) fn keys(&self) -> (r: Vec<usize>)
        ensures
            r@.to_set() == stored_tiles(*self).dom(),
            r@.no_duplicates(),
    {
        self.map.keys().copied().collect()
    }
}

/// A set of chunk points, each written as `(x, y)`.
#[verifier::external_body]
pub struct PointSet {
    set: bevy_utils::HashSet<(i32, i32)>,
}

/// What a `PointSet` holds.
pub uninterp spec fn stored_points(s: PointSet) -> Set<(i32, i32)>;

impl View for PointSet {
    type V = Set<(i32, i32)>;

    open spec fn view(&self) -> Set<(i32, i32)> {
        stored_points(*self)
    }
}

impl PointSet {
    /// Relies on `HashSet::default`: a new set is empty.
    #[verifier::external_body]
    pub(crate) fn empty() -> (r: PointSet)
        ensures
            stored_points(r) == Set::<(i32, i32)>::empty(),
    {
        PointSet { set: bevy_utils::HashSet::default() }
    }

    /// Relies on `HashSet::insert`: the point is now a member.
    #[verifier::external_body]
    pub(crate) fn insert(&mut self, p: (i32, i32))
        ensures
            stored_points(*final(self)) == stored_points(*old(self)).insert(p),
    {
        self.set.insert(p);
    }

    /// Relies on `HashSet::remove`: the point is no longer a member.
    #[verifier::external_body]
    pub(crate) fn remove(&mut self, p: (i32, i32))
        ensures
            stored_points(*final(self)) == stored_points(*old(self)).remove(p),
    {
        self.set.remove(&p);
    }

    /// Relies on `HashSet::contains`.
    #[verifier::external_body]
    pub(crate) fn contains(&self, p: (i32, i32)) -> (r: bool)
        ensures
            r == stored_points(*self).contains(p),
    {
        self.set.contains(&p)
    }

    /// Relies on `HashSet::iter`: every member once, in the set's own order.
    #[verifier::external_body]
    pub(crate) fn to_vec(&self) -> (r: Vec<(i32, i32)>)
        ensures
            r@.to_set() == stored_points(*self),
            r@.no_duplicates(),
    {
        self.set.iter().copied().collect()
    }
}

/// A set of render entities.
#[verifier::external_body]
pub struct EntitySet {
    set: bevy_utils::HashSet<Entity>,
}

/// What an `EntitySet` holds.
pub uninterp spec fn stored_entities(s: EntitySet) -> Set<Entity>;

impl View for EntitySet {
    type V = Set<Entity>;

    open spec fn view(&self) -> Set<Entity> {
        stored_entities(*self)
    }
}

impl EntitySet {
    /// Relies on `HashSet::default`: a new set is empty.
    #[verifier::external_body]
    pub(crate) fn empty() -> (r: EntitySet)
        ensures
            stored_entities(r) == Set::<Entity>::empty(),
    {
        EntitySet { set: bevy_utils::HashSet::default() }
    }

    /// Relies on `HashSet::insert`: the entity is now a member.
    #[verifier::external_body]
    pub(crate) fn insert(&mut self, e: Entity)
        ensures
            stored_entities(*final(self)) == stored_entities(*old(self)).insert(e),
    {
        self.set.insert(e);
    }

    /// Relies on `HashSet::contains`.
    #[verifier::external_body]
    fn has(&self, e: &Entity) -> (r: bool)
        ensures
            r == stored_entities(*self).contains(*e),
    {
        self.set.contains(e)
    }

    /// Relies on `HashSet::iter`: every member once, in the set's own order.
    #[verifier::external_body]
    fn members(&self) -> (r: Vec<Entity>)
        ensures
            r@.to_set() == stored_entities(*self),
            r@.no_duplicates(),
    {
        self.set.iter().copied().collect()
    }

    /// Whether `e` is a member.
    pub fn contains(&self, e: &Entity) -> (r: bool)
        ensures
            r == self@.contains(*e),
    {
        self.has(e)
    }

    /// The members, each once, in no particular order.
    pub fn to_vec(&self) -> (r: Vec<Entity>)
        ensures
            r@.to_set() == self@,
            r@.no_duplicates(),
    {
        self.members()
    }
}

/// The chunks of a tilemap, keyed by chunk point `(x, y)`.
#[verifier::external_body]
pub struct ChunkStore {
    map: bevy_utils::HashMap<(i32, i32), Chunk>,
}

/// What a `ChunkStore` holds: chunk point to chunk.
pub uninterp spec fn stored_chunks(s: ChunkStore) -> Map<(i32, i32), Chunk>;

impl View for ChunkStore {
    type V = Map<(i32, i32), Chunk>;

    open spec fn view(&self) -> Map<(i32, i32), Chunk> {
        stored_chunks(*self)
    }
}

impl ChunkStore {
    /// Relies on `HashMap::default`: a new map holds no entry.
    #[verifier::external_body]
    pub(crate) fn empty() -> (r: ChunkStore)
        ensures
            stored_chunks(r).dom() == Set::<(i32, i32)>::empty(),
    {
        ChunkStore { map: bevy_utils::HashMap::default() }
    }

    /// Relies on `HashMap::contains_key`.
    #[verifier::external_body]
    pub(crate) fn contains(&self, p: (i32, i32)) -> (r: bool)
        ensures
            r == stored_chunks(*self).contains_key(p),
    {
        self.map.contains_key(&p)
    }

    /// Relies on `HashMap::get`: the entry of the key, if there is one.
    #[verifier::external_body]
    pub(crate) fn get(&self, p: (i32, i32)) -> (r: Option<&Chunk>)
        ensures
            match r {
                Some(c) => stored_chunks(*self).contains_key(p) && *c == stored_chunks(*self)[p],
                None => !stored_chunks(*self).contains_key(p),
            },
    {
        self.map.get(&p)
    }

    /// Relies on `HashMap::insert`: the key now maps to the chunk, other keys keep theirs.
    #[verifier::external_body]
    pub(crate) fn insert(&mut self, p: (i32, i32), c: Chunk)
        ensures
            stored_chunks(*final(self)) == stored_chunks(*old(self)).insert(p, c),
    {
        self.map.insert(p, c);
    }

    /// Relies on `HashMap::remove`: the entry of the key is taken out and returned.
    #[verifier::external_body]
    pub(crate) fn take(&mut self, p: (i32, i32)) -> (r: Option<Chunk>)
        ensures
            stored_chunks(*final(self)) == stored_chunks(*old(self)).remove(p),
            match r {
                Some(c) => stored_chunks(*old(self)).contains_key(p) && c == stored_chunks(*old(self))[p],
                None => !stored_chunks(*old(self)).contains_key(p),
            },
    {
        self.map.remove(&p)
    }
}

} // verus!
