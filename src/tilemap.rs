//! The tilemap: configuration, the chunks, which chunks are spawned, and the
//! events that report changes to them.

use vstd::prelude::*;
use bevy_ecs::entity::Entity;
use crate::chunk::{is_fresh_chunk, layer_entities, tile_removed, tile_set, Chunk};
use crate::error::{fails_with, DimensionError, ErrorKind, TilemapError};
use crate::event::{
    despawned_current, despawned_held, modified_current, modified_held, new_despawned_events,
    new_modified_events, new_spawned_events, send_despawned, send_modified, send_spawned,
    spawned_current, spawned_held, update_despawned, update_modified, update_spawned,
    DespawnedEvents, ModifiedEvents, SpawnedEvents, TilemapChunkDespawned, TilemapChunkModified,
    TilemapChunkSpawned,
};
use crate::layer::LayerKind;
use crate::store::{ChunkStore, EntitySet, PointSet};
use crate::tile::{RawTile, Tile};
use crate::types::{Dimension2, GridTopology, Point2};

verus! {

/// A depth of the tilemap's layer schedule: the kind of layer that each chunk builds there.
#[derive(Clone, Copy, Debug, PartialEq, Eq, Structural)]
pub struct TileLayer {
    pub kind: LayerKind,
    pub user_data: u128,
}

/// The key of a chunk point in the chunk map and the spawned set.
pub open spec fn key_of(p: Point2) -> (i32, i32) {
    (p.x, p.y)
}

/// `p` lies within `[-w/2, w - w/2) x [-h/2, h - h/2)` of the optional map
/// dimensions, counted in chunks; without dimensions every point does.
pub open spec fn bounds_contain(dimensions: Option<Dimension2>, p: Point2) -> bool {
    match dimensions {
        None => true,
        Some(d) => {
            &&& -((d.width / 2) as int) <= p.x < d.width - d.width / 2
            &&& -((d.height / 2) as int) <= p.y < d.height - d.height / 2
        },
    }
}

/// The kind of layer that a new chunk builds at `depth`: the scheduled kind,
/// and a dense layer at depth 0 where none is scheduled.
pub open spec fn scheduled_kind(layers: Seq<Option<TileLayer>>, depth: int) -> Option<LayerKind> {
    match layers[depth] {
        Some(l) => Some(l.kind),
        None => if depth == 0 {
            Some(LayerKind::Dense)
        } else {
            None
        },
    }
}

/// The kinds of layer that a new chunk builds, by depth.
pub open spec fn chunk_kinds(layers: Seq<Option<TileLayer>>) -> Seq<Option<LayerKind>> {
    Seq::new(layers.len(), |d: int| scheduled_kind(layers, d))
}

/// The chunk point of the chunk that holds tile point `p`, for chunks of
/// `chunk` tiles: chunk `(0, 0)` holds the tiles `[0, w) x [0, h)`.
pub open spec fn chunk_point_of(p: Point2, chunk: Dimension2) -> (i32, i32) {
    ((p.x as int / chunk.width as int) as i32, (p.y as int / chunk.height as int) as i32)
}

/// The row-major index, within its chunk, of tile point `p`.
pub open spec fn local_index_of(p: Point2, chunk: Dimension2) -> int {
    (p.y as int % chunk.height as int) * chunk.width + (p.x as int % chunk.width as int)
}

/// Floor division and the matching non-negative remainder.
fn floor_div_mod(a: i32, b: u32) -> (r: (i32, u32))
    requires
        b > 0,
    ensures
        r.0 == a as int / b as int,
        r.1 == a as int % b as int,
        r.1 < b,
{
    if a >= 0 {
        let n = a as u32;
        let q = n / b;
        let m = n % b;
        proof {
            vstd::arithmetic::div_mod::lemma_fundamental_div_mod(n as int, b as int);
            vstd::arithmetic::div_mod::lemma_div_pos_is_pos(n as int, b as int);
            vstd::arithmetic::div_mod::lemma_div_is_ordered_by_denominator(n as int, 1, b as int);
        }
        (q as i32, m)
    } else {
        let n = (-(a as i64) - 1) as u32;
        let q = n / b;
        let m = n % b;
        proof {
            let qi = q as int;
            let mi = m as int;
            let bi = b as int;
            vstd::arithmetic::div_mod::lemma_fundamental_div_mod(n as int, bi);
            vstd::arithmetic::div_mod::lemma_mod_pos_bound(n as int, bi);
            vstd::arithmetic::div_mod::lemma_div_is_ordered_by_denominator(n as int, 1, bi);
            assert(a as int == (-qi - 1) * bi + (bi - mi - 1)) by (nonlinear_arith)
                requires
                    n as int == bi * qi + mi,
                    a as int == -(n as int) - 1,
            ;
            vstd::arithmetic::div_mod::lemma_fundamental_div_mod_converse(a as int, bi, -qi - 1, bi - mi - 1);
        }
        ((-(q as i64) - 1) as i32, b - 1 - m)
    }
}

/// `after` is `before` once chunk point `point` was spawned, with result `r`:
/// a spawned point stays as it is, a point outside the map's dimensions fails,
/// and any other point becomes spawned, gets a chunk where it had none, and is
/// reported by exactly one spawn event.
pub open spec fn chunk_spawned(before: Tilemap2D, after: Tilemap2D, point: Point2, r: Result<(), TilemapError>) -> bool {
    &&& after.wf()
    &&& before.spawned().contains(key_of(point)) ==> r is Ok && after == before
    &&& !before.spawned().contains(key_of(point)) && !bounds_contain(before.spec_dimensions(), point)
        ==> fails_with(r, ErrorKind::DimensionError(DimensionError::OutOfBounds(point))) && after == before
    &&& !before.spawned().contains(key_of(point)) && bounds_contain(before.spec_dimensions(), point) ==> {
        &&& r is Ok
        &&& after.same_config(before)
        &&& after.spawned() == before.spawned().insert(key_of(point))
        &&& spawned_held(after.spawn_buffer()) == spawned_held(before.spawn_buffer()).push(TilemapChunkSpawned { point })
        &&& spawned_current(after.spawn_buffer()) == spawned_current(before.spawn_buffer()).push(TilemapChunkSpawned { point })
        &&& after.modify_buffer() == before.modify_buffer()
        &&& after.despawn_buffer() == before.despawn_buffer()
        &&& after.chunks().contains_key(key_of(point))
        &&& before.chunks().contains_key(key_of(point)) ==> after.chunks() == before.chunks()
        &&& !before.chunks().contains_key(key_of(point)) ==> {
            &&& after.chunks() == before.chunks().insert(key_of(point), after.chunks()[key_of(point)])
            &&& is_fresh_chunk(
                after.chunks()[key_of(point)],
                point,
                chunk_kinds(before.spec_layers()),
                before.spec_chunk_dimensions().spec_area(),
            )
        }
    }
}

/// `after` is `before` once chunk point `point` was despawned: a point that is
/// not spawned stays as it is; a spawned one stops being spawned, keeps its
/// chunk, and is reported by exactly one despawn event.
pub open spec fn chunk_despawned(before: Tilemap2D, after: Tilemap2D, point: Point2) -> bool {
    &&& after.wf()
    &&& !before.spawned().contains(key_of(point)) ==> after == before
    &&& before.spawned().contains(key_of(point)) ==> {
        &&& after.same_config(before)
        &&& after.chunks() == before.chunks()
        &&& after.spawned() == before.spawned().remove(key_of(point))
        &&& despawned_held(after.despawn_buffer()) == despawned_held(before.despawn_buffer()).push(TilemapChunkDespawned { point })
        &&& despawned_current(after.despawn_buffer()) == despawned_current(before.despawn_buffer()).push(TilemapChunkDespawned { point })
        &&& after.spawn_buffer() == before.spawn_buffer()
        &&& after.modify_buffer() == before.modify_buffer()
    }
}

/// The tile at tile point `point` on depth `sprite_order`, if one is present.
pub open spec fn tile_at(m: Tilemap2D, point: Point2, sprite_order: usize) -> Option<RawTile> {
    let key = chunk_point_of(point, m.spec_chunk_dimensions());
    let index = local_index_of(point, m.spec_chunk_dimensions()) as usize;
    if m.chunks().contains_key(key) && m.chunks()[key].has_layer(sprite_order)
        && m.chunks()[key].layer(sprite_order).inner@.contains_key(index) {
        Some(m.chunks()[key].layer(sprite_order).inner@[index])
    } else {
        None
    }
}

/// From `before` to `after` one modification event naming `entity` was sent,
/// or, without an entity, none.
pub open spec fn modification_reported(before: Tilemap2D, after: Tilemap2D, entity: Option<Entity>) -> bool {
    match entity {
        Some(e) => {
            &&& modified_held(after.modify_buffer()).len() == modified_held(before.modify_buffer()).len() + 1
            &&& modified_held(after.modify_buffer()).drop_last() == modified_held(before.modify_buffer())
            &&& modified_held(after.modify_buffer()).last().layer@ == Set::<Entity>::empty().insert(e)
            &&& modified_current(after.modify_buffer()).len() == modified_current(before.modify_buffer()).len() + 1
            &&& modified_current(after.modify_buffer()).drop_last() == modified_current(before.modify_buffer())
            &&& modified_current(after.modify_buffer()).last().layer@ == Set::<Entity>::empty().insert(e)
        },
        None => after.modify_buffer() == before.modify_buffer(),
    }
}

/// The render entity of the layer at `sprite_order` of chunk `c`, if any.
pub open spec fn layer_entity(c: Chunk, sprite_order: usize) -> Option<Entity> {
    if c.has_layer(sprite_order) {
        c.layer(sprite_order).entity
    } else {
        None
    }
}

/// Only the chunk at `key` and the modification events may differ.
pub open spec fn only_chunk_changed(before: Tilemap2D, after: Tilemap2D, key: (i32, i32)) -> bool {
    &&& after.same_config(before)
    &&& after.spawned() == before.spawned()
    &&& after.spawn_buffer() == before.spawn_buffer()
    &&& after.despawn_buffer() == before.despawn_buffer()
    &&& after.chunks().contains_key(key)
    &&& after.chunks().remove(key) == before.chunks().remove(key)
}

/// `after` is `before` once `tile` was written at its tile point, with result
/// `r`: a point whose chunk lies outside the map's dimensions fails; otherwise
/// the chunk is built where missing and the tile is written into it. A
/// successful write to a layer with a render entity is reported.
pub open spec fn tile_inserted(before: Tilemap2D, after: Tilemap2D, tile: Tile, r: Result<(), TilemapError>) -> bool {
    let key = chunk_point_of(tile.point, before.spec_chunk_dimensions());
    let cp = Point2 { x: key.0, y: key.1 };
    let index = local_index_of(tile.point, before.spec_chunk_dimensions()) as usize;
    &&& after.wf()
    &&& !bounds_contain(before.spec_dimensions(), cp) ==> fails_with(r, ErrorKind::DimensionError(DimensionError::OutOfBounds(cp)))
        && after == before
    &&& bounds_contain(before.spec_dimensions(), cp) ==> {
        &&& only_chunk_changed(before, after, key)
        &&& before.chunks().contains_key(key) ==> tile_set(before.chunks()[key], after.chunks()[key], index, tile, r)
        &&& !before.chunks().contains_key(key) ==> exists|c: Chunk| {
            &&& is_fresh_chunk(c, cp, chunk_kinds(before.spec_layers()), before.spec_chunk_dimensions().spec_area())
            &&& #[trigger] tile_set(c, after.chunks()[key], index, tile, r)
        }
        &&& modification_reported(before, after, if r is Ok { layer_entity(after.chunks()[key], tile.sprite_order) } else { None })
    }
}

/// `after` is `before` once the tile at tile point `point` on depth
/// `sprite_order` was cleared, with result `r`. The chunk must exist.
pub open spec fn tile_cleared(before: Tilemap2D, after: Tilemap2D, point: Point2, sprite_order: usize, r: Result<(), TilemapError>) -> bool {
    let key = chunk_point_of(point, before.spec_chunk_dimensions());
    let index = local_index_of(point, before.spec_chunk_dimensions()) as usize;
    &&& after.wf()
    &&& !before.chunks().contains_key(key) ==> fails_with(r, ErrorKind::MissingChunk) && after == before
    &&& before.chunks().contains_key(key) ==> {
        &&& only_chunk_changed(before, after, key)
        &&& tile_removed(before.chunks()[key], after.chunks()[key], index, sprite_order, r)
        &&& modification_reported(before, after, if r is Ok { layer_entity(after.chunks()[key], sprite_order) } else { None })
    }
}

/// `window` pixels need `ceil(window / chunk_px) + 1` chunks, at most `u32::MAX`.
pub open spec fn radius_for(window: nat, chunk_px: nat) -> nat {
    let chunks = window / chunk_px + if window % chunk_px == 0 { 0nat } else { 1nat };
    if chunks + 1 > u32::MAX {
        u32::MAX as nat
    } else {
        chunks + 1
    }
}

/// A two-dimensional tilemap.
pub struct Tilemap2D {
    topology: GridTopology,
    dimensions: Option<Dimension2>,
    chunk_dimensions: Dimension2,
    tile_dimensions: Dimension2,
    texture_dimensions: Dimension2,
    layers: Vec<Option<TileLayer>>,
    auto_spawn: Option<Dimension2>,
    chunks: ChunkStore,
    spawned: PointSet,
    spawned_events: SpawnedEvents,
    modified_events: ModifiedEvents,
    despawned_events: DespawnedEvents,
}

impl Tilemap2D {
    pub closed spec fn spec_topology(&self) -> GridTopology {
        self.topology
    }

    /// The map's dimensions in chunks, where bounded.
    pub closed spec fn spec_dimensions(&self) -> Option<Dimension2> {
        self.dimensions
    }

    /// A chunk's dimensions in tiles.
    pub closed spec fn spec_chunk_dimensions(&self) -> Dimension2 {
        self.chunk_dimensions
    }

    pub closed spec fn spec_tile_dimensions(&self) -> Dimension2 {
        self.tile_dimensions
    }

    pub closed spec fn spec_texture_dimensions(&self) -> Dimension2 {
        self.texture_dimensions
    }

    /// The layer schedule, by depth.
    pub closed spec fn spec_layers(&self) -> Seq<Option<TileLayer>> {
        self.layers@
    }

    /// The spawn radius in chunks, where streaming is on.
    pub closed spec fn spec_auto_spawn(&self) -> Option<Dimension2> {
        self.auto_spawn
    }

    /// The chunks that hold data, by chunk point.
    pub closed spec fn chunks(&self) -> Map<(i32, i32), Chunk> {
        self.chunks@
    }

    /// The chunk points that are spawned.
    pub closed spec fn spawned(&self) -> Set<(i32, i32)> {
        self.spawned@
    }

    pub closed spec fn spawn_buffer(&self) -> SpawnedEvents {
        self.spawned_events
    }

    pub closed spec fn modify_buffer(&self) -> ModifiedEvents {
        self.modified_events
    }

    pub closed spec fn despawn_buffer(&self) -> DespawnedEvents {
        self.despawned_events
    }

    pub open spec fn wf(&self) -> bool {
        &&& self.spec_chunk_dimensions().width > 0
        &&& self.spec_chunk_dimensions().height > 0
        &&& self.spec_chunk_dimensions().spec_area() <= usize::MAX
        &&& self.spec_tile_dimensions().width > 0
        &&& self.spec_tile_dimensions().height > 0
        &&& self.spec_texture_dimensions().width > 0
        &&& self.spec_texture_dimensions().height > 0
        &&& forall|k: (i32, i32)| #[trigger] self.chunks().contains_key(k) ==> {
            &&& self.chunks()[k].wf()
            &&& self.chunks()[k].layers().len() == self.spec_layers().len()
            &&& self.chunks()[k].spec_point() == (Point2 { x: k.0, y: k.1 })
        }
        &&& self.spawned().subset_of(self.chunks().dom())
    }

    /// Same configuration: everything but chunks, spawned set and events.
    pub open spec fn same_config(&self, other: Tilemap2D) -> bool {
        &&& self.spec_topology() == other.spec_topology()
        &&& self.spec_dimensions() == other.spec_dimensions()
        &&& self.spec_chunk_dimensions() == other.spec_chunk_dimensions()
        &&& self.spec_tile_dimensions() == other.spec_tile_dimensions()
        &&& self.spec_texture_dimensions() == other.spec_texture_dimensions()
        &&& self.spec_layers() == other.spec_layers()
        &&& self.spec_auto_spawn() == other.spec_auto_spawn()
    }

    /// A tilemap with no chunk, nothing spawned and no event. Fails with
    /// `MissingTileDimensions` where a tile or texture dimension is zero, and
    /// with a dimension error where a chunk dimension is zero or the chunk's
    /// area does not fit in memory.
    pub fn new(
        topology: GridTopology,
        dimensions: Option<Dimension2>,
        chunk_dimensions: Dimension2,
        tile_dimensions: Dimension2,
        texture_dimensions: Dimension2,
        layers: Vec<Option<TileLayer>>,
        auto_spawn: Option<Dimension2>,
    ) -> (r: Result<Tilemap2D, TilemapError>)
        ensures
            (tile_dimensions.width == 0 || tile_dimensions.height == 0 || texture_dimensions.width == 0
                || texture_dimensions.height == 0) ==> fails_with(r, ErrorKind::MissingTileDimensions),
            !(tile_dimensions.width == 0 || tile_dimensions.height == 0 || texture_dimensions.width == 0
                || texture_dimensions.height == 0) && (chunk_dimensions.width == 0 || chunk_dimensions.height == 0)
                ==> fails_with(r, ErrorKind::DimensionError(DimensionError::Zero)),
            !(tile_dimensions.width == 0 || tile_dimensions.height == 0 || texture_dimensions.width == 0
                || texture_dimensions.height == 0) && !(chunk_dimensions.width == 0 || chunk_dimensions.height == 0)
                && chunk_dimensions.spec_area() > usize::MAX ==> fails_with(r, ErrorKind::DimensionError(DimensionError::TooLarge)),
            r matches Ok(m) ==> {
                &&& m.wf()
                &&& m.spec_topology() == topology
                &&& m.spec_dimensions() == dimensions
                &&& m.spec_chunk_dimensions() == chunk_dimensions
                &&& m.spec_tile_dimensions() == tile_dimensions
                &&& m.spec_texture_dimensions() == texture_dimensions
                &&& m.spec_layers() == layers@
                &&& m.spec_auto_spawn() == auto_spawn
                &&& m.chunks().dom() == Set::<(i32, i32)>::empty()
                &&& m.spawned() == Set::<(i32, i32)>::empty()
                &&& spawned_held(m.spawn_buffer()) == Seq::<TilemapChunkSpawned>::empty()
                &&& spawned_current(m.spawn_buffer()) == Seq::<TilemapChunkSpawned>::empty()
                &&& modified_held(m.modify_buffer()).len() == 0
                &&& modified_current(m.modify_buffer()).len() == 0
                &&& despawned_held(m.despawn_buffer()) == Seq::<TilemapChunkDespawned>::empty()
                &&& despawned_current(m.despawn_buffer()) == Seq::<TilemapChunkDespawned>::empty()
            },
            (tile_dimensions.width > 0 && tile_dimensions.height > 0 && texture_dimensions.width > 0
                && texture_dimensions.height > 0 && chunk_dimensions.width > 0 && chunk_dimensions.height > 0
                && chunk_dimensions.spec_area() <= usize::MAX) ==> r is Ok,
    {
        if tile_dimensions.width == 0 || tile_dimensions.height == 0 || texture_dimensions.width == 0
            || texture_dimensions.height == 0 {
            return Err(TilemapError::new(ErrorKind::MissingTileDimensions));
        }
        if chunk_dimensions.width == 0 || chunk_dimensions.height == 0 {
            return Err(TilemapError::new(ErrorKind::DimensionError(DimensionError::Zero)));
        }
        if chunk_dimensions.area() > usize::MAX as u64 {
            return Err(TilemapError::new(ErrorKind::DimensionError(DimensionError::TooLarge)));
        }
        let chunks = ChunkStore::empty();
        let spawned = PointSet::empty();
        proof {
            assert(chunks@.dom() =~= Set::<(i32, i32)>::empty());
        }
        Ok(Tilemap2D {
            topology,
            dimensions,
            chunk_dimensions,
            tile_dimensions,
            texture_dimensions,
            layers,
            auto_spawn,
            chunks,
            spawned,
            spawned_events: new_spawned_events(),
            modified_events: new_modified_events(),
            despawned_events: new_despawned_events(),
        })
    }

    /// Whether chunk point `point` lies within the map's dimensions, if it has any.
    pub fn in_bounds(&self, point: Point2) -> (r: bool)
        ensures
            r == bounds_contain(self.spec_dimensions(), point),
    {
        match self.dimensions {
            None => true,
            Some(d) => {
                let half_w = (d.width / 2) as i64;
                let half_h = (d.height / 2) as i64;
                -half_w <= point.x as i64 && (point.x as i64) < d.width as i64 - half_w
                    && -half_h <= point.y as i64 && (point.y as i64) < d.height as i64 - half_h
            },
        }
    }

    /// The kinds of layer that a new chunk of this map builds, by depth.
    fn chunk_kinds(&self) -> (r: Vec<Option<LayerKind>>)
        ensures
            r@ == chunk_kinds(self.spec_layers()),
    {
        let mut kinds: Vec<Option<LayerKind>> = Vec::new();
        let mut d: usize = 0;
        while d < self.layers.len()
            invariant
                d <= self.layers@.len(),
                kinds@ == chunk_kinds(self.layers@).subrange(0, d as int),
            decreases self.layers@.len() - d,
        {
            let kind = match self.layers[d] {
                Some(layer) => Some(layer.kind),
                None => if d == 0 {
                    Some(LayerKind::Dense)
                } else {
                    None
                },
            };
            kinds.push(kind);
            d = d + 1;
            proof {
                assert(kinds@ =~= chunk_kinds(self.layers@).subrange(0, d as int));
            }
        }
        proof {
            assert(kinds@ =~= chunk_kinds(self.layers@));
        }
        kinds
    }

    /// Makes sure that chunk point `point` has a chunk, building a fresh one from
    /// the layer schedule where it has none.
    fn ensure_chunk(&mut self, point: Point2)
        requires
            old(self).wf(),
        ensures
            final(self).wf(),
            final(self).same_config(*old(self)),
            final(self).spawned() == old(self).spawned(),
            final(self).spawn_buffer() == old(self).spawn_buffer(),
            final(self).modify_buffer() == old(self).modify_buffer(),
            final(self).despawn_buffer() == old(self).despawn_buffer(),
            final(self).chunks().contains_key(key_of(point)),
            old(self).chunks().contains_key(key_of(point)) ==> final(self).chunks() == old(self).chunks(),
            !old(self).chunks().contains_key(key_of(point)) ==> final(self).chunks() == old(self).chunks().insert(
                key_of(point),
                final(self).chunks()[key_of(point)],
            ) && is_fresh_chunk(
                final(self).chunks()[key_of(point)],
                point,
                chunk_kinds(old(self).spec_layers()),
                old(self).spec_chunk_dimensions().spec_area(),
            ),
    {
        let key = (point.x, point.y);
        if !self.chunks.contains(key) {
            let kinds = self.chunk_kinds();
            let chunk = Chunk::new(point, kinds.as_slice(), self.chunk_dimensions);
            self.chunks.insert(key, chunk);
            proof {
                assert forall|k: (i32, i32)| #[trigger] self.chunks@.contains_key(k) implies {
                    &&& self.chunks@[k].wf()
                    &&& self.chunks@[k].layers().len() == self.layers@.len()
                    &&& self.chunks@[k].spec_point() == (Point2 { x: k.0, y: k.1 })
                } by {
                    if k != key {
                        assert(old(self).chunks().contains_key(k));
                    }
                }
            }
        }
    }

    /// Marks chunk point `point` spawned, building its chunk where it has none,
    /// and reports it with one spawn event. A spawned point is left as it is;
    /// a point outside the map's dimensions fails.
    pub fn spawn_chunk(&mut self, point: Point2) -> (r: Result<(), TilemapError>)
        requires
            old(self).wf(),
        ensures
            chunk_spawned(*old(self), *final(self), point, r),
    {
        let key = (point.x, point.y);
        if self.spawned.contains(key) {
            return Ok(());
        }
        if !self.in_bounds(point) {
            return Err(TilemapError::new(ErrorKind::DimensionError(DimensionError::OutOfBounds(point))));
        }
        self.ensure_chunk(point);
        self.spawned.insert(key);
        send_spawned(&mut self.spawned_events, TilemapChunkSpawned { point });
        Ok(())
    }

    /// Marks chunk point `point` no longer spawned and reports it with one
    /// despawn event; its tile data stays. A point that is not spawned is left
    /// as it is.
    pub fn despawn_chunk(&mut self, point: Point2) -> (r: Result<(), TilemapError>)
        requires
            old(self).wf(),
        ensures
            r is Ok,
            chunk_despawned(*old(self), *final(self), point),
    {
        let key = (point.x, point.y);
        if !self.spawned.contains(key) {
            return Ok(());
        }
        self.spawned.remove(key);
        send_despawned(&mut self.despawned_events, TilemapChunkDespawned { point });
        Ok(())
    }

    /// Builds a fresh chunk at chunk point `point`. Fails where the point
    /// already has a chunk or lies outside the map's dimensions.
    pub fn insert_chunk(&mut self, point: Point2) -> (r: Result<(), TilemapError>)
        requires
            old(self).wf(),
        ensures
            final(self).wf(),
            old(self).chunks().contains_key(key_of(point)) ==> fails_with(r, ErrorKind::ChunkAlreadyExists(point))
                && *final(self) == *old(self),
            !old(self).chunks().contains_key(key_of(point)) && !bounds_contain(old(self).spec_dimensions(), point)
                ==> fails_with(r, ErrorKind::DimensionError(DimensionError::OutOfBounds(point))) && *final(self) == *old(self),
            !old(self).chunks().contains_key(key_of(point)) && bounds_contain(old(self).spec_dimensions(), point) ==> {
                &&& r is Ok
                &&& only_chunk_changed(*old(self), *final(self), key_of(point))
                &&& final(self).modify_buffer() == old(self).modify_buffer()
                &&& final(self).chunks() == old(self).chunks().insert(key_of(point), final(self).chunks()[key_of(point)])
                &&& is_fresh_chunk(
                    final(self).chunks()[key_of(point)],
                    point,
                    chunk_kinds(old(self).spec_layers()),
                    old(self).spec_chunk_dimensions().spec_area(),
                )
            },
    {
        if self.chunks.contains((point.x, point.y)) {
            return Err(TilemapError::new(ErrorKind::ChunkAlreadyExists(point)));
        }
        if !self.in_bounds(point) {
            return Err(TilemapError::new(ErrorKind::DimensionError(DimensionError::OutOfBounds(point))));
        }
        self.ensure_chunk(point);
        proof {
            assert(self.chunks().remove(key_of(point)) =~= old(self).chunks().remove(key_of(point)));
        }
        Ok(())
    }

    /// Discards the chunk at chunk point `point` and its tile data, despawning
    /// it first where it is spawned. Fails where the point has no chunk.
    pub fn remove_chunk(&mut self, point: Point2) -> (r: Result<(), TilemapError>)
        requires
            old(self).wf(),
        ensures
            final(self).wf(),
            !old(self).chunks().contains_key(key_of(point)) ==> fails_with(r, ErrorKind::MissingChunk) && *final(self) == *old(self),
            old(self).chunks().contains_key(key_of(point)) ==> {
                &&& r is Ok
                &&& final(self).same_config(*old(self))
                &&& final(self).chunks() == old(self).chunks().remove(key_of(point))
                &&& final(self).spawned() == old(self).spawned().remove(key_of(point))
                &&& final(self).spawn_buffer() == old(self).spawn_buffer()
                &&& final(self).modify_buffer() == old(self).modify_buffer()
                &&& old(self).spawned().contains(key_of(point)) ==> {
                    &&& despawned_held(final(self).despawn_buffer()) == despawned_held(old(self).despawn_buffer()).push(TilemapChunkDespawned { point })
                    &&& despawned_current(final(self).despawn_buffer()) == despawned_current(old(self).despawn_buffer()).push(TilemapChunkDespawned { point })
                }
                &&& !old(self).spawned().contains(key_of(point)) ==> final(self).despawn_buffer() == old(self).despawn_buffer()
            },
    {
        let key = (point.x, point.y);
        if !self.chunks.contains(key) {
            return Err(TilemapError::new(ErrorKind::MissingChunk));
        }
        let _ = self.despawn_chunk(point);
        let ghost mid = *self;
        let _ = self.chunks.take(key);
        proof {
            assert forall|k: (i32, i32)| #[trigger] self.chunks@.contains_key(k) implies {
                &&& self.chunks@[k].wf()
                &&& self.chunks@[k].layers().len() == self.layers@.len()
                &&& self.chunks@[k].spec_point() == (Point2 { x: k.0, y: k.1 })
            } by {
                assert(mid.chunks().contains_key(k));
            }
            assert(old(self).spawned().remove(key) =~= self.spawned@);
        }
        Ok(())
    }

    /// Advances the three event buffers by one update: events older than the
    /// previous update are dropped.
    pub fn update_events(&mut self)
        requires
            old(self).wf(),
        ensures
            final(self).wf(),
            final(self).same_config(*old(self)),
            final(self).chunks() == old(self).chunks(),
            final(self).spawned() == old(self).spawned(),
            spawned_held(final(self).spawn_buffer()) == spawned_current(old(self).spawn_buffer()),
            spawned_current(final(self).spawn_buffer()) == Seq::<TilemapChunkSpawned>::empty(),
            modified_held(final(self).modify_buffer()) == modified_current(old(self).modify_buffer()),
            modified_current(final(self).modify_buffer()).len() == 0,
            despawned_held(final(self).despawn_buffer()) == despawned_current(old(self).despawn_buffer()),
            despawned_current(final(self).despawn_buffer()) == Seq::<TilemapChunkDespawned>::empty(),
    {
        update_spawned(&mut self.spawned_events);
        update_modified(&mut self.modified_events);
        update_despawned(&mut self.despawned_events);
    }

    /// The point of the chunk that holds tile point `point`.
    pub fn point_to_chunk_point(&self, point: Point2) -> (r: (i32, i32))
        requires
            self.wf(),
        ensures
            r == chunk_point_of(point, self.spec_chunk_dimensions()),
    {
        let (x, _) = floor_div_mod(point.x, self.chunk_dimensions.width);
        let (y, _) = floor_div_mod(point.y, self.chunk_dimensions.height);
        (x, y)
    }

    /// The chunk point of tile point `point`, and the tile's index within that chunk.
    fn locate(&self, point: Point2) -> (r: (Point2, usize))
        requires
            self.wf(),
        ensures
            key_of(r.0) == chunk_point_of(point, self.spec_chunk_dimensions()),
            r.1 == local_index_of(point, self.spec_chunk_dimensions()),
            r.1 < self.spec_chunk_dimensions().spec_area(),
    {
        let w = self.chunk_dimensions.width;
        let h = self.chunk_dimensions.height;
        let (x, lx) = floor_div_mod(point.x, w);
        let (y, ly) = floor_div_mod(point.y, h);
        proof {
            assert((ly as int) * (w as int) + (lx as int) < (w as int) * (h as int)) by (nonlinear_arith)
                requires
                    ly < h,
                    lx < w,
            ;
        }
        let index = ly as u64 * w as u64 + lx as u64;
        (Point2 { x, y }, index as usize)
    }

    /// The spawned chunk points, each once, in no particular order.
    pub fn spawned_chunks(&self) -> (r: Vec<(i32, i32)>)
        ensures
            r@.to_set() == self.spawned(),
            r@.no_duplicates(),
    {
        self.spawned.to_vec()
    }

    /// Whether chunk point `point` is spawned.
    pub fn is_spawned(&self, point: Point2) -> (r: bool)
        ensures
            r == self.spawned().contains(key_of(point)),
    {
        self.spawned.contains((point.x, point.y))
    }

    /// Whether chunk point `point` has a chunk.
    pub fn contains_chunk(&self, point: Point2) -> (r: bool)
        ensures
            r == self.chunks().contains_key(key_of(point)),
    {
        self.chunks.contains((point.x, point.y))
    }

    /// The chunk at chunk point `point`, if there is one.
    pub fn get_chunk(&self, point: &Point2) -> (r: Option<&Chunk>)
        ensures
            match r {
                Some(c) => self.chunks().contains_key(key_of(*point)) && *c == self.chunks()[key_of(*point)],
                None => !self.chunks().contains_key(key_of(*point)),
            },
    {
        self.chunks.get((point.x, point.y))
    }

    /// Sends a modification event for `entity`, if there is one.
    fn report_modified(&mut self, entity: Option<Entity>)
        requires
            old(self).wf(),
        ensures
            final(self).wf(),
            final(self).same_config(*old(self)),
            final(self).chunks() == old(self).chunks(),
            final(self).spawned() == old(self).spawned(),
            final(self).spawn_buffer() == old(self).spawn_buffer(),
            final(self).despawn_buffer() == old(self).despawn_buffer(),
            modification_reported(*old(self), *final(self), entity),
    {
        match entity {
            Some(e) => {
                let mut layer = EntitySet::empty();
                layer.insert(e);
                proof {
                    assert(layer@ =~= Set::<Entity>::empty().insert(e));
                }
                send_modified(&mut self.modified_events, TilemapChunkModified { layer });
                proof {
                    assert(modified_held(self.modified_events).drop_last() =~= modified_held(old(self).modified_events));
                    assert(modified_current(self.modified_events).drop_last() =~= modified_current(old(self).modified_events));
                }
            },
            None => {},
        }
    }

    /// Writes `tile` at its tile point, building the chunk where it has none.
    pub fn insert_tile(&mut self, tile: Tile) -> (r: Result<(), TilemapError>)
        requires
            old(self).wf(),
        ensures
            tile_inserted(*old(self), *final(self), tile, r),
    {
        let (cp, index) = self.locate(tile.point);
        if !self.in_bounds(cp) {
            return Err(TilemapError::new(ErrorKind::DimensionError(DimensionError::OutOfBounds(cp))));
        }
        let ghost start = *self;
        self.ensure_chunk(cp);
        let key = (cp.x, cp.y);
        let ghost built = *self;
        let mut chunk = self.chunks.take(key).unwrap();
        let ghost c0 = chunk;
        let r = chunk.set_tile(index, tile);
        let entity = chunk.get_entity(tile.sprite_order);
        self.chunks.insert(key, chunk);
        proof {
            assert forall|k: (i32, i32)| #[trigger] self.chunks@.contains_key(k) implies {
                &&& self.chunks@[k].wf()
                &&& self.chunks@[k].layers().len() == self.layers@.len()
                &&& self.chunks@[k].spec_point() == (Point2 { x: k.0, y: k.1 })
            } by {
                if k != key {
                    assert(built.chunks().contains_key(k));
                } else {
                    assert(built.chunks().contains_key(key));
                }
            }
            assert(self.chunks@.remove(key) =~= start.chunks().remove(key));
        }
        if r.is_ok() {
            self.report_modified(entity);
        }
        proof {
            let k2 = chunk_point_of(tile.point, start.spec_chunk_dimensions());
            let i2 = local_index_of(tile.point, start.spec_chunk_dimensions()) as usize;
            assert(k2 == key);
            assert(i2 == index);
            assert(cp == (Point2 { x: k2.0, y: k2.1 }));
            assert(layer_entity(self.chunks()[key], tile.sprite_order) == entity);
            assert(modification_reported(start, *self, if r is Ok { entity } else { None }));
            assert(only_chunk_changed(start, *self, key));
            if !start.chunks().contains_key(key) {
                assert(is_fresh_chunk(c0, cp, chunk_kinds(start.spec_layers()), start.spec_chunk_dimensions().spec_area()));
                assert(tile_set(c0, self.chunks()[key], index, tile, r));
            } else {
                assert(tile_set(start.chunks()[key], self.chunks()[key], index, tile, r));
            }
        }
        r
    }

    /// Clears the tile at tile point `point` on depth `sprite_order`.
    pub fn clear_tile(&mut self, point: Point2, sprite_order: usize) -> (r: Result<(), TilemapError>)
        requires
            old(self).wf(),
        ensures
            tile_cleared(*old(self), *final(self), point, sprite_order, r),
    {
        let (cp, index) = self.locate(point);
        let key = (cp.x, cp.y);
        if !self.chunks.contains(key) {
            return Err(TilemapError::new(ErrorKind::MissingChunk));
        }
        let ghost start = *self;
        let mut chunk = self.chunks.take(key).unwrap();
        let r = chunk.remove_tile(index, sprite_order);
        let entity = chunk.get_entity(sprite_order);
        self.chunks.insert(key, chunk);
        proof {
            assert forall|k: (i32, i32)| #[trigger] self.chunks@.contains_key(k) implies {
                &&& self.chunks@[k].wf()
                &&& self.chunks@[k].layers().len() == self.layers@.len()
                &&& self.chunks@[k].spec_point() == (Point2 { x: k.0, y: k.1 })
            } by {
                assert(start.chunks().contains_key(k));
            }
            assert(self.chunks@.remove(key) =~= start.chunks().remove(key));
        }
        if r.is_ok() {
            self.report_modified(entity);
        }
        r
    }

    /// The tile at tile point `point` on depth `sprite_order`, if one is present.
    pub fn get_tile(&self, point: Point2, sprite_order: usize) -> (r: Option<&RawTile>)
        requires
            self.wf(),
        ensures
            match r {
                Some(t) => tile_at(*self, point, sprite_order) == Some(*t),
                None => tile_at(*self, point, sprite_order) is None,
            },
    {
        let (cp, index) = self.locate(point);
        match self.chunks.get((cp.x, cp.y)) {
            Some(chunk) => chunk.get_tile(sprite_order, index),
            None => None,
        }
    }

    /// Records `entity` as the render entity of the layer at `sprite_order` of
    /// the chunk at chunk point `point`.
    pub fn set_chunk_entity(&mut self, point: Point2, sprite_order: usize, entity: Entity) -> (r: Result<(), TilemapError>)
        requires
            old(self).wf(),
        ensures
            final(self).wf(),
            !old(self).chunks().contains_key(key_of(point)) ==> fails_with(r, ErrorKind::MissingChunk) && *final(self) == *old(self),
            old(self).chunks().contains_key(key_of(point)) && !old(self).chunks()[key_of(point)].has_layer(sprite_order)
                ==> fails_with(r, ErrorKind::LayerDoesNotExist(sprite_order)) && final(self).chunks() == old(self).chunks()
                && only_chunk_changed(*old(self), *final(self), key_of(point))
                && final(self).modify_buffer() == old(self).modify_buffer(),
            old(self).chunks().contains_key(key_of(point)) && old(self).chunks()[key_of(point)].has_layer(sprite_order) ==> {
                let c0 = old(self).chunks()[key_of(point)];
                let c1 = final(self).chunks()[key_of(point)];
                &&& r is Ok
                &&& only_chunk_changed(*old(self), *final(self), key_of(point))
                &&& final(self).modify_buffer() == old(self).modify_buffer()
                &&& c1.spec_point() == c0.spec_point()
                &&& c1.layers() == c0.layers().update(
                    sprite_order as int,
                    Some(crate::layer::SpriteLayer { inner: c0.layer(sprite_order).inner, entity: Some(entity) }),
                )
            },
    {
        let key = (point.x, point.y);
        if !self.chunks.contains(key) {
            return Err(TilemapError::new(ErrorKind::MissingChunk));
        }
        let ghost start = *self;
        let mut chunk = self.chunks.take(key).unwrap();
        let r = chunk.set_entity(sprite_order, entity);
        self.chunks.insert(key, chunk);
        proof {
            assert forall|k: (i32, i32)| #[trigger] self.chunks@.contains_key(k) implies {
                &&& self.chunks@[k].wf()
                &&& self.chunks@[k].layers().len() == self.layers@.len()
                &&& self.chunks@[k].spec_point() == (Point2 { x: k.0, y: k.1 })
            } by {
                assert(start.chunks().contains_key(k));
            }
            assert(self.chunks@.remove(key) =~= start.chunks().remove(key));
            if r is Err {
                assert(self.chunks@ =~= start.chunks());
            }
        }
        r
    }

    /// The render entities of the chunk at chunk point `point`, from the lowest
    /// depth up; none where the point has no chunk.
    pub fn chunk_entities(&self, point: Point2) -> (r: Vec<Entity>)
        ensures
            self.chunks().contains_key(key_of(point)) ==> r@ == layer_entities(self.chunks()[key_of(point)].layers()),
            !self.chunks().contains_key(key_of(point)) ==> r@ == Seq::<Entity>::empty(),
    {
        match self.chunks.get((point.x, point.y)) {
            Some(chunk) => chunk.get_entities(),
            None => Vec::new(),
        }
    }

    /// The spawn radius, in chunks, that a window of the given size in pixels
    /// needs: the window's size in chunks, rounded up, plus one chunk of slack.
    pub fn auto_radius(&self, window_width: u32, window_height: u32) -> (r: Dimension2)
        requires
            self.wf(),
        ensures
            r.width == radius_for(
                window_width as nat,
                self.spec_chunk_dimensions().width as nat * self.spec_tile_dimensions().width as nat * self.spec_texture_dimensions().width as nat,
            ),
            r.height == radius_for(
                window_height as nat,
                self.spec_chunk_dimensions().height as nat * self.spec_tile_dimensions().height as nat * self.spec_texture_dimensions().height as nat,
            ),
    {
        let px_w = pixel_size(self.chunk_dimensions.width, self.tile_dimensions.width, self.texture_dimensions.width);
        let px_h = pixel_size(self.chunk_dimensions.height, self.tile_dimensions.height, self.texture_dimensions.height);
        Dimension2 { width: spawn_radius(window_width, px_w), height: spawn_radius(window_height, px_h) }
    }

    /// Turns streaming on with the given spawn radius.
    pub fn set_auto_spawn(&mut self, dimension: Dimension2)
        requires
            old(self).wf(),
        ensures
            final(self).wf(),
            final(self).spec_auto_spawn() == Some(dimension),
            final(self).spec_topology() == old(self).spec_topology(),
            final(self).spec_dimensions() == old(self).spec_dimensions(),
            final(self).spec_chunk_dimensions() == old(self).spec_chunk_dimensions(),
            final(self).spec_tile_dimensions() == old(self).spec_tile_dimensions(),
            final(self).spec_texture_dimensions() == old(self).spec_texture_dimensions(),
            final(self).spec_layers() == old(self).spec_layers(),
            final(self).chunks() == old(self).chunks(),
            final(self).spawned() == old(self).spawned(),
            final(self).spawn_buffer() == old(self).spawn_buffer(),
            final(self).modify_buffer() == old(self).modify_buffer(),
            final(self).despawn_buffer() == old(self).despawn_buffer(),
    {
        self.auto_spawn = Some(dimension);
    }

    /// The spawn radius, where streaming is on.
    pub fn auto_spawn(&self) -> (r: Option<Dimension2>)
        ensures
            r == self.spec_auto_spawn(),
    {
        self.auto_spawn
    }

    /// The map's dimensions in chunks, where bounded.
    pub fn dimensions(&self) -> (r: Option<Dimension2>)
        ensures
            r == self.spec_dimensions(),
    {
        self.dimensions
    }

    /// A chunk's dimensions in tiles.
    pub fn chunk_dimensions(&self) -> (r: Dimension2)
        ensures
            r == self.spec_chunk_dimensions(),
    {
        self.chunk_dimensions
    }

    /// A tile's dimensions, in texture units.
    pub fn tile_dimensions(&self) -> (r: Dimension2)
        ensures
            r == self.spec_tile_dimensions(),
    {
        self.tile_dimensions
    }

    /// The size in pixels of one texture unit.
    pub fn texture_dimensions(&self) -> (r: Dimension2)
        ensures
            r == self.spec_texture_dimensions(),
    {
        self.texture_dimensions
    }

    pub fn topology(&self) -> (r: GridTopology)
        ensures
            r == self.spec_topology(),
    {
        self.topology
    }

    /// The layer schedule, by depth.
    pub fn layers(&self) -> (r: Vec<Option<TileLayer>>)
        ensures
            r@ == self.spec_layers(),
    {
        let mut layers: Vec<Option<TileLayer>> = Vec::new();
        let mut d: usize = 0;
        while d < self.layers.len()
            invariant
                d <= self.layers@.len(),
                layers@ == self.layers@.subrange(0, d as int),
            decreases self.layers@.len() - d,
        {
            layers.push(self.layers[d]);
            d = d + 1;
            proof {
                assert(layers@ =~= self.layers@.subrange(0, d as int));
            }
        }
        proof {
            assert(layers@ =~= self.layers@);
        }
        layers
    }

    /// The buffer of spawn events.
    pub fn chunk_spawned_events(&self) -> (r: &SpawnedEvents)
        ensures
            *r == self.spawn_buffer(),
    {
        &self.spawned_events
    }

    /// The buffer of modification events.
    pub fn chunk_modified_events(&self) -> (r: &ModifiedEvents)
        ensures
            *r == self.modify_buffer(),
    {
        &self.modified_events
    }

    /// The buffer of despawn events.
    pub fn chunk_despawned_events(&self) -> (r: &DespawnedEvents)
        ensures
            *r == self.despawn_buffer(),
    {
        &self.despawned_events
    }
}

/// The pixel size of a chunk along one axis: chunk tiles times tile units
/// times unit pixels.
fn pixel_size(chunk: u32, tile: u32, texture: u32) -> (r: u128)
    ensures
        r == chunk as nat * tile as nat * texture as nat,
        chunk > 0 && tile > 0 && texture > 0 ==> r > 0,
{
    proof {
        if chunk > 0 && tile > 0 && texture > 0 {
            vstd::arithmetic::mul::lemma_mul_strictly_positive(chunk as int, tile as int);
            vstd::arithmetic::mul::lemma_mul_strictly_positive(chunk as int * tile as int, texture as int);
        }
        vstd::arithmetic::mul::lemma_mul_upper_bound(chunk as int, u32::MAX as int, tile as int, u32::MAX as int);
        vstd::arithmetic::mul::lemma_mul_upper_bound(
            chunk as int * tile as int,
            u32::MAX as int * u32::MAX as int,
            texture as int,
            u32::MAX as int,
        );
    }
    chunk as u128 * tile as u128 * texture as u128
}

/// The number of chunks, plus one of slack, that cover `window` pixels with
/// chunks of `chunk_px` pixels; at most `u32::MAX`.
pub fn spawn_radius(window: u32, chunk_px: u128) -> (r: u32)
    requires
        chunk_px > 0,
    ensures
        r == radius_for(window as nat, chunk_px as nat),
{
    let w = window as u128;
    let chunks = w / chunk_px + if w % chunk_px == 0 { 0 } else { 1 };
    proof {
        vstd::arithmetic::div_mod::lemma_div_is_ordered_by_denominator(w as int, 1, chunk_px as int);
    }
    if chunks + 1 > u32::MAX as u128 {
        u32::MAX
    } else {
        (chunks + 1) as u32
    }
}

/// Spawning the same chunk point twice in a row leaves it spawned once and
/// reports it with at most one spawn event: exactly one where it was neither
/// spawned nor outside the map's dimensions, none otherwise.
pub proof fn spawning_twice_spawns_once(
    m0: Tilemap2D,
    m1: Tilemap2D,
    m2: Tilemap2D,
    point: Point2,
    r1: Result<(), TilemapError>,
    r2: Result<(), TilemapError>,
)
    requires
        m0.wf(),
        chunk_spawned(m0, m1, point, r1),
        chunk_spawned(m1, m2, point, r2),
    ensures
        !m0.spawned().contains(key_of(point)) && bounds_contain(m0.spec_dimensions(), point) ==> {
            &&& m2.spawned() == m0.spawned().insert(key_of(point))
            &&& spawned_held(m2.spawn_buffer()) == spawned_held(m0.spawn_buffer()).push(TilemapChunkSpawned { point })
            &&& r1 is Ok && r2 is Ok
        },
        m0.spawned().contains(key_of(point)) || !bounds_contain(m0.spec_dimensions(), point) ==> {
            &&& m2.spawned() == m0.spawned()
            &&& spawned_held(m2.spawn_buffer()) == spawned_held(m0.spawn_buffer())
        },
{
}

/// Writing a non-transparent tile at a tile point and depth, where the write
/// succeeds, makes that tile the one read back there.
pub proof fn inserted_tile_reads_back(before: Tilemap2D, after: Tilemap2D, tile: Tile, r: Result<(), TilemapError>)
    requires
        before.wf(),
        tile_inserted(before, after, tile, r),
        r is Ok,
        tile.tint.a != 0,
    ensures
        tile_at(after, tile.point, tile.sprite_order) == Some(tile.spec_raw()),
{
    let key = chunk_point_of(tile.point, before.spec_chunk_dimensions());
    let index = local_index_of(tile.point, before.spec_chunk_dimensions()) as usize;
    let cp = Point2 { x: key.0, y: key.1 };
    if !bounds_contain(before.spec_dimensions(), cp) {
        assert(r is Err);
    }
    assert(after.spec_chunk_dimensions() == before.spec_chunk_dimensions());
    if !before.chunks().contains_key(key) {
        let c = choose|c: Chunk| {
            &&& is_fresh_chunk(c, cp, chunk_kinds(before.spec_layers()), before.spec_chunk_dimensions().spec_area())
            &&& #[trigger] tile_set(c, after.chunks()[key], index, tile, r)
        };
        if !c.has_layer(tile.sprite_order) {
            assert(r is Err);
        }
    } else {
        if !before.chunks()[key].has_layer(tile.sprite_order) {
            assert(r is Err);
        }
    }
}

} // verus!
