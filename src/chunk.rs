//! A chunk: the layers of one chunk point, indexed by depth.

use vstd::prelude::*;
use bevy_ecs::entity::Entity;
use crate::error::{fails_with, DimensionError, ErrorKind, TilemapError};
use crate::layer::{write_tile, DenseLayer, LayerKind, LayerKindInner, SparseLayer, SpriteLayer};
use crate::tile::{RawTile, Tile};
use crate::types::{Color, Dimension2, Point2};

verus! {

/// `n` empty dense slots.
pub open spec fn empty_slots(n: nat) -> Seq<RawTile> {
    Seq::new(n, |i: int| RawTile { index: 0, color: Color::spec_transparent() })
}

/// `l` is a layer of kind `kind` that was just built for a chunk of `area` cells:
/// no tile, no entity, and for a dense layer one empty slot per cell.
pub open spec fn is_fresh_layer(l: SpriteLayer, kind: LayerKind, area: nat) -> bool {
    &&& l.entity is None
    &&& l.inner.spec_kind() == kind
    &&& l.inner.wf()
    &&& l.inner@ == Map::<usize, RawTile>::empty()
    &&& (l.inner matches LayerKindInner::Dense(d) ==> d.slots() == empty_slots(area))
}

/// `c` is a chunk at `point` that was just built from the layer kinds `kinds`
/// for `area` cells: one slot per entry, a fresh layer where the entry names a kind.
pub open spec fn is_fresh_chunk(c: Chunk, point: Point2, kinds: Seq<Option<LayerKind>>, area: nat) -> bool {
    &&& c.wf()
    &&& c.spec_point() == point
    &&& c.layers().len() == kinds.len()
    &&& forall|d: usize| d < kinds.len() ==> (#[trigger] c.has_layer(d) <==> kinds[d as int] is Some)
    &&& forall|d: usize| #[trigger] c.has_layer(d) ==> is_fresh_layer(c.layer(d), kinds[d as int]->Some_0, area)
}

/// `after` is `before` once `tile` was written at local index `index` of the
/// layer at the tile's depth, with result `r`.
pub open spec fn tile_set(before: Chunk, after: Chunk, index: usize, tile: Tile, r: Result<(), TilemapError>) -> bool {
    &&& after.wf()
    &&& !before.has_layer(tile.sprite_order) ==> fails_with(r, ErrorKind::LayerDoesNotExist(tile.sprite_order)) && after == before
    &&& before.has_layer(tile.sprite_order) ==> {
        let l0 = before.layer(tile.sprite_order);
        let l1 = after.layer(tile.sprite_order);
        &&& after.same_but(before, tile.sprite_order)
        &&& after.has_layer(tile.sprite_order)
        &&& l1.entity == l0.entity
        &&& l1.inner.same_shape(l0.inner)
        &&& l0.inner.accepts(index) ==> r is Ok && l1.inner@ == write_tile(l0.inner@, index, tile.spec_raw())
        &&& !l0.inner.accepts(index) ==> fails_with(r, ErrorKind::DimensionError(DimensionError::IndexOutOfBounds(index)))
            && l1.inner@ == l0.inner@
    }
}

/// `after` is `before` once the cell `index` of the layer at `sprite_order`
/// was emptied, with result `r`.
pub open spec fn tile_removed(before: Chunk, after: Chunk, index: usize, sprite_order: usize, r: Result<(), TilemapError>) -> bool {
    &&& after.wf()
    &&& !before.has_layer(sprite_order) ==> fails_with(r, ErrorKind::LayerDoesNotExist(sprite_order)) && after == before
    &&& before.has_layer(sprite_order) ==> {
        let l0 = before.layer(sprite_order);
        let l1 = after.layer(sprite_order);
        &&& r is Ok
        &&& after.same_but(before, sprite_order)
        &&& after.has_layer(sprite_order)
        &&& l1.entity == l0.entity
        &&& l1.inner.same_shape(l0.inner)
        &&& l1.inner@ == l0.inner@.remove(index)
    }
}

/// The entities of the layers that have one, from the lowest depth up.
pub open spec fn layer_entities(layers: Seq<Option<SpriteLayer>>) -> Seq<Entity>
    decreases layers.len(),
{
    if layers.len() == 0 {
        Seq::empty()
    } else {
        let rest = layer_entities(layers.drop_last());
        match layers.last() {
            Some(l) => match l.entity {
                Some(e) => rest.push(e),
                None => rest,
            },
            None => rest,
        }
    }
}

/// The tile layers of one chunk point. The number of depths is fixed when the
/// chunk is built; a depth holds no layer until one is added.
pub struct Chunk {
    point: Point2,
    sprite_layers: Vec<Option<SpriteLayer>>,
}

impl Chunk {
    pub closed spec fn spec_point(&self) -> Point2 {
        self.point
    }

    /// The layer slots, by depth.
    pub closed spec fn layers(&self) -> Seq<Option<SpriteLayer>> {
        self.sprite_layers@
    }

    pub open spec fn has_layer(&self, depth: usize) -> bool {
        depth < self.layers().len() && self.layers()[depth as int] is Some
    }

    pub open spec fn layer(&self, depth: usize) -> SpriteLayer {
        self.layers()[depth as int]->Some_0
    }

    pub open spec fn wf(&self) -> bool {
        forall|d: usize| #[trigger] self.has_layer(d) ==> self.layer(d).inner.wf()
    }

    /// Only the layer at `depth` may differ between the two chunks.
    pub open spec fn same_but(&self, other: Chunk, depth: usize) -> bool {
        &&& self.spec_point() == other.spec_point()
        &&& self.layers().len() == other.layers().len()
        &&& forall|d: int| 0 <= d < self.layers().len() && d != depth ==> #[trigger] self.layers()[d] == other.layers()[d]
    }

    fn fresh_layer(kind: &LayerKind, area: usize) -> (r: SpriteLayer)
        ensures
            is_fresh_layer(r, *kind, area as nat),
    {
        match kind {
            LayerKind::Dense => {
                let mut tiles: Vec<RawTile> = Vec::new();
                let mut i: usize = 0;
                while i < area
                    invariant
                        i <= area,
                        tiles@ == empty_slots(i as nat),
                    decreases area - i,
                {
                    tiles.push(RawTile { index: 0, color: Color::transparent() });
                    i = i + 1;
                    proof {
                        assert(tiles@ =~= empty_slots(i as nat));
                    }
                }
                let layer = DenseLayer::new(tiles);
                proof {
                    assert(layer.spec_tiles() =~= Map::<usize, RawTile>::empty());
                }
                SpriteLayer { inner: LayerKindInner::Dense(layer), entity: None }
            },
            LayerKind::Sparse => {
                let layer = SparseLayer::new(Vec::new());
                proof {
                    assert(layer@ =~= Map::<usize, RawTile>::empty());
                }
                SpriteLayer { inner: LayerKindInner::Sparse(layer), entity: None }
            },
        }
    }

    /// A chunk at `point` with one slot per entry of `layers`, holding a fresh
    /// layer of the given kind where the entry names one.
    pub fn new(point: Point2, layers: &[Option<LayerKind>], dimensions: Dimension2) -> (r: Chunk)
        requires
            dimensions.spec_area() <= usize::MAX,
        ensures
            is_fresh_chunk(r, point, layers@, dimensions.spec_area()),
    {
        let area = dimensions.area() as usize;
        let mut sprite_layers: Vec<Option<SpriteLayer>> = Vec::new();
        let mut i: usize = 0;
        while i < layers.len()
            invariant
                i <= layers@.len(),
                area == dimensions.spec_area(),
                sprite_layers@.len() == i,
                forall|d: int| 0 <= d < i ==> (sprite_layers@[d] is Some <==> layers@[d] is Some),
                forall|d: int| 0 <= d < i && sprite_layers@[d] is Some ==> is_fresh_layer(sprite_layers@[d]->Some_0, layers@[d]->Some_0, area as nat),
            decreases layers@.len() - i,
        {
            match &layers[i] {
                Some(kind) => sprite_layers.push(Some(Chunk::fresh_layer(kind, area))),
                None => sprite_layers.push(None),
            }
            i = i + 1;
        }
        Chunk { point, sprite_layers }
    }

    /// Builds a fresh layer of `kind` at `sprite_order`, replacing what was there.
    pub fn add_layer(&mut self, kind: &LayerKind, sprite_order: usize, dimensions: Dimension2) -> (r: Result<(), TilemapError>)
        requires
            old(self).wf(),
            dimensions.spec_area() <= usize::MAX,
        ensures
            final(self).wf(),
            sprite_order < old(self).layers().len() ==> r is Ok && final(self).same_but(*old(self), sprite_order)
                && final(self).has_layer(sprite_order)
                && is_fresh_layer(final(self).layer(sprite_order), *kind, dimensions.spec_area()),
            sprite_order >= old(self).layers().len() ==> fails_with(r, ErrorKind::LayerDoesNotExist(sprite_order))
                && *final(self) == *old(self),
    {
        if sprite_order < self.sprite_layers.len() {
            let area = dimensions.area() as usize;
            let layer = Chunk::fresh_layer(kind, area);
            self.sprite_layers.set(sprite_order, Some(layer));
            proof {
                assert forall|d: usize| #[trigger] self.has_layer(d) implies self.layer(d).inner.wf() by {
                    if d != sprite_order {
                        assert(old(self).has_layer(d));
                    }
                }
            }
            Ok(())
        } else {
            Err(TilemapError::new(ErrorKind::LayerDoesNotExist(sprite_order)))
        }
    }

    /// The point of the chunk.
    pub fn point(&self) -> (r: Point2)
        ensures
            r == self.spec_point(),
    {
        self.point
    }

    /// The number of depths.
    pub fn depth_count(&self) -> (r: usize)
        ensures
            r == self.layers().len(),
    {
        self.sprite_layers.len()
    }

    /// Moves the layer at `from_z` to the empty depth `to_z`. Fails, changing
    /// nothing, where a depth is out of range or `to_z` already holds a layer.
    pub fn move_layer(&mut self, from_z: usize, to_z: usize) -> (r: Result<(), TilemapError>)
        requires
            old(self).wf(),
        ensures
            final(self).wf(),
            from_z >= old(self).layers().len() ==> fails_with(r, ErrorKind::LayerDoesNotExist(from_z)) && *final(self) == *old(self),
            from_z < old(self).layers().len() && to_z >= old(self).layers().len() ==> fails_with(r, ErrorKind::LayerDoesNotExist(to_z))
                && *final(self) == *old(self),
            from_z < old(self).layers().len() && old(self).has_layer(to_z) ==> fails_with(r, ErrorKind::LayerExists(to_z))
                && *final(self) == *old(self),
            from_z < old(self).layers().len() && to_z < old(self).layers().len() && !old(self).has_layer(to_z) ==> r is Ok
                && final(self).spec_point() == old(self).spec_point()
                && final(self).layers() == old(self).layers().update(from_z as int, None).update(to_z as int, old(self).layers()[from_z as int]),
    {
        if from_z >= self.sprite_layers.len() {
            return Err(TilemapError::new(ErrorKind::LayerDoesNotExist(from_z)));
        }
        if to_z >= self.sprite_layers.len() {
            return Err(TilemapError::new(ErrorKind::LayerDoesNotExist(to_z)));
        }
        if self.sprite_layers[to_z].is_some() {
            return Err(TilemapError::new(ErrorKind::LayerExists(to_z)));
        }
        let moved = self.sprite_layers[from_z].take();
        self.sprite_layers.set(to_z, moved);
        proof {
            assert(self.sprite_layers@ =~= old(self).layers().update(from_z as int, None).update(to_z as int, old(self).layers()[from_z as int]));
            assert forall|d: usize| #[trigger] self.has_layer(d) implies self.layer(d).inner.wf() by {
                if d == to_z {
                    assert(old(self).has_layer(from_z));
                } else {
                    assert(old(self).has_layer(d));
                }
            }
        }
        Ok(())
    }

    /// Clears the depth `sprite_order`.
    pub fn remove_layer(&mut self, sprite_order: usize) -> (r: Result<(), TilemapError>)
        requires
            old(self).wf(),
        ensures
            final(self).wf(),
            sprite_order < old(self).layers().len() ==> r is Ok && final(self).spec_point() == old(self).spec_point()
                && final(self).layers() == old(self).layers().update(sprite_order as int, None),
            sprite_order >= old(self).layers().len() ==> fails_with(r, ErrorKind::LayerDoesNotExist(sprite_order))
                && *final(self) == *old(self),
    {
        if sprite_order < self.sprite_layers.len() {
            self.sprite_layers.set(sprite_order, None);
            proof {
                assert forall|d: usize| #[trigger] self.has_layer(d) implies self.layer(d).inner.wf() by {
                    assert(old(self).has_layer(d));
                }
            }
            Ok(())
        } else {
            Err(TilemapError::new(ErrorKind::LayerDoesNotExist(sprite_order)))
        }
    }

    /// Writes `tile` into the layer at its depth, at local index `index`. The
    /// layer must exist; no layer is created here.
    pub fn set_tile(&mut self, index: usize, tile: Tile) -> (r: Result<(), TilemapError>)
        requires
            old(self).wf(),
        ensures
            tile_set(*old(self), *final(self), index, tile, r),
    {
        let order = tile.sprite_order;
        if order >= self.sprite_layers.len() || self.sprite_layers[order].is_none() {
            return Err(TilemapError::new(ErrorKind::LayerDoesNotExist(order)));
        }
        let raw = RawTile { index: tile.sprite_index, color: tile.tint };
        let mut layer = self.sprite_layers[order].take().unwrap();
        assert(old(self).has_layer(order));
        let r = layer.inner.set_tile(index, raw);
        self.sprite_layers.set(order, Some(layer));
        proof {
            assert forall|d: usize| #[trigger] self.has_layer(d) implies self.layer(d).inner.wf() by {
                if d != order {
                    assert(old(self).has_layer(d));
                }
            }
        }
        r
    }

    /// Empties the cell `index` of the layer at `sprite_order`. The layer must
    /// exist; an empty cell stays empty.
    pub fn remove_tile(&mut self, index: usize, sprite_order: usize) -> (r: Result<(), TilemapError>)
        requires
            old(self).wf(),
        ensures
            tile_removed(*old(self), *final(self), index, sprite_order, r),
    {
        if sprite_order >= self.sprite_layers.len() || self.sprite_layers[sprite_order].is_none() {
            return Err(TilemapError::new(ErrorKind::LayerDoesNotExist(sprite_order)));
        }
        let mut layer = self.sprite_layers[sprite_order].take().unwrap();
        assert(old(self).has_layer(sprite_order));
        layer.inner.remove_tile(index);
        self.sprite_layers.set(sprite_order, Some(layer));
        proof {
            assert forall|d: usize| #[trigger] self.has_layer(d) implies self.layer(d).inner.wf() by {
                if d != sprite_order {
                    assert(old(self).has_layer(d));
                }
            }
        }
        Ok(())
    }

    /// The tile at local index `index` of the layer at `sprite_order`, if present.
    pub fn get_tile(&self, sprite_order: usize, index: usize) -> (r: Option<&RawTile>)
        ensures
            match r {
                Some(t) => self.has_layer(sprite_order) && self.layer(sprite_order).inner@.contains_key(index)
                    && *t == self.layer(sprite_order).inner@[index],
                None => !self.has_layer(sprite_order) || !self.layer(sprite_order).inner@.contains_key(index),
            },
    {
        if sprite_order < self.sprite_layers.len() {
            match &self.sprite_layers[sprite_order] {
                Some(layer) => layer.inner.get_tile(index),
                None => None,
            }
        } else {
            None
        }
    }

    /// The layer at `sprite_order`, if there is one.
    pub fn get_layer(&self, sprite_order: usize) -> (r: Option<&SpriteLayer>)
        ensures
            match r {
                Some(l) => self.has_layer(sprite_order) && *l == self.layer(sprite_order),
                None => !self.has_layer(sprite_order),
            },
    {
        if sprite_order < self.sprite_layers.len() {
            match &self.sprite_layers[sprite_order] {
                Some(layer) => Some(layer),
                None => None,
            }
        } else {
            None
        }
    }

    /// Records `entity` as the render entity of the layer at `sprite_order`.
    pub fn set_entity(&mut self, sprite_order: usize, entity: Entity) -> (r: Result<(), TilemapError>)
        requires
            old(self).wf(),
        ensures
            final(self).wf(),
            !old(self).has_layer(sprite_order) ==> fails_with(r, ErrorKind::LayerDoesNotExist(sprite_order))
                && *final(self) == *old(self),
            old(self).has_layer(sprite_order) ==> r is Ok && final(self).spec_point() == old(self).spec_point()
                && final(self).layers() == old(self).layers().update(
                    sprite_order as int,
                    Some(SpriteLayer { inner: old(self).layer(sprite_order).inner, entity: Some(entity) }),
                ),
    {
        if sprite_order >= self.sprite_layers.len() || self.sprite_layers[sprite_order].is_none() {
            return Err(TilemapError::new(ErrorKind::LayerDoesNotExist(sprite_order)));
        }
        let mut layer = self.sprite_layers[sprite_order].take().unwrap();
        layer.entity = Some(entity);
        self.sprite_layers.set(sprite_order, Some(layer));
        proof {
            assert(self.sprite_layers@ =~= old(self).layers().update(
                sprite_order as int,
                Some(SpriteLayer { inner: old(self).layer(sprite_order).inner, entity: Some(entity) }),
            ));
            assert forall|d: usize| #[trigger] self.has_layer(d) implies self.layer(d).inner.wf() by {
                assert(old(self).has_layer(d));
            }
        }
        Ok(())
    }

    /// The render entity of the layer at `sprite_order`, if it has one.
    pub fn get_entity(&self, sprite_order: usize) -> (r: Option<Entity>)
        ensures
            r == if self.has_layer(sprite_order) { self.layer(sprite_order).entity } else { None },
    {
        if sprite_order < self.sprite_layers.len() {
            match &self.sprite_layers[sprite_order] {
                Some(layer) => layer.entity,
                None => None,
            }
        } else {
            None
        }
    }

    /// The render entities of all layers that have one, from the lowest depth up.
    pub fn get_entities(&self) -> (r: Vec<Entity>)
        ensures
            r@ == layer_entities(self.layers()),
    {
        let mut entities: Vec<Entity> = Vec::new();
        let mut i: usize = 0;
        while i < self.sprite_layers.len()
            invariant
                i <= self.sprite_layers@.len(),
                entities@ == layer_entities(self.sprite_layers@.subrange(0, i as int)),
            decreases self.sprite_layers@.len() - i,
        {
            proof {
                assert(self.sprite_layers@.subrange(0, i + 1).drop_last() =~= self.sprite_layers@.subrange(0, i as int));
            }
            match &self.sprite_layers[i] {
                Some(layer) => match layer.entity {
                    Some(entity) => entities.push(entity),
                    None => {},
                },
                None => {},
            }
            i = i + 1;
        }
        proof {
            assert(self.sprite_layers@.subrange(0, self.sprite_layers@.len() as int) =~= self.sprite_layers@);
        }
        entities
    }

    /// The renderer's sprite indices and colors of the layer at `sprite_order`,
    /// for a chunk of the given dimensions; `None` where the depth has no layer.
    pub fn tiles_to_renderer_parts(&self, sprite_order: usize, dimensions: Dimension2) -> (r: Option<(Vec<usize>, Vec<Color>)>)
        requires
            dimensions.spec_area() <= usize::MAX,
        ensures
            r is Some <==> self.has_layer(sprite_order),
            r matches Some(parts) ==> self.layer(sprite_order).inner.renders_as(dimensions.spec_area() as usize, parts.0@, parts.1@),
    {
        let area = dimensions.area() as usize;
        match self.get_layer(sprite_order) {
            Some(layer) => Some(layer.inner.tiles_to_attributes(area)),
            None => None,
        }
    }
}

} // verus!
