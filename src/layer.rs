//! Dense and sparse layers: the per-depth tile storage of a chunk.
//!
//! Both kinds present the same model: a map from local index to the tiles
//! that are present. A dense layer keeps a slot for every cell and marks an
//! empty cell by a zero alpha; a sparse layer keeps only present tiles.

use vstd::prelude::*;
use crate::error::{fails_with, DimensionError, ErrorKind, TilemapError};
use crate::store::TileStore;
use crate::tile::RawTile;
use bevy_ecs::entity::Entity;
use crate::types::Color;

verus! {

/// The present tiles of a dense layer's slots: the slots whose alpha is not zero.
pub open spec fn present_tiles(slots: Seq<RawTile>) -> Map<usize, RawTile> {
    Map::new(|i: usize| (i as int) < slots.len() && slots[i as int].is_present(), |i: usize| slots[i as int])
}

/// The tiles after writing `tile` at `index`: a transparent tile empties the cell.
pub open spec fn write_tile(m: Map<usize, RawTile>, index: usize, tile: RawTile) -> Map<usize, RawTile> {
    if tile.is_present() {
        m.insert(index, tile)
    } else {
        m.remove(index)
    }
}

/// The tiles that result from writing the entries one after the other.
pub open spec fn tiles_from_entries(entries: Seq<(usize, RawTile)>) -> Map<usize, RawTile>
    decreases entries.len(),
{
    if entries.len() == 0 {
        Map::empty()
    } else {
        write_tile(tiles_from_entries(entries.drop_last()), entries.last().0, entries.last().1)
    }
}

/// The sprite index that the renderer receives for cell `i`: 0 for an empty cell.
pub open spec fn cell_index(m: Map<usize, RawTile>, i: usize) -> usize {
    if m.contains_key(i) {
        m[i].index
    } else {
        0
    }
}

/// The color that the renderer receives for cell `i`: transparent for an empty cell.
pub open spec fn cell_color(m: Map<usize, RawTile>, i: usize) -> Color {
    if m.contains_key(i) {
        m[i].color
    } else {
        Color::spec_transparent()
    }
}

/// `indices` and `colors` are the renderer's attributes of the first `area`
/// cells of the present tiles `m`: an empty cell is index 0 and transparent.
pub open spec fn renders(m: Map<usize, RawTile>, area: usize, indices: Seq<usize>, colors: Seq<Color>) -> bool {
    &&& indices.len() == area
    &&& colors.len() == area
    &&& forall|i: int| 0 <= i < area ==> indices[i] == cell_index(m, i as usize)
    &&& forall|i: int| 0 <= i < area ==> colors[i] == cell_color(m, i as usize)
}

/// The color that a dense layer hands the renderer for slot `i`: the stored
/// color, whether the slot is empty or not, and transparent past the slots.
pub open spec fn slot_color(slots: Seq<RawTile>, i: int) -> Color {
    if i < slots.len() {
        slots[i].color
    } else {
        Color::spec_transparent()
    }
}

/// `indices` and `colors` are the renderer's attributes of the first `area`
/// slots of a dense layer: each slot's color as stored, and its sprite index
/// where a tile is present (0 otherwise).
pub open spec fn renders_slots(slots: Seq<RawTile>, area: usize, indices: Seq<usize>, colors: Seq<Color>) -> bool {
    &&& indices.len() == area
    &&& colors.len() == area
    &&& forall|i: int| 0 <= i < area ==> indices[i] == cell_index(present_tiles(slots), i as usize)
    &&& forall|i: int| 0 <= i < area ==> colors[i] == slot_color(slots, i)
}

/// `s` is in strictly increasing order.
pub open spec fn strictly_increasing(s: Seq<usize>) -> bool {
    forall|a: int, b: int| 0 <= a < b < s.len() ==> s[a] < s[b]
}

/// A layer with a slot for every cell of the chunk, in row-major order.
#[derive(Clone, Debug)]
pub struct DenseLayer {
    tiles: Vec<RawTile>,
}

impl DenseLayer {
    /// The slots, present or not.
    pub closed spec fn slots(&self) -> Seq<RawTile> {
        self.tiles@
    }

    pub open spec fn spec_tiles(&self) -> Map<usize, RawTile> {
        present_tiles(self.slots())
    }

    /// A dense layer over the given slots.
    pub fn new(tiles: Vec<RawTile>) -> (r: DenseLayer)
        ensures
            r.slots() == tiles@,
    {
        DenseLayer { tiles }
    }

    /// The number of slots.
    pub fn capacity(&self) -> (r: usize)
        ensures
            r == self.slots().len(),
    {
        self.tiles.len()
    }

    /// Writes `tile` into slot `index`, or reports an index outside the layer.
    pub fn set_tile(&mut self, index: usize, tile: RawTile) -> (r: Result<(), TilemapError>)
        ensures
            index < old(self).slots().len() ==> r is Ok && final(self).slots() == old(self).slots().update(index as int, tile),
            index >= old(self).slots().len() ==> fails_with(r, ErrorKind::DimensionError(DimensionError::IndexOutOfBounds(index)))
                && final(self).slots() == old(self).slots(),
    {
        if index < self.tiles.len() {
            self.tiles.set(index, tile);
            Ok(())
        } else {
            Err(TilemapError::new(ErrorKind::DimensionError(DimensionError::IndexOutOfBounds(index))))
        }
    }

    /// Empties slot `index` by zeroing its alpha; the slot itself stays.
    pub fn remove_tile(&mut self, index: usize)
        ensures
            index < old(self).slots().len() ==> final(self).slots() == old(self).slots().update(
                index as int,
                (RawTile { color: (Color { a: 0, ..old(self).slots()[index as int].color }), ..old(self).slots()[index as int] }),
            ),
            index >= old(self).slots().len() ==> final(self).slots() == old(self).slots(),
            final(self).spec_tiles() == old(self).spec_tiles().remove(index),
            !final(self).spec_tiles().contains_key(index),
    {
        if index < self.tiles.len() {
            let mut tile = self.tiles[index];
            tile.color.a = 0;
            self.tiles.set(index, tile);
        }
        proof {
            assert(self.spec_tiles() =~= old(self).spec_tiles().remove(index));
        }
    }

    /// The tile in slot `index`, unless the slot is empty or outside the layer.
    pub fn get_tile(&self, index: usize) -> (r: Option<&RawTile>)
        ensures
            match r {
                Some(t) => index < self.slots().len() && self.slots()[index as int].is_present() && *t == self.slots()[index as int],
                None => index >= self.slots().len() || !self.slots()[index as int].is_present(),
            },
    {
        if index < self.tiles.len() && self.tiles[index].color.a != 0 {
            Some(&self.tiles[index])
        } else {
            None
        }
    }

    /// Mutable access to the tile in slot `index`, unless the slot is empty or
    /// outside the layer.
    pub fn get_tile_mut(&mut self, index: usize) -> (r: Option<&mut RawTile>)
        ensures
            match r {
                Some(t) => {
                    &&& index < old(self).slots().len()
                    &&& old(self).slots()[index as int].is_present()
                    &&& *t == old(self).slots()[index as int]
                    &&& final(self).slots() == old(self).slots().update(index as int, *final(t))
                },
                None => {
                    &&& index >= old(self).slots().len() || !old(self).slots()[index as int].is_present()
                    &&& final(self).slots() == old(self).slots()
                },
            },
    {
        if index < self.tiles.len() && self.tiles[index].color.a != 0 {
            Some(&mut self.tiles[index])
        } else {
            None
        }
    }

    /// The indices of the present tiles, in increasing order.
    pub fn get_tile_indices(&self) -> (r: Vec<usize>)
        ensures
            forall|k: usize| r@.contains(k) <==> self.spec_tiles().contains_key(k),
            strictly_increasing(r@),
    {
        let mut indices: Vec<usize> = Vec::new();
        let mut i: usize = 0;
        while i < self.tiles.len()
            invariant
                i <= self.tiles@.len(),
                forall|k: usize| indices@.contains(k) <==> (k < i && self.tiles@[k as int].is_present()),
                strictly_increasing(indices@),
                forall|a: int| 0 <= a < indices@.len() ==> indices@[a] < i,
            decreases self.tiles@.len() - i,
        {
            let ghost prev = indices@;
            if self.tiles[i].color.a != 0 {
                indices.push(i);
                proof {
                    assert forall|k: usize| indices@.contains(k) <==> (prev.contains(k) || k == i) by {
                        if indices@.contains(k) {
                            let j = choose|j: int| 0 <= j < indices@.len() && indices@[j] == k;
                            if j < prev.len() {
                                assert(prev[j] == k);
                            }
                        }
                        if prev.contains(k) {
                            let j = choose|j: int| 0 <= j < prev.len() && prev[j] == k;
                            assert(indices@[j] == k);
                        }
                        if k == i {
                            assert(indices@[prev.len() as int] == k);
                        }
                    }
                }
            }
            proof {
                assert forall|k: usize| indices@.contains(k) <==> (k < i + 1 && self.tiles@[k as int].is_present()) by {
                    if k < i {
                        assert(prev.contains(k) <==> self.tiles@[k as int].is_present());
                    }
                    if prev.contains(k) {
                        let j = choose|j: int| 0 <= j < prev.len() && prev[j] == k;
                        assert(prev[j] < i);
                    }
                }
            }
            i = i + 1;
        }
        indices
    }

    /// The renderer's sprite indices and colors for the first `area` slots,
    /// read from the slots in order.
    pub fn tiles_to_attributes(&self, area: usize) -> (r: (Vec<usize>, Vec<Color>))
        ensures
            renders_slots(self.slots(), area, r.0@, r.1@),
    {
        let mut indices: Vec<usize> = Vec::new();
        let mut colors: Vec<Color> = Vec::new();
        let mut i: usize = 0;
        while i < area
            invariant
                i <= area,
                indices@.len() == i,
                colors@.len() == i,
                forall|j: int| 0 <= j < i ==> indices@[j] == cell_index(present_tiles(self.tiles@), j as usize),
                forall|j: int| 0 <= j < i ==> colors@[j] == slot_color(self.tiles@, j),
            decreases area - i,
        {
            if i < self.tiles.len() {
                let tile = self.tiles[i];
                indices.push(if tile.color.a != 0 { tile.index } else { 0 });
                colors.push(tile.color);
            } else {
                indices.push(0);
                colors.push(Color::transparent());
            }
            i = i + 1;
        }
        (indices, colors)
    }
}

/// A layer that keeps only the present tiles, keyed by local index.
pub struct SparseLayer {
    tiles: TileStore,
}

impl View for SparseLayer {
    type V = Map<usize, RawTile>;

    closed spec fn view(&self) -> Map<usize, RawTile> {
        self.tiles@
    }
}

impl SparseLayer {
    /// No stored tile is transparent.
    pub open spec fn wf(&self) -> bool {
        forall|k: usize| self@.contains_key(k) ==> (#[trigger] self@[k]).is_present()
    }

    /// A sparse layer holding the entries written in order; transparent ones empty their cell.
    pub fn new(tiles: Vec<(usize, RawTile)>) -> (r: SparseLayer)
        ensures
            r.wf(),
            r@ == tiles_from_entries(tiles@),
    {
        let mut layer = SparseLayer { tiles: TileStore::empty() };
        proof {
            assert(layer@ =~= tiles_from_entries(tiles@.subrange(0, 0)));
        }
        let mut i: usize = 0;
        while i < tiles.len()
            invariant
                i <= tiles@.len(),
                layer.wf(),
                layer@ == tiles_from_entries(tiles@.subrange(0, i as int)),
            decreases tiles@.len() - i,
        {
            let (index, tile) = tiles[i];
            layer.set_tile(index, tile);
            proof {
                assert(tiles@.subrange(0, i + 1).drop_last() =~= tiles@.subrange(0, i as int));
            }
            i = i + 1;
        }
        proof {
            assert(tiles@.subrange(0, tiles@.len() as int) =~= tiles@);
        }
        layer
    }

    /// Writes `tile` at `index`; a transparent tile removes the entry instead.
    pub fn set_tile(&mut self, index: usize, tile: RawTile)
        requires
            old(self).wf(),
        ensures
            final(self).wf(),
            final(self)@ == write_tile(old(self)@, index, tile),
    {
        if tile.color.a == 0 {
            self.tiles.remove(index);
        } else {
            self.tiles.insert(index, tile);
        }
        proof {
            assert forall|k: usize| self@.contains_key(k) implies (#[trigger] self@[k]).is_present() by {
                if k != index {
                    assert(old(self)@.contains_key(k));
                }
            }
        }
    }

    /// Removes the entry at `index`, if any.
    pub fn remove_tile(&mut self, index: usize)
        requires
            old(self).wf(),
        ensures
            final(self).wf(),
            final(self)@ == old(self)@.remove(index),
    {
        self.tiles.remove(index);
        proof {
            assert forall|k: usize| self@.contains_key(k) implies (#[trigger] self@[k]).is_present() by {
                assert(old(self)@.contains_key(k));
            }
        }
    }

    /// The tile at `index`, if there is one.
    pub fn get_tile(&self, index: usize) -> (r: Option<&RawTile>)
        ensures
            match r {
                Some(t) => self@.contains_key(index) && *t == self@[index],
                None => !self@.contains_key(index),
            },
    {
        self.tiles.get(index)
    }

    /// The indices of the present tiles, each once, in no particular order.
    pub fn get_tile_indices(&self) -> (r: Vec<usize>)
        ensures
            r@.to_set() == self@.dom(),
            r@.no_duplicates(),
    {
        self.tiles.keys()
    }

    /// The renderer's sprite indices and colors for the first `area` cells.
    pub fn tiles_to_attributes(&self, area: usize) -> (r: (Vec<usize>, Vec<Color>))
        ensures
            renders(self@, area, r.0@, r.1@),
    {
        let mut indices: Vec<usize> = Vec::new();
        let mut colors: Vec<Color> = Vec::new();
        let mut i: usize = 0;
        while i < area
            invariant
                i <= area,
                indices@.len() == i,
                colors@.len() == i,
                forall|j: int| 0 <= j < i ==> indices@[j] == cell_index(self@, j as usize),
                forall|j: int| 0 <= j < i ==> colors@[j] == cell_color(self@, j as usize),
            decreases area - i,
        {
            match self.tiles.get(i) {
                Some(tile) => {
                    indices.push(tile.index);
                    colors.push(tile.color);
                },
                None => {
                    indices.push(0);
                    colors.push(Color::transparent());
                },
            }
            i = i + 1;
        }
        (indices, colors)
    }
}

/// Which kind of layer to build at a depth.
///
/// A dense layer suits backgrounds, which fill every cell; a sparse layer suits
/// entities, objects and items, which fill few.
#[derive(Clone, Copy, Debug, PartialEq, Eq, Hash, Structural)]
pub enum LayerKind {
    Dense,
    Sparse,
}

/// The storage of one layer, either dense or sparse.
pub enum LayerKindInner {
    Dense(DenseLayer),
    Sparse(SparseLayer),
}

impl View for LayerKindInner {
    type V = Map<usize, RawTile>;

    open spec fn view(&self) -> Map<usize, RawTile> {
        match self {
            LayerKindInner::Dense(d) => d.spec_tiles(),
            LayerKindInner::Sparse(s) => s@,
        }
    }
}

impl LayerKindInner {
    pub open spec fn wf(&self) -> bool {
        match self {
            LayerKindInner::Dense(_) => true,
            LayerKindInner::Sparse(s) => s.wf(),
        }
    }

    pub open spec fn spec_kind(&self) -> LayerKind {
        match self {
            LayerKindInner::Dense(_) => LayerKind::Dense,
            LayerKindInner::Sparse(_) => LayerKind::Sparse,
        }
    }

    /// `index` names a cell of the layer: any index for a sparse layer, a slot for a dense one.
    pub open spec fn accepts(&self, index: usize) -> bool {
        match self {
            LayerKindInner::Dense(d) => index < d.slots().len(),
            LayerKindInner::Sparse(_) => true,
        }
    }

    /// Same kind, and for a dense layer the same number of slots.
    pub open spec fn same_shape(&self, other: LayerKindInner) -> bool {
        match (self, other) {
            (LayerKindInner::Dense(a), LayerKindInner::Dense(b)) => a.slots().len() == b.slots().len(),
            (LayerKindInner::Sparse(_), LayerKindInner::Sparse(_)) => true,
            _ => false,
        }
    }

    pub fn kind(&self) -> (r: LayerKind)
        ensures
            r == self.spec_kind(),
    {
        match self {
            LayerKindInner::Dense(_) => LayerKind::Dense,
            LayerKindInner::Sparse(_) => LayerKind::Sparse,
        }
    }

    /// Writes `tile` at `index`; a transparent tile leaves the cell empty.
    pub fn set_tile(&mut self, index: usize, tile: RawTile) -> (r: Result<(), TilemapError>)
        requires
            old(self).wf(),
        ensures
            final(self).wf(),
            final(self).same_shape(*old(self)),
            old(self).accepts(index) ==> r is Ok && final(self)@ == write_tile(old(self)@, index, tile),
            !old(self).accepts(index) ==> fails_with(r, ErrorKind::DimensionError(DimensionError::IndexOutOfBounds(index)))
                && final(self)@ == old(self)@,
    {
        match self {
            LayerKindInner::Dense(d) => {
                let r = d.set_tile(index, tile);
                proof {
                    if r is Ok {
                        assert(d.spec_tiles() =~= write_tile(present_tiles(old(self)->Dense_0.slots()), index, tile));
                    }
                }
                r
            },
            LayerKindInner::Sparse(s) => {
                s.set_tile(index, tile);
                Ok(())
            },
        }
    }

    /// Empties the cell at `index`; nothing happens where it is already empty.
    pub fn remove_tile(&mut self, index: usize)
        requires
            old(self).wf(),
        ensures
            final(self).wf(),
            final(self).same_shape(*old(self)),
            final(self)@ == old(self)@.remove(index),
    {
        match self {
            LayerKindInner::Dense(d) => d.remove_tile(index),
            LayerKindInner::Sparse(s) => s.remove_tile(index),
        }
    }

    /// The tile at `index`, if one is present.
    pub fn get_tile(&self, index: usize) -> (r: Option<&RawTile>)
        ensures
            match r {
                Some(t) => self@.contains_key(index) && *t == self@[index],
                None => !self@.contains_key(index),
            },
    {
        match self {
            LayerKindInner::Dense(d) => d.get_tile(index),
            LayerKindInner::Sparse(s) => s.get_tile(index),
        }
    }

    /// The indices of the present tiles, each once.
    pub fn get_tile_indices(&self) -> (r: Vec<usize>)
        ensures
            r@.to_set() == self@.dom(),
            r@.no_duplicates(),
    {
        match self {
            LayerKindInner::Dense(d) => {
                let r = d.get_tile_indices();
                proof {
                    assert(r@.to_set() =~= self@.dom());
                }
                r
            },
            LayerKindInner::Sparse(s) => s.get_tile_indices(),
        }
    }

    /// The renderer's attributes of the first `area` cells: a dense layer's
    /// slots as stored, a sparse layer's tiles with empty cells transparent.
    pub open spec fn renders_as(&self, area: usize, indices: Seq<usize>, colors: Seq<Color>) -> bool {
        match self {
            LayerKindInner::Dense(d) => renders_slots(d.slots(), area, indices, colors),
            LayerKindInner::Sparse(s) => renders(s@, area, indices, colors),
        }
    }

    /// The renderer's sprite indices and colors for the first `area` cells.
    pub fn tiles_to_attributes(&self, area: usize) -> (r: (Vec<usize>, Vec<Color>))
        ensures
            self.renders_as(area, r.0@, r.1@),
            r.0@.len() == area,
            r.1@.len() == area,
    {
        match self {
            LayerKindInner::Dense(d) => d.tiles_to_attributes(area),
            LayerKindInner::Sparse(s) => s.tiles_to_attributes(area),
        }
    }
}

/// A layer of a chunk and the render entity that draws it, once spawned.
pub struct SpriteLayer {
    pub inner: LayerKindInner,
    pub entity: Option<Entity>,
}

/// The tiles after a history of steps on a layer that held `m`: at each step's
/// index, `Some(tile)` writes the tile and `None` removes the entry.
pub open spec fn apply_steps(m: Map<usize, RawTile>, steps: Seq<(usize, Option<RawTile>)>) -> Map<usize, RawTile>
    decreases steps.len(),
{
    if steps.len() == 0 {
        m
    } else {
        let prev = apply_steps(m, steps.drop_last());
        match steps.last().1 {
            Some(tile) => write_tile(prev, steps.last().0, tile),
            None => prev.remove(steps.last().0),
        }
    }
}

/// Step `j` writes a present tile at `index`, and no later step touches `index`.
pub open spec fn last_write_of(steps: Seq<(usize, Option<RawTile>)>, index: usize, j: int) -> bool {
    &&& 0 <= j < steps.len()
    &&& steps[j].0 == index
    &&& steps[j].1 matches Some(tile) && tile.is_present()
    &&& forall|k: int| j < k < steps.len() ==> steps[k].0 != index
}

/// The indices that were last written with a present tile and not removed since.
pub open spec fn live_indices(steps: Seq<(usize, Option<RawTile>)>) -> Set<usize> {
    Set::new(|index: usize| exists|j: int| last_write_of(steps, index, j))
}

/// Starting from an empty sparse layer, the indices that hold a tile after any
/// history of writes and removals are exactly those last written with a
/// non-transparent tile and not removed since, and no held tile is transparent.
pub proof fn sparse_indices_are_live_writes(steps: Seq<(usize, Option<RawTile>)>)
    ensures
        apply_steps(Map::empty(), steps).dom() == live_indices(steps),
        forall|i: usize| #[trigger] apply_steps(Map::empty(), steps).contains_key(i) ==> apply_steps(Map::empty(), steps)[i].is_present(),
    decreases steps.len(),
{
    if steps.len() == 0 {
        assert(live_indices(steps) =~= Set::<usize>::empty());
        assert(apply_steps(Map::empty(), steps).dom() =~= Set::<usize>::empty());
    } else {
        let rest = steps.drop_last();
        sparse_indices_are_live_writes(rest);
        let last = steps.len() - 1;
        assert forall|i: usize| apply_steps(Map::empty(), steps).dom().contains(i) <==> live_indices(steps).contains(i) by {
            if i == steps[last].0 {
                if steps[last].1 matches Some(tile) && tile.is_present() {
                    assert(last_write_of(steps, i, last));
                } else {
                    assert forall|j: int| !last_write_of(steps, i, j) by {
                        if 0 <= j < last {
                            assert(steps[last].0 == i);
                        }
                    }
                }
            } else {
                if live_indices(steps).contains(i) {
                    let j = choose|j: int| last_write_of(steps, i, j);
                    assert(last_write_of(rest, i, j));
                }
                if live_indices(rest).contains(i) {
                    let j = choose|j: int| last_write_of(rest, i, j);
                    assert(steps[j] == rest[j]);
                    assert forall|k: int| j < k < steps.len() implies steps[k].0 != i by {
                        if k < last {
                            assert(steps[k] == rest[k]);
                        }
                    }
                    assert(last_write_of(steps, i, j));
                }
            }
        }
        assert(apply_steps(Map::empty(), steps).dom() =~= live_indices(steps));
    }
}

/// A present tile written at an index reads back unchanged there, for either
/// kind of layer; a transparent one leaves the cell empty instead.
pub proof fn written_tile_reads_back(m: Map<usize, RawTile>, index: usize, tile: RawTile)
    requires
        tile.is_present(),
    ensures
        write_tile(m, index, tile).contains_key(index),
        write_tile(m, index, tile)[index] == tile,
{
}

} // verus!
