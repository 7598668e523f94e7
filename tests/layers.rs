use bevy_tilemap::error::{DimensionError, ErrorKind};
use bevy_tilemap::layer::{DenseLayer, LayerKind, LayerKindInner, SparseLayer};
use bevy_tilemap::tile::RawTile;
use bevy_tilemap::types::Color;

fn raw(index: usize, a: u8) -> RawTile {
    RawTile { index, color: Color::rgba(10, 20, 30, a) }
}

fn empty_slots(n: usize) -> Vec<RawTile> {
    vec![RawTile { index: 0, color: Color::transparent() }; n]
}

#[test]
fn dense_get_is_none_exactly_for_zero_alpha() {
    let layer = DenseLayer::new(vec![raw(1, 0), raw(2, 255), raw(3, 1)]);
    assert!(layer.get_tile(0).is_none());
    assert_eq!(layer.get_tile(1), Some(&raw(2, 255)));
    assert_eq!(layer.get_tile(2), Some(&raw(3, 1)));
    assert!(layer.get_tile(3).is_none());
}

#[test]
fn dense_remove_then_get_is_none() {
    let mut layer = DenseLayer::new(vec![raw(7, 255), raw(8, 255)]);
    layer.remove_tile(1);
    assert!(layer.get_tile(1).is_none());
    assert_eq!(layer.get_tile(0), Some(&raw(7, 255)));
    assert_eq!(layer.capacity(), 2);
    // removing an empty or missing cell changes nothing
    layer.remove_tile(1);
    layer.remove_tile(9);
    assert_eq!(layer.get_tile_indices(), vec![0]);
}

#[test]
fn dense_set_out_of_range_is_reported() {
    let mut layer = DenseLayer::new(empty_slots(4));
    let err = layer.set_tile(4, raw(1, 255)).unwrap_err();
    assert_eq!(err.kind(), ErrorKind::DimensionError(DimensionError::IndexOutOfBounds(4)));
    assert!(layer.get_tile_indices().is_empty());
    assert!(layer.set_tile(3, raw(1, 255)).is_ok());
    assert_eq!(layer.get_tile(3), Some(&raw(1, 255)));
}

#[test]
fn dense_indices_are_increasing() {
    let mut layer = DenseLayer::new(empty_slots(6));
    layer.set_tile(5, raw(1, 9)).unwrap();
    layer.set_tile(0, raw(2, 9)).unwrap();
    layer.set_tile(3, raw(3, 9)).unwrap();
    assert_eq!(layer.get_tile_indices(), vec![0, 3, 5]);
}

#[test]
fn sparse_new_drops_transparent_entries() {
    let layer = SparseLayer::new(vec![(3, raw(1, 255)), (4, raw(2, 0)), (5, raw(3, 200)), (5, raw(4, 0))]);
    let mut indices = layer.get_tile_indices();
    indices.sort();
    assert_eq!(indices, vec![3]);
    assert!(layer.get_tile(4).is_none());
    assert!(layer.get_tile(5).is_none());
}

#[test]
fn sparse_indices_follow_writes_and_removals() {
    let mut layer = SparseLayer::new(Vec::new());
    layer.set_tile(10, raw(1, 255));
    layer.set_tile(2, raw(2, 255));
    layer.set_tile(7, raw(3, 255));
    layer.remove_tile(2);
    layer.set_tile(7, raw(4, 0));
    layer.set_tile(11, raw(5, 0));
    let mut indices = layer.get_tile_indices();
    indices.sort();
    assert_eq!(indices, vec![10]);
    assert!(layer.get_tile(7).is_none());
    assert!(layer.get_tile(11).is_none());
}

#[test]
fn written_tile_reads_back_on_both_kinds() {
    let tile = raw(42, 128);
    let mut dense = LayerKindInner::Dense(DenseLayer::new(empty_slots(8)));
    let mut sparse = LayerKindInner::Sparse(SparseLayer::new(Vec::new()));
    assert!(dense.set_tile(6, tile).is_ok());
    assert!(sparse.set_tile(6, tile).is_ok());
    assert_eq!(dense.get_tile(6), Some(&tile));
    assert_eq!(sparse.get_tile(6), Some(&tile));
    assert_eq!(dense.kind(), LayerKind::Dense);
    assert_eq!(sparse.kind(), LayerKind::Sparse);
}

#[test]
fn attributes_have_the_area_length() {
    let mut dense = DenseLayer::new(empty_slots(4));
    dense.set_tile(1, raw(9, 255)).unwrap();
    let (indices, colors) = dense.tiles_to_attributes(4);
    assert_eq!(indices, vec![0, 9, 0, 0]);
    assert_eq!(colors[1], Color::rgba(10, 20, 30, 255));
    assert_eq!(colors[0], Color::transparent());

    let mut sparse = SparseLayer::new(Vec::new());
    sparse.set_tile(2, raw(5, 255));
    let (indices, colors) = sparse.tiles_to_attributes(6);
    assert_eq!(indices, vec![0, 0, 5, 0, 0, 0]);
    assert_eq!(colors.len(), 6);
    assert_eq!(colors[2], Color::rgba(10, 20, 30, 255));
    assert_eq!(colors[5], Color::transparent());

    let empty = SparseLayer::new(Vec::new());
    let (indices, colors) = empty.tiles_to_attributes(256);
    assert_eq!(indices.len(), 256);
    assert_eq!(colors.len(), 256);
    let (indices, colors) = empty.tiles_to_attributes(0);
    assert!(indices.is_empty() && colors.is_empty());
}

#[test]
fn removed_dense_tile_keeps_its_color() {
    let mut dense = DenseLayer::new(vec![raw(3, 255), raw(4, 255)]);
    dense.remove_tile(0);
    let (indices, colors) = dense.tiles_to_attributes(3);
    assert_eq!(indices, vec![0, 4, 0]);
    // the emptied slot keeps its stored color, with alpha zero
    assert_eq!(colors[0], Color::rgba(10, 20, 30, 0));
    assert_eq!(colors[1], Color::rgba(10, 20, 30, 255));
    // past the slots the cell is transparent
    assert_eq!(colors[2], Color::transparent());
}

#[test]
fn dense_get_tile_mut_edits_in_place() {
    let mut layer = DenseLayer::new(vec![raw(1, 255), raw(2, 0)]);
    if let Some(t) = layer.get_tile_mut(0) {
        t.index = 40;
    }
    assert_eq!(layer.get_tile(0).map(|t| t.index), Some(40));
    assert!(layer.get_tile_mut(1).is_none());
    assert!(layer.get_tile_mut(2).is_none());
}
