use bevy_ecs::entity::Entity;
use bevy_tilemap::chunk::Chunk;
use bevy_tilemap::error::{DimensionError, ErrorKind};
use bevy_tilemap::layer::LayerKind;
use bevy_tilemap::tile::{RawTile, Tile};
use bevy_tilemap::types::{Color, Dimension2, Point2};

fn tile_at(depth: usize, index: usize) -> Tile {
    Tile { point: Point2::new(0, 0), sprite_order: depth, sprite_index: index, tint: Color::white() }
}

fn two_layer_chunk() -> Chunk {
    Chunk::new(Point2::new(1, -2), &[Some(LayerKind::Dense), Some(LayerKind::Sparse), None], Dimension2::new(4, 4))
}

#[test]
fn new_chunk_builds_the_listed_layers() {
    let chunk = two_layer_chunk();
    assert_eq!(chunk.point(), Point2::new(1, -2));
    assert_eq!(chunk.depth_count(), 3);
    assert_eq!(chunk.get_layer(0).unwrap().inner.kind(), LayerKind::Dense);
    assert_eq!(chunk.get_layer(1).unwrap().inner.kind(), LayerKind::Sparse);
    assert!(chunk.get_layer(2).is_none());
    assert!(chunk.get_layer(3).is_none());
    assert!(chunk.get_tile(0, 0).is_none());
    assert!(chunk.get_entities().is_empty());
}

#[test]
fn move_layer_onto_existing_layer_fails_and_changes_nothing() {
    let mut chunk = two_layer_chunk();
    chunk.set_tile(0, tile_at(0, 5)).unwrap();
    chunk.set_tile(1, tile_at(1, 6)).unwrap();
    let err = chunk.move_layer(0, 1).unwrap_err();
    assert_eq!(err.kind(), ErrorKind::LayerExists(1));
    assert_eq!(chunk.get_tile(0, 0).map(|t| t.index), Some(5));
    assert_eq!(chunk.get_tile(1, 1).map(|t| t.index), Some(6));
    assert_eq!(chunk.get_layer(0).unwrap().inner.kind(), LayerKind::Dense);
    assert_eq!(chunk.get_layer(1).unwrap().inner.kind(), LayerKind::Sparse);
}

#[test]
fn move_layer_to_empty_depth() {
    let mut chunk = two_layer_chunk();
    chunk.set_tile(3, tile_at(1, 8)).unwrap();
    assert!(chunk.move_layer(1, 2).is_ok());
    assert!(chunk.get_layer(1).is_none());
    assert_eq!(chunk.get_tile(2, 3).map(|t| t.index), Some(8));
    assert_eq!(chunk.move_layer(5, 1).unwrap_err().kind(), ErrorKind::LayerDoesNotExist(5));
    assert_eq!(chunk.move_layer(0, 7).unwrap_err().kind(), ErrorKind::LayerDoesNotExist(7));
}

#[test]
fn set_tile_needs_an_existing_layer() {
    let mut chunk = two_layer_chunk();
    assert_eq!(chunk.set_tile(0, tile_at(2, 1)).unwrap_err().kind(), ErrorKind::LayerDoesNotExist(2));
    assert_eq!(chunk.set_tile(0, tile_at(9, 1)).unwrap_err().kind(), ErrorKind::LayerDoesNotExist(9));
    assert_eq!(
        chunk.set_tile(16, tile_at(0, 1)).unwrap_err().kind(),
        ErrorKind::DimensionError(DimensionError::IndexOutOfBounds(16))
    );
    assert!(chunk.set_tile(16, tile_at(1, 1)).is_ok());
}

#[test]
fn write_then_read_at_same_depth_and_index() {
    let mut chunk = two_layer_chunk();
    let tile = Tile { point: Point2::new(0, 0), sprite_order: 1, sprite_index: 12, tint: Color::rgba(1, 2, 3, 4) };
    chunk.set_tile(9, tile).unwrap();
    assert_eq!(chunk.get_tile(1, 9), Some(&RawTile { index: 12, color: Color::rgba(1, 2, 3, 4) }));
    assert!(chunk.remove_tile(9, 1).is_ok());
    assert!(chunk.get_tile(1, 9).is_none());
    assert_eq!(chunk.remove_tile(9, 2).unwrap_err().kind(), ErrorKind::LayerDoesNotExist(2));
}

#[test]
fn add_and_remove_layers() {
    let mut chunk = two_layer_chunk();
    assert!(chunk.add_layer(&LayerKind::Sparse, 2, Dimension2::new(4, 4)).is_ok());
    assert_eq!(chunk.get_layer(2).unwrap().inner.kind(), LayerKind::Sparse);
    assert_eq!(
        chunk.add_layer(&LayerKind::Dense, 3, Dimension2::new(4, 4)).unwrap_err().kind(),
        ErrorKind::LayerDoesNotExist(3)
    );
    assert!(chunk.remove_layer(0).is_ok());
    assert!(chunk.get_layer(0).is_none());
    assert_eq!(chunk.remove_layer(3).unwrap_err().kind(), ErrorKind::LayerDoesNotExist(3));
}

#[test]
fn entities_are_listed_by_depth() {
    let mut chunk = two_layer_chunk();
    let a = Entity::from_raw(11);
    let b = Entity::from_raw(22);
    assert!(chunk.set_entity(1, b).is_ok());
    assert!(chunk.set_entity(0, a).is_ok());
    assert_eq!(chunk.set_entity(2, a).unwrap_err().kind(), ErrorKind::LayerDoesNotExist(2));
    assert_eq!(chunk.get_entity(0), Some(a));
    assert_eq!(chunk.get_entity(2), None);
    assert_eq!(chunk.get_entities(), vec![a, b]);
}

#[test]
fn renderer_parts_only_for_existing_layers() {
    let mut chunk = two_layer_chunk();
    chunk.set_tile(5, tile_at(0, 3)).unwrap();
    let (indices, colors) = chunk.tiles_to_renderer_parts(0, Dimension2::new(4, 4)).unwrap();
    assert_eq!(indices.len(), 16);
    assert_eq!(colors.len(), 16);
    assert_eq!(indices[5], 3);
    assert_eq!(colors[5], Color::white());
    assert!(chunk.tiles_to_renderer_parts(2, Dimension2::new(4, 4)).is_none());
}
