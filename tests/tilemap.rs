use bevy_ecs::entity::Entity;
use bevy_tilemap::error::{DimensionError, ErrorKind, TilemapError};
use bevy_tilemap::layer::LayerKind;
use bevy_tilemap::streaming::auto_spawn;
use bevy_tilemap::tile::{RawTile, Tile};
use bevy_tilemap::tilemap::{spawn_radius, TileLayer, Tilemap2D};
use bevy_tilemap::types::{Color, Dimension2, GridTopology, Point2};

fn layers() -> Vec<Option<TileLayer>> {
    vec![
        Some(TileLayer { kind: LayerKind::Dense, user_data: 0 }),
        Some(TileLayer { kind: LayerKind::Sparse, user_data: 0 }),
    ]
}

fn map(dimensions: Option<Dimension2>) -> Tilemap2D {
    match Tilemap2D::new(
        GridTopology::Square,
        dimensions,
        Dimension2::new(16, 16),
        Dimension2::new(1, 1),
        Dimension2::new(32, 32),
        layers(),
        None,
    ) {
        Ok(m) => m,
        Err(e) => panic!("tilemap not built: {:?}", e),
    }
}

fn spawned_events(map: &Tilemap2D) -> Vec<Point2> {
    let events = &map.chunk_spawned_events().events;
    let mut reader = events.get_reader();
    reader.iter(events).map(|e| e.point).collect()
}

fn despawned_events(map: &Tilemap2D) -> Vec<Point2> {
    let events = &map.chunk_despawned_events().events;
    let mut reader = events.get_reader();
    reader.iter(events).map(|e| e.point).collect()
}

fn error_of(r: Result<Tilemap2D, TilemapError>) -> ErrorKind {
    match r {
        Ok(_) => panic!("expected an error"),
        Err(e) => e.kind(),
    }
}

fn sorted(mut v: Vec<Point2>) -> Vec<(i32, i32)> {
    let mut out: Vec<(i32, i32)> = v.drain(..).map(|p| (p.x, p.y)).collect();
    out.sort();
    out
}

#[test]
fn new_rejects_missing_sizes() {
    let zero_tile = Tilemap2D::new(
        GridTopology::Square, None, Dimension2::new(16, 16), Dimension2::new(0, 1), Dimension2::new(32, 32), layers(), None,
    );
    assert_eq!(error_of(zero_tile), ErrorKind::MissingTileDimensions);
    let zero_texture = Tilemap2D::new(
        GridTopology::Square, None, Dimension2::new(16, 16), Dimension2::new(1, 1), Dimension2::new(32, 0), layers(), None,
    );
    assert_eq!(error_of(zero_texture), ErrorKind::MissingTileDimensions);
    let zero_chunk = Tilemap2D::new(
        GridTopology::HexX, None, Dimension2::new(0, 16), Dimension2::new(1, 1), Dimension2::new(32, 32), layers(), None,
    );
    assert_eq!(error_of(zero_chunk), ErrorKind::DimensionError(DimensionError::Zero));
}

#[test]
fn new_keeps_the_configuration() {
    let m = map(Some(Dimension2::new(4, 4)));
    assert_eq!(m.topology(), GridTopology::Square);
    assert_eq!(m.dimensions(), Some(Dimension2::new(4, 4)));
    assert_eq!(m.chunk_dimensions(), Dimension2::new(16, 16));
    assert_eq!(m.tile_dimensions(), Dimension2::new(1, 1));
    assert_eq!(m.texture_dimensions(), Dimension2::new(32, 32));
    assert_eq!(m.layers(), layers());
    assert_eq!(m.auto_spawn(), None);
    assert!(m.spawned_chunks().is_empty());
    assert!(spawned_events(&m).is_empty());
}

#[test]
fn spawning_twice_gives_one_event_and_one_entry() {
    let mut m = map(None);
    assert!(m.spawn_chunk(Point2::new(3, -1)).is_ok());
    assert!(m.spawn_chunk(Point2::new(3, -1)).is_ok());
    assert_eq!(spawned_events(&m), vec![Point2::new(3, -1)]);
    assert_eq!(m.spawned_chunks(), vec![(3, -1)]);
    assert!(m.contains_chunk(Point2::new(3, -1)));
    assert!(m.is_spawned(Point2::new(3, -1)));
}

#[test]
fn spawning_outside_the_map_fails() {
    let mut m = map(Some(Dimension2::new(4, 4)));
    let err = m.spawn_chunk(Point2::new(2, 0)).unwrap_err();
    assert_eq!(err.kind(), ErrorKind::DimensionError(DimensionError::OutOfBounds(Point2::new(2, 0))));
    assert!(m.spawn_chunk(Point2::new(-2, 1)).is_ok());
    assert!(m.spawn_chunk(Point2::new(1, -3)).is_err());
    assert!(!m.contains_chunk(Point2::new(2, 0)));
    assert_eq!(spawned_events(&m), vec![Point2::new(-2, 1)]);
}

#[test]
fn despawn_keeps_the_data() {
    let mut m = map(None);
    m.spawn_chunk(Point2::new(0, 0)).unwrap();
    m.insert_tile(Tile { point: Point2::new(2, 3), sprite_order: 0, sprite_index: 9, tint: Color::white() }).unwrap();
    assert!(m.despawn_chunk(Point2::new(0, 0)).is_ok());
    assert!(m.despawn_chunk(Point2::new(0, 0)).is_ok());
    assert!(m.despawn_chunk(Point2::new(5, 5)).is_ok());
    assert_eq!(despawned_events(&m), vec![Point2::new(0, 0)]);
    assert!(!m.is_spawned(Point2::new(0, 0)));
    assert!(m.contains_chunk(Point2::new(0, 0)));
    assert_eq!(m.get_tile(Point2::new(2, 3), 0).map(|t| t.index), Some(9));
}

#[test]
fn events_are_kept_for_two_updates() {
    let mut m = map(None);
    m.spawn_chunk(Point2::new(1, 1)).unwrap();
    m.update_events();
    assert_eq!(spawned_events(&m), vec![Point2::new(1, 1)]);
    m.update_events();
    assert!(spawned_events(&m).is_empty());
}

#[test]
fn chunk_points_use_floor_division() {
    let m = map(None);
    assert_eq!(m.point_to_chunk_point(Point2::new(0, 0)), (0, 0));
    assert_eq!(m.point_to_chunk_point(Point2::new(15, 16)), (0, 1));
    assert_eq!(m.point_to_chunk_point(Point2::new(-1, -16)), (-1, -1));
    assert_eq!(m.point_to_chunk_point(Point2::new(-17, 40)), (-2, 2));
    assert_eq!(m.point_to_chunk_point(Point2::new(i32::MIN, i32::MAX)), (-134217728, 134217727));
}

#[test]
fn floor_tile_written_and_read_back() {
    let mut m = map(Some(Dimension2::new(4, 4)));
    let floor = Tile { point: Point2::new(0, 0), sprite_order: 0, sprite_index: 5, tint: Color::white() };
    assert!(m.insert_tile(floor).is_ok());
    assert_eq!(m.get_tile(Point2::new(0, 0), 0), Some(&RawTile { index: 5, color: Color::rgba(255, 255, 255, 255) }));
    assert!(m.get_tile(Point2::new(0, 0), 1).is_none());
    assert!(m.contains_chunk(Point2::new(0, 0)));
    assert!(!m.is_spawned(Point2::new(0, 0)));
}

#[test]
fn tiles_land_in_the_chunk_that_holds_their_point() {
    let mut m = map(None);
    let t = Tile { point: Point2::new(-1, -17), sprite_order: 1, sprite_index: 4, tint: Color::rgba(9, 9, 9, 9) };
    m.insert_tile(t).unwrap();
    let chunk = m.get_chunk(&Point2::new(-1, -2)).unwrap();
    assert_eq!(chunk.get_tile(1, 255).map(|t| t.index), Some(4));
    assert_eq!(m.get_tile(Point2::new(-1, -17), 1).map(|t| t.index), Some(4));
}

#[test]
fn insert_outside_the_map_fails() {
    let mut m = map(Some(Dimension2::new(4, 4)));
    let t = Tile { point: Point2::new(32, 0), sprite_order: 0, sprite_index: 1, tint: Color::white() };
    let err = m.insert_tile(t).unwrap_err();
    assert_eq!(err.kind(), ErrorKind::DimensionError(DimensionError::OutOfBounds(Point2::new(2, 0))));
    let missing_layer = Tile { point: Point2::new(0, 0), sprite_order: 2, sprite_index: 1, tint: Color::white() };
    assert_eq!(m.insert_tile(missing_layer).unwrap_err().kind(), ErrorKind::LayerDoesNotExist(2));
}

#[test]
fn clear_tile_needs_a_chunk() {
    let mut m = map(None);
    assert_eq!(m.clear_tile(Point2::new(0, 0), 0).unwrap_err().kind(), ErrorKind::MissingChunk);
    m.insert_tile(Tile { point: Point2::new(1, 0), sprite_order: 1, sprite_index: 3, tint: Color::white() }).unwrap();
    assert!(m.clear_tile(Point2::new(1, 0), 1).is_ok());
    assert!(m.get_tile(Point2::new(1, 0), 1).is_none());
}

#[test]
fn writes_to_a_drawn_layer_are_reported() {
    let mut m = map(None);
    let e = Entity::from_raw(77);
    assert_eq!(m.set_chunk_entity(Point2::new(0, 0), 0, e).unwrap_err().kind(), ErrorKind::MissingChunk);
    m.spawn_chunk(Point2::new(0, 0)).unwrap();
    assert!(m.set_chunk_entity(Point2::new(0, 0), 0, e).is_ok());
    assert_eq!(m.chunk_entities(Point2::new(0, 0)), vec![e]);
    assert!(m.chunk_entities(Point2::new(4, 4)).is_empty());
    m.insert_tile(Tile { point: Point2::new(3, 3), sprite_order: 0, sprite_index: 2, tint: Color::white() }).unwrap();
    m.insert_tile(Tile { point: Point2::new(3, 3), sprite_order: 1, sprite_index: 2, tint: Color::white() }).unwrap();
    let events = &m.chunk_modified_events().events;
    let mut reader = events.get_reader();
    let modified: Vec<Vec<Entity>> = reader.iter(events).map(|ev| ev.layer.to_vec()).collect();
    assert_eq!(modified, vec![vec![e]]);
}

#[test]
fn streaming_window_and_moving_center() {
    let mut m = map(None);
    auto_spawn(&mut m, Point2::new(0, 0), Dimension2::new(2, 2));
    let first = spawned_events(&m);
    assert_eq!(first.len(), 25);
    let mut expected = Vec::new();
    for x in -2..=2 {
        for y in -2..=2 {
            expected.push((x, y));
        }
    }
    expected.sort();
    assert_eq!(sorted(first.clone()), expected);
    assert!(despawned_events(&m).is_empty());

    auto_spawn(&mut m, Point2::new(16, 0), Dimension2::new(2, 2));
    let new_spawns: Vec<Point2> = spawned_events(&m)[25..].to_vec();
    assert_eq!(sorted(new_spawns), vec![(3, -2), (3, -1), (3, 0), (3, 1), (3, 2)]);
    assert_eq!(sorted(despawned_events(&m)), vec![(-2, -2), (-2, -1), (-2, 0), (-2, 1), (-2, 2)]);
    let mut now: Vec<(i32, i32)> = m.spawned_chunks();
    now.sort();
    let mut window = Vec::new();
    for x in -1..=3 {
        for y in -2..=2 {
            window.push((x, y));
        }
    }
    window.sort();
    assert_eq!(now, window);
    assert!(m.contains_chunk(Point2::new(-2, 0)));
}

#[test]
fn streaming_rows_come_in_order() {
    let mut m = map(None);
    auto_spawn(&mut m, Point2::new(0, 0), Dimension2::new(1, 1));
    let order: Vec<(i32, i32)> = spawned_events(&m).iter().map(|p| (p.x, p.y)).collect();
    assert_eq!(order, vec![(-1, -1), (0, -1), (1, -1), (-1, 0), (0, 0), (1, 0), (-1, 1), (0, 1), (1, 1)]);
}

#[test]
fn streaming_skips_points_outside_the_map() {
    let mut m = map(Some(Dimension2::new(4, 4)));
    auto_spawn(&mut m, Point2::new(16, 16), Dimension2::new(2, 2));
    let mut now = m.spawned_chunks();
    now.sort();
    let mut window = Vec::new();
    for x in -1..=1 {
        for y in -1..=1 {
            window.push((x, y));
        }
    }
    window.sort();
    assert_eq!(now, window);
}

#[test]
fn spawn_radius_rounds_up_and_adds_slack() {
    let m = map(None);
    assert_eq!(m.auto_radius(1280, 1024), Dimension2::new(4, 3));
    assert_eq!(m.auto_radius(0, 1), Dimension2::new(1, 2));
    assert_eq!(spawn_radius(512, 512), 2);
    assert_eq!(spawn_radius(513, 512), 3);
    assert_eq!(spawn_radius(u32::MAX, 1), u32::MAX);
    let mut m = m;
    m.set_auto_spawn(Dimension2::new(4, 3));
    assert_eq!(m.auto_spawn(), Some(Dimension2::new(4, 3)));
}

#[test]
fn error_kind_converts_into_tilemap_error() {
    let e: TilemapError = ErrorKind::MissingChunk.into();
    assert_eq!(e.kind(), ErrorKind::MissingChunk);
    assert_eq!(TilemapError::new(ErrorKind::LayerExists(3)), TilemapError::from(ErrorKind::LayerExists(3)));
}

#[test]
fn insert_chunk_refuses_an_existing_chunk() {
    let mut m = map(Some(Dimension2::new(4, 4)));
    assert!(m.insert_chunk(Point2::new(1, 1)).is_ok());
    assert!(m.contains_chunk(Point2::new(1, 1)));
    assert!(!m.is_spawned(Point2::new(1, 1)));
    let err = m.insert_chunk(Point2::new(1, 1)).unwrap_err();
    assert_eq!(err.kind(), ErrorKind::ChunkAlreadyExists(Point2::new(1, 1)));
    let err = m.insert_chunk(Point2::new(-3, 0)).unwrap_err();
    assert_eq!(err.kind(), ErrorKind::DimensionError(DimensionError::OutOfBounds(Point2::new(-3, 0))));
    assert!(spawned_events(&m).is_empty());
}

#[test]
fn remove_chunk_discards_data_and_despawns() {
    let mut m = map(None);
    m.spawn_chunk(Point2::new(0, 1)).unwrap();
    m.insert_tile(Tile { point: Point2::new(0, 16), sprite_order: 0, sprite_index: 1, tint: Color::white() }).unwrap();
    assert!(m.remove_chunk(Point2::new(0, 1)).is_ok());
    assert!(!m.contains_chunk(Point2::new(0, 1)));
    assert!(!m.is_spawned(Point2::new(0, 1)));
    assert!(m.get_tile(Point2::new(0, 16), 0).is_none());
    assert_eq!(despawned_events(&m), vec![Point2::new(0, 1)]);
    assert_eq!(m.remove_chunk(Point2::new(0, 1)).unwrap_err().kind(), ErrorKind::MissingChunk);
}

#[test]
fn depth_zero_defaults_to_dense() {
    let schedule = vec![None, Some(TileLayer { kind: LayerKind::Sparse, user_data: 7 }), None];
    let mut m = match Tilemap2D::new(
        GridTopology::HexY,
        None,
        Dimension2::new(2, 3),
        Dimension2::new(1, 1),
        Dimension2::new(8, 8),
        schedule,
        Some(Dimension2::new(1, 1)),
    ) {
        Ok(m) => m,
        Err(e) => panic!("tilemap not built: {:?}", e),
    };
    m.insert_chunk(Point2::new(0, 0)).unwrap();
    let chunk = m.get_chunk(&Point2::new(0, 0)).unwrap();
    assert_eq!(chunk.depth_count(), 3);
    assert_eq!(chunk.get_layer(0).unwrap().inner.kind(), LayerKind::Dense);
    assert_eq!(chunk.get_layer(1).unwrap().inner.kind(), LayerKind::Sparse);
    assert!(chunk.get_layer(2).is_none());
    let (indices, _) = chunk.tiles_to_renderer_parts(0, Dimension2::new(2, 3)).unwrap();
    assert_eq!(indices.len(), 6);
}
