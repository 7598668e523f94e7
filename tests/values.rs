use bevy_tilemap::tile::{RawTile, Tile};
use bevy_tilemap::types::{Color, Dimension2, Point2};

#[test]
fn defaults_are_white() {
    let t = Tile::default();
    assert_eq!(t.point, Point2::new(0, 0));
    assert_eq!(t.sprite_order, 0);
    assert_eq!(t.sprite_index, 0);
    assert_eq!(t.tint, Color::white());
    let r = RawTile::default();
    assert_eq!(r.index(), 0);
    assert_eq!(r.color(), Color::rgba(255, 255, 255, 255));
}

#[test]
fn area_is_width_times_height() {
    assert_eq!(Dimension2::new(16, 16).area(), 256);
    assert_eq!(Dimension2::new(0, 9).area(), 0);
    assert_eq!(Dimension2::new(u32::MAX, u32::MAX).area(), (u32::MAX as u64) * (u32::MAX as u64));
}

#[test]
fn transparent_has_zero_alpha() {
    assert_eq!(Color::transparent(), Color::rgba(0, 0, 0, 0));
}
