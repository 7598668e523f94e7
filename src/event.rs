//! The events that a tilemap emits, and the event buffers that hold them.
//!
//! A buffer is a `bevy_ecs` `Events`: it keeps what was sent since the
//! previous update and during the update before that, and each reader keeps
//! its own cursor. `held` names everything a new reader would see, `current`
//! what was sent since the last update.

use vstd::prelude::*;
use bevy_ecs::event::Events;
use crate::store::EntitySet;
use crate::types::Point2;

verus! {

/// The buffer of spawn events. Readers use `events` with bevy's readers.
#[verifier::external_body]
pub struct SpawnedEvents {
    pub events: Events<TilemapChunkSpawned>,
}

/// The buffer of modification events. Readers use `events` with bevy's readers.
#[verifier::external_body]
pub struct ModifiedEvents {
    pub events: Events<TilemapChunkModified>,
}

/// The buffer of despawn events. Readers use `events` with bevy's readers.
#[verifier::external_body]
pub struct DespawnedEvents {
    pub events: Events<TilemapChunkDespawned>,
}

/// A chunk became spawned.
#[derive(Clone, Copy, Debug, PartialEq, Eq, Structural)]
pub struct TilemapChunkSpawned {
    pub point: Point2,
}

/// Tiles of the layers drawn by these render entities changed.
pub struct TilemapChunkModified {
    pub layer: EntitySet,
}

/// A chunk stopped being spawned.
#[derive(Clone, Copy, Debug, PartialEq, Eq, Structural)]
pub struct TilemapChunkDespawned {
    pub point: Point2,
}

/// Spawn events that a reader created now would see, oldest first.
pub uninterp spec fn spawned_held(e: SpawnedEvents) -> Seq<TilemapChunkSpawned>;

/// Spawn events sent since the last update.
pub uninterp spec fn spawned_current(e: SpawnedEvents) -> Seq<TilemapChunkSpawned>;

/// Modification events that a reader created now would see, oldest first.
pub uninterp spec fn modified_held(e: ModifiedEvents) -> Seq<TilemapChunkModified>;

/// Modification events sent since the last update.
pub uninterp spec fn modified_current(e: ModifiedEvents) -> Seq<TilemapChunkModified>;

/// Despawn events that a reader created now would see, oldest first.
pub uninterp spec fn despawned_held(e: DespawnedEvents) -> Seq<TilemapChunkDespawned>;

/// Despawn events sent since the last update.
pub uninterp spec fn despawned_current(e: DespawnedEvents) -> Seq<TilemapChunkDespawned>;

/// Relies on `Events::default`: both buffers start empty.
#[verifier::external_body]
pub(crate) fn new_spawned_events() -> (r: SpawnedEvents)
    ensures
        spawned_held(r) == Seq::<TilemapChunkSpawned>::empty(),
        spawned_current(r) == Seq::<TilemapChunkSpawned>::empty(),
{
    SpawnedEvents { events: Events::default() }
}

/// Relies on `Events::send`: the event is appended to the newer buffer.
#[verifier::external_body]
pub(crate) fn send_spawned(events: &mut SpawnedEvents, event: TilemapChunkSpawned)
    ensures
        spawned_held(*final(events)) == spawned_held(*old(events)).push(event),
        spawned_current(*final(events)) == spawned_current(*old(events)).push(event),
{
    events.events.send(event);
}

/// Relies on `Events::update`: the older buffer is dropped and the newer one becomes the older.
#[verifier::external_body]
pub(crate) fn update_spawned(events: &mut SpawnedEvents)
    ensures
        spawned_held(*final(events)) == spawned_current(*old(events)),
        spawned_current(*final(events)) == Seq::<TilemapChunkSpawned>::empty(),
{
    events.events.update();
}

/// Relies on `Events::default`: both buffers start empty.
#[verifier::external_body]
pub(crate) fn new_modified_events() -> (r: ModifiedEvents)
    ensures
        modified_held(r) == Seq::<TilemapChunkModified>::empty(),
        modified_current(r) == Seq::<TilemapChunkModified>::empty(),
{
    ModifiedEvents { events: Events::default() }
}

/// Relies on `Events::send`: the event is appended to the newer buffer.
#[verifier::external_body]
pub(crate) fn send_modified(events: &mut ModifiedEvents, event: TilemapChunkModified)
    ensures
        modified_held(*final(events)) == modified_held(*old(events)).push(event),
        modified_current(*final(events)) == modified_current(*old(events)).push(event),
{
    events.events.send(event);
}

/// Relies on `Events::update`: the older buffer is dropped and the newer one becomes the older.
#[verifier::external_body]
pub(crate) fn update_modified(events: &mut ModifiedEvents)
    ensures
        modified_held(*final(events)) == modified_current(*old(events)),
        modified_current(*final(events)) == Seq::<TilemapChunkModified>::empty(),
{
    events.events.update();
}

/// Relies on `Events::default`: both buffers start empty.
#[verifier::external_body]
pub(crate) fn new_despawned_events() -> (r: DespawnedEvents)
    ensures
        despawned_held(r) == Seq::<TilemapChunkDespawned>::empty(),
        despawned_current(r) == Seq::<TilemapChunkDespawned>::empty(),
{
    DespawnedEvents { events: Events::default() }
}

/// Relies on `Events::send`: the event is appended to the newer buffer.
#[verifier::external_body]
pub(crate) fn send_despawned(events: &mut DespawnedEvents, event: TilemapChunkDespawned)
    ensures
        despawned_held(*final(events)) == despawned_held(*old(events)).push(event),
        despawned_current(*final(events)) == despawned_current(*old(events)).push(event),
{
    events.events.send(event);
}

/// Relies on `Events::update`: the older buffer is dropped and the newer one becomes the older.
#[verifier::external_body]
pub(crate) fn update_despawned(events: &mut DespawnedEvents)
    ensures
        despawned_held(*final(events)) == despawned_current(*old(events)),
        despawned_current(*final(events)) == Seq::<TilemapChunkDespawned>::empty(),
{
    events.events.update();
}

} // verus!
