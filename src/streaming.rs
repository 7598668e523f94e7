//! Chunk streaming: which chunks are spawned around a viewer, and the spawn
//! radius that a window of a given size needs.

use vstd::prelude::*;
use crate::chunk::is_fresh_chunk;
use crate::event::{
    despawned_current, despawned_held, spawned_current, spawned_held, TilemapChunkDespawned,
    TilemapChunkSpawned,
};
use crate::tilemap::{bounds_contain, chunk_kinds, chunk_point_of, key_of, Tilemap2D};
use crate::types::{Dimension2, Point2};

verus! {

/// `p` lies within `radius` chunks of `center` on both axes and inside the
/// map's dimensions.
pub open spec fn in_window(center: (i32, i32), radius: Dimension2, dimensions: Option<Dimension2>, p: (i32, i32)) -> bool {
    &&& center.0 - radius.width <= p.0 <= center.0 + radius.width
    &&& center.1 - radius.height <= p.1 <= center.1 + radius.height
    &&& bounds_contain(dimensions, Point2 { x: p.0, y: p.1 })
}

/// The chunk points that should be spawned around `center`.
pub open spec fn spawn_window(center: (i32, i32), radius: Dimension2, dimensions: Option<Dimension2>) -> Set<(i32, i32)> {
    Set::new(|p: (i32, i32)| in_window(center, radius, dimensions, p))
}

/// The chunk points that spawn events report, in order.
pub open spec fn spawned_points(s: Seq<TilemapChunkSpawned>) -> Seq<(i32, i32)> {
    s.map_values(|e: TilemapChunkSpawned| key_of(e.point))
}

/// The chunk points that despawn events report, in order.
pub open spec fn despawned_points(s: Seq<TilemapChunkDespawned>) -> Seq<(i32, i32)> {
    s.map_values(|e: TilemapChunkDespawned| key_of(e.point))
}

/// `p` comes before `q` in row-major order: by row (y), then by column (x).
pub open spec fn row_major_before(p: (i32, i32), q: (i32, i32)) -> bool {
    p.1 < q.1 || (p.1 == q.1 && p.0 < q.0)
}

/// The points of `s` are in strictly increasing row-major order.
pub open spec fn in_row_major_order(s: Seq<(i32, i32)>) -> bool {
    forall|a: int, b: int| 0 <= a < b < s.len() ==> row_major_before(s[a], s[b])
}

/// The spawn events sent between `before` and `after`.
pub open spec fn new_spawn_events(before: Tilemap2D, after: Tilemap2D) -> Seq<TilemapChunkSpawned> {
    spawned_held(after.spawn_buffer()).subrange(spawned_held(before.spawn_buffer()).len() as int, spawned_held(after.spawn_buffer()).len() as int)
}

/// The despawn events sent between `before` and `after`.
pub open spec fn new_despawn_events(before: Tilemap2D, after: Tilemap2D) -> Seq<TilemapChunkDespawned> {
    despawned_held(after.despawn_buffer()).subrange(
        despawned_held(before.despawn_buffer()).len() as int,
        despawned_held(after.despawn_buffer()).len() as int,
    )
}

/// From `before` to `after` only spawn events were appended, one for each point
/// of `added`, and no despawn or modification event.
pub open spec fn spawns_appended(before: Tilemap2D, after: Tilemap2D, added: Set<(i32, i32)>) -> bool {
    &&& spawned_held(after.spawn_buffer()).len() >= spawned_held(before.spawn_buffer()).len()
    &&& spawned_held(after.spawn_buffer()).subrange(0, spawned_held(before.spawn_buffer()).len() as int) == spawned_held(before.spawn_buffer())
    &&& spawned_current(after.spawn_buffer()) == spawned_current(before.spawn_buffer()) + new_spawn_events(before, after)
    &&& spawned_points(new_spawn_events(before, after)).to_set() == added
    &&& spawned_points(new_spawn_events(before, after)).no_duplicates()
}

/// From `before` to `after` despawn events were appended, one for each point of `removed`.
pub open spec fn despawns_appended(before: Tilemap2D, after: Tilemap2D, removed: Set<(i32, i32)>) -> bool {
    &&& despawned_held(after.despawn_buffer()).len() >= despawned_held(before.despawn_buffer()).len()
    &&& despawned_held(after.despawn_buffer()).subrange(0, despawned_held(before.despawn_buffer()).len() as int)
        == despawned_held(before.despawn_buffer())
    &&& despawned_current(after.despawn_buffer()) == despawned_current(before.despawn_buffer()) + new_despawn_events(before, after)
    &&& despawned_points(new_despawn_events(before, after)).to_set() == removed
    &&& despawned_points(new_despawn_events(before, after)).no_duplicates()
}

/// Every chunk of `before` is kept as it was; any other chunk of `after` was
/// built fresh, at a point of `built`.
pub open spec fn chunks_kept(before: Tilemap2D, after: Tilemap2D, built: Set<(i32, i32)>) -> bool {
    &&& forall|k: (i32, i32)| #[trigger] before.chunks().contains_key(k) ==> after.chunks().contains_key(k) && after.chunks()[k] == before.chunks()[k]
    &&& forall|k: (i32, i32)| #[trigger] after.chunks().contains_key(k) && !before.chunks().contains_key(k) ==> {
        &&& built.contains(k)
        &&& is_fresh_chunk(after.chunks()[k], Point2 { x: k.0, y: k.1 }, chunk_kinds(before.spec_layers()), before.spec_chunk_dimensions().spec_area())
    }
}

/// `after` is `before` reconciled with the window `w`: exactly the points of `w`
/// are spawned; each point that was spawned and is outside `w` got one despawn
/// event, each point of `w` that was not spawned got one spawn event, in
/// row-major order, and the points spawned both before and after got neither.
/// No tile data was lost.
pub open spec fn reconciled(before: Tilemap2D, after: Tilemap2D, w: Set<(i32, i32)>) -> bool {
    &&& after.wf()
    &&& after.same_config(before)
    &&& after.spawned() == w
    &&& spawns_appended(before, after, w.difference(before.spawned()))
    &&& in_row_major_order(spawned_points(new_spawn_events(before, after)))
    &&& despawns_appended(before, after, before.spawned().difference(w))
    &&& forall|p: (i32, i32)| before.spawned().contains(p) && w.contains(p) ==> {
        &&& !spawned_points(new_spawn_events(before, after)).contains(p)
        &&& !despawned_points(new_despawn_events(before, after)).contains(p)
    }
    &&& after.modify_buffer() == before.modify_buffer()
    &&& chunks_kept(before, after, w)
}

/// The window points visited before `(x, y)` in row-major order.
pub open spec fn visited_before(w: Set<(i32, i32)>, y: int, x: int) -> Set<(i32, i32)> {
    w.filter(|p: (i32, i32)| p.1 < y || (p.1 == y && p.0 < x))
}

/// Spawns the chunks within `spawn_dimensions` chunks of the chunk that holds
/// tile point `tile_point`, row by row, and then despawns every spawned chunk
/// outside that window. Points outside the map's dimensions are skipped.
pub fn auto_spawn(tilemap: &mut Tilemap2D, tile_point: Point2, spawn_dimensions: Dimension2)
    requires
        old(tilemap).wf(),
    ensures
        reconciled(
            *old(tilemap),
            *final(tilemap),
            spawn_window(
                chunk_point_of(tile_point, old(tilemap).spec_chunk_dimensions()),
                spawn_dimensions,
                old(tilemap).spec_dimensions(),
            ),
        ),
{
    let ghost start = *tilemap;
    let ghost s0 = tilemap.spawned();
    let (cx, cy) = tilemap.point_to_chunk_point(tile_point);
    let ghost center = (cx, cy);
    let ghost w = spawn_window(center, spawn_dimensions, start.spec_dimensions());
    let before = tilemap.spawned_chunks();
    let rx = spawn_dimensions.width as i64;
    let ry = spawn_dimensions.height as i64;
    let x_lo: i64 = if cx as i64 - rx < i32::MIN as i64 { i32::MIN as i64 } else { cx as i64 - rx };
    let x_hi: i64 = if cx as i64 + rx > i32::MAX as i64 { i32::MAX as i64 } else { cx as i64 + rx };
    let y_lo: i64 = if cy as i64 - ry < i32::MIN as i64 { i32::MIN as i64 } else { cy as i64 - ry };
    let y_hi: i64 = if cy as i64 + ry > i32::MAX as i64 { i32::MAX as i64 } else { cy as i64 + ry };
    proof {
        assert(spawned_held(start.spawn_buffer()).subrange(0, spawned_held(start.spawn_buffer()).len() as int)
            =~= spawned_held(start.spawn_buffer()));
        assert(spawned_points(new_spawn_events(start, start)) =~= Seq::<(i32, i32)>::empty());
        assert(spawned_points(new_spawn_events(start, start)).to_set() =~= Set::<(i32, i32)>::empty());
        assert(visited_before(w, y_lo as int, x_lo as int) =~= Set::<(i32, i32)>::empty());
        assert(visited_before(w, y_lo as int, x_lo as int).difference(s0) =~= Set::<(i32, i32)>::empty());
        assert(spawned_current(start.spawn_buffer()) + new_spawn_events(start, start) =~= spawned_current(start.spawn_buffer()));
        assert(s0.union(Set::<(i32, i32)>::empty()) =~= s0);
        assert(Set::<(i32, i32)>::empty().difference(s0) =~= Set::<(i32, i32)>::empty());
    }
    let mut y: i64 = y_lo;
    while y <= y_hi
        invariant
            y_lo <= y <= y_hi + 1,
            y_lo == if cy - ry < i32::MIN { i32::MIN as int } else { cy - ry },
            y_hi == if cy + ry > i32::MAX { i32::MAX as int } else { cy + ry },
            x_lo == if cx - rx < i32::MIN { i32::MIN as int } else { cx - rx },
            x_hi == if cx + rx > i32::MAX { i32::MAX as int } else { cx + rx },
            x_lo <= x_hi,
            rx == spawn_dimensions.width,
            ry == spawn_dimensions.height,
            w == spawn_window(center, spawn_dimensions, start.spec_dimensions()),
            center == (cx, cy),
            s0 == start.spawned(),
            tilemap.wf(),
            tilemap.same_config(start),
            tilemap.spawned() == s0.union(visited_before(w, y as int, x_lo as int)),
            spawns_appended(start, *tilemap, visited_before(w, y as int, x_lo as int).difference(s0)),
            in_row_major_order(spawned_points(new_spawn_events(start, *tilemap))),
            tilemap.despawn_buffer() == start.despawn_buffer(),
            tilemap.modify_buffer() == start.modify_buffer(),
            chunks_kept(start, *tilemap, visited_before(w, y as int, x_lo as int)),
        decreases y_hi + 1 - y,
    {
        let mut x: i64 = x_lo;
        proof {
            assert(visited_before(w, y as int, x_lo as int) =~= visited_before(w, y as int, x as int));
        }
        while x <= x_hi
            invariant
                x_lo <= x <= x_hi + 1,
                y_lo <= y <= y_hi,
                y_lo == if cy - ry < i32::MIN { i32::MIN as int } else { cy - ry },
                y_hi == if cy + ry > i32::MAX { i32::MAX as int } else { cy + ry },
                x_lo == if cx - rx < i32::MIN { i32::MIN as int } else { cx - rx },
                x_hi == if cx + rx > i32::MAX { i32::MAX as int } else { cx + rx },
                rx == spawn_dimensions.width,
                ry == spawn_dimensions.height,
                w == spawn_window(center, spawn_dimensions, start.spec_dimensions()),
                center == (cx, cy),
                s0 == start.spawned(),
                tilemap.wf(),
                tilemap.same_config(start),
                tilemap.spawned() == s0.union(visited_before(w, y as int, x as int)),
                spawns_appended(start, *tilemap, visited_before(w, y as int, x as int).difference(s0)),
                in_row_major_order(spawned_points(new_spawn_events(start, *tilemap))),
                tilemap.despawn_buffer() == start.despawn_buffer(),
                tilemap.modify_buffer() == start.modify_buffer(),
                chunks_kept(start, *tilemap, visited_before(w, y as int, x as int)),
            decreases x_hi + 1 - x,
        {
            let p = Point2 { x: x as i32, y: y as i32 };
            let ghost pk = key_of(p);
            let ghost mid = *tilemap;
            let ghost v = visited_before(w, y as int, x as int);
            let ghost v2 = visited_before(w, y as int, x + 1);
            if tilemap.in_bounds(p) {
                let _ = tilemap.spawn_chunk(p);
                proof {
                    assert(w.contains(pk));
                    assert(v2 =~= v.insert(pk));
                    assert(!v.contains(pk));
                    if s0.contains(pk) {
                        assert(v2.difference(s0) =~= v.difference(s0));
                        assert(s0.union(v2) =~= s0.union(v));
                    } else {
                        let before_ev = new_spawn_events(start, mid);
                        let after_ev = new_spawn_events(start, *tilemap);
                        assert(after_ev =~= before_ev.push(TilemapChunkSpawned { point: p }));
                        assert(spawned_points(after_ev) =~= spawned_points(before_ev).push(pk));
                        assert(v2.difference(s0) =~= v.difference(s0).insert(pk));
                        spawned_points(before_ev).lemma_push_to_set_commute(pk);
                        assert(!spawned_points(before_ev).to_set().contains(pk));
                        assert(!spawned_points(before_ev).contains(pk));
                        assert forall|a: int| 0 <= a < spawned_points(before_ev).len()
                            implies row_major_before(#[trigger] spawned_points(before_ev)[a], pk) by {
                            let e = spawned_points(before_ev)[a];
                            assert(spawned_points(before_ev).to_set().contains(e));
                            assert(v.contains(e));
                        }
                        assert(in_row_major_order(spawned_points(after_ev)));
                        assert(s0.union(v2) =~= s0.union(v).insert(pk));
                        assert(spawned_held(tilemap.spawn_buffer()).subrange(0, spawned_held(start.spawn_buffer()).len() as int)
                            =~= spawned_held(start.spawn_buffer()));
                        assert(spawned_current(tilemap.spawn_buffer()) =~= spawned_current(start.spawn_buffer()) + after_ev);
                    }
                }
            } else {
                proof {
                    assert(!w.contains(pk));
                    assert(v2 =~= v);
                }
            }
            x = x + 1;
        }
        proof {
            assert(visited_before(w, y as int, x as int) =~= visited_before(w, y + 1, x_lo as int));
        }
        y = y + 1;
    }
    proof {
        assert(visited_before(w, y as int, x_lo as int) =~= w);
    }
    let ghost mid = *tilemap;
    let mut i: usize = 0;
    proof {
        assert(before@.subrange(0, 0).to_set() =~= Set::<(i32, i32)>::empty());
        assert(despawned_held(mid.despawn_buffer()).subrange(0, despawned_held(start.despawn_buffer()).len() as int)
            =~= despawned_held(start.despawn_buffer()));
        assert(despawned_points(new_despawn_events(start, mid)) =~= Seq::<(i32, i32)>::empty());
        assert(despawned_points(new_despawn_events(start, mid)).to_set() =~= Set::<(i32, i32)>::empty());
        assert(before@.subrange(0, 0).to_set().difference(w) =~= Set::<(i32, i32)>::empty());
        assert(despawned_current(start.despawn_buffer()) + new_despawn_events(start, mid) =~= despawned_current(start.despawn_buffer()));
        assert(s0.union(w).difference(Set::<(i32, i32)>::empty().difference(w)) =~= s0.union(w));
        assert(Set::<(i32, i32)>::empty().difference(w) =~= Set::<(i32, i32)>::empty());
    }
    while i < before.len()
        invariant
            i <= before@.len(),
            before@.to_set() == s0,
            before@.no_duplicates(),
            w == spawn_window(center, spawn_dimensions, start.spec_dimensions()),
            center == (cx, cy),
            rx == spawn_dimensions.width,
            ry == spawn_dimensions.height,
            s0 == start.spawned(),
            tilemap.wf(),
            tilemap.same_config(start),
            tilemap.spawned() == s0.union(w).difference(before@.subrange(0, i as int).to_set().difference(w)),
            despawns_appended(start, *tilemap, before@.subrange(0, i as int).to_set().difference(w)),
            tilemap.spawn_buffer() == mid.spawn_buffer(),
            tilemap.modify_buffer() == start.modify_buffer(),
            tilemap.chunks() == mid.chunks(),
        decreases before@.len() - i,
    {
        let q = before[i];
        let ghost prev = *tilemap;
        let ghost done = before@.subrange(0, i as int).to_set();
        let ghost done2 = before@.subrange(0, i + 1).to_set();
        proof {
            assert(before@.subrange(0, i + 1) =~= before@.subrange(0, i as int).push(q));
            before@.subrange(0, i as int).lemma_push_to_set_commute(q);
            assert(done2 =~= done.insert(q));
            assert(s0.contains(q));
            assert(!done.contains(q)) by {
                if done.contains(q) {
                    let j = choose|j: int| 0 <= j < i && before@[j] == q;
                    assert(before@[j] == before@[i as int]);
                }
            }
        }
        let qp = Point2 { x: q.0, y: q.1 };
        let inside = cx as i64 - rx <= q.0 as i64 && q.0 as i64 <= cx as i64 + rx
            && cy as i64 - ry <= q.1 as i64 && q.1 as i64 <= cy as i64 + ry && tilemap.in_bounds(qp);
        if !inside {
            let _ = tilemap.despawn_chunk(qp);
            proof {
                assert(!w.contains(q));
                assert(done2.difference(w) =~= done.difference(w).insert(q));
                assert(tilemap.spawned() =~= s0.union(w).difference(done2.difference(w)));
                let before_ev = new_despawn_events(start, prev);
                let after_ev = new_despawn_events(start, *tilemap);
                assert(after_ev =~= before_ev.push(TilemapChunkDespawned { point: qp }));
                assert(despawned_points(after_ev) =~= despawned_points(before_ev).push(q));
                despawned_points(before_ev).lemma_push_to_set_commute(q);
                assert(!despawned_points(before_ev).to_set().contains(q));
                assert(!despawned_points(before_ev).contains(q));
                assert(despawned_held(tilemap.despawn_buffer()).subrange(0, despawned_held(start.despawn_buffer()).len() as int)
                    =~= despawned_held(start.despawn_buffer()));
                assert(despawned_current(tilemap.despawn_buffer()) =~= despawned_current(start.despawn_buffer()) + after_ev);
            }
        } else {
            proof {
                assert(w.contains(q));
                assert(done2.difference(w) =~= done.difference(w));
            }
        }
        i = i + 1;
    }
    proof {
        assert(before@.subrange(0, before@.len() as int) =~= before@);
        assert(s0.union(w).difference(s0.difference(w)) =~= w);
        assert forall|p: (i32, i32)| s0.contains(p) && w.contains(p) implies {
            &&& !spawned_points(new_spawn_events(start, *tilemap)).contains(p)
            &&& !despawned_points(new_despawn_events(start, *tilemap)).contains(p)
        } by {
            assert(!w.difference(s0).contains(p));
            assert(!s0.difference(w).contains(p));
        }
        assert(new_spawn_events(start, *tilemap) == new_spawn_events(start, mid));
    }
}

} // verus!
