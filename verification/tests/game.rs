use lemon_colonies_client::game::object_place::{placement_step, PlacementSend, PlacementStep};
use lemon_colonies_client::game::object_action::ObjectActionMode as ActionMode;
use lemon_colonies_client::game::object_place::ObjectActionMode as PlaceMode;
use lemon_colonies_client::game::world::{
    contains_chunk, leaves_territory, outline_edges, retains_chunk, ChunkCoords, ChunkRect,
    OutlineEdges, WorldDrawSettings,
};
use lemon_colonies_client::settings::default_true;

fn c(x: i32, y: i32) -> ChunkCoords {
    ChunkCoords::new(x, y)
}

#[test]
fn outline_of_a_two_chunk_territory() {
    let owned = vec![c(0, 0), c(1, 0)];
    assert_eq!(
        outline_edges(&owned, c(0, 0)),
        OutlineEdges { top: true, bottom: true, left: true, right: false }
    );
    assert_eq!(
        outline_edges(&owned, c(1, 0)),
        OutlineEdges { top: true, bottom: true, left: false, right: true }
    );
    let square = vec![c(0, 0), c(1, 0), c(0, 1), c(1, 1)];
    assert_eq!(
        outline_edges(&square, c(1, 1)),
        OutlineEdges { top: false, bottom: true, left: false, right: true }
    );
}

#[test]
fn membership() {
    assert!(contains_chunk(&[c(3, -4)], c(3, -4)));
    assert!(!contains_chunk(&[c(3, -4)], c(-4, 3)));
    assert!(!contains_chunk(&[], c(0, 0)));
}

#[test]
fn retained_chunks_lie_within_the_padding() {
    let rect = ChunkRect { min: c(-2, -2), max: c(3, 3) };
    assert!(retains_chunk(c(0, 0), rect));
    assert!(retains_chunk(c(-22, 23), rect));
    assert!(!retains_chunk(c(-23, 0), rect));
    assert!(!retains_chunk(c(0, 24), rect));
}

#[test]
fn placement_range_and_territory() {
    let owned = vec![c(0, 0), c(1, 0)];
    assert!(!leaves_territory(&owned, ChunkRect { min: c(0, 0), max: c(1, 0) }));
    assert!(leaves_territory(&owned, ChunkRect { min: c(0, 0), max: c(1, 1) }));
    assert!(leaves_territory(&owned, ChunkRect { min: c(-1, 0), max: c(0, 0) }));
    assert!(!leaves_territory(&[], ChunkRect { min: c(1, 0), max: c(0, 0) }));
    let edge = vec![c(i32::MAX, i32::MAX)];
    assert!(!leaves_territory(&edge, ChunkRect { min: c(i32::MAX, i32::MAX), max: c(i32::MAX, i32::MAX) }));
}

#[test]
fn small_types() {
    assert!(default_true());
    assert_eq!(ActionMode::Place, ActionMode::Place);
    assert_eq!(PlaceMode::Place, PlaceMode::Place);
    let s = WorldDrawSettings { chunk_borders: true, object_collisions: false };
    assert!(s.chunk_borders && !s.object_collisions);
}

#[test]
fn placement_decisions() {
    let none = PlacementStep { send: None, finish: false };
    assert_eq!(placement_step(true, true, true, false, false), none);
    assert_eq!(placement_step(false, false, true, false, false), none);
    assert_eq!(placement_step(false, true, false, true, false), none);
    assert_eq!(
        placement_step(false, true, true, false, true),
        PlacementStep { send: Some(PlacementSend::Place), finish: false }
    );
    assert_eq!(
        placement_step(false, true, true, true, true),
        PlacementStep { send: Some(PlacementSend::Purchase), finish: false }
    );
    assert_eq!(
        placement_step(false, true, true, true, false),
        PlacementStep { send: Some(PlacementSend::Purchase), finish: true }
    );
    assert_eq!(
        placement_step(false, true, true, false, false),
        PlacementStep { send: Some(PlacementSend::Place), finish: true }
    );
}
