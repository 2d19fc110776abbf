use mine64::block::Block;
use mine64::block::BlockKind;
use mine64::chunk::BlockGrid;
use mine64::chunk::ChunkCoord;
use mine64::chunk::ChunkState;
use mine64::scheduler::GenerationScheduler;
use mine64::world::World;
use mine64::world_generator::GeneratorConfig;
use mine64::world_generator::WorldGenerator;

fn flat_generator() -> WorldGenerator {
    // amplitude 1 makes the terrain a flat slab of height 4 everywhere
    WorldGenerator::new(GeneratorConfig::new(0, 4, 1).unwrap())
}

#[test]
fn a_new_world_holds_exactly_the_active_cube() {
    let w = World::new(ChunkCoord::new(0, 0, 0));
    assert_eq!(w.chunks.len(), 125);
    let home = w.get_chunk(ChunkCoord::new(0, 0, 0)).unwrap();
    assert_eq!(home.state, ChunkState::Requested);
    assert!(w.get_chunk(ChunkCoord::new(2, -2, 1)).is_some());
    assert!(w.get_chunk(ChunkCoord::new(3, 0, 0)).is_none());
}

#[test]
fn a_small_focal_move_keeps_the_margin_band() {
    let mut w = World::new(ChunkCoord::new(0, 0, 0));
    w.update_focal_point(ChunkCoord::new(1, 0, 0));
    // every old coordinate is still within distance 3 of the new focal
    // point, and the new active plane at x == 3 was requested
    assert_eq!(w.chunks.len(), 150);
    assert!(w.get_chunk(ChunkCoord::new(-2, 0, 0)).is_some());
    assert!(w.get_chunk(ChunkCoord::new(3, 2, -2)).is_some());
}

#[test]
fn a_far_focal_move_destroys_everything_out_of_range() {
    let mut w = World::new(ChunkCoord::new(0, 0, 0));
    w.update_focal_point(ChunkCoord::new(10, 10, 10));
    assert_eq!(w.chunks.len(), 125);
    assert!(w.get_chunk(ChunkCoord::new(0, 0, 0)).is_none());
    assert!(w.get_chunk(ChunkCoord::new(10, 10, 10)).is_some());
    for ch in &w.chunks {
        assert!((ch.coord.x - 10).abs() <= 2);
        assert!((ch.coord.y - 10).abs() <= 2);
        assert!((ch.coord.z - 10).abs() <= 2);
    }
}

#[test]
fn generation_meshing_and_mutation_walk_the_lifecycle() {
    let mut w = World::new(ChunkCoord::new(0, 0, 0));
    let home = ChunkCoord::new(0, 0, 0);
    let generator = flat_generator();

    assert!(w.integrate_generated(home, generator.generate(home)));
    assert_eq!(w.get_chunk(home).unwrap().state, ChunkState::Generated);

    assert!(w.mesh_chunk(home).is_some());
    let ch = w.get_chunk(home).unwrap();
    assert_eq!(ch.state, ChunkState::Active);
    let m = ch.mesh.as_ref().unwrap();
    // a flat slab with all six neighbors ungenerated shows only its top
    assert_eq!(m.triangle_count(), 512);

    // re-requesting meshing on an Active chunk is a no-op
    assert!(w.mesh_chunk(home).is_none());

    // mutating a block drops the surface and marks the chunk dirty
    assert!(w.set_block(home, 8, 3, 8, BlockKind::Air));
    let ch = w.get_chunk(home).unwrap();
    assert_eq!(ch.state, ChunkState::Generated);
    assert!(ch.dirty);
    assert!(ch.mesh.is_none());

    // re-meshing exposes the walls of the little pit that was dug
    assert!(w.mesh_chunk(home).is_some());
    let m = w.get_chunk(home).unwrap().mesh.as_ref().unwrap();
    // one top quad gone, one pit floor and four pit walls appeared
    assert_eq!(m.triangle_count(), 512 - 2 + 2 + 8);
}

#[test]
fn a_chunk_is_meshed_again_when_a_neighbor_arrives() {
    let mut w = World::new(ChunkCoord::new(0, 0, 0));
    let home = ChunkCoord::new(0, 0, 0);
    let east = ChunkCoord::new(1, 0, 0);
    let generator = flat_generator();

    assert!(w.integrate_generated(home, generator.generate(home)));
    assert!(w.mesh_chunk(home).is_some());
    // the +x boundary is treated as solid while the neighbor is unknown
    let before = w.get_chunk(home).unwrap().mesh.as_ref().unwrap().triangle_count();
    assert_eq!(before, 512);

    // the eastern neighbor turns out to be all air
    assert!(w.integrate_generated(east, BlockGrid::filled(Block::air())));
    // force a re-mesh of the home chunk (rewriting one block as itself)
    assert!(w.set_block(home, 0, 0, 0, BlockKind::Stone));
    assert!(w.mesh_chunk(home).is_some());
    let after = w.get_chunk(home).unwrap().mesh.as_ref().unwrap().triangle_count();
    // the 16x4 eastern wall of the slab is now exposed
    assert_eq!(after, 512 + 2 * 64);
}

#[test]
fn boundary_faces_follow_the_neighbor_chunk() {
    let mut w = World::new(ChunkCoord::new(0, 0, 0));
    let home = ChunkCoord::new(0, 0, 0);
    let east = ChunkCoord::new(1, 0, 0);
    let generator = flat_generator();
    assert!(w.integrate_generated(home, generator.generate(home)));
    assert!(w.integrate_generated(east, generator.generate(east)));
    // dig a hole into the east chunk's western wall, then mesh the home
    // chunk: exactly the face toward the hole is exposed, every other
    // face of the shared wall stays culled against the solid neighbor
    assert!(w.set_block(east, 0, 2, 8, BlockKind::Air));
    assert!(w.mesh_chunk(home).is_some());
    let m = w.get_chunk(home).unwrap().mesh.as_ref().unwrap();
    assert_eq!(m.triangle_count(), 512 + 2);
}

#[test]
fn requests_are_idempotent() {
    let mut s = GenerationScheduler::new();
    let c = ChunkCoord::new(1, 2, 3);
    s.request(c);
    s.request(c);
    assert_eq!(s.pending.len(), 1);
    let job = s.next_job().unwrap();
    assert_eq!((job.x, job.y, job.z), (1, 2, 3));
    // still tracked while in flight: a re-request stays a no-op
    s.request(c);
    assert_eq!(s.pending.len(), 0);
    assert!(s.next_job().is_none());
}

#[test]
fn jobs_come_out_in_request_order() {
    let mut s = GenerationScheduler::new();
    s.request(ChunkCoord::new(0, 0, 0));
    s.request(ChunkCoord::new(1, 0, 0));
    s.request(ChunkCoord::new(2, 0, 0));
    assert_eq!(s.next_job().unwrap().x, 0);
    assert_eq!(s.next_job().unwrap().x, 1);
    assert_eq!(s.next_job().unwrap().x, 2);
}

#[test]
fn results_flow_only_for_in_flight_coordinates() {
    let mut s = GenerationScheduler::new();
    let c = ChunkCoord::new(4, 0, 0);
    let grid = BlockGrid::filled(Block::air());
    // a result nobody asked for is dropped
    assert!(!s.complete(c, BlockGrid::filled(Block::air())));
    s.request(c);
    assert!(!s.complete(c, BlockGrid::filled(Block::air())));
    let job = s.next_job().unwrap();
    assert!(s.complete(job, grid));
    let done = s.poll_completed();
    assert_eq!(done.len(), 1);
    assert_eq!((done[0].coord.x, done[0].coord.y, done[0].coord.z), (4, 0, 0));
    // drained once per frame: nothing is left afterwards
    assert!(s.poll_completed().is_empty());
}

#[test]
fn no_result_is_delivered_after_shutdown() {
    let mut s = GenerationScheduler::new();
    s.request(ChunkCoord::new(0, 0, 0));
    s.request(ChunkCoord::new(1, 0, 0));
    let job = s.next_job().unwrap();
    s.shutdown();
    // pending work was cancelled, new requests are refused
    assert_eq!(s.pending.len(), 0);
    s.request(ChunkCoord::new(5, 5, 5));
    assert_eq!(s.pending.len(), 0);
    // the in-flight worker's result is dropped
    assert!(!s.complete(job, BlockGrid::filled(Block::air())));
    assert!(s.poll_completed().is_empty());
}
