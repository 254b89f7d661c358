use std::time::Duration;
use voxl::entities::game_mode::{GameMode, Name};
use voxl::game::{DEFAULT_SELECTED_BLOCK, next_block_id, previous_block_id, build_title_string, client_title_string};
use voxl::networking::framing::{frame_header, read_frame_length, MAX_PACKET_LEN};
use voxl::networking::session::{ConnectionEvent, ConnectionState, EmbeddedServer, Session};
use voxl::performance::{PerformanceCollector, RollingStats, FrameTiming};
use voxl::renderer::queue::{ChunkGenRequest, MeshPriority, MeshRequest, generation_result};
use voxl::renderer::state::{BlockPosition, ChunkBorderMode, HighlightTarget, schedule_ticks, TICK_NANOS};
use voxl::voxel::face::VoxelFace;
use voxl::raycast::{Axis, adjacent_position};
use voxl::renderer::atlas::{atlas_grid_size, compose_atlas, missing_texture, normalize_texture};

#[test]
fn game_modes() {
    let mut m = GameMode::default();
    assert_eq!(m, GameMode::Creative { fly_enabled: true });
    assert!(m.is_flying());
    assert!(m.has_collisions());
    assert_eq!(m.name(), "Créatif (Vol)");
    m.toggle_fly();
    assert!(!m.is_flying());
    assert_eq!(m.name(), "Créatif");
    m.set_fly(true);
    assert!(m.is_flying());
    let mut s = GameMode::Spectator;
    s.toggle_fly();
    s.set_fly(false);
    assert_eq!(s, GameMode::Spectator);
    assert!(s.is_flying());
    assert!(!s.has_collisions());
    assert_eq!(s.name(), "Spectateur");
    assert_eq!(Name::new("player").0, "player");
}

#[test]
fn block_selection_cycles_past_air() {
    assert_eq!(DEFAULT_SELECTED_BLOCK, 3);
    assert_eq!(next_block_id(3, 5), 4);
    assert_eq!(next_block_id(4, 5), 1);
    assert_eq!(previous_block_id(1, 5), 4);
    assert_eq!(previous_block_id(3, 5), 2);
    assert_eq!(next_block_id(0, 1), 1);
    assert_eq!(previous_block_id(1, 1), 0);
    assert!(build_title_string().starts_with("Voxl Reborn | ZQSD/WASD: Move"));
    assert_eq!(client_title_string(), "Voxl Reborn");
}

#[test]
fn border_modes_cycle() {
    let m = ChunkBorderMode::Disabled;
    assert_eq!(m.next(), ChunkBorderMode::ChunkBorders);
    assert_eq!(m.next().next(), ChunkBorderMode::FullGrid);
    assert_eq!(m.next().next().next(), m);
    assert_eq!(ChunkBorderMode::FullGrid.as_str(), "grille complète");
    assert_eq!(BlockPosition::new(1, 2, 3), BlockPosition { x: 1, y: 2, z: 3 });
    assert_eq!(HighlightTarget::new(1, 2, 3, VoxelFace::Top).face, VoxelFace::Top);
}

#[test]
fn tick_scheduling() {
    assert_eq!(TICK_NANOS, 100_000_000);
    assert_eq!(schedule_ticks(0, 50_000_000), (0, 50_000_000));
    assert_eq!(schedule_ticks(50_000_000, 60_000_000), (1, 10_000_000));
    assert_eq!(schedule_ticks(0, 1_000_000_000), (3, 700_000_000));
    assert_eq!(schedule_ticks(u64::MAX, 5), (3, u64::MAX - 300_000_000));
}

#[test]
fn packet_framing() {
    assert_eq!(frame_header(0x0102_0304), [1, 2, 3, 4]);
    assert_eq!(frame_header(5), [0, 0, 0, 5]);
    assert_eq!(read_frame_length([0, 0, 1, 0]), Ok(256));
    assert_eq!(read_frame_length(frame_header(MAX_PACKET_LEN)), Ok(MAX_PACKET_LEN));
    assert_eq!(read_frame_length(frame_header(MAX_PACKET_LEN + 1)), Err("Packet too large".to_string()));
}

#[test]
fn session_follows_events() {
    let mut s = Session::new();
    assert_eq!(*s.connection_state(), ConnectionState::Disconnected);
    s.begin_connecting();
    assert_eq!(*s.connection_state(), ConnectionState::Connecting);
    assert_eq!(s.check_send(true, false), Ok(false));
    assert_eq!(s.check_send(true, true), Err("Not connected to server".to_string()));
    s.apply_event(&ConnectionEvent::Connected { player_id: 7 });
    assert!(s.is_connected());
    assert_eq!(s.player_id(), Some(7));
    assert_eq!(s.check_send(true, true), Ok(true));
    assert_eq!(s.check_send(false, false), Err("Network task not running".to_string()));
    s.apply_event(&ConnectionEvent::Other);
    assert!(s.is_connected());
    s.apply_event(&ConnectionEvent::ConnectionFailed { reason: "timeout".to_string() });
    assert_eq!(*s.connection_state(), ConnectionState::Failed("timeout".to_string()));
    assert_eq!(s.player_id(), Some(7));
    s.apply_event(&ConnectionEvent::Disconnected);
    assert_eq!(s.player_id(), None);
    s.fail("no server".to_string());
    s.disconnect();
    assert_eq!(*s.connection_state(), ConnectionState::Disconnected);
    EmbeddedServer { actual_port: 4000 }.stop();
}

#[test]
fn rolling_statistics() {
    let mut s = RollingStats::default();
    assert_eq!(s.min, Duration::MAX);
    s.update(Duration::from_nanos(100));
    s.update(Duration::from_nanos(300));
    s.update(Duration::from_nanos(200));
    assert_eq!(s.samples, 3);
    assert_eq!(s.min, Duration::from_nanos(100));
    assert_eq!(s.max, Duration::from_nanos(300));
    assert_eq!(s.avg, Duration::from_nanos(200));
    let mut t = RollingStats::new();
    t.update(Duration::from_nanos(10));
    t.update(Duration::from_nanos(15));
    // The running average truncates: (10 * 1 + 15) / 2.
    assert_eq!(t.avg, Duration::from_nanos(12));
    let f = FrameTiming::default();
    assert_eq!(f.cpu_time, Duration::ZERO);
}

#[test]
fn performance_collector() {
    let mut c = PerformanceCollector::new();
    c.end_frame(Duration::from_millis(5));
    assert!(c.frame_times().is_empty());
    for i in 0..65u64 {
        c.begin_frame();
        c.record_system_time("physics", Duration::from_micros(i + 1));
        c.record_cpu_time(Duration::from_micros(100));
        c.record_gpu_time(Duration::from_micros(50));
        c.record_mesh_processing_time(Duration::from_micros(1));
        c.end_frame(Duration::from_millis(i + 1));
    }
    assert_eq!(c.frame_times().len(), 60);
    assert_eq!(c.frame_times()[0], Duration::from_millis(6));
    assert_eq!(c.frame_stats().samples, 65);
    assert_eq!(c.system_timings().len(), 1);
    assert_eq!(c.system_timings()[0].0, "physics");
    assert_eq!(c.system_timings()[0].1.max, Duration::from_micros(65));
}

#[test]
fn queue_requests() {
    assert!(MeshPriority::Modified.is_more_urgent_than(MeshPriority::New));
    assert!(!MeshPriority::New.is_more_urgent_than(MeshPriority::Modified));
    let m = MeshRequest { cx: 1, cy: 2, cz: 3, priority: MeshPriority::New };
    assert_eq!(m.priority, MeshPriority::New);
    let req = ChunkGenRequest { cx: 1, cy: 0, cz: -1, priority: 0 };
    let r = generation_result(req, true, None, true);
    assert!(r.already_exists && r.voxels.is_none());
    let r = generation_result(req, false, Some((Box::new([0u16; 4096]), vec![0])), false);
    assert!(!r.already_exists);
    assert_eq!(r.palette, Some(vec![0]));
    let r = generation_result(req, false, Some((Box::new([0u16; 4096]), vec![0])), true);
    assert!(r.already_exists && r.palette.is_none());
}

#[test]
fn placing_goes_to_the_cell_across_the_face() {
    assert_eq!(adjacent_position((4, 5, 6), VoxelFace::Top), (4, 6, 6));
    assert_eq!(adjacent_position((4, 5, 6), VoxelFace::West), (3, 5, 6));
    assert_eq!(adjacent_position((-1, 0, 0), VoxelFace::South), (-1, 0, -1));
    assert_eq!(Axis::ALL, [Axis::X, Axis::Y, Axis::Z]);
}

#[test]
fn atlas_grid_is_the_smallest_square() {
    assert_eq!(atlas_grid_size(0), 0);
    assert_eq!(atlas_grid_size(1), 1);
    assert_eq!(atlas_grid_size(2), 2);
    assert_eq!(atlas_grid_size(4), 2);
    assert_eq!(atlas_grid_size(5), 3);
    assert_eq!(atlas_grid_size(9), 3);
    assert_eq!(atlas_grid_size(10), 4);
    assert_eq!(atlas_grid_size(u32::MAX), 65536);
}

#[test]
fn missing_textures_are_magenta() {
    let px = missing_texture(2);
    assert_eq!(px, vec![255, 0, 255, 255, 255, 0, 255, 255, 255, 0, 255, 255, 255, 0, 255, 255]);
}

#[test]
fn atlas_lays_textures_out_row_by_row() {
    // Three 1x1 textures in a 2x2 grid: the last cell stays zero.
    let images = vec![vec![1, 2, 3, 4], vec![5, 6, 7, 8], vec![9, 10, 11, 12]];
    let atlas = compose_atlas(&images, 2, 1);
    assert_eq!(atlas, vec![1, 2, 3, 4, 5, 6, 7, 8, 9, 10, 11, 12, 0, 0, 0, 0]);
    // Two 2x2 textures in a 2x2 grid of side 4.
    let a: Vec<u8> = (0..16).collect();
    let b: Vec<u8> = (100..116).collect();
    let atlas = compose_atlas(&vec![a, b], 2, 2);
    assert_eq!(atlas.len(), 4 * 4 * 4);
    // pixel (3, 1) is pixel (1, 1) of the second texture
    assert_eq!(&atlas[(1 * 4 + 3) * 4..(1 * 4 + 3) * 4 + 4], &[112, 113, 114, 115]);
    // pixel (0, 1) is pixel (0, 1) of the first texture
    assert_eq!(&atlas[(1 * 4 + 0) * 4..(1 * 4 + 0) * 4 + 4], &[8, 9, 10, 11]);
    // row 2 and below are empty cells
    assert!(atlas[2 * 4 * 4..].iter().all(|&v| v == 0));
}

#[test]
fn textures_are_scaled_to_the_cell_size() {
    let same = normalize_texture(vec![1, 2, 3, 4], 1, 1, 1);
    assert_eq!(same, vec![1, 2, 3, 4]);
    // A 1x1 texture scaled up to 2x2 repeats its pixel.
    let up = normalize_texture(vec![9, 8, 7, 6], 1, 1, 2);
    assert_eq!(up, vec![9, 8, 7, 6, 9, 8, 7, 6, 9, 8, 7, 6, 9, 8, 7, 6]);
    // A 2x2 texture scaled down to 1x1 keeps one of its pixels.
    let down = normalize_texture(vec![5, 5, 5, 255, 5, 5, 5, 255, 5, 5, 5, 255, 5, 5, 5, 255], 2, 2, 1);
    assert_eq!(down, vec![5, 5, 5, 255]);
}

#[test]
fn try_record_system_time_refuses_an_overflowing_frame() {
    let mut c = PerformanceCollector::new();
    c.begin_frame();
    assert!(c.try_record_system_time("physics", Duration::from_millis(2)));
    assert_eq!(c.system_timings().len(), 1);
    assert_eq!(c.system_timings()[0].1.samples, 1);
    assert!(c.try_record_system_time("render", Duration::from_millis(1)));
    assert_eq!(c.system_timings().len(), 2);
    // The frame's ECS time would pass Duration::MAX: nothing is recorded.
    assert!(!c.try_record_system_time("physics", Duration::MAX));
    assert_eq!(c.system_timings()[0].1.samples, 1);
    assert_eq!(c.system_timings().len(), 2);
}
