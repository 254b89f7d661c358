use vstd::prelude::*;
use crate::voxel::face::VoxelFace;

verus! {

/// How chunk borders are drawn.
#[derive(Clone, Copy, PartialEq, Eq, Debug, Structural)]
pub enum ChunkBorderMode {
    Disabled,
    /// Lines between chunks only.
    ChunkBorders,
    /// Lines between chunks and the 16x16 grid.
    FullGrid,
}

/// The mode after a press of the toggle key: off, borders, full grid, off.
pub open spec fn next_border_mode(m: ChunkBorderMode) -> ChunkBorderMode {
    match m {
        ChunkBorderMode::Disabled => ChunkBorderMode::ChunkBorders,
        ChunkBorderMode::ChunkBorders => ChunkBorderMode::FullGrid,
        ChunkBorderMode::FullGrid => ChunkBorderMode::Disabled,
    }
}

impl ChunkBorderMode {
    /// The next mode (see `next_border_mode`).
    pub fn next(self) -> (m: ChunkBorderMode)
        ensures
            m == next_border_mode(self),
    {
        match self {
            ChunkBorderMode::Disabled => ChunkBorderMode::ChunkBorders,
            ChunkBorderMode::ChunkBorders => ChunkBorderMode::FullGrid,
            ChunkBorderMode::FullGrid => ChunkBorderMode::Disabled,
        }
    }

    /// The mode's name as shown to the player.
    pub fn as_str(&self) -> (s: &'static str)
        ensures
            s@ == match *self {
                ChunkBorderMode::Disabled => "désactivé"@,
                ChunkBorderMode::ChunkBorders => "bordures de chunks"@,
                ChunkBorderMode::FullGrid => "grille complète"@,
            },
    {
        match self {
            ChunkBorderMode::Disabled => "désactivé",
            ChunkBorderMode::ChunkBorders => "bordures de chunks",
            ChunkBorderMode::FullGrid => "grille complète",
        }
    }
}

/// Three presses of the toggle key give back the mode, and no fewer do.
pub proof fn law_border_mode_cycle(m: ChunkBorderMode)
    ensures
        next_border_mode(next_border_mode(next_border_mode(m))) == m,
        next_border_mode(m) != m,
        next_border_mode(next_border_mode(m)) != m,
{
}

/// The targeted block and the face the player looks at.
#[derive(Clone, Copy, PartialEq, Eq, Debug, Structural)]
pub struct HighlightTarget {
    pub x: i32,
    pub y: i32,
    pub z: i32,
    pub face: VoxelFace,
}

impl HighlightTarget {
    /// A target from its parts.
    pub fn new(x: i32, y: i32, z: i32, face: VoxelFace) -> (t: HighlightTarget)
        ensures
            t == (HighlightTarget { x, y, z, face }),
    {
        HighlightTarget { x, y, z, face }
    }
}

/// The position of a block.
#[derive(Clone, Copy, PartialEq, Eq, Debug, Structural)]
pub struct BlockPosition {
    pub x: i32,
    pub y: i32,
    pub z: i32,
}

impl BlockPosition {
    /// A position from its coordinates.
    pub fn new(x: i32, y: i32, z: i32) -> (p: BlockPosition)
        ensures
            p == (BlockPosition { x, y, z }),
    {
        BlockPosition { x, y, z }
    }
}

/// The length of a game tick, in nanoseconds (ten ticks a second).
pub const TICK_NANOS: u64 = 100_000_000;

/// At most this many ticks run in one frame, so that a slow frame does not
/// make the next one slower.
pub const MAX_TICKS_PER_FRAME: u32 = 3;

/// `a + b`, or `u64::MAX` when that overflows.
pub open spec fn saturating_sum(a: u64, b: u64) -> u64 {
    if a + b > u64::MAX { u64::MAX } else { (a + b) as u64 }
}

/// How many ticks a frame runs, and the time left over: the time since
/// the last frame is added to the accumulated time, then whole ticks are
/// taken from it, at most `MAX_TICKS_PER_FRAME`.
pub open spec fn tick_schedule(accumulated: u64, elapsed: u64) -> (u32, u64) {
    let total = saturating_sum(accumulated, elapsed);
    let whole = total / TICK_NANOS;
    let ticks = if whole < MAX_TICKS_PER_FRAME { whole } else { MAX_TICKS_PER_FRAME as u64 };
    (ticks as u32, (total - ticks * TICK_NANOS) as u64)
}

/// Runs the tick accounting of one frame (see `tick_schedule`); all times
/// in nanoseconds.
pub fn schedule_ticks(accumulated: u64, elapsed: u64) -> (r: (u32, u64))
    ensures
        r == tick_schedule(accumulated, elapsed),
{
    let mut acc = accumulated.saturating_add(elapsed);
    let ghost total = acc;
    let mut ticks: u32 = 0;
    while acc >= TICK_NANOS && ticks < MAX_TICKS_PER_FRAME
        invariant
            ticks <= MAX_TICKS_PER_FRAME,
            total == saturating_sum(accumulated, elapsed),
            acc == total - ticks * TICK_NANOS,
            ticks <= total / TICK_NANOS,
        decreases MAX_TICKS_PER_FRAME - ticks,
    {
        acc = acc - TICK_NANOS;
        ticks = ticks + 1;
    }
    proof {
        let whole = total / TICK_NANOS;
        if ticks < MAX_TICKS_PER_FRAME {
            assert(acc < TICK_NANOS);
            assert(whole == ticks) by (nonlinear_arith)
                requires
                    acc == total - ticks * TICK_NANOS,
                    acc < TICK_NANOS,
                    0 <= acc,
                    whole == total / TICK_NANOS,
                    TICK_NANOS == 100_000_000,
            ;
        }
    }
    (ticks, acc)
}

/// No time is lost or made up: the ticks run plus the time left over make
/// the accumulated time plus the frame's time (unless that overflows); the
/// left-over time is under a tick unless the frame hit its tick limit.
pub proof fn law_ticks_conserve_time(accumulated: u64, elapsed: u64)
    ensures
        ({
            let (ticks, rest) = tick_schedule(accumulated, elapsed);
            &&& ticks <= MAX_TICKS_PER_FRAME
            &&& ticks * TICK_NANOS + rest == saturating_sum(accumulated, elapsed)
            &&& (ticks < MAX_TICKS_PER_FRAME ==> rest < TICK_NANOS)
            &&& (accumulated as int + elapsed as int <= u64::MAX ==> ticks * TICK_NANOS + rest == accumulated + elapsed)
        }),
{
    let total = saturating_sum(accumulated, elapsed);
    let whole = total / TICK_NANOS;
    assert(whole * TICK_NANOS <= total) by (nonlinear_arith)
        requires
            whole == total / TICK_NANOS,
            TICK_NANOS == 100_000_000,
            total >= 0,
    ;
    assert(total - whole * TICK_NANOS < TICK_NANOS) by (nonlinear_arith)
        requires
            whole == total / TICK_NANOS,
            TICK_NANOS == 100_000_000,
            total >= 0,
    ;
}

} // verus!
