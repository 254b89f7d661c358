use vstd::prelude::*;
use crate::util::text::owned;

verus! {

/// The block selected at start: stone.
pub const DEFAULT_SELECTED_BLOCK: usize = 3;

/// The block after `selected` when cycling through `count` registered
/// blocks: the next id, wrapping past the last to 1 (the air, 0, is never
/// selected).
pub open spec fn next_block(selected: int, count: int) -> int {
    let next = if selected + 1 >= count { 1 } else { selected + 1 };
    if next == 0 { 1 } else { next }
}

/// The block before `selected`: the previous id, wrapping below 1 to the
/// last block.
pub open spec fn previous_block(selected: int, count: int) -> int {
    let prev = if selected <= 1 { count - 1 } else { selected - 1 };
    if prev == 0 { count - 1 } else { prev }
}

/// The next block (see `next_block`).
pub fn next_block_id(selected: usize, block_count: usize) -> (id: usize)
    requires
        selected < usize::MAX,
    ensures
        id == next_block(selected as int, block_count as int),
{
    let next = if selected + 1 >= block_count { 1 } else { selected + 1 };
    if next == 0 { 1 } else { next }
}

/// The previous block (see `previous_block`); the registry always holds at
/// least the air.
pub fn previous_block_id(selected: usize, block_count: usize) -> (id: usize)
    requires
        block_count >= 1,
    ensures
        id == previous_block(selected as int, block_count as int),
{
    let prev = if selected <= 1 { block_count - 1 } else { selected - 1 };
    if prev == 0 { block_count - 1 } else { prev }
}

/// With at least one block besides the air, cycling stays among the
/// blocks and never selects the air, and going back then forth returns to
/// the block.
pub proof fn law_block_cycle(selected: int, count: int)
    requires
        count >= 2,
        1 <= selected < count,
    ensures
        1 <= next_block(selected, count) < count,
        1 <= previous_block(selected, count) < count,
        next_block(previous_block(selected, count), count) == selected,
        previous_block(next_block(selected, count), count) == selected,
{
}

/// The window title, with the key hints.
pub fn build_title_string() -> (s: String)
    ensures
        s@ == "Voxl Reborn | ZQSD/WASD: Move | Space/Shift: Up/Down | Click: Capture | LMB: Break | RMB: Place | MMB: Pick Block | Scroll: Select Block | Esc: Release"@,
{
    owned("Voxl Reborn | ZQSD/WASD: Move | Space/Shift: Up/Down | Click: Capture | LMB: Break | RMB: Place | MMB: Pick Block | Scroll: Select Block | Esc: Release")
}

/// The window title of the networked client.
pub fn client_title_string() -> (s: String)
    ensures
        s@ == "Voxl Reborn"@,
{
    owned("Voxl Reborn")
}

} // verus!
