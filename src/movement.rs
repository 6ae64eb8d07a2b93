use vstd::prelude::*;

use crate::map::{GameMap, MovableBlock, MapTile, Position, in_bounds, target_delta};

verus! {

/// One of the four unit steps on the grid; `y` grows downwards.
#[derive(Debug, Clone, Copy, PartialEq, Eq, Structural)]
pub enum MoveDirection {
    Up,
    Down,
    Left,
    Right,
}

/// Horizontal component of the unit vector of `dir`.
pub open spec fn dx(dir: MoveDirection) -> int {
    match dir {
        MoveDirection::Left => -1,
        MoveDirection::Right => 1,
        _ => 0,
    }
}

/// Vertical component of the unit vector of `dir`.
pub open spec fn dy(dir: MoveDirection) -> int {
    match dir {
        MoveDirection::Up => -1,
        MoveDirection::Down => 1,
        _ => 0,
    }
}

/// The direction that undoes `dir`.
pub open spec fn inverse(dir: MoveDirection) -> MoveDirection {
    match dir {
        MoveDirection::Up => MoveDirection::Down,
        MoveDirection::Down => MoveDirection::Up,
        MoveDirection::Left => MoveDirection::Right,
        MoveDirection::Right => MoveDirection::Left,
    }
}

/// A position from which one step in `dir` stays within `i32`: the
/// coordinate that `dir` changes is not at the bound it moves towards.
pub open spec fn steppable(dir: MoveDirection, p: Position) -> bool {
    match dir {
        MoveDirection::Up => p.y > i32::MIN,
        MoveDirection::Down => p.y < i32::MAX,
        MoveDirection::Left => p.x > i32::MIN,
        MoveDirection::Right => p.x < i32::MAX,
    }
}

/// The position one step from `p` in direction `dir`.
pub open spec fn step(dir: MoveDirection, p: Position) -> Position {
    Position { x: (p.x + dx(dir)) as i32, y: (p.y + dy(dir)) as i32 }
}

/// Computes the position one unit step from `current_position` in `dir`.
pub fn calc_new_position_after_movement(dir: &MoveDirection, current_position: &Position) -> (r:
    Position)
    requires
        steppable(*dir, *current_position),
    ensures
        r.x == current_position.x + dx(*dir),
        r.y == current_position.y + dy(*dir),
        r == step(*dir, *current_position),
{
    let mut dx: i32 = 0;
    let mut dy: i32 = 0;
    match dir {
        MoveDirection::Up => dy = -1,
        MoveDirection::Down => dy = 1,
        MoveDirection::Left => dx = -1,
        MoveDirection::Right => dx = 1,
    }
    Position { x: current_position.x + dx, y: current_position.y + dy }
}

/// Whether terrain `t` can be walked on.
pub open spec fn walkable(t: MapTile) -> bool {
    t == MapTile::Space || t == MapTile::TargetZone
}

/// Whether something moving in `dir` can enter `target`: a free cell can be
/// entered; a cell with a block can be entered only when not `probing_block`
/// and the cell behind it, in `dir`, is free.
pub open spec fn can_enter(
    m: GameMap,
    target: Position,
    dir: MoveDirection,
    probing_block: bool,
) -> bool {
    if m.has_block_at(target) {
        !probing_block && walkable(m.tile(step(dir, target))) && !m.has_block_at(step(dir, target))
    } else {
        walkable(m.tile(target))
    }
}

/// The cells that deciding whether `target` can be entered looks at are on the grid.
pub open spec fn probe_on_grid(
    m: GameMap,
    target: Position,
    dir: MoveDirection,
    probing_block: bool,
) -> bool {
    &&& in_bounds(target)
    &&& (m.has_block_at(target) && !probing_block ==> in_bounds(step(dir, target)))
}

/// The cells that a move of the player in `dir` looks at are on the grid.
pub open spec fn move_on_grid(m: GameMap, dir: MoveDirection) -> bool {
    probe_on_grid(m, step(dir, m.player_position), dir, false)
}

/// Whether the player can move in `dir`.
pub open spec fn can_move(m: GameMap, dir: MoveDirection) -> bool {
    can_enter(m, step(dir, m.player_position), dir, false)
}

/// `after` is the level that a move of the player in `dir` makes of `m`: a
/// rejected move changes nothing; an accepted one moves the player one step,
/// pushes the block in the way (if any) one step further, and adjusts the
/// count of blocks on target zones by what the pushed block left and entered.
pub open spec fn move_outcome(m: GameMap, dir: MoveDirection, after: GameMap) -> bool {
    let t = step(dir, m.player_position);
    let behind = step(dir, t);
    &&& after.map == m.map
    &&& after.id == m.id
    &&& if !can_move(m, dir) {
        &&& after.player_position == m.player_position
        &&& after.movable_blocks@ == m.movable_blocks@
        &&& after.movable_blocks_in_final_position == m.movable_blocks_in_final_position
    } else if m.has_block_at(t) {
        &&& after.player_position == t
        &&& after.movable_blocks@ == m.movable_blocks@.update(
            m.block_index(t),
            MovableBlock { position: behind },
        )
        &&& after.movable_blocks_in_final_position == m.movable_blocks_in_final_position
            + target_delta(m.tile(t), m.tile(behind))
    } else {
        &&& after.player_position == t
        &&& after.movable_blocks@ == m.movable_blocks@
        &&& after.movable_blocks_in_final_position == m.movable_blocks_in_final_position
    }
}

/// Decides whether something moving in `dir` can enter `target`. With
/// `probing_block` false a block at `target` may be pushed, if the cell behind
/// it is free; with `probing_block` true a block at `target` blocks the way,
/// so that no more than one block is ever pushed.
pub fn can_move_to(
    current_map: &GameMap,
    target_position: &Position,
    dir: &MoveDirection,
    probing_block: bool,
) -> (r: bool)
    requires
        probe_on_grid(*current_map, *target_position, *dir, probing_block),
    ensures
        r == can_enter(*current_map, *target_position, *dir, probing_block),
{
    let tile_type = current_map.get_tile_type_for_position(target_position);
    if current_map.is_movable_block_at(target_position) {
        if probing_block {
            return false;
        }
        let behind = calc_new_position_after_movement(dir, target_position);
        let behind_tile = current_map.get_tile_type_for_position(&behind);
        let behind_free = (behind_tile == MapTile::Space || behind_tile == MapTile::TargetZone)
            && !current_map.is_movable_block_at(&behind);
        behind_free
    } else {
        tile_type == MapTile::Space || tile_type == MapTile::TargetZone
    }
}

/// Whether the cells that a move of the player in `dir` looks at are on the
/// grid, so that the move can be resolved.
pub fn move_stays_on_grid(map: &GameMap, dir: &MoveDirection) -> (r: bool)
    requires
        in_bounds(map.player_position),
    ensures
        r == move_on_grid(*map, *dir),
{
    let target = calc_new_position_after_movement(dir, &map.player_position);
    if !position_on_grid(&target) {
        return false;
    }
    if map.is_movable_block_at(&target) {
        let behind = calc_new_position_after_movement(dir, &target);
        position_on_grid(&behind)
    } else {
        true
    }
}

/// Whether `p` lies on the grid.
fn position_on_grid(p: &Position) -> (r: bool)
    ensures
        r == in_bounds(*p),
{
    0 <= p.x && p.x < crate::map::MAX_MAP_DIM as i32 && 0 <= p.y && p.y < crate::map::MAX_MAP_DIM as i32
}

/// Pushing a block against a wall is rejected: the level stays as it was.
pub proof fn lemma_push_into_wall(m: GameMap, dir: MoveDirection, after: GameMap)
    requires
        m.has_block_at(step(dir, m.player_position)),
        m.tile(step(dir, step(dir, m.player_position))) == MapTile::Wall,
        move_outcome(m, dir, after),
    ensures
        !can_move(m, dir),
        after.map == m.map,
        after.player_position == m.player_position,
        after.movable_blocks@ == m.movable_blocks@,
        after.movable_blocks_in_final_position == m.movable_blocks_in_final_position,
        after.id == m.id,
{
}

/// Pushing a block against another block is rejected: the level stays as it
/// was, and the second block is not pushed.
pub proof fn lemma_push_into_block(m: GameMap, dir: MoveDirection, after: GameMap)
    requires
        m.has_block_at(step(dir, m.player_position)),
        m.has_block_at(step(dir, step(dir, m.player_position))),
        move_outcome(m, dir, after),
    ensures
        !can_move(m, dir),
        after.map == m.map,
        after.player_position == m.player_position,
        after.movable_blocks@ == m.movable_blocks@,
        after.movable_blocks_in_final_position == m.movable_blocks_in_final_position,
        after.id == m.id,
{
}

/// A step followed by a step in the inverse direction leads back to the start.
pub proof fn lemma_step_inverse(dir: MoveDirection, p: Position)
    requires
        steppable(dir, p),
    ensures
        steppable(inverse(dir), step(dir, p)),
        step(inverse(dir), step(dir, p)) == p,
{
}

} // verus!
