use vstd::prelude::*;

use crate::map::{
    GameMap, MapTile, MovableBlock, Position, count_on_target, in_bounds, on_target, target_delta,
};
use crate::mapmanager::{MapError, MapManager, levels_of, load_result};
use crate::drawing::Draw;
use crate::input::{GameCommand, InputAction};
use crate::movement::{
    MoveDirection, calc_new_position_after_movement, can_move, can_move_to, move_on_grid,
    move_outcome, step,
};

verus! {

/// A play session: the loaded levels and the number of the one in play.
pub struct Game {
    pub map_manager: MapManager,
    pub current_map_id: u32,
}

/// What one input does to a turn: the turn goes on, or it ends with the
/// command (if any) that the session carries out next.
#[derive(Debug, Clone, Copy, PartialEq, Eq, Structural)]
pub enum TurnOutcome {
    Continue,
    Finish(Option<GameCommand>),
}

/// The level whose number follows `current`, or `current` at the last of `n` levels.
pub open spec fn next_level(current: u32, n: nat) -> u32 {
    if current + 1 < n {
        (current + 1) as u32
    } else {
        current
    }
}

/// The level whose number precedes `current`, or `current` at the first.
pub open spec fn previous_level(current: u32) -> u32 {
    if current > 0 {
        (current - 1) as u32
    } else {
        current
    }
}

impl Game {
    /// The session's invariants: every level has a number, the level in play
    /// exists (or is 0 where none is loaded), and every level keeps its own
    /// invariants.
    pub open spec fn wf(self) -> bool {
        &&& self.map_manager.maps@.len() <= u32::MAX
        &&& (self.map_manager.maps@.len() == 0 ==> self.current_map_id == 0)
        &&& (self.map_manager.maps@.len() > 0 ==> self.current_map_id
            < self.map_manager.maps@.len())
        &&& forall|i: int|
            0 <= i < self.map_manager.maps@.len() ==> (#[trigger] self.map_manager.maps@[i]).wf()
    }

    /// A session with no levels loaded.
    pub fn new() -> (r: Game)
        ensures
            r.map_manager.maps@.len() == 0,
            r.current_map_id == 0,
            r.wf(),
    {
        Game { map_manager: MapManager { maps: Vec::new() }, current_map_id: 0 }
    }

    /// Loads the levels of a level text after those already loaded, as
    /// `MapManager::read_maps` does, and fails as it does.
    pub fn init(&mut self, map_contents: &str) -> (r: Result<(), MapError>)
        requires
            old(self).wf(),
        ensures
            final(self).wf(),
            final(self).current_map_id == old(self).current_map_id,
            r == load_result(levels_of(map_contents@), old(self).map_manager.maps@.len()),
            r is Err ==> final(self).map_manager.maps@ == old(self).map_manager.maps@,
            r is Ok ==> final(self).map_manager.maps@.len() == old(self).map_manager.maps@.len()
                + levels_of(map_contents@).len(),
            r is Ok ==> forall|i: int|
                0 <= i < old(self).map_manager.maps@.len()
                    ==> #[trigger] final(self).map_manager.maps@[i]
                    == old(self).map_manager.maps@[i],
            r is Ok ==> forall|k: int|
                0 <= k < levels_of(map_contents@).len() ==> crate::map::level_parsed(
                    #[trigger] final(self).map_manager.maps@[old(self).map_manager.maps@.len() + k],
                    levels_of(map_contents@)[k],
                    (old(self).map_manager.maps@.len() + k) as u32,
                ),
    {
        let res = self.map_manager.read_maps(map_contents);
        match res {
            Err(e) => {
                return Err(e);
            },
            Ok(()) => {},
        }
        proof {
            let ms = self.map_manager.maps@;
            let base = old(self).map_manager.maps@.len();
            assert forall|i: int| 0 <= i < ms.len() implies (#[trigger] ms[i]).wf() by {
                if i >= base {
                    let k = i - base;
                    assert(ms[base + k].wf());
                } else {
                    assert(ms[i] == old(self).map_manager.maps@[i]);
                }
            }
        }
        Ok(())
    }

    /// A copy of the level in play, as it was loaded.
    pub fn get_current_map(&self) -> (r: GameMap)
        requires
            self.wf(),
            self.map_manager.maps@.len() > 0,
        ensures
            r.map == self.map_manager.maps@[self.current_map_id as int].map,
            r.player_position == self.map_manager.maps@[self.current_map_id as int].player_position,
            r.movable_blocks@ == self.map_manager.maps@[self.current_map_id as int].movable_blocks@,
            r.movable_blocks_in_final_position == self.map_manager.maps@[self.current_map_id as int].movable_blocks_in_final_position,
            r.id == self.map_manager.maps@[self.current_map_id as int].id,
            r.wf(),
    {
        let m = &self.map_manager.maps[self.current_map_id as usize];
        let blocks = m.movable_blocks.clone();
        assert(blocks@ =~= m.movable_blocks@);
        GameMap {
            map: m.map,
            player_position: m.player_position,
            movable_blocks: blocks,
            movable_blocks_in_final_position: m.movable_blocks_in_final_position,
            id: m.id,
        }
    }

    /// Moves on to the next level; at the last level nothing changes.
    pub fn advance(&mut self)
        requires
            old(self).wf(),
        ensures
            final(self).wf(),
            final(self).map_manager.maps@ == old(self).map_manager.maps@,
            final(self).current_map_id == next_level(
                old(self).current_map_id,
                old(self).map_manager.maps@.len(),
            ),
    {
        let n = self.map_manager.maps.len();
        if n > 0 && (self.current_map_id as usize) < n - 1 {
            self.current_map_id = self.current_map_id + 1;
        }
    }

    /// Goes back to the previous level; at the first level nothing changes.
    pub fn retreat(&mut self)
        requires
            old(self).wf(),
        ensures
            final(self).wf(),
            final(self).map_manager.maps@ == old(self).map_manager.maps@,
            final(self).current_map_id == previous_level(old(self).current_map_id),
    {
        if self.current_map_id > 0 {
            self.current_map_id = self.current_map_id - 1;
        }
    }

    /// The decision of one pass of the session's main loop, on the command
    /// that the pass ended with: `NextMap` and `PreviousMap` change the level in
    /// play; `Reset` and `Quit` change nothing here (each pass takes the level in
    /// play afresh from the loaded ones). Returns whether the loop goes on,
    /// that is false for `Quit` alone.
    pub fn main_loop(&mut self, cmd: GameCommand) -> (keep_going: bool)
        requires
            old(self).wf(),
        ensures
            final(self).wf(),
            keep_going == (cmd != GameCommand::Quit),
            final(self).map_manager.maps@ == old(self).map_manager.maps@,
            final(self).current_map_id == match cmd {
                GameCommand::NextMap => next_level(
                    old(self).current_map_id,
                    old(self).map_manager.maps@.len(),
                ),
                GameCommand::PreviousMap => previous_level(old(self).current_map_id),
                _ => old(self).current_map_id,
            },
    {
        match cmd {
            GameCommand::Quit => false,
            GameCommand::NextMap => {
                self.advance();
                true
            },
            GameCommand::PreviousMap => {
                self.retreat();
                true
            },
            GameCommand::Reset => true,
        }
    }

    /// Ends the session: releases the display.
    pub fn tear_down<D: Draw + ?Sized>(&self, renderer: &D) {
        renderer.teardown();
    }

    /// Moves the player in `movedir` on `current_map`, pushing the block in the
    /// way if the cell behind it is free, and keeps the count of blocks on
    /// target zones.
    pub fn handle_movement(&self, current_map: &mut GameMap, movedir: MoveDirection)
        requires
            old(current_map).wf(),
            move_on_grid(*old(current_map), movedir),
        ensures
            move_outcome(*old(current_map), movedir, *final(current_map)),
            final(current_map).wf(),
    {
        let ghost m0 = *current_map;
        let new_pos = calc_new_position_after_movement(&movedir, &current_map.player_position);
        if can_move_to(current_map, &new_pos, &movedir, false) {
            match current_map.get_movable_block_at(&new_pos) {
                Some(block) => {
                    let new_pos_block = calc_new_position_after_movement(&movedir, &new_pos);
                    block.move_to(&movedir);
                    proof {
                        let i = m0.block_index(new_pos);
                        assert(current_map.movable_blocks@ =~= m0.movable_blocks@.update(
                            i,
                            MovableBlock { position: new_pos_block },
                        ));
                        lemma_count_update(
                            m0.map,
                            m0.movable_blocks@,
                            i,
                            MovableBlock { position: new_pos_block },
                        );
                        crate::map::lemma_count_bound(m0.map, m0.movable_blocks@);
                        crate::map::lemma_count_bound(m0.map, current_map.movable_blocks@);
                    }
                    self.calc_nof_blocks_in_target_position(current_map, &new_pos, &new_pos_block);
                },
                None => {},
            }
            current_map.player_position = new_pos;
        }
        proof {
            lemma_move_preserves_wf(m0, movedir, *current_map);
        }
    }

    /// Adjusts the count of blocks on target zones for a block that moved
    /// from `old_position` to `new_position`.
    pub fn calc_nof_blocks_in_target_position(
        &self,
        map: &mut GameMap,
        old_position: &Position,
        new_position: &Position,
    )
        requires
            in_bounds(*old_position),
            in_bounds(*new_position),
            target_delta(old(map).tile(*old_position), old(map).tile(*new_position)) == 1
                ==> old(map).movable_blocks_in_final_position < u32::MAX,
            target_delta(old(map).tile(*old_position), old(map).tile(*new_position)) == -1
                ==> old(map).movable_blocks_in_final_position > 0,
        ensures
            final(map).movable_blocks_in_final_position == old(map).movable_blocks_in_final_position
                + target_delta(old(map).tile(*old_position), old(map).tile(*new_position)),
            final(map).map == old(map).map,
            final(map).player_position == old(map).player_position,
            final(map).movable_blocks@ == old(map).movable_blocks@,
            final(map).id == old(map).id,
    {
        if map.get_tile_type_for_position(new_position) == MapTile::TargetZone
            && map.get_tile_type_for_position(old_position) != MapTile::TargetZone {
            map.movable_blocks_in_final_position = map.movable_blocks_in_final_position + 1;
        }
        if map.get_tile_type_for_position(new_position) != MapTile::TargetZone
            && map.get_tile_type_for_position(old_position) == MapTile::TargetZone {
            map.movable_blocks_in_final_position = map.movable_blocks_in_final_position - 1;
        }
    }

    /// Whether the level is won: every block stands on a target zone, as the
    /// counter tells. A level without blocks counts as won.
    pub fn check_has_won(&self, map: &GameMap) -> (r: bool)
        ensures
            r == (map.movable_blocks_in_final_position == map.movable_blocks@.len()),
    {
        map.movable_blocks_in_final_position as usize == map.movable_blocks.len()
    }

    /// Resolves one input of a turn on `current_map`: a move is made and the
    /// win checked, a won level ending the turn with `NextMap`; an input
    /// without a move ends the turn with its command.
    pub fn turn_step(&self, current_map: &mut GameMap, input: InputAction) -> (r: TurnOutcome)
        requires
            old(current_map).wf(),
            input.movement_command matches Some(d) ==> move_on_grid(*old(current_map), d),
        ensures
            final(current_map).wf(),
            match input.movement_command {
                Some(d) => move_outcome(*old(current_map), d, *final(current_map))
                    && r == if final(current_map).movable_blocks_in_final_position
                    == final(current_map).movable_blocks@.len() {
                    TurnOutcome::Finish(Some(GameCommand::NextMap))
                } else {
                    TurnOutcome::Continue
                },
                None => *final(current_map) == *old(current_map)
                    && r == TurnOutcome::Finish(input.game_command),
            },
    {
        match input.movement_command {
            Some(movedir) => {
                self.handle_movement(current_map, movedir);
                if self.check_has_won(current_map) {
                    TurnOutcome::Finish(Some(GameCommand::NextMap))
                } else {
                    TurnOutcome::Continue
                }
            },
            None => TurnOutcome::Finish(input.game_command),
        }
    }
}

/// Blocks on target zones counted over `s` with its entry `i` replaced by `b`.
pub proof fn lemma_count_update(
    tiles: [[MapTile; crate::map::MAX_MAP_DIM]; crate::map::MAX_MAP_DIM],
    s: Seq<MovableBlock>,
    i: int,
    b: MovableBlock,
)
    requires
        0 <= i < s.len(),
    ensures
        count_on_target(tiles, s.update(i, b)) as int == count_on_target(tiles, s) as int
            - (if on_target(tiles, s[i]) { 1int } else { 0int }) + (if on_target(tiles, b) {
            1int
        } else {
            0int
        }),
    decreases s.len(),
{
    let u = s.update(i, b);
    if i == s.len() - 1 {
        assert(u.drop_last() =~= s.drop_last());
    } else {
        assert(u.drop_last() =~= s.drop_last().update(i, b));
        lemma_count_update(tiles, s.drop_last(), i, b);
    }
}

/// Every move keeps a level's invariants; in particular the counter of blocks
/// on target zones stays equal to the number of blocks that stand on one.
pub proof fn lemma_move_preserves_wf(m: GameMap, dir: MoveDirection, after: GameMap)
    requires
        m.wf(),
        move_on_grid(m, dir),
        move_outcome(m, dir, after),
    ensures
        after.wf(),
        after.movable_blocks_in_final_position == after.blocks_on_target(),
{
    let t = step(dir, m.player_position);
    let behind = step(dir, t);
    if can_move(m, dir) && m.has_block_at(t) {
        let i = m.block_index(t);
        let nb = MovableBlock { position: behind };
        lemma_count_update(m.map, m.movable_blocks@, i, nb);
        assert forall|a: int, c: int|
            0 <= a < after.movable_blocks@.len() && 0 <= c < after.movable_blocks@.len() && a
                != c implies (#[trigger] after.movable_blocks@[a]).position
            != (#[trigger] after.movable_blocks@[c]).position by {
            if a == i {
                assert(m.movable_blocks@[c].position != behind);
            } else if c == i {
                assert(m.movable_blocks@[a].position != behind);
            }
        }
    }
}

/// Along any sequence of moves from a level in play, each level reached keeps
/// the invariants, so its counter of blocks on target zones stays equal to the
/// number of blocks that stand on one.
pub proof fn lemma_counter_exact_along(states: Seq<GameMap>, dirs: Seq<MoveDirection>)
    requires
        states.len() == dirs.len() + 1,
        states[0].wf(),
        forall|i: int|
            0 <= i < dirs.len() ==> move_on_grid(#[trigger] states[i], dirs[i]) && move_outcome(
                states[i],
                dirs[i],
                states[i + 1],
            ),
    ensures
        forall|i: int|
            0 <= i < states.len() ==> (#[trigger] states[i]).wf()
                && states[i].movable_blocks_in_final_position == states[i].blocks_on_target(),
    decreases dirs.len(),
{
    if dirs.len() > 0 {
        let n = dirs.len() as int;
        let s0 = states.drop_last();
        let d0 = dirs.drop_last();
        assert forall|i: int| 0 <= i < d0.len() implies move_on_grid(#[trigger] s0[i], d0[i])
            && move_outcome(s0[i], d0[i], s0[i + 1]) by {
            assert(s0[i] == states[i] && s0[i + 1] == states[i + 1] && d0[i] == dirs[i]);
            assert(move_on_grid(states[i], dirs[i]));
        }
        lemma_counter_exact_along(s0, d0);
        assert(s0[n - 1] == states[n - 1]);
        assert(move_on_grid(states[n - 1], dirs[n - 1]));
        lemma_move_preserves_wf(states[n - 1], dirs[n - 1], states[n]);
        assert forall|i: int| 0 <= i < states.len() implies (#[trigger] states[i]).wf()
            && states[i].movable_blocks_in_final_position == states[i].blocks_on_target() by {
            if i < n {
                assert(s0[i] == states[i]);
            }
        }
    }
}

/// Moving to the next or the previous level never leaves the loaded levels.
pub proof fn lemma_level_stays_in_range(current: u32, n: nat)
    requires
        current < n,
    ensures
        next_level(current, n) < n,
        previous_level(current) < n,
{
}

/// A move into a free cell, undone by a move in the inverse direction, brings
/// the player back where it stood, provided that cell is one the player can
/// walk on (the player may have been placed on a wall by its level text).
pub proof fn lemma_move_back(m: GameMap, dir: MoveDirection, mid: GameMap, back: GameMap)
    requires
        m.wf(),
        move_on_grid(m, dir),
        can_move(m, dir),
        !m.has_block_at(step(dir, m.player_position)),
        crate::movement::walkable(m.tile(m.player_position)),
        !m.has_block_at(m.player_position),
        move_outcome(m, dir, mid),
        move_outcome(mid, crate::movement::inverse(dir), back),
    ensures
        move_on_grid(mid, crate::movement::inverse(dir)),
        can_move(mid, crate::movement::inverse(dir)),
        back.player_position == m.player_position,
        back.movable_blocks@ == m.movable_blocks@,
        back.movable_blocks_in_final_position == m.movable_blocks_in_final_position,
{
    crate::movement::lemma_step_inverse(dir, m.player_position);
}

} // verus!
