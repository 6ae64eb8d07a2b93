use vstd::prelude::*;

use crate::movement::{MoveDirection, calc_new_position_after_movement, steppable, step};

verus! {

/// Width and height of every grid.
pub const MAX_MAP_DIM: usize = 30;

/// Static terrain of a cell. `Block` is never stored in a grid: it is the
/// classification given to a cell that a movable block occupies.
#[derive(Debug, Clone, Copy, PartialEq, Eq, Structural)]
pub enum MapTile {
    Space,
    Wall,
    Block,
    TargetZone,
}

/// A zero-based grid position; `y` is the row.
#[derive(Debug, Clone, Copy, PartialEq, Eq, Structural)]
pub struct Position {
    pub x: i32,
    pub y: i32,
}

/// A block that the player can push.
#[derive(Debug, Clone, Copy, PartialEq, Eq, Structural)]
pub struct MovableBlock {
    pub position: Position,
}

/// Whether `p` lies on the grid.
pub open spec fn in_bounds(p: Position) -> bool {
    0 <= p.x < MAX_MAP_DIM && 0 <= p.y < MAX_MAP_DIM
}

/// The tile that a level character stands for: walls and target zones are
/// kept, every other character (a block, the player, unknown ones) leaves Space.
pub open spec fn tile_for_char(c: char) -> MapTile {
    if c == 'X' {
        MapTile::Wall
    } else if c == '.' {
        MapTile::TargetZone
    } else {
        MapTile::Space
    }
}

/// The blocks that row `y` with text `s` places, from left to right.
pub open spec fn blocks_in_line(s: Seq<char>, y: int) -> Seq<MovableBlock>
    decreases s.len(),
{
    if s.len() == 0 {
        Seq::empty()
    } else {
        let rest = blocks_in_line(s.drop_last(), y);
        if s.last() == '*' {
            rest.push(MovableBlock { position: Position { x: (s.len() - 1) as i32, y: y as i32 } })
        } else {
            rest
        }
    }
}

/// Where the player stands after row `y` with text `s` is read, having stood at `p`
/// before: on the last `@` of the row, if there is one.
pub open spec fn player_after_line(s: Seq<char>, y: int, p: Position) -> Position
    decreases s.len(),
{
    if s.len() == 0 {
        p
    } else if s.last() == '@' {
        Position { x: (s.len() - 1) as i32, y: y as i32 }
    } else {
        player_after_line(s.drop_last(), y, p)
    }
}

/// The blocks that the rows `rows` place, row by row, the first row being row 0.
pub open spec fn blocks_in_rows(rows: Seq<Seq<char>>) -> Seq<MovableBlock>
    decreases rows.len(),
{
    if rows.len() == 0 {
        Seq::empty()
    } else {
        blocks_in_rows(rows.drop_last()) + blocks_in_line(rows.last(), rows.len() - 1)
    }
}

/// Where the player stands after the rows `rows` are read, having stood at `p` before.
pub open spec fn player_after_rows(rows: Seq<Seq<char>>, p: Position) -> Position
    decreases rows.len(),
{
    if rows.len() == 0 {
        p
    } else {
        player_after_line(rows.last(), rows.len() - 1, player_after_rows(rows.drop_last(), p))
    }
}

/// The characters of each row of a level text.
pub open spec fn rows_view(rows: Seq<&str>) -> Seq<Seq<char>> {
    rows.map_values(|r: &str| r@)
}

/// Rows that fit on the grid.
pub open spec fn rows_fit(rows: Seq<Seq<char>>) -> bool {
    rows.len() <= MAX_MAP_DIM && forall|i: int| 0 <= i < rows.len() ==> #[trigger] rows[i].len() <= MAX_MAP_DIM
}

/// Change of the number of blocks on target zones when a block goes from a
/// cell with tile `from` to a cell with tile `to`.
pub open spec fn target_delta(from: MapTile, to: MapTile) -> int {
    if to == MapTile::TargetZone && from != MapTile::TargetZone {
        1
    } else if to != MapTile::TargetZone && from == MapTile::TargetZone {
        -1
    } else {
        0
    }
}

/// The tile of `tiles` at `p`.
pub open spec fn tile_of(tiles: [[MapTile; MAX_MAP_DIM]; MAX_MAP_DIM], p: Position) -> MapTile {
    tiles[p.y as int][p.x as int]
}

/// Whether block `b` stands on a target zone of `tiles`.
pub open spec fn on_target(tiles: [[MapTile; MAX_MAP_DIM]; MAX_MAP_DIM], b: MovableBlock) -> bool {
    in_bounds(b.position) && tile_of(tiles, b.position) == MapTile::TargetZone
}

/// How many of `blocks` stand on a target zone of `tiles`.
pub open spec fn count_on_target(
    tiles: [[MapTile; MAX_MAP_DIM]; MAX_MAP_DIM],
    blocks: Seq<MovableBlock>,
) -> nat
    decreases blocks.len(),
{
    if blocks.len() == 0 {
        0
    } else {
        count_on_target(tiles, blocks.drop_last()) + if on_target(tiles, blocks.last()) {
            1nat
        } else {
            0nat
        }
    }
}

/// No more blocks stand on target zones than there are blocks.
pub proof fn lemma_count_bound(
    tiles: [[MapTile; MAX_MAP_DIM]; MAX_MAP_DIM],
    blocks: Seq<MovableBlock>,
)
    ensures
        count_on_target(tiles, blocks) <= blocks.len(),
    decreases blocks.len(),
{
    if blocks.len() > 0 {
        lemma_count_bound(tiles, blocks.drop_last());
    }
}

/// Each block that a row places sits on a `*` of the row, and they come from
/// left to right.
pub proof fn lemma_blocks_in_line(s: Seq<char>, y: int)
    requires
        s.len() <= MAX_MAP_DIM,
        0 <= y < MAX_MAP_DIM,
    ensures
        forall|k: int|
            0 <= k < blocks_in_line(s, y).len() ==> {
                let p = (#[trigger] blocks_in_line(s, y)[k]).position;
                p.y == y && 0 <= p.x < s.len() && s[p.x as int] == '*'
            },
        forall|a: int, c: int|
            0 <= a < c < blocks_in_line(s, y).len() ==> (#[trigger] blocks_in_line(s, y)[a]).position.x
                < (#[trigger] blocks_in_line(s, y)[c]).position.x,
        blocks_in_line(s, y).len() <= s.len(),
    decreases s.len(),
{
    if s.len() > 0 {
        let pre = s.drop_last();
        lemma_blocks_in_line(pre, y);
        let bp = blocks_in_line(pre, y);
        let b = blocks_in_line(s, y);
        assert forall|k: int| 0 <= k < bp.len() implies {
            let p = (#[trigger] bp[k]).position;
            p.y == y && 0 <= p.x < s.len() - 1 && s[p.x as int] == '*'
        } by {
            assert(pre[bp[k].position.x as int] == s[bp[k].position.x as int]);
        }
        if s.last() == '*' {
            assert(b == bp.push(MovableBlock { position: Position { x: (s.len() - 1) as i32, y: y as i32 } }));
            assert forall|k: int| 0 <= k < b.len() implies {
                let p = (#[trigger] b[k]).position;
                p.y == y && 0 <= p.x < s.len() && s[p.x as int] == '*'
            } by {
                if k < bp.len() {
                    assert(b[k] == bp[k]);
                }
            }
            assert forall|a: int, c: int| 0 <= a < c < b.len() implies (#[trigger] b[a]).position.x
                < (#[trigger] b[c]).position.x by {
                assert(b[a] == bp[a]);
                if c < bp.len() {
                    assert(b[c] == bp[c]);
                }
            }
        }
    }
}

/// Each block that rows place sits on a `*` of its row, and they come row by
/// row, from left to right.
pub proof fn lemma_blocks_in_rows(rows: Seq<Seq<char>>)
    requires
        rows_fit(rows),
    ensures
        forall|k: int|
            0 <= k < blocks_in_rows(rows).len() ==> {
                let p = (#[trigger] blocks_in_rows(rows)[k]).position;
                0 <= p.y < rows.len() && 0 <= p.x < rows[p.y as int].len() && rows[p.y as int][p.x as int] == '*'
            },
        forall|a: int, c: int|
            0 <= a < c < blocks_in_rows(rows).len() ==> {
                let pa = (#[trigger] blocks_in_rows(rows)[a]).position;
                let pc = (#[trigger] blocks_in_rows(rows)[c]).position;
                pa.y < pc.y || (pa.y == pc.y && pa.x < pc.x)
            },
        blocks_in_rows(rows).len() <= rows.len() * MAX_MAP_DIM,
    decreases rows.len(),
{
    if rows.len() > 0 {
        let pre = rows.drop_last();
        assert(rows_fit(pre)) by {
            assert forall|i: int| 0 <= i < pre.len() implies #[trigger] pre[i].len() <= MAX_MAP_DIM by {
                assert(pre[i] == rows[i]);
            }
        }
        lemma_blocks_in_rows(pre);
        assert(rows.last() == rows[rows.len() - 1]);
        lemma_blocks_in_line(rows.last(), rows.len() - 1);
        let bp = blocks_in_rows(pre);
        let bl = blocks_in_line(rows.last(), rows.len() - 1);
        assert(blocks_in_rows(rows) == bp + bl);
        assert forall|k: int| 0 <= k < bp.len() implies {
            let p = (#[trigger] bp[k]).position;
            0 <= p.y < rows.len() && 0 <= p.x < rows[p.y as int].len() && rows[p.y as int][p.x as int] == '*'
        } by {
            let p = bp[k].position;
            assert(pre[p.y as int] == rows[p.y as int]);
        }
    }
}

/// No block counts when none stands on a target zone.
pub proof fn lemma_count_none(
    tiles: [[MapTile; MAX_MAP_DIM]; MAX_MAP_DIM],
    blocks: Seq<MovableBlock>,
)
    requires
        forall|k: int| 0 <= k < blocks.len() ==> !on_target(tiles, #[trigger] blocks[k]),
    ensures
        count_on_target(tiles, blocks) == 0,
    decreases blocks.len(),
{
    if blocks.len() > 0 {
        let pre = blocks.drop_last();
        assert forall|k: int| 0 <= k < pre.len() implies !on_target(tiles, #[trigger] pre[k]) by {
            assert(pre[k] == blocks[k]);
        }
        lemma_count_none(tiles, pre);
        assert(blocks.last() == blocks[blocks.len() - 1]);
    }
}

/// `m` is the level that `rows` describe, numbered `id`: the terrain that the
/// rows give over all-Space, the blocks and the player that they place (the
/// player at the origin where no `@` occurs), and no block on a target zone.
pub open spec fn level_parsed(m: GameMap, rows: Seq<Seq<char>>, id: u32) -> bool {
    &&& forall|y: int, x: int|
        0 <= y < MAX_MAP_DIM && 0 <= x < MAX_MAP_DIM ==> #[trigger] m.map[y][x] == if y < rows.len()
            && x < rows[y].len() {
            tile_for_char(rows[y][x])
        } else {
            MapTile::Space
        }
    &&& m.movable_blocks@ == blocks_in_rows(rows)
    &&& m.player_position == player_after_rows(rows, Position { x: 0, y: 0 })
    &&& m.movable_blocks_in_final_position == 0
    &&& m.id == id
}

/// Reading rows that fit the grid leaves a player on the grid on the grid.
pub proof fn lemma_player_after_rows(rows: Seq<Seq<char>>, p: Position)
    requires
        rows_fit(rows),
        in_bounds(p),
    ensures
        in_bounds(player_after_rows(rows, p)),
    decreases rows.len(),
{
    if rows.len() > 0 {
        let pre = rows.drop_last();
        assert(rows_fit(pre)) by {
            assert forall|i: int| 0 <= i < pre.len() implies #[trigger] pre[i].len() <= MAX_MAP_DIM by {
                assert(pre[i] == rows[i]);
            }
        }
        lemma_player_after_rows(pre, p);
        assert(rows.last() == rows[rows.len() - 1]);
        lemma_player_after_line(rows.last(), rows.len() - 1, player_after_rows(pre, p));
    }
}

/// Reading a row that fits the grid leaves a player on the grid on the grid.
pub proof fn lemma_player_after_line(s: Seq<char>, y: int, p: Position)
    requires
        s.len() <= MAX_MAP_DIM,
        0 <= y < MAX_MAP_DIM,
        in_bounds(p),
    ensures
        in_bounds(player_after_line(s, y, p)),
    decreases s.len(),
{
    if s.len() > 0 {
        lemma_player_after_line(s.drop_last(), y, p);
    }
}

impl MovableBlock {
    /// Moves the block one step in `move_direction`.
    pub fn move_to(&mut self, move_direction: &MoveDirection)
        requires
            steppable(*move_direction, old(self).position),
        ensures
            final(self).position == step(*move_direction, old(self).position),
    {
        self.position = calc_new_position_after_movement(move_direction, &self.position);
    }
}

/// One level: its terrain, the player, the blocks, how many blocks stand on a
/// target zone, and the level's number.
#[derive(Debug, Clone, PartialEq, Eq)]
pub struct GameMap {
    pub map: [[MapTile; MAX_MAP_DIM]; MAX_MAP_DIM],
    pub player_position: Position,
    pub movable_blocks: Vec<MovableBlock>,
    pub movable_blocks_in_final_position: u32,
    pub id: u32,
}

impl GameMap {
    /// The terrain at `p`.
    pub open spec fn tile(self, p: Position) -> MapTile {
        tile_of(self.map, p)
    }

    /// Whether some block occupies `p`.
    pub open spec fn has_block_at(self, p: Position) -> bool {
        exists|i: int|
            0 <= i < self.movable_blocks@.len() && (#[trigger] self.movable_blocks@[i]).position == p
    }

    /// The index of the block at `p` (meaningful where there is one).
    pub open spec fn block_index(self, p: Position) -> int {
        choose|i: int|
            0 <= i < self.movable_blocks@.len() && (#[trigger] self.movable_blocks@[i]).position == p
    }

    /// How many blocks stand on a target zone.
    pub open spec fn blocks_on_target(self) -> nat {
        count_on_target(self.map, self.movable_blocks@)
    }

    /// The invariants of a level in play: the player and the blocks are on the
    /// grid, no two blocks share a cell, no tile is stored as `Block`, and the
    /// counter of blocks on target zones is exact.
    pub open spec fn wf(self) -> bool {
        &&& in_bounds(self.player_position)
        &&& forall|i: int|
            0 <= i < self.movable_blocks@.len() ==> in_bounds(
                (#[trigger] self.movable_blocks@[i]).position,
            )
        &&& forall|i: int, j: int|
            0 <= i < self.movable_blocks@.len() && 0 <= j < self.movable_blocks@.len() && i != j
                ==> (#[trigger] self.movable_blocks@[i]).position
                != (#[trigger] self.movable_blocks@[j]).position
        &&& forall|y: int, x: int|
            0 <= y < MAX_MAP_DIM && 0 <= x < MAX_MAP_DIM ==> #[trigger] self.map[y][x]
                != MapTile::Block
        &&& self.movable_blocks@.len() <= u32::MAX
        &&& self.movable_blocks_in_final_position == self.blocks_on_target()
    }

    /// An empty level: all Space, the player at the origin, no blocks, number 0.
    pub fn new() -> (r: GameMap)
        ensures
            forall|y: int, x: int|
                0 <= y < MAX_MAP_DIM && 0 <= x < MAX_MAP_DIM ==> #[trigger] r.map[y][x]
                    == MapTile::Space,
            r.player_position == (Position { x: 0, y: 0 }),
            r.movable_blocks@.len() == 0,
            r.movable_blocks_in_final_position == 0,
            r.id == 0,
            r.wf(),
    {
        let row = [MapTile::Space;MAX_MAP_DIM];
        let map = [row;MAX_MAP_DIM];
        GameMap {
            map,
            player_position: Position { x: 0, y: 0 },
            movable_blocks: Vec::new(),
            movable_blocks_in_final_position: 0,
            id: 0,
        }
    }

    /// The terrain at `position`.
    pub fn get_tile_type_for_position(&self, position: &Position) -> (r: MapTile)
        requires
            in_bounds(*position),
        ensures
            r == self.tile(*position),
    {
        self.map[position.y as usize][position.x as usize]
    }

    /// The index of the first block at `position`, if any.
    pub fn find_movable_block(&self, position: &Position) -> (r: Option<usize>)
        ensures
            r is None <==> !self.has_block_at(*position),
            r matches Some(i) ==> i < self.movable_blocks@.len()
                && self.movable_blocks@[i as int].position == *position
                && forall|j: int| 0 <= j < i ==> (#[trigger] self.movable_blocks@[j]).position != *position,
    {
        let mut i: usize = 0;
        while i < self.movable_blocks.len()
            invariant
                i <= self.movable_blocks@.len(),
                forall|j: int| 0 <= j < i ==> (#[trigger] self.movable_blocks@[j]).position != *position,
            decreases self.movable_blocks@.len() - i,
        {
            if self.movable_blocks[i].position == *position {
                return Some(i);
            }
            i = i + 1;
        }
        None
    }

    /// Whether some block occupies `position`.
    pub fn is_movable_block_at(&self, position: &Position) -> (r: bool)
        ensures
            r == self.has_block_at(*position),
    {
        let found = self.find_movable_block(position);
        found.is_some()
    }

    /// The first block at `position`, to be changed in place, if there is one.
    pub fn get_movable_block_at(&mut self, position: &Position) -> (r: Option<&mut MovableBlock>)
        ensures
            r is Some <==> old(self).has_block_at(*position),
            r is None ==> *final(self) == *old(self),
            r matches Some(b) ==> exists|i: int|
                0 <= i < old(self).movable_blocks@.len()
                    && old(self).movable_blocks@[i].position == *position
                    && (forall|j: int|
                    0 <= j < i ==> (#[trigger] old(self).movable_blocks@[j]).position != *position)
                    && *b == old(self).movable_blocks@[i]
                    && final(self).movable_blocks@ == old(self).movable_blocks@.update(i, *final(b)),
            final(self).map == old(self).map,
            final(self).player_position == old(self).player_position,
            final(self).movable_blocks_in_final_position
                == old(self).movable_blocks_in_final_position,
            final(self).id == old(self).id,
    {
        match self.find_movable_block(position) {
            Some(i) => Some(&mut self.movable_blocks[i]),
            None => None,
        }
    }

    /// Parses the rows of one level, the first being row 0, as
    /// `parse_single_line` does with each.
    pub fn parse_map_block(&mut self, input_map_block: &Vec<&str>)
        requires
            rows_fit(rows_view(input_map_block@)),
        ensures
            forall|y: int, x: int|
                0 <= y < MAX_MAP_DIM && 0 <= x < MAX_MAP_DIM ==> #[trigger] final(self).map[y][x]
                    == if y < input_map_block@.len() && x < input_map_block@[y]@.len() {
                    tile_for_char(input_map_block@[y]@[x])
                } else {
                    old(self).map[y][x]
                },
            final(self).movable_blocks@ == old(self).movable_blocks@ + blocks_in_rows(
                rows_view(input_map_block@),
            ),
            final(self).player_position == player_after_rows(
                rows_view(input_map_block@),
                old(self).player_position,
            ),
            final(self).movable_blocks_in_final_position
                == old(self).movable_blocks_in_final_position,
            final(self).id == old(self).id,
    {
        let ghost rows = rows_view(input_map_block@);
        let n = input_map_block.len();
        let mut line_idx: usize = 0;
        while line_idx < n
            invariant
                n == input_map_block@.len(),
                rows == rows_view(input_map_block@),
                rows_fit(rows),
                line_idx <= n,
                forall|y: int, x: int|
                    0 <= y < MAX_MAP_DIM && 0 <= x < MAX_MAP_DIM ==> #[trigger] self.map[y][x]
                        == if y < line_idx && x < input_map_block@[y]@.len() {
                        tile_for_char(input_map_block@[y]@[x])
                    } else {
                        old(self).map[y][x]
                    },
                self.movable_blocks@ == old(self).movable_blocks@ + blocks_in_rows(
                    rows.subrange(0, line_idx as int),
                ),
                self.player_position == player_after_rows(
                    rows.subrange(0, line_idx as int),
                    old(self).player_position,
                ),
                self.movable_blocks_in_final_position
                    == old(self).movable_blocks_in_final_position,
                self.id == old(self).id,
            decreases n - line_idx,
        {
            let ghost pre = rows.subrange(0, line_idx as int);
            let ghost post = rows.subrange(0, line_idx as int + 1);
            assert(post.drop_last() =~= pre);
            assert(rows[line_idx as int] == input_map_block@[line_idx as int]@);
            self.parse_single_line(input_map_block[line_idx], line_idx);
            proof {
                assert(self.movable_blocks@ =~= old(self).movable_blocks@ + blocks_in_rows(post));
            }
            line_idx = line_idx + 1;
        }
        assert(rows.subrange(0, n as int) =~= rows);
    }

    /// Builds the level that `rows` describe, numbered `id`.
    pub fn from_rows(rows: &Vec<&str>, id: u32) -> (r: GameMap)
        requires
            rows_fit(rows_view(rows@)),
        ensures
            level_parsed(r, rows_view(rows@), id),
            r.wf(),
    {
        let mut m = GameMap::new();
        m.parse_map_block(rows);
        m.id = id;
        proof {
            let rv = rows_view(rows@);
            lemma_blocks_in_rows(rv);
            assert(m.movable_blocks@ =~= blocks_in_rows(rv));
            let bs = m.movable_blocks@;
            assert forall|k: int| 0 <= k < bs.len() implies !on_target(m.map, #[trigger] bs[k]) by {
                let p = bs[k].position;
                assert(m.map[p.y as int][p.x as int] == tile_for_char(rv[p.y as int][p.x as int]));
            }
            lemma_count_none(m.map, bs);
            assert forall|i: int| 0 <= i < bs.len() implies in_bounds((#[trigger] bs[i]).position) by {
                assert(rv[bs[i].position.y as int].len() <= MAX_MAP_DIM);
            }
            assert forall|i: int, j: int|
                0 <= i < bs.len() && 0 <= j < bs.len() && i != j implies (#[trigger] bs[i]).position
                != (#[trigger] bs[j]).position by {
                assert(bs[i] == blocks_in_rows(rv)[i] && bs[j] == blocks_in_rows(rv)[j]);
            }
            assert(bs.len() <= u32::MAX) by (nonlinear_arith)
                requires bs.len() <= rv.len() * MAX_MAP_DIM, rv.len() <= MAX_MAP_DIM;
            assert(in_bounds(m.player_position)) by {
                lemma_player_after_rows(rv, Position { x: 0, y: 0 });
            }
        }
        m
    }

    /// Parses one row of level text into row `line_idx`: each character sets
    /// its tile, each `*` adds a block, and an `@` places the player.
    pub fn parse_single_line(&mut self, line: &str, line_idx: usize)
        requires
            line_idx < MAX_MAP_DIM,
            line@.len() <= MAX_MAP_DIM,
        ensures
            forall|y: int, x: int|
                0 <= y < MAX_MAP_DIM && 0 <= x < MAX_MAP_DIM ==> #[trigger] final(self).map[y][x]
                    == if y == line_idx && x < line@.len() {
                    tile_for_char(line@[x])
                } else {
                    old(self).map[y][x]
                },
            final(self).movable_blocks@ == old(self).movable_blocks@ + blocks_in_line(
                line@,
                line_idx as int,
            ),
            final(self).player_position == player_after_line(
                line@,
                line_idx as int,
                old(self).player_position,
            ),
            final(self).movable_blocks_in_final_position
                == old(self).movable_blocks_in_final_position,
            final(self).id == old(self).id,
    {
        let chars = chars_of(line);
        let n = chars.len();
        let mut idx: usize = 0;
        while idx < n
            invariant
                n == chars@.len(),
                chars@ == line@,
                idx <= n,
                n <= MAX_MAP_DIM,
                line_idx < MAX_MAP_DIM,
                forall|y: int, x: int|
                    0 <= y < MAX_MAP_DIM && 0 <= x < MAX_MAP_DIM ==> #[trigger] self.map[y][x]
                        == if y == line_idx && x < idx {
                        tile_for_char(line@[x])
                    } else {
                        old(self).map[y][x]
                    },
                self.movable_blocks@ == old(self).movable_blocks@ + blocks_in_line(
                    line@.subrange(0, idx as int),
                    line_idx as int,
                ),
                self.player_position == player_after_line(
                    line@.subrange(0, idx as int),
                    line_idx as int,
                    old(self).player_position,
                ),
                self.movable_blocks_in_final_position
                    == old(self).movable_blocks_in_final_position,
                self.id == old(self).id,
            decreases n - idx,
        {
            let c = chars[idx];
            let ghost pre = line@.subrange(0, idx as int);
            let ghost post = line@.subrange(0, idx as int + 1);
            assert(post.drop_last() =~= pre);
            let mut tile = MapTile::Space;
            if c == 'X' {
                tile = MapTile::Wall;
            } else if c == '*' {
                self.movable_blocks.push(
                    MovableBlock { position: Position { y: line_idx as i32, x: idx as i32 } },
                );
            } else if c == '.' {
                tile = MapTile::TargetZone;
            } else if c == '@' {
                self.player_position = Position { x: idx as i32, y: line_idx as i32 };
            }
            self.map[line_idx][idx] = tile;
            proof {
                assert(self.movable_blocks@ =~= old(self).movable_blocks@ + blocks_in_line(
                    post,
                    line_idx as int,
                ));
            }
            idx = idx + 1;
        }
        assert(line@.subrange(0, n as int) =~= line@);
    }
}

/// The characters of `s`, in order.
pub fn chars_of(s: &str) -> (r: Vec<char>)
    ensures
        r@ == s@,
{
    let mut r: Vec<char> = Vec::new();
    for c in it: s.chars()
        invariant
            it.seq() == s@,
            r@ == it.seq().subrange(0, it.index() as int),
    {
        r.push(c);
    }
    r
}

} // verus!
