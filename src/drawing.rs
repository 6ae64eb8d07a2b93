use vstd::prelude::*;

use crate::map::{GameMap, MAX_MAP_DIM, MapTile};

verus! {

/// A display of levels, with the acquiring and releasing of the display
/// around a session.
pub trait Draw {
    fn setup(&self);

    fn draw(&mut self, map: &GameMap);

    fn teardown(&self);
}

/// The character that shows terrain `t`; blocks and the player are drawn on top.
pub open spec fn glyph(t: MapTile) -> char {
    match t {
        MapTile::Wall => 'X',
        MapTile::TargetZone => '.',
        _ => ' ',
    }
}

/// The characters that show row `y` of `tiles`.
pub open spec fn row_glyphs(tiles: [[MapTile; MAX_MAP_DIM]; MAX_MAP_DIM], y: int) -> Seq<char> {
    Seq::new(MAX_MAP_DIM as nat, |x: int| glyph(tiles[y][x]))
}

/// Whether row `y` of `tiles` shows nothing: no wall and no target zone.
pub open spec fn row_blank(tiles: [[MapTile; MAX_MAP_DIM]; MAX_MAP_DIM], y: int) -> bool {
    forall|x: int| 0 <= x < MAX_MAP_DIM ==> #[trigger] glyph(tiles[y][x]) == ' '
}

/// The character that shows terrain `t`.
fn glyph_of(t: MapTile) -> (r: char)
    ensures
        r == glyph(t),
{
    match t {
        MapTile::Wall => 'X',
        MapTile::TargetZone => '.',
        _ => ' ',
    }
}

/// The terrain rows to draw for `map`: rows from the top down to the first
/// blank row, that one included (all rows where none is blank), and the index
/// below which the help text goes: that of the blank row, or 0 where there is none.
pub fn terrain_rows(map: &GameMap) -> (r: (Vec<Vec<char>>, usize))
    ensures
        1 <= r.0@.len() <= MAX_MAP_DIM,
        forall|y: int| 0 <= y < r.0@.len() ==> (#[trigger] r.0@[y])@ == row_glyphs(map.map, y),
        forall|y: int| 0 <= y < r.0@.len() - 1 ==> !row_blank(map.map, y),
        r.0@.len() < MAX_MAP_DIM ==> row_blank(map.map, r.0@.len() - 1),
        r.1 == if row_blank(map.map, r.0@.len() - 1) {
            (r.0@.len() - 1) as usize
        } else {
            0usize
        },
{
    let mut rows: Vec<Vec<char>> = Vec::new();
    let mut map_dim: usize = 0;
    let mut y: usize = 0;
    while y < MAX_MAP_DIM
        invariant
            y <= MAX_MAP_DIM,
            rows@.len() == y,
            map_dim == 0,
            forall|k: int| 0 <= k < y ==> (#[trigger] rows@[k])@ == row_glyphs(map.map, k),
            forall|k: int| 0 <= k < y ==> !row_blank(map.map, k),
        decreases MAX_MAP_DIM - y,
    {
        let mut line: Vec<char> = Vec::new();
        let mut blank = true;
        let mut x: usize = 0;
        while x < MAX_MAP_DIM
            invariant
                y < MAX_MAP_DIM,
                x <= MAX_MAP_DIM,
                line@ == row_glyphs(map.map, y as int).subrange(0, x as int),
                blank == forall|k: int| 0 <= k < x ==> #[trigger] glyph(map.map[y as int][k]) == ' ',
            decreases MAX_MAP_DIM - x,
        {
            let c = glyph_of(map.map[y][x]);
            line.push(c);
            if c != ' ' {
                blank = false;
            }
            x = x + 1;
            assert(line@ =~= row_glyphs(map.map, y as int).subrange(0, x as int));
        }
        assert(line@ =~= row_glyphs(map.map, y as int));
        rows.push(line);
        if blank {
            map_dim = y;
            return (rows, map_dim);
        }
        y = y + 1;
    }
    (rows, map_dim)
}

} // verus!
