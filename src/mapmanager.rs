use vstd::prelude::*;

use crate::map::{GameMap, MAX_MAP_DIM, chars_of, level_parsed, rows_fit, rows_view};

verus! {

/// Pattern of a row of level text.
pub const MAP_ROW_PATTERN: &'static str = r"^[ X]+[ X*@\.&]+";

/// Pattern of the divider line that closes a level.
pub const DIVIDER_PATTERN: &'static str = r"^\*+";

/// Why level text could not be loaded.
#[derive(Debug, Clone, Copy, PartialEq, Eq, Structural)]
pub enum MapError {
    /// A level has more rows, or a row more cells, than the grid.
    LevelTooLarge,
    /// The text holds no level.
    NoLevels,
    /// There would be more levels than level numbers.
    TooManyLevels,
}

/// The levels that have been loaded, numbered in the order of the text.
pub struct MapManager {
    pub maps: Vec<GameMap>,
}

/// Whether a line is a row of level text, that is whether `MAP_ROW_PATTERN`
/// matches at its start: one or more of ` X`, then one of ` X*@.&`.
pub open spec fn is_map_row(l: Seq<char>) -> bool {
    &&& l.len() >= 2
    &&& (l[0] == ' ' || l[0] == 'X')
    &&& (l[1] == ' ' || l[1] == 'X' || l[1] == '*' || l[1] == '@' || l[1] == '.' || l[1] == '&')
}

/// Whether a line is a divider, that is whether `DIVIDER_PATTERN` matches at
/// its start: it begins with `*`.
pub open spec fn is_divider(l: Seq<char>) -> bool {
    l.len() >= 1 && l[0] == '*'
}

/// A line without the `\r` of a `\r\n` ending.
pub open spec fn strip_cr(l: Seq<char>) -> Seq<char> {
    if l.len() > 0 && l.last() == '\r' {
        l.drop_last()
    } else {
        l
    }
}

/// The lines of `s` that a `\n` has closed, and the line still open.
pub open spec fn scan_lines(s: Seq<char>) -> (Seq<Seq<char>>, Seq<char>)
    decreases s.len(),
{
    if s.len() == 0 {
        (Seq::empty(), Seq::empty())
    } else {
        let (done, cur) = scan_lines(s.drop_last());
        if s.last() == '\n' {
            (done.push(strip_cr(cur)), Seq::empty())
        } else {
            (done, cur.push(s.last()))
        }
    }
}

/// The lines of `s`: cut at each `\n`, with a `\r` just before it dropped; a
/// last line without `\n` counts when it is not empty.
pub open spec fn lines_of(s: Seq<char>) -> Seq<Seq<char>> {
    let (done, cur) = scan_lines(s);
    if cur.len() == 0 {
        done
    } else {
        done.push(cur)
    }
}

/// The levels that `lines` close with a divider, and the rows gathered since
/// the last divider. Lines that are neither rows nor dividers are skipped.
pub open spec fn scan_levels(lines: Seq<Seq<char>>) -> (Seq<Seq<Seq<char>>>, Seq<Seq<char>>)
    decreases lines.len(),
{
    if lines.len() == 0 {
        (Seq::empty(), Seq::empty())
    } else {
        let (done, cur) = scan_levels(lines.drop_last());
        let l = lines.last();
        if is_map_row(l) {
            (done, cur.push(l))
        } else if is_divider(l) {
            (done.push(cur), Seq::empty())
        } else {
            (done, cur)
        }
    }
}

/// The rows of each level of a level text, in order; rows after the last
/// divider belong to no level.
pub open spec fn levels_of(text: Seq<char>) -> Seq<Seq<Seq<char>>> {
    scan_levels(lines_of(text)).0
}

/// The result of loading a text whose levels are `levels` after `loaded`
/// levels: a level that does not fit the grid comes first, then a text
/// without levels, then more levels in all than there are level numbers.
pub open spec fn load_result(levels: Seq<Seq<Seq<char>>>, loaded: nat) -> Result<(), MapError> {
    if !all_fit(levels) {
        Err(MapError::LevelTooLarge)
    } else if levels.len() == 0 {
        Err(MapError::NoLevels)
    } else if loaded + levels.len() > u32::MAX {
        Err(MapError::TooManyLevels)
    } else {
        Ok(())
    }
}

/// Whether every level of `levels` fits the grid.
pub open spec fn all_fit(levels: Seq<Seq<Seq<char>>>) -> bool {
    forall|k: int| 0 <= k < levels.len() ==> rows_fit(#[trigger] levels[k])
}

/// Relies on str::lines: the text is cut at each `\n`, a `\r` just before a
/// `\n` is dropped, and a last line without `\n` is kept unless it is empty.
#[verifier::external_body]
fn text_lines<'a>(text: &'a str) -> (r: Vec<&'a str>)
    ensures
        rows_view(r@) == lines_of(text@),
{
    text.lines().collect()
}

/// A compiled regular expression of the regex crate.
#[verifier::external_type_specification]
#[verifier::external_body]
pub struct ExRegex(regex::Regex);

/// One of the two line patterns, compiled once, with the pattern it was
/// compiled from.
pub struct LinePattern {
    regex: regex::Regex,
    pattern: &'static str,
}

impl LinePattern {
    /// The pattern that the regular expression was compiled from.
    pub closed spec fn source(self) -> Seq<char> {
        self.pattern@
    }
}

/// Relies on regex::Regex::new, which compiles each of the two patterns
/// admitted here without error.
#[verifier::external_body]
fn compile_pattern(pattern: &'static str) -> (r: LinePattern)
    requires
        pattern@ == MAP_ROW_PATTERN@ || pattern@ == DIVIDER_PATTERN@,
    ensures
        r.source() == pattern@,
{
    LinePattern { regex: regex::Regex::new(pattern).unwrap(), pattern }
}

/// Relies on regex::Regex::is_match, which tells whether the pattern matches
/// somewhere in `text` (both patterns are anchored at the start by `^`).
#[verifier::external_body]
fn pattern_matches(p: &LinePattern, text: &str) -> (r: bool)
    ensures
        p.source() == MAP_ROW_PATTERN@ ==> r == is_map_row(text@),
        p.source() == DIVIDER_PATTERN@ ==> r == is_divider(text@),
{
    p.regex.is_match(text)
}

/// Whether `rows` fit the grid.
pub fn fits_grid(rows: &Vec<&str>) -> (r: bool)
    ensures
        r == rows_fit(rows_view(rows@)),
{
    let ghost rv = rows_view(rows@);
    if rows.len() > MAX_MAP_DIM {
        return false;
    }
    let mut i: usize = 0;
    while i < rows.len()
        invariant
            i <= rows@.len(),
            rv == rows_view(rows@),
            forall|k: int| 0 <= k < i ==> #[trigger] rv[k].len() <= MAX_MAP_DIM,
        decreases rows@.len() - i,
    {
        let n = chars_of(rows[i]).len();
        if n > MAX_MAP_DIM {
            assert(rv[i as int].len() > MAX_MAP_DIM);
            return false;
        }
        i = i + 1;
    }
    true
}

impl MapManager {
    /// Loads the levels of a level text after those already loaded, numbering
    /// them on from the number already loaded. Fails, loading nothing, when a
    /// level does not fit the grid, when the text holds no level, or when the
    /// levels would outnumber the level numbers.
    pub fn read_maps(&mut self, map_contents: &str) -> (r: Result<(), MapError>)
        ensures
            r == load_result(levels_of(map_contents@), old(self).maps@.len()),
            r is Err ==> final(self).maps@ == old(self).maps@,
            r is Ok ==> final(self).maps@.len() == old(self).maps@.len() + levels_of(
                map_contents@,
            ).len(),
            r is Ok ==> forall|i: int|
                0 <= i < old(self).maps@.len() ==> #[trigger] final(self).maps@[i]
                    == old(self).maps@[i],
            r is Ok ==> forall|k: int|
                0 <= k < levels_of(map_contents@).len() ==> level_parsed(
                    #[trigger] final(self).maps@[old(self).maps@.len() + k],
                    levels_of(map_contents@)[k],
                    (old(self).maps@.len() + k) as u32,
                ) && final(self).maps@[old(self).maps@.len() + k].wf(),
    {
        let regex_mapcontent = compile_pattern(MAP_ROW_PATTERN);
        let regex_divider = compile_pattern(DIVIDER_PATTERN);
        let lines = text_lines(map_contents);
        let ghost lv = rows_view(lines@);
        let base = self.maps.len();
        let mut too_large = false;
        let mut map_block: Vec<&str> = Vec::new();
        let mut i: usize = 0;
        while i < lines.len()
            invariant
                i <= lines@.len(),
                lv == rows_view(lines@),
                lv == lines_of(map_contents@),
                base == old(self).maps@.len(),
                regex_mapcontent.source() == MAP_ROW_PATTERN@,
                regex_divider.source() == DIVIDER_PATTERN@,
                rows_view(map_block@) == scan_levels(lv.subrange(0, i as int)).1,
                too_large == !all_fit(scan_levels(lv.subrange(0, i as int)).0),
                !too_large ==> self.maps@.len() == base + scan_levels(
                    lv.subrange(0, i as int),
                ).0.len(),
                self.maps@.len() >= base,
                forall|j: int| 0 <= j < base ==> #[trigger] self.maps@[j] == old(self).maps@[j],
                !too_large ==> forall|k: int|
                    0 <= k < scan_levels(lv.subrange(0, i as int)).0.len() ==> level_parsed(
                        #[trigger] self.maps@[base + k],
                        scan_levels(lv.subrange(0, i as int)).0[k],
                        (base + k) as u32,
                    ) && self.maps@[base + k].wf(),
            decreases lines@.len() - i,
        {
            let line = lines[i];
            let ghost pre = lv.subrange(0, i as int);
            let ghost post = lv.subrange(0, i as int + 1);
            proof {
                assert(post.drop_last() =~= pre);
                assert(post.last() == line@);
            }
            if pattern_matches(&regex_mapcontent, line) {
                map_block.push(line);
                proof {
                    assert(rows_view(map_block@) =~= scan_levels(pre).1.push(line@));
                }
            } else if pattern_matches(&regex_divider, line) {
                let ghost done = scan_levels(pre).0;
                let ghost cur = scan_levels(pre).1;
                assert(scan_levels(post).0 == done.push(cur));
                if fits_grid(&map_block) {
                    let id = self.maps.len() as u32;
                    let m = GameMap::from_rows(&map_block, id);
                    self.maps.push(m);
                } else {
                    too_large = true;
                    assert(!rows_fit(scan_levels(post).0[done.len() as int]));
                }
                proof {
                    let d2 = scan_levels(post).0;
                    if !too_large {
                        assert forall|k: int| 0 <= k < d2.len() implies rows_fit(#[trigger] d2[k]) by {
                            if k < done.len() {
                                assert(d2[k] == done[k]);
                            }
                        }
                    } else {
                        if !all_fit(done) {
                            let k = choose|k: int| 0 <= k < done.len() && !rows_fit(#[trigger] done[k]);
                            assert(d2[k] == done[k]);
                        }
                    }
                }
                map_block = Vec::new();
                assert(rows_view(map_block@) =~= Seq::<Seq<char>>::empty());
            }
            i = i + 1;
        }
        assert(lv.subrange(0, lines@.len() as int) =~= lv);
        if too_large {
            self.maps.truncate(base);
            assert(self.maps@ =~= old(self).maps@);
            return Err(MapError::LevelTooLarge);
        }
        if self.maps.len() == base {
            return Err(MapError::NoLevels);
        }
        if self.maps.len() > u32::MAX as usize {
            self.maps.truncate(base);
            assert(self.maps@ =~= old(self).maps@);
            return Err(MapError::TooManyLevels);
        }
        Ok(())
    }
}

} // verus!
