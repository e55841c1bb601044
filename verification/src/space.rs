//! The program space: a toroidal 2D grid of integer cells, together with
//! the instruction pointer's location and direction.
//!
//! Reads normalize their coordinates by modulo into the grid before
//! indexing, so they never go out of bounds. Writes index directly and are
//! guarded: a write whose target lies outside the grid is ignored (the
//! documented policy for the one fatal case on this path).

use vstd::prelude::*;
use vstd::arithmetic::div_mod::{
    lemma_fundamental_div_mod, lemma_fundamental_div_mod_converse_mod, lemma_mod_multiples_vanish,
};

verus! {

/// A direction of travel of the instruction pointer.
#[derive(Clone, Copy, Debug, PartialEq, Eq, Structural)]
pub enum Direction {
    North,
    South,
    East,
    West,
}

/// The unit delta of a direction: x grows to the East, y grows to the
/// South (rows are counted from the top of the source text).
pub open spec fn delta_of(d: Direction) -> (int, int) {
    match d {
        Direction::North => (0int, -1int),
        Direction::East => (1int, 0int),
        Direction::South => (0int, 1int),
        Direction::West => (-1int, 0int),
    }
}

/// A location in the program space: a signed (x, y) pair.
#[derive(Clone, Copy, Debug, PartialEq, Eq, Structural)]
pub struct Location(pub i64, pub i64);

impl Location {
    /// Add the direction's unit delta to this location.
    pub fn go(&mut self, direction: &Direction)
        requires
            i64::MIN < old(self).0 < i64::MAX,
            i64::MIN < old(self).1 < i64::MAX,
        ensures
            final(self).0 == old(self).0 + delta_of(*direction).0,
            final(self).1 == old(self).1 + delta_of(*direction).1,
    {
        match direction {
            Direction::North => {
                self.1 = self.1 - 1;
            },
            Direction::East => {
                self.0 = self.0 + 1;
            },
            Direction::South => {
                self.1 = self.1 + 1;
            },
            Direction::West => {
                self.0 = self.0 - 1;
            },
        }
    }

    /// Normalize both coordinates toroidally into `[0, w) x [0, h)`.
    pub fn constrain(&mut self, w: usize, h: usize)
        requires
            1 <= w <= i64::MAX,
            1 <= h <= i64::MAX,
        ensures
            final(self).0 == old(self).0 as int % w as int,
            final(self).1 == old(self).1 as int % h as int,
            0 <= final(self).0 < w,
            0 <= final(self).1 < h,
    {
        self.0 = wrap_coord(self.0, w as i64);
        self.1 = wrap_coord(self.1, h as i64);
    }
}

/// The toroidal remainder of `a` modulo `m`: always in `[0, m)`, also for
/// negative `a`, so a single step past an edge re-enters from the other.
fn wrap_coord(a: i64, m: i64) -> (r: i64)
    requires
        1 <= m,
    ensures
        r == a as int % m as int,
        0 <= r < m,
{
    if a >= 0 {
        let r = ((a as u64) % (m as u64)) as i64;
        r
    } else {
        let n: u128 = (-(a as i128)) as u128;
        let mm: u128 = m as u128;
        let rem: u128 = n % mm;
        let r: i64 = if rem == 0 {
            0
        } else {
            (mm - rem) as i64
        };
        proof {
            let ni = n as int;
            let mi = m as int;
            let q = ni / mi;
            lemma_fundamental_div_mod(ni, mi);
            assert(ni == mi * q + (ni % mi));
            if rem == 0 {
                assert((-q) * mi + 0 == -(mi * q)) by (nonlinear_arith);
                lemma_fundamental_div_mod_converse_mod(a as int, mi, -q, 0);
            } else {
                assert((-q - 1) * mi + (mi - ni % mi) == -(mi * q + ni % mi)) by (nonlinear_arith);
                lemma_fundamental_div_mod_converse_mod(a as int, mi, -q - 1, mi - ni % mi);
            }
        }
        r
    }
}

/// The cell that a read of (x, y) observes on a toroidal grid: coordinates
/// are reduced modulo the grid's dimensions before indexing.
pub open spec fn cell_at(grid: Seq<Seq<usize>>, x: int, y: int) -> usize {
    grid[y % (grid.len() as int)][x % (grid[0].len() as int)]
}

/// Toroidal addressing: shifting a coordinate by whole multiples of the
/// corresponding dimension reads the very same cell.
pub proof fn lemma_toroidal_wrap(grid: Seq<Seq<usize>>, x: int, y: int, k: int, l: int)
    requires
        grid.len() >= 1,
        grid[0].len() >= 1,
    ensures
        cell_at(grid, x + k * (grid[0].len() as int), y + l * (grid.len() as int)) == cell_at(
            grid,
            x,
            y,
        ),
{
    let w = grid[0].len() as int;
    let h = grid.len() as int;
    lemma_mod_multiples_vanish(k, x, w);
    lemma_mod_multiples_vanish(l, y, h);
}

/// The source text split at newline characters, as `str::lines` splits
/// it: a final newline closes the last line without opening a new one.
pub open spec fn split_lines(s: Seq<char>) -> Seq<Seq<char>>
    decreases s.len(),
{
    if s.len() == 0 {
        Seq::empty()
    } else if s[0] == '\n' {
        seq![Seq::<char>::empty()] + split_lines(s.skip(1))
    } else {
        let rest = split_lines(s.skip(1));
        if rest.len() == 0 {
            seq![seq![s[0]]]
        } else {
            seq![seq![s[0]] + rest[0]] + rest.skip(1)
        }
    }
}

/// The length of the longest line.
pub open spec fn max_line_len(lines: Seq<Seq<char>>) -> int
    decreases lines.len(),
{
    if lines.len() == 0 {
        0int
    } else {
        let m = max_line_len(lines.drop_last());
        if lines.last().len() > m {
            lines.last().len() as int
        } else {
            m
        }
    }
}

/// Grid width of a source text: the longest line, and at least 1 so that
/// even an empty source yields a well-formed (blank) space.
pub open spec fn grid_width(s: Seq<char>) -> int {
    let m = max_line_len(split_lines(s));
    if m < 1 {
        1int
    } else {
        m
    }
}

/// Grid height of a source text: the line count, and at least 1.
pub open spec fn grid_height(s: Seq<char>) -> int {
    let n = split_lines(s).len() as int;
    if n < 1 {
        1int
    } else {
        n
    }
}

/// The cell value the grid holds at (x, y) after construction from `s`:
/// the code point of the character there, or the blank cell 32 where the
/// line is shorter than the grid is wide (or past the last line).
pub open spec fn grid_cell(s: Seq<char>, x: int, y: int) -> usize {
    let lines = split_lines(s);
    if 0 <= y < lines.len() && 0 <= x < lines[y].len() {
        lines[y][x] as usize
    } else {
        32usize
    }
}

/// Splitting a nonempty text yields at least one line.
proof fn lemma_split_lines_nonempty(s: Seq<char>)
    requires
        s.len() > 0,
    ensures
        split_lines(s).len() >= 1,
    decreases s.len(),
{
    if s[0] != '\n' && s.len() > 1 {
        lemma_split_lines_nonempty(s.skip(1));
    }
}

/// How the split grows when one more character is read: a newline closes
/// the open line (opening an empty one if none was open), any other
/// character extends the open line (opening one if none was).
proof fn lemma_split_lines_push(s: Seq<char>, c: char)
    ensures
        ({
            let pre = split_lines(s);
            let post = split_lines(s.push(c));
            let open_line = s.len() > 0 && s.last() != '\n';
            if c == '\n' {
                if open_line {
                    post == pre
                } else {
                    post == pre.push(Seq::<char>::empty())
                }
            } else {
                if open_line {
                    post == pre.update(pre.len() - 1, pre.last().push(c))
                } else {
                    post == pre.push(seq![c])
                }
            }
        }),
    decreases s.len(),
{
    reveal_with_fuel(split_lines, 3);
    let pre = split_lines(s);
    let post = split_lines(s.push(c));
    if s.len() == 0 {
        assert(s.push(c) =~= seq![c]);
        if c == '\n' {
            assert(s.push(c).skip(1) =~= Seq::<char>::empty());
            assert(post =~= pre.push(Seq::<char>::empty()));
        } else {
            assert(s.push(c).skip(1) =~= Seq::<char>::empty());
            assert(post =~= pre.push(seq![c]));
        }
    } else {
        let t = s.skip(1);
        assert(s.push(c)[0] == s[0]);
        assert(s.push(c).skip(1) =~= t.push(c));
        lemma_split_lines_push(t, c);
        let rest = split_lines(t);
        let rest2 = split_lines(t.push(c));
        if t.len() > 0 {
            assert(t.last() == s.last());
            lemma_split_lines_nonempty(t);
        }
        if s[0] == '\n' {
            // pre == [empty] + rest, post == [empty] + rest2
            if t.len() == 0 {
                if c == '\n' {
                    assert(post =~= pre.push(Seq::<char>::empty()));
                } else {
                    assert(post =~= pre.push(seq![c]));
                }
            } else if c == '\n' {
                if t.last() != '\n' {
                    assert(post =~= pre);
                } else {
                    assert(post =~= pre.push(Seq::<char>::empty()));
                }
            } else {
                if t.last() != '\n' {
                    assert(rest.len() >= 1);
                    assert(pre.len() == 1 + rest.len());
                    assert(pre.last() == rest.last());
                    assert(post =~= pre.update(pre.len() - 1, pre.last().push(c)));
                } else {
                    assert(post =~= pre.push(seq![c]));
                }
            }
        } else {
            // s[0] is an ordinary character: it is prepended to the first
            // line of the split of the tail.
            if t.len() == 0 {
                // s == [s0], rest is empty, pre == [[s0]]
                assert(rest.len() == 0);
                if c == '\n' {
                    // rest2 == [empty]
                    assert(rest2 =~= seq![Seq::<char>::empty()]);
                    assert(seq![s[0]] + rest2[0] =~= seq![s[0]]);
                    assert(post =~= seq![seq![s[0]] + rest2[0]] + rest2.skip(1));
                    assert(post =~= pre);
                } else {
                    assert(rest2 =~= seq![seq![c]]);
                    assert(seq![s[0]] + rest2[0] =~= seq![s[0], c]);
                    assert(pre.last().push(c) =~= seq![s[0], c]);
                    assert(post =~= pre.update(pre.len() - 1, pre.last().push(c)));
                }
            } else {
                assert(rest.len() >= 1);
                assert(pre =~= seq![seq![s[0]] + rest[0]] + rest.skip(1));
                if c == '\n' && t.last() != '\n' {
                    assert(rest2 == rest);
                    assert(post =~= pre);
                } else if c == '\n' {
                    assert(rest2 == rest.push(Seq::<char>::empty()));
                    assert(rest2[0] == rest[0]);
                    assert(rest2.skip(1) =~= rest.skip(1).push(Seq::<char>::empty()));
                    assert(post =~= pre.push(Seq::<char>::empty()));
                } else if t.last() != '\n' {
                    assert(rest2 == rest.update(rest.len() - 1, rest.last().push(c)));
                    if rest.len() == 1 {
                        assert(rest2[0] == rest[0].push(c));
                        assert(seq![s[0]] + rest[0].push(c) =~= (seq![s[0]] + rest[0]).push(c));
                        assert(rest2.skip(1) =~= rest.skip(1));
                        assert(pre.len() == 1);
                        assert(pre.last() == seq![s[0]] + rest[0]);
                        assert(post =~= pre.update(pre.len() - 1, pre.last().push(c)));
                    } else {
                        assert(rest2[0] == rest[0]);
                        assert(rest2.skip(1) =~= rest.skip(1).update(rest.len() - 2, rest.last().push(c)));
                        assert(pre.len() == rest.len());
                        assert(pre.last() == rest.last());
                        assert(post =~= pre.update(pre.len() - 1, pre.last().push(c)));
                    }
                } else {
                    assert(rest2 == rest.push(seq![c]));
                    assert(rest2[0] == rest[0]);
                    assert(rest2.skip(1) =~= rest.skip(1).push(seq![c]));
                    assert(post =~= pre.push(seq![c]));
                }
            }
        }
    }
}

/// Every line is at most as long as the longest one.
proof fn lemma_max_line_len_bound(lines: Seq<Seq<char>>, y: int)
    requires
        0 <= y < lines.len(),
    ensures
        lines[y].len() <= max_line_len(lines),
    decreases lines.len(),
{
    if y < lines.len() - 1 {
        lemma_max_line_len_bound(lines.drop_last(), y);
    }
}

/// A grid row of the given width: the line's code points, padded with
/// blank cells where the line is shorter than the grid is wide.
spec fn padded_row(r: Seq<usize>, l: Seq<char>, width: int) -> bool {
    &&& r.len() == width
    &&& forall|x: int|
        0 <= x < width ==> r[x] == (if 0 <= x < l.len() {
            l[x] as usize
        } else {
            32usize
        })
}

/// A row of cells holding exactly the code points of a line of text.
spec fn row_match(r: Seq<usize>, l: Seq<char>) -> bool {
    &&& r.len() == l.len()
    &&& forall|x: int| 0 <= x < l.len() ==> r[x] == #[trigger] l[x] as usize
}

/// Rows of cells holding exactly the code points of lines of text.
spec fn rows_match(rs: Seq<Vec<usize>>, ls: Seq<Seq<char>>) -> bool {
    &&& rs.len() == ls.len()
    &&& forall|y: int| 0 <= y < ls.len() ==> row_match(#[trigger] rs[y]@, ls[y])
}

/// An element-wise copy of a row of cells.
fn copy_row(v: &Vec<usize>) -> (r: Vec<usize>)
    ensures
        r@ == v@,
{
    let mut r: Vec<usize> = Vec::new();
    let mut i: usize = 0;
    while i < v.len()
        invariant
            i <= v.len(),
            r@ == v@.take(i as int),
        decreases v.len() - i,
    {
        r.push(v[i]);
        i += 1;
        proof {
            assert(r@ =~= v@.take(i as int));
        }
    }
    proof {
        assert(r@ =~= v@);
    }
    r
}

/// The program space: a fixed-size toroidal grid of cells, one per source
/// character, padded with blank cells (code 32).
#[derive(Debug)]
pub struct Space {
    points: Vec<Vec<usize>>,
}

impl View for Space {
    type V = Seq<Seq<usize>>;

    closed spec fn view(&self) -> Seq<Seq<usize>> {
        Seq::new(self.points@.len(), |y: int| self.points@[y]@)
    }
}

impl Space {
    /// The grid's height: its number of rows.
    pub open spec fn spec_height(&self) -> int {
        self@.len() as int
    }

    /// The grid's width: the length of each of its rows.
    pub open spec fn spec_width(&self) -> int {
        self@[0].len() as int
    }

    /// Well-formed: at least one cell, rectangular, and with dimensions a
    /// signed 64-bit coordinate can always be reduced into.
    pub open spec fn wf(&self) -> bool {
        &&& 1 <= self.spec_height() <= i64::MAX
        &&& 1 <= self.spec_width() <= i64::MAX
        &&& forall|y: int| 0 <= y < self@.len() ==> #[trigger] self@[y].len() == self.spec_width()
    }

    /// Whether (x, y) indexes the grid directly, without normalization.
    pub open spec fn in_bounds(&self, x: int, y: int) -> bool {
        0 <= x < self.spec_width() && 0 <= y < self.spec_height()
    }

    /// The grid's dimensions, width first.
    pub fn dims(&self) -> (r: (usize, usize))
        requires
            self.wf(),
        ensures
            r.0 == self.spec_width(),
            r.1 == self.spec_height(),
    {
        (self.points[0].len(), self.points.len())
    }

    /// Read a cell; the location is normalized toroidally first, so a read
    /// always succeeds.
    pub fn get(&self, at: &Location) -> (r: usize)
        requires
            self.wf(),
        ensures
            r == cell_at(self@, at.0 as int, at.1 as int),
    {
        let mut loc = Location(at.0, at.1);
        let (w, h) = self.dims();
        loc.constrain(w, h);
        proof {
            assert(self@.len() == self.points@.len());
            assert(self@[loc.1 as int] == self.points@[loc.1 as int]@);
        }
        self.points[loc.1 as usize][loc.0 as usize]
    }

    /// Write a cell at (x, y) directly, with no normalization; a write
    /// whose target lies outside the grid is ignored (the guarded policy).
    pub fn set(&mut self, value: usize, at: Location)
        requires
            old(self).wf(),
        ensures
            final(self).wf(),
            old(self).in_bounds(at.0 as int, at.1 as int) ==> final(self)@ == old(self)@.update(
                at.1 as int,
                old(self)@[at.1 as int].update(at.0 as int, value),
            ),
            !old(self).in_bounds(at.0 as int, at.1 as int) ==> final(self)@ == old(self)@,
    {
        let (w, h) = self.dims();
        if 0 <= at.0 && at.0 < w as i64 && 0 <= at.1 && at.1 < h as i64 {
            let x = at.0 as usize;
            let y = at.1 as usize;
            proof {
                assert(self@.len() == self.points@.len());
                assert(self@[y as int] == self.points@[y as int]@);
            }
            self.points[y][x] = value;
            proof {
                assert(final(self)@ =~= old(self)@.update(
                    at.1 as int,
                    old(self)@[at.1 as int].update(at.0 as int, value),
                ));
            }
        } else {
            proof {
                assert(final(self)@ =~= old(self)@);
            }
        }
    }

    /// Build the space from source text: width is the longest line, height
    /// the line count, cells are the characters' code points, shorter
    /// lines are padded with blanks. An empty source yields a single blank
    /// cell, so the space is always well-formed.
    pub fn new(code: &str) -> (s: Space)
        requires
            code@.len() < i64::MAX,
        ensures
            s.wf(),
            s.spec_width() == grid_width(code@),
            s.spec_height() == grid_height(code@),
            forall|x: int, y: int|
                0 <= x < s.spec_width() && 0 <= y < s.spec_height() ==> s@[y][x] == grid_cell(
                    code@,
                    x,
                    y,
                ),
    {
        let ghost src = code@;
        let n = code.unicode_len();
        let mut rows: Vec<Vec<usize>> = Vec::new();
        let mut cur: Vec<usize> = Vec::new();
        let mut max_len: usize = 0;
        let mut at_start: bool = true;
        let mut i: usize = 0;
        while i < n
            invariant
                src == code@,
                n == src.len(),
                n < i64::MAX,
                i <= n,
                at_start <==> (i == 0 || src[i as int - 1] == '\n'),
                at_start ==> rows_match(rows@, split_lines(src.take(i as int))) && cur@.len() == 0
                    && max_len == max_line_len(split_lines(src.take(i as int))),
                !at_start ==> ({
                    let lns = split_lines(src.take(i as int));
                    &&& lns.len() >= 1
                    &&& rows_match(rows@, lns.drop_last())
                    &&& row_match(cur@, lns.last())
                    &&& max_len == max_line_len(lns.drop_last())
                }),
                rows@.len() <= i,
                max_len <= i,
                cur@.len() <= i,
            decreases n - i,
        {
            let c = code.get_char(i);
            proof {
                assert(src.take(i as int + 1) =~= src.take(i as int).push(src[i as int]));
                lemma_split_lines_push(src.take(i as int), c);
                if i > 0 {
                    assert(src.take(i as int).last() == src[i as int - 1]);
                }
            }
            let ghost pre = split_lines(src.take(i as int));
            let ghost post = split_lines(src.take(i as int + 1));
            if c == '\n' {
                if cur.len() > max_len {
                    max_len = cur.len();
                }
                rows.push(cur);
                cur = Vec::new();
                proof {
                    if at_start {
                        assert(post == pre.push(Seq::<char>::empty()));
                        assert(post.drop_last() =~= pre);
                        assert(rows_match(rows@, post));
                    } else {
                        assert(post == pre);
                        assert(pre.drop_last().push(pre.last()) =~= pre);
                        assert(rows_match(rows@, post));
                        assert(post.drop_last().push(post.last()) =~= post);
                        assert(max_len == max_line_len(post));
                    }
                }
                at_start = true;
            } else {
                cur.push(c as usize);
                proof {
                    if at_start {
                        assert(post == pre.push(seq![c]));
                        assert(post.drop_last() =~= pre);
                        assert(row_match(cur@, post.last()));
                    } else {
                        assert(post == pre.update(pre.len() - 1, pre.last().push(c)));
                        assert(post.drop_last() =~= pre.drop_last());
                        assert(post.last() == pre.last().push(c));
                        assert(row_match(cur@, post.last()));
                    }
                }
                at_start = false;
            }
            i += 1;
        }
        proof {
            assert(src.take(n as int) =~= src);
        }
        let ghost lines = split_lines(src);
        if !at_start {
            if cur.len() > max_len {
                max_len = cur.len();
            }
            rows.push(cur);
            proof {
                assert(lines.drop_last().push(lines.last()) =~= lines);
                assert(rows_match(rows@, lines));
                assert(max_len == max_line_len(lines));
            }
        }
        let width: usize = if max_len == 0 {
            1
        } else {
            max_len
        };
        let mut points: Vec<Vec<usize>> = Vec::new();
        if rows.len() == 0 {
            let mut row: Vec<usize> = Vec::new();
            while row.len() < width
                invariant
                    row@.len() <= width,
                    forall|x: int| 0 <= x < row@.len() ==> row@[x] == 32usize,
                decreases width - row@.len(),
            {
                row.push(32);
            }
            points.push(row);
            proof {
                assert(points@[0]@ == row@);
                assert forall|x: int| 0 <= x < width implies points@[0]@[x] == 32usize by {
                    assert(row@[x] == 32usize);
                }
                assert(points@[0]@.len() == width as int);
            }
        } else {
            let mut y: usize = 0;
            while y < rows.len()
                invariant
                    rows_match(rows@, lines),
                    max_len == max_line_len(lines),
                    max_len <= width,
                    y <= rows.len(),
                    points@.len() == y as int,
                    forall|yy: int|
                        0 <= yy < y ==> padded_row(
                            #[trigger] points@[yy]@,
                            lines[yy],
                            width as int,
                        ),
                decreases rows@.len() - y,
            {
                proof {
                    lemma_max_line_len_bound(lines, y as int);
                    assert(rows@[y as int]@.len() == lines[y as int].len());
                }
                let mut row = copy_row(&rows[y]);
                while row.len() < width
                    invariant
                        rows@[y as int]@.len() <= width as int,
                        row@.len() <= width || row@ == rows@[y as int]@,
                        row@.take(rows@[y as int]@.len() as int) == rows@[y as int]@,
                        rows@[y as int]@.len() <= row@.len(),
                        forall|x: int|
                            rows@[y as int]@.len() <= x < row@.len() ==> row@[x] == 32usize,
                    decreases width - row@.len(),
                {
                    row.push(32);
                    proof {
                        assert(row@.take(rows@[y as int]@.len() as int) =~= rows@[y as int]@);
                    }
                }
                proof {
                    assert(row@.len() == width as int);
                    let ghost line = lines[y as int];
                    assert forall|x: int| 0 <= x < width implies row@[x] == (if 0 <= x
                        < line.len() {
                        line[x] as usize
                    } else {
                        32usize
                    }) by {
                        assert(row_match(rows@[y as int]@, line));
                        if 0 <= x < line.len() {
                            assert(row@.take(rows@[y as int]@.len() as int)[x] == row@[x]);
                            assert(rows@[y as int]@[x] == line[x] as usize);
                        } else {
                            assert(row@[x] == 32usize);
                        }
                    }
                    assert(padded_row(row@, line, width as int));
                }
                points.push(row);
                proof {
                    assert(points@[y as int]@ == row@);
                    assert(padded_row(points@[y as int]@, lines[y as int], width as int));
                }
                y += 1;
            }
        }
        let s = Space { points };
        proof {
            assert(s@.len() == points@.len());
            assert forall|yy: int| 0 <= yy < s@.len() implies #[trigger] s@[yy].len()
                == width as int by {
                assert(s@[yy] == points@[yy]@);
                if lines.len() > 0 {
                    assert(padded_row(points@[yy]@, lines[yy], width as int));
                }
            }
            assert forall|x: int, y: int|
                0 <= x < s.spec_width() && 0 <= y < s.spec_height() implies s@[y][x] == grid_cell(
                src,
                x,
                y,
            ) by {
                assert(s@[0].len() == width as int);
                assert(s@[y] == points@[y]@);
                if lines.len() == 0 {
                    assert(points@[0]@[x] == 32usize);
                } else {
                    assert(padded_row(points@[y]@, lines[y], width as int));
                }
            }
        }
        s
    }
}

impl Clone for Space {
    /// An exact copy: the clone holds the same grid contents.
    fn clone(&self) -> (r: Self)
        ensures
            r@ == self@,
    {
        let mut points: Vec<Vec<usize>> = Vec::new();
        let mut y: usize = 0;
        while y < self.points.len()
            invariant
                y <= self.points@.len(),
                points@.len() == y as int,
                forall|k: int| 0 <= k < y ==> #[trigger] points@[k]@ == self.points@[k]@,
            decreases self.points@.len() - y,
        {
            points.push(copy_row(&self.points[y]));
            y += 1;
        }
        let r = Space { points };
        proof {
            assert(r@ =~~= self@);
        }
        r
    }
}

} // verus!
