//! The rectangular grid of instruction bytes, with parsing and
//! start-cell discovery.

use vstd::prelude::*;
use crate::Coord;
use crate::inst;
use crate::ports::EngineError;

verus! {

/// Line feed: the separator between source lines.
pub const NL: u8 = 0x0a;
/// Carriage return: stripped when it stands right before a line feed.
pub const CR: u8 = 0x0d;

/// A carriage return at the very end of a line is dropped, as the usual
/// line iteration of a text does for `\r\n` endings.
pub open spec fn strip_cr(l: Seq<u8>) -> Seq<u8> {
    if l.len() > 0 && l[l.len() - 1] == CR {
        l.drop_last()
    } else {
        l
    }
}

/// The lines of `s` from position `i` on, with `cur` the part of the
/// current line already consumed.  A trailing line without a final line
/// feed still counts; a final line feed adds no empty line.
pub open spec fn lines_from(s: Seq<u8>, i: int, cur: Seq<u8>) -> Seq<Seq<u8>>
    decreases s.len() - i,
{
    if i < 0 || i >= s.len() {
        if cur.len() > 0 {
            seq![cur]
        } else {
            Seq::empty()
        }
    } else if s[i] == NL {
        seq![strip_cr(cur)] + lines_from(s, i + 1, Seq::empty())
    } else {
        lines_from(s, i + 1, cur.push(s[i]))
    }
}

/// The lines of a source text, split at line feeds.
pub open spec fn source_lines(s: Seq<u8>) -> Seq<Seq<u8>> {
    lines_from(s, 0, Seq::empty())
}

/// The length of the longest of the given lines; 0 of none.
pub open spec fn max_width(ls: Seq<Seq<u8>>) -> nat
    decreases ls.len(),
{
    if ls.len() == 0 {
        0
    } else {
        let rest = max_width(ls.drop_last());
        if ls.last().len() > rest {
            ls.last().len()
        } else {
            rest
        }
    }
}

/// No line is longer than the longest line.
pub proof fn lemma_max_width_ge(ls: Seq<Seq<u8>>, i: int)
    requires
        0 <= i < ls.len(),
    ensures
        ls[i].len() <= max_width(ls),
    decreases ls.len(),
{
    if i == ls.len() - 1 {
    } else {
        lemma_max_width_ge(ls.drop_last(), i);
    }
}

/// Every byte of every given line satisfies the cell validity predicate.
pub open spec fn all_lines_valid(ls: Seq<Seq<u8>>) -> bool {
    forall|i: int, j: int|
        0 <= i < ls.len() && 0 <= j < ls[i].len() ==> inst::valid_byte(#[trigger] ls[i][j])
}

/// The text form of the given rows: each row's bytes followed by a
/// line feed.
pub open spec fn rendered(rows: Seq<Seq<u8>>) -> Seq<u8>
    decreases rows.len(),
{
    if rows.len() == 0 {
        Seq::empty()
    } else {
        rendered(rows.drop_last()) + rows.last() + seq![NL]
    }
}

/// `a` comes strictly before `b` in the top-to-bottom, left-to-right scan.
pub open spec fn scan_before(a: Coord, b: Coord) -> bool {
    a.1 < b.1 || (a.1 == b.1 && a.0 < b.0)
}

/// The 2D array of instruction bytes constituting program text.
///
/// After construction every row has the same length, and every stored
/// byte is blank or printable-graphic ASCII.
#[derive(Debug, Clone)]
pub struct CodeGrid {
    pub rows: Vec<Vec<u8>>,
}

impl CodeGrid {
    /// Number of rows.
    pub open spec fn height(self) -> nat {
        self.rows@.len()
    }

    /// Length of the first row; with the rectangularity invariant, of
    /// every row.
    pub open spec fn width(self) -> nat {
        if self.rows@.len() == 0 {
            0
        } else {
            self.rows@[0]@.len()
        }
    }

    /// The coordinate addresses a stored cell.
    pub open spec fn in_bounds(self, c: Coord) -> bool {
        c.1 < self.rows@.len() && c.0 < self.rows@[c.1 as int]@.len()
    }

    /// The byte stored at an in-bounds coordinate.
    pub open spec fn at(self, c: Coord) -> u8 {
        self.rows@[c.1 as int]@[c.0 as int]
    }

    /// The construction invariant: every row has the same length and
    /// every byte is blank or printable-graphic ASCII.
    pub open spec fn wf(self) -> bool {
        &&& forall|y: int|
            0 <= y < self.rows@.len() ==> (#[trigger] self.rows@[y])@.len() == self.width()
        &&& forall|y: int, x: int|
            0 <= y < self.rows@.len() && 0 <= x < self.rows@[y]@.len()
                ==> inst::valid_byte(#[trigger] self.rows@[y]@[x])
    }

    /// An explicit start marker stands at `c`.
    pub open spec fn start_at(self, c: Coord) -> bool {
        self.in_bounds(c) && self.at(c) == inst::START
    }

    /// A non-blank byte stands at `c`.
    pub open spec fn nonblank_at(self, c: Coord) -> bool {
        self.in_bounds(c) && self.at(c) != inst::BLANK
    }

    /// Every stored cell is blank.
    pub open spec fn all_blank(self) -> bool {
        forall|c: Coord| self.in_bounds(c) ==> self.at(c) == inst::BLANK
    }

    /// The cell that start discovery picks: the scan-first explicit
    /// marker, or, when no marker exists, the scan-first non-blank cell.
    pub open spec fn start_choice(self, c: Coord) -> bool {
        &&& self.nonblank_at(c)
        &&& (exists|c2: Coord| self.start_at(c2))
            ==> (self.start_at(c)
                && forall|c2: Coord| self.start_at(c2) ==> !scan_before(c2, c))
        &&& !(exists|c2: Coord| self.start_at(c2))
            ==> (forall|c2: Coord| self.nonblank_at(c2) ==> !scan_before(c2, c))
    }

    /// Builds a grid from source text: splits it into lines, rejects any
    /// byte that is neither blank nor printable-graphic ASCII, and pads
    /// every row with blanks to the longest line's length.
    pub fn parse(src: &[u8]) -> (r: Result<CodeGrid, EngineError>)
        ensures
            ({
                let ls = source_lines(src@);
                match r {
                    Ok(g) => {
                        &&& all_lines_valid(ls)
                        &&& g.wf()
                        &&& g.rows@.len() == ls.len()
                        &&& forall|y: int|
                            0 <= y < ls.len()
                                ==> (#[trigger] g.rows@[y])@.len() == max_width(ls)
                        &&& forall|y: int, x: int|
                            0 <= y < ls.len() && 0 <= x < ls[y].len()
                                ==> #[trigger] g.rows@[y]@[x] == ls[y][x]
                        &&& forall|y: int, x: int|
                            0 <= y < ls.len() && ls[y].len() <= x < max_width(ls)
                                ==> #[trigger] g.rows@[y]@[x] == inst::BLANK
                    },
                    Err(e) => {
                        &&& e == EngineError::InvalidChar
                        &&& !all_lines_valid(ls)
                    },
                }
            }),
    {
        let n = src.len();
        let mut lines: Vec<Vec<u8>> = Vec::new();
        let mut cur: Vec<u8> = Vec::new();
        let mut i: usize = 0;
        while i < n
            invariant
                i <= n,
                n == src@.len(),
                source_lines(src@)
                    =~= lines@.map_values(|v: Vec<u8>| v@) + lines_from(src@, i as int, cur@),
            decreases n - i,
        {
            let b = src[i];
            if b == NL {
                if cur.len() > 0 && cur[cur.len() - 1] == CR {
                    cur.pop();
                }
                let ghost lines0 = lines@;
                let ghost cur0 = cur@;
                lines.push(cur);
                cur = Vec::new();
                proof {
                    assert(lines@.map_values(|v: Vec<u8>| v@)
                        =~= lines0.map_values(|v: Vec<u8>| v@).push(cur0));
                }
            } else {
                cur.push(b);
            }
            i += 1;
        }
        if cur.len() > 0 {
            let ghost lines0 = lines@;
            let ghost cur0 = cur@;
            lines.push(cur);
            proof {
                assert(lines@.map_values(|v: Vec<u8>| v@)
                    =~= lines0.map_values(|v: Vec<u8>| v@).push(cur0));
            }
        }
        let ghost ls = source_lines(src@);
        proof {
            assert(ls =~= lines@.map_values(|v: Vec<u8>| v@));
        }

        // Validate every byte and find the widest line.
        let mut width: usize = 0;
        let mut y: usize = 0;
        while y < lines.len()
            invariant
                y <= lines@.len(),
                ls == source_lines(src@),
                ls == lines@.map_values(|v: Vec<u8>| v@),
                width == max_width(ls.take(y as int)),
                forall|i2: int, j: int|
                    0 <= i2 < y && 0 <= j < ls[i2].len()
                        ==> inst::valid_byte(#[trigger] ls[i2][j]),
            decreases lines@.len() - y,
        {
            let row = &lines[y];
            let mut x: usize = 0;
            while x < row.len()
                invariant
                    x <= row@.len(),
                    ls == source_lines(src@),
                    row@ == ls[y as int],
                    y < ls.len(),
                    forall|j: int| 0 <= j < x ==> inst::valid_byte(#[trigger] row@[j]),
                decreases row@.len() - x,
            {
                if !inst::is_valid(row[x]) {
                    proof {
                        assert(!inst::valid_byte(ls[y as int][x as int]));
                        assert(!all_lines_valid(ls));
                    }
                    return Err(EngineError::InvalidChar);
                }
                x += 1;
            }
            if row.len() > width {
                width = row.len();
            }
            proof {
                assert(ls.take(y as int + 1).drop_last() =~= ls.take(y as int));
                assert(ls.take(y as int + 1).last() == ls[y as int]);
            }
            y += 1;
        }
        proof {
            assert(ls.take(lines@.len() as int) =~= ls);
        }

        // Pad every line with blanks to the common width.
        let mut rows: Vec<Vec<u8>> = Vec::new();
        let mut y2: usize = 0;
        while y2 < lines.len()
            invariant
                y2 <= lines@.len(),
                ls == lines@.map_values(|v: Vec<u8>| v@),
                width == max_width(ls),
                rows@.len() == y2,
                forall|i2: int|
                    0 <= i2 < y2 ==> (#[trigger] rows@[i2])@.len() == width,
                forall|i2: int, j: int|
                    0 <= i2 < y2 && 0 <= j < ls[i2].len()
                        ==> #[trigger] rows@[i2]@[j] == ls[i2][j],
                forall|i2: int, j: int|
                    0 <= i2 < y2 && ls[i2].len() <= j < width
                        ==> #[trigger] rows@[i2]@[j] == inst::BLANK,
            decreases lines@.len() - y2,
        {
            proof {
                lemma_max_width_ge(ls, y2 as int);
            }
            let src_row = &lines[y2];
            let mut row: Vec<u8> = Vec::new();
            let mut x: usize = 0;
            while x < src_row.len()
                invariant
                    x <= src_row@.len(),
                    row@ =~= src_row@.take(x as int),
                decreases src_row@.len() - x,
            {
                let v = src_row[x];
                row.push(v);
                x += 1;
            }
            while row.len() < width
                invariant
                    src_row@.len() <= row@.len(),
                    forall|j: int| 0 <= j < src_row@.len() ==> #[trigger] row@[j] == src_row@[j],
                    forall|j: int|
                        src_row@.len() <= j < row@.len() ==> #[trigger] row@[j] == inst::BLANK,
                    row@.len() <= width || row@.len() == src_row@.len(),
                decreases width - row.len(),
            {
                row.push(inst::BLANK);
            }
            rows.push(row);
            y2 += 1;
        }
        Ok(CodeGrid { rows })
    }

    /// The byte at `c`, or `None` when either axis is out of bounds:
    /// absence is the engine's edge signal, never a default byte.
    pub fn get(&self, c: Coord) -> (r: Option<u8>)
        ensures
            r == (if self.in_bounds(c) {
                Some(self.at(c))
            } else {
                None::<u8>
            }),
    {
        if c.1 < self.rows.len() {
            let row = &self.rows[c.1];
            if c.0 < row.len() {
                Some(row[c.0])
            } else {
                None
            }
        } else {
            None
        }
    }

    /// Overwrites the cell at `c`; the byte must be blank or
    /// printable-graphic ASCII, and the coordinate in bounds.
    pub fn set(&mut self, c: Coord, i: u8)
        requires
            old(self).in_bounds(c),
            inst::valid_byte(i),
        ensures
            final(self).rows@.len() == old(self).rows@.len(),
            forall|y: int|
                0 <= y < old(self).rows@.len()
                    ==> (#[trigger] final(self).rows@[y])@.len() == old(self).rows@[y]@.len(),
            forall|c2: Coord| final(self).in_bounds(c2) == old(self).in_bounds(c2),
            forall|c2: Coord|
                old(self).in_bounds(c2)
                    ==> final(self).at(c2) == (if c2 == c { i } else { old(self).at(c2) }),
            old(self).wf() ==> final(self).wf(),
    {
        let ghost before = *self;
        self.rows[c.1][c.0] = i;
        proof {
            assert forall|c2: Coord| self.in_bounds(c2) == before.in_bounds(c2) by {
                if c2.1 != c.1 && c2.1 < self.rows@.len() {
                    assert(self.rows@[c2.1 as int] == before.rows@[c2.1 as int]);
                }
            }
            assert forall|c2: Coord| before.in_bounds(c2)
                implies self.at(c2) == (if c2 == c { i } else { before.at(c2) }) by {
                if c2.1 != c.1 && c2.1 < self.rows@.len() {
                    assert(self.rows@[c2.1 as int] == before.rows@[c2.1 as int]);
                }
            }
            if before.wf() {
                assert forall|y: int, x: int|
                    0 <= y < self.rows@.len() && 0 <= x < self.rows@[y]@.len()
                        implies inst::valid_byte(#[trigger] self.rows@[y]@[x]) by {
                    if y == c.1 as int {
                        if x != c.0 as int {
                            assert(self.rows@[y]@[x] == before.rows@[y]@[x]);
                        }
                    } else {
                        assert(self.rows@[y] == before.rows@[y]);
                    }
                }
            }
        }
    }

    /// Reports (row count, width of the first row): with the
    /// rectangularity invariant, (row count, common width).
    pub fn size(&self) -> (r: Coord)
        ensures
            r.0 == self.height(),
            r.1 == self.width(),
    {
        let h = self.rows.len();
        let w = if h == 0 {
            0
        } else {
            self.rows[0].len()
        };
        (h, w)
    }

    /// Truncates or extends the grid to `c.1` rows of `c.0` cells each,
    /// blank-filling every cell that was not stored before.
    pub fn resize(&mut self, c: Coord)
        ensures
            final(self).rows@.len() == c.1,
            forall|y: int| 0 <= y < c.1 ==> (#[trigger] final(self).rows@[y])@.len() == c.0,
            forall|y: int, x: int|
                0 <= y < c.1 && 0 <= x < c.0
                    ==> #[trigger] final(self).rows@[y]@[x]
                        == (if old(self).in_bounds((x as usize, y as usize)) {
                            old(self).at((x as usize, y as usize))
                        } else {
                            inst::BLANK
                        }),
            old(self).wf() ==> final(self).wf(),
    {
        let mut rows: Vec<Vec<u8>> = Vec::new();
        let mut y: usize = 0;
        while y < c.1
            invariant
                y <= c.1,
                rows@.len() == y,
                forall|y2: int| 0 <= y2 < y ==> (#[trigger] rows@[y2])@.len() == c.0,
                forall|y2: int, x: int|
                    0 <= y2 < y && 0 <= x < c.0
                        ==> #[trigger] rows@[y2]@[x]
                            == (if old(self).in_bounds((x as usize, y2 as usize)) {
                                old(self).at((x as usize, y2 as usize))
                            } else {
                                inst::BLANK
                            }),
            decreases c.1 - y,
        {
            let mut row: Vec<u8> = Vec::new();
            let mut x: usize = 0;
            while x < c.0
                invariant
                    x <= c.0,
                    row@.len() == x,
                    forall|x2: int|
                        0 <= x2 < x
                            ==> #[trigger] row@[x2]
                                == (if old(self).in_bounds((x2 as usize, y as usize)) {
                                    old(self).at((x2 as usize, y as usize))
                                } else {
                                    inst::BLANK
                                }),
                decreases c.0 - x,
            {
                let b = if y < self.rows.len() {
                    let r = &self.rows[y];
                    if x < r.len() {
                        r[x]
                    } else {
                        inst::BLANK
                    }
                } else {
                    inst::BLANK
                };
                row.push(b);
                x += 1;
            }
            rows.push(row);
            y += 1;
        }
        self.rows = rows;
        proof {
            if old(self).wf() {
                assert forall|y2: int, x: int|
                    0 <= y2 < self.rows@.len() && 0 <= x < self.rows@[y2]@.len()
                        implies inst::valid_byte(#[trigger] self.rows@[y2]@[x]) by {
                    if old(self).in_bounds((x as usize, y2 as usize)) {
                        assert(inst::valid_byte(old(self).rows@[y2]@[x]));
                    }
                }
            }
        }
    }

    /// Overwrites every stored cell with the blank byte, keeping the shape.
    pub fn reset(&mut self)
        ensures
            final(self).rows@.len() == old(self).rows@.len(),
            forall|y: int|
                0 <= y < old(self).rows@.len()
                    ==> (#[trigger] final(self).rows@[y])@.len() == old(self).rows@[y]@.len(),
            forall|c2: Coord|
                old(self).in_bounds(c2) ==> final(self).at(c2) == inst::BLANK,
            old(self).wf() ==> final(self).wf(),
    {
        let mut y: usize = 0;
        while y < self.rows.len()
            invariant
                y <= self.rows@.len(),
                self.rows@.len() == old(self).rows@.len(),
                forall|y2: int|
                    0 <= y2 < self.rows@.len()
                        ==> (#[trigger] self.rows@[y2])@.len() == old(self).rows@[y2]@.len(),
                forall|y2: int, x: int|
                    0 <= y2 < y && 0 <= x < self.rows@[y2]@.len()
                        ==> #[trigger] self.rows@[y2]@[x] == inst::BLANK,
            decreases self.rows@.len() - y,
        {
            let len = self.rows[y].len();
            let mut row: Vec<u8> = Vec::new();
            let mut x: usize = 0;
            while x < len
                invariant
                    x <= len,
                    row@.len() == x,
                    forall|x2: int| 0 <= x2 < x ==> #[trigger] row@[x2] == inst::BLANK,
                decreases len - x,
            {
                row.push(inst::BLANK);
                x += 1;
            }
            self.rows[y] = row;
            y += 1;
        }
        proof {
            assert forall|c2: Coord|
                old(self).in_bounds(c2) implies self.at(c2) == inst::BLANK by {}
        }
    }

    /// Finds the initial cell: the first explicit `$` marker in
    /// top-to-bottom, left-to-right order; failing that, the first
    /// non-blank cell; `None` only on an entirely blank grid.
    pub fn find_start(&self) -> (r: Option<Coord>)
        ensures
            r is None <==> self.all_blank(),
            r matches Some(c) ==> self.start_choice(c),
    {
        let mut found_start: Option<Coord> = None;
        let mut found_nb: Option<Coord> = None;
        let mut y: usize = 0;
        while y < self.rows.len()
            invariant
                y <= self.rows@.len(),
                match found_start {
                    Some(fc) => self.start_at(fc) && fc.1 < y
                        && forall|c2: Coord|
                            c2.1 < y && self.start_at(c2) ==> !scan_before(c2, fc),
                    None => forall|c2: Coord| c2.1 < y ==> !self.start_at(c2),
                },
                match found_nb {
                    Some(fc) => self.nonblank_at(fc) && fc.1 < y
                        && forall|c2: Coord|
                            c2.1 < y && self.nonblank_at(c2) ==> !scan_before(c2, fc),
                    None => forall|c2: Coord| c2.1 < y ==> !self.nonblank_at(c2),
                },
            decreases self.rows@.len() - y,
        {
            let row_len = self.rows[y].len();
            let mut x: usize = 0;
            while x < row_len
                invariant
                    x <= row_len,
                    y < self.rows@.len(),
                    row_len == self.rows@[y as int]@.len(),
                    match found_start {
                        Some(fc) => self.start_at(fc)
                            && (fc.1 < y || (fc.1 == y && fc.0 < x))
                            && forall|c2: Coord|
                                (c2.1 < y || (c2.1 == y && c2.0 < x)) && self.start_at(c2)
                                    ==> !scan_before(c2, fc),
                        None => forall|c2: Coord|
                            (c2.1 < y || (c2.1 == y && c2.0 < x)) ==> !self.start_at(c2),
                    },
                    match found_nb {
                        Some(fc) => self.nonblank_at(fc)
                            && (fc.1 < y || (fc.1 == y && fc.0 < x))
                            && forall|c2: Coord|
                                (c2.1 < y || (c2.1 == y && c2.0 < x)) && self.nonblank_at(c2)
                                    ==> !scan_before(c2, fc),
                        None => forall|c2: Coord|
                            (c2.1 < y || (c2.1 == y && c2.0 < x)) ==> !self.nonblank_at(c2),
                    },
                decreases row_len - x,
            {
                let b = self.rows[y][x];
                if b == inst::START {
                    if found_start.is_none() {
                        found_start = Some((x, y));
                    }
                }
                if b != inst::BLANK {
                    if found_nb.is_none() {
                        found_nb = Some((x, y));
                    }
                }
                x += 1;
            }
            y += 1;
        }
        let r = match found_start {
            Some(c) => Some(c),
            None => found_nb,
        };
        proof {
            match r {
                Some(c) => {
                    assert(self.nonblank_at(c));
                    match found_start {
                        Some(fc) => {
                            assert forall|c2: Coord| self.start_at(c2)
                                implies !scan_before(c2, c) by {
                                assert(c2.1 < self.rows@.len());
                            }
                        },
                        None => {
                            assert forall|c2: Coord| !self.start_at(c2) by {
                                if c2.1 < self.rows@.len() {
                                } else {
                                    assert(!self.in_bounds(c2));
                                }
                            }
                            assert forall|c2: Coord| self.nonblank_at(c2)
                                implies !scan_before(c2, c) by {
                                assert(c2.1 < self.rows@.len());
                            }
                        },
                    }
                },
                None => {
                    assert forall|c2: Coord| self.in_bounds(c2)
                        implies self.at(c2) == inst::BLANK by {
                        assert(c2.1 < self.rows@.len());
                        assert(!self.nonblank_at(c2));
                    }
                },
            }
        }
        r
    }

    /// The grid as text: every row followed by a line feed.
    pub fn to_text(&self) -> (r: Vec<u8>)
        ensures
            r@ == rendered(self.rows@.map_values(|v: Vec<u8>| v@)),
    {
        let ghost rs = self.rows@.map_values(|v: Vec<u8>| v@);
        let mut out: Vec<u8> = Vec::new();
        let mut y: usize = 0;
        while y < self.rows.len()
            invariant
                y <= self.rows@.len(),
                rs == self.rows@.map_values(|v: Vec<u8>| v@),
                out@ == rendered(rs.take(y as int)),
            decreases self.rows@.len() - y,
        {
            let row = &self.rows[y];
            let mut x: usize = 0;
            while x < row.len()
                invariant
                    x <= row@.len(),
                    y < rs.len(),
                    row@ == rs[y as int],
                    rs == self.rows@.map_values(|v: Vec<u8>| v@),
                    out@ == rendered(rs.take(y as int)) + rs[y as int].take(x as int),
                decreases row@.len() - x,
            {
                let b = row[x];
                out.push(b);
                x += 1;
                proof {
                    assert(out@ =~= rendered(rs.take(y as int))
                        + rs[y as int].take(x as int));
                }
            }
            out.push(NL);
            proof {
                assert(rs.take(y as int + 1).drop_last() =~= rs.take(y as int));
                assert(rs.take(y as int + 1).last() == rs[y as int]);
                assert(rs[y as int].take(row@.len() as int) =~= rs[y as int]);
                assert(out@ =~= rendered(rs.take(y as int + 1)));
            }
            y += 1;
        }
        proof {
            assert(rs.take(self.rows@.len() as int) =~= rs);
        }
        out
    }

    /// The stored rows, for inspection or display.
    pub fn rows(&self) -> (r: &[Vec<u8>])
        ensures
            r@ == self.rows@,
    {
        self.rows.as_slice()
    }
}

} // verus!
