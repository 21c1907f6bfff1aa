//! Deterministic text rendering: the flat form of a matrix and the tiled
//! form of a decomposition. The exact text of both is pinned down by spec
//! functions over the views, so two renderings of equal matrices are
//! byte-identical by construction.

use vstd::prelude::*;
use crate::matrix::Matrix;
use crate::num::Number;
use crate::text::append_padded;
use crate::text::pad_left;
use crate::text::repeat_text;
use crate::tiling::TiledMatrix;
use vstd::string::StringExecFns;
use vstd::string::StrSliceExecFns;

verus! {

/// The larger of two naturals.
pub open spec fn nat_max(a: nat, b: nat) -> nat {
    if a >= b {
        a
    } else {
        b
    }
}

/// The longest element text in one row.
pub open spec fn row_text_max<T: Number>(row: Seq<T>) -> nat
    decreases row.len(),
{
    if row.len() == 0 {
        0
    } else {
        nat_max(row_text_max(row.drop_last()), row.last().spec_text().len())
    }
}

/// The longest element text in a grid.
pub open spec fn grid_text_max<T: Number>(g: Seq<Seq<T>>) -> nat
    decreases g.len(),
{
    if g.len() == 0 {
        0
    } else {
        nat_max(grid_text_max(g.drop_last()), row_text_max(g.last()))
    }
}

/// The column width of a rendered grid: the longest element text, but at
/// least two.
pub open spec fn grid_width<T: Number>(g: Seq<Seq<T>>) -> nat {
    nat_max(grid_text_max(g), 2)
}

/// One row's elements, each right-aligned to width `w`, comma-separated.
pub open spec fn row_text<T: Number>(row: Seq<T>, w: nat) -> Seq<char>
    decreases row.len(),
{
    if row.len() == 0 {
        Seq::empty()
    } else if row.len() == 1 {
        pad_left(row[0].spec_text(), w)
    } else {
        row_text(row.drop_last(), w) + ","@ + pad_left(row.last().spec_text(), w)
    }
}

/// Line `i` of the flat rendering: `[[` on the first row, ` [` after; the
/// row's text; `]]` on the last row, `],` before; then a newline.
pub open spec fn matrix_line<T: Number>(g: Seq<Seq<T>>, w: nat, i: int) -> Seq<char> {
    (if i == 0 {
        "[["@
    } else {
        " ["@
    }) + row_text(g[i], w) + (if i == g.len() - 1 {
        "]]"@
    } else {
        "],"@
    }) + "\n"@
}

/// The first `n` lines of the flat rendering, concatenated.
pub open spec fn matrix_lines<T: Number>(g: Seq<Seq<T>>, w: nat, n: int) -> Seq<char>
    decreases n,
{
    if n <= 0 {
        Seq::empty()
    } else {
        matrix_lines(g, w, n - 1) + matrix_line(g, w, n - 1)
    }
}

/// The whole flat rendering of a grid.
pub open spec fn matrix_text<T: Number>(g: Seq<Seq<T>>) -> Seq<char> {
    matrix_lines(g, grid_width(g), g.len() as int)
}

/// No element's text in a row is longer than the row's maximum.
pub proof fn lemma_row_text_max_ge<T: Number>(row: Seq<T>, j: int)
    requires
        0 <= j < row.len(),
    ensures
        row[j].spec_text().len() <= row_text_max(row),
    decreases row.len(),
{
    if j < row.len() - 1 {
        lemma_row_text_max_ge(row.drop_last(), j);
    }
}

/// No element's text in a grid is longer than the grid's maximum.
pub proof fn lemma_grid_text_max_ge<T: Number>(g: Seq<Seq<T>>, i: int, j: int)
    requires
        0 <= i < g.len(),
        0 <= j < g[i].len(),
    ensures
        g[i][j].spec_text().len() <= grid_text_max(g),
    decreases g.len(),
{
    if i < g.len() - 1 {
        lemma_grid_text_max_ge(g.drop_last(), i, j);
    } else {
        lemma_row_text_max_ge(g[i], j);
    }
}

impl<T: Number> Matrix<T> {
    /// The length of the longest element text in the matrix.
    pub fn text_max(&self) -> (m: usize)
        requires
            self.wf(),
        ensures
            m as nat == grid_text_max(self@),
    {
        let mut maxw: usize = 0;
        let mut i: usize = 0;
        while i < self.rows
            invariant
                self.wf(),
                i <= self.rows,
                maxw as nat == grid_text_max(self@.take(i as int)),
            decreases self.rows - i,
        {
            let mut j: usize = 0;
            while j < self.cols
                invariant
                    self.wf(),
                    i < self.rows,
                    j <= self.cols,
                    maxw as nat == nat_max(
                        grid_text_max(self@.take(i as int)),
                        row_text_max(self@[i as int].take(j as int)),
                    ),
                decreases self.cols - j,
            {
                proof {
                    assert(self@[i as int] == self.data@[i as int]@);
                    assert(self@[i as int].len() == self.cols);
                }
                let t = self.data[i][j].to_text();
                let l = t.as_str().unicode_len();
                if l > maxw {
                    maxw = l;
                }
                proof {
                    let row = self@[i as int];
                    assert(row.take(j + 1).drop_last() =~= row.take(j as int));
                    assert(row.take(j + 1).last() == row[j as int]);
                }
                j = j + 1;
            }
            proof {
                let g = self@;
                assert(g[i as int].take(self.cols as int) =~= g[i as int]);
                assert(g.take(i + 1).drop_last() =~= g.take(i as int));
                assert(g.take(i + 1).last() == g[i as int]);
            }
            i = i + 1;
        }
        proof {
            assert(self@.take(self.rows as int) =~= self@);
        }
        maxw
    }

    /// The column width of the flat rendering: the longest element text,
    /// minimum two.
    pub fn column_width(&self) -> (w: usize)
        requires
            self.wf(),
        ensures
            w as nat == grid_width(self@),
    {
        let m = self.text_max();
        if m < 2 {
            2
        } else {
            m
        }
    }

    /// One row's elements, right-aligned to width `w` and comma-separated.
    fn row_string(&self, i: usize, w: usize) -> (r: String)
        requires
            self.wf(),
            i < self.rows,
            grid_text_max(self@) <= w,
        ensures
            r@ == row_text(self@[i as int], w as nat),
    {
        let mut s = String::new();
        let mut j: usize = 0;
        while j < self.cols
            invariant
                self.wf(),
                i < self.rows,
                j <= self.cols,
                grid_text_max(self@) <= w,
                s@ == row_text(self@[i as int].take(j as int), w as nat),
            decreases self.cols - j,
        {
            if j > 0 {
                s.append(",");
            }
            proof {
                assert(self@[i as int] == self.data@[i as int]@);
                assert(self@[i as int].len() == self.cols);
                lemma_grid_text_max_ge(self@, i as int, j as int);
            }
            let t = self.data[i][j].to_text();
            append_padded(&mut s, &t, w);
            proof {
                let row = self@[i as int];
                assert(row.take(j + 1).drop_last() =~= row.take(j as int));
                assert(row.take(j + 1).last() == row[j as int]);
                assert(s@ =~= row_text(row.take(j + 1), w as nat));
            }
            j = j + 1;
        }
        proof {
            assert(self@[i as int].take(self.cols as int) =~= self@[i as int]);
        }
        s
    }

    /// The flat rendering: `[[ ... ]]` around the whole matrix, one
    /// bracketed row per line, elements comma-separated and right-aligned
    /// to the shared column width. Purely a function of the matrix's
    /// elements, so equal matrices render to byte-identical text.
    pub fn to_display_string(&self) -> (r: String)
        requires
            self.wf(),
        ensures
            r@ == matrix_text(self@),
    {
        let w = self.column_width();
        let mut s = String::new();
        let mut i: usize = 0;
        while i < self.rows
            invariant
                self.wf(),
                i <= self.rows,
                w as nat == grid_width(self@),
                s@ == matrix_lines(self@, w as nat, i as int),
            decreases self.rows - i,
        {
            if i == 0 {
                s.append("[[");
            } else {
                s.append(" [");
            }
            let row_str = self.row_string(i, w);
            s.append(row_str.as_str());
            if i + 1 == self.rows {
                s.append("]]");
            } else {
                s.append("],");
            }
            s.append("\n");
            proof {
                assert(s@ =~= matrix_lines(self@, w as nat, i + 1));
            }
            i = i + 1;
        }
        proof {
            assert(matrix_lines(self@, w as nat, self.rows as int) == matrix_text(self@));
        }
        s
    }
}

/// The longest element text across one band (one row of tiles).
pub open spec fn band_text_max<T: Number>(band: Seq<Seq<Seq<T>>>) -> nat
    decreases band.len(),
{
    if band.len() == 0 {
        0
    } else {
        nat_max(band_text_max(band.drop_last()), grid_text_max(band.last()))
    }
}

/// The longest element text across every tile of a decomposition.
pub open spec fn tiles_text_max<T: Number>(tiles: Seq<Seq<Seq<Seq<T>>>>) -> nat
    decreases tiles.len(),
{
    if tiles.len() == 0 {
        0
    } else {
        nat_max(tiles_text_max(tiles.drop_last()), band_text_max(tiles.last()))
    }
}

/// The shared column width of the tiled rendering: the longest element
/// text across the whole structure, minimum two.
pub open spec fn tiles_width<T: Number>(tiles: Seq<Seq<Seq<Seq<T>>>>) -> nat {
    nat_max(tiles_text_max(tiles), 2)
}

/// No tile's maximum exceeds its band's maximum.
pub proof fn lemma_band_text_max_ge<T: Number>(band: Seq<Seq<Seq<T>>>, j: int)
    requires
        0 <= j < band.len(),
    ensures
        grid_text_max(band[j]) <= band_text_max(band),
    decreases band.len(),
{
    if j < band.len() - 1 {
        lemma_band_text_max_ge(band.drop_last(), j);
    }
}

/// No band's maximum exceeds the whole decomposition's maximum.
pub proof fn lemma_tiles_text_max_ge<T: Number>(tiles: Seq<Seq<Seq<Seq<T>>>>, i: int)
    requires
        0 <= i < tiles.len(),
    ensures
        band_text_max(tiles[i]) <= tiles_text_max(tiles),
    decreases tiles.len(),
{
    if i < tiles.len() - 1 {
        lemma_tiles_text_max_ge(tiles.drop_last(), i);
    }
}

/// The border segments of the first `n` tile-columns: each is the border
/// character repeated `(1 + w) * ts` times, closed by `+`.
pub open spec fn sep_cols(unit: Seq<char>, w: nat, ts: nat, n: int) -> Seq<char>
    decreases n,
{
    if n <= 0 {
        Seq::empty()
    } else {
        sep_cols(unit, w, ts, n - 1) + repeat_text(unit, (1 + w) * ts) + "+"@
    }
}

/// A whole border line: `+`, one segment per tile-column, a newline.
pub open spec fn sep_line(unit: Seq<char>, w: nat, ts: nat, tcols: int) -> Seq<char> {
    "+"@ + sep_cols(unit, w, ts, tcols) + "\n"@
}

/// The first `n` cells of row `rwt` of one tile: each a space then the
/// element right-aligned to width `w`.
pub open spec fn tile_cells<T: Number>(tile: Seq<Seq<T>>, rwt: int, w: nat, n: int) -> Seq<char>
    decreases n,
{
    if n <= 0 {
        Seq::empty()
    } else {
        tile_cells(tile, rwt, w, n - 1) + " "@ + pad_left(tile[rwt][n - 1].spec_text(), w)
    }
}

/// Row `rwt` across the first `n` tiles of a band, each tile's cells
/// closed by `|`.
pub open spec fn band_cols<T: Number>(
    band: Seq<Seq<Seq<T>>>,
    rwt: int,
    w: nat,
    ts: nat,
    n: int,
) -> Seq<char>
    decreases n,
{
    if n <= 0 {
        Seq::empty()
    } else {
        band_cols(band, rwt, w, ts, n - 1) + tile_cells(band[n - 1], rwt, w, ts as int) + "|"@
    }
}

/// One element line of a band: `|`, the cells of each tile, a newline.
pub open spec fn band_line<T: Number>(
    band: Seq<Seq<Seq<T>>>,
    rwt: int,
    w: nat,
    ts: nat,
    tcols: int,
) -> Seq<char> {
    "|"@ + band_cols(band, rwt, w, ts, tcols) + "\n"@
}

/// The first `n` element lines of a band.
pub open spec fn band_lines<T: Number>(
    band: Seq<Seq<Seq<T>>>,
    w: nat,
    ts: nat,
    tcols: int,
    n: int,
) -> Seq<char>
    decreases n,
{
    if n <= 0 {
        Seq::empty()
    } else {
        band_lines(band, w, ts, tcols, n - 1) + band_line(band, n - 1, w, ts, tcols)
    }
}

/// The first `n` bands of the tiled rendering: each preceded by a border
/// line, `=` before the first band and `-` between bands.
pub open spec fn bands_text<T: Number>(
    tiles: Seq<Seq<Seq<Seq<T>>>>,
    w: nat,
    ts: nat,
    tcols: int,
    n: int,
) -> Seq<char>
    decreases n,
{
    if n <= 0 {
        Seq::empty()
    } else {
        bands_text(tiles, w, ts, tcols, n - 1) + (if n == 1 {
            sep_line("="@, w, ts, tcols)
        } else {
            sep_line("-"@, w, ts, tcols)
        }) + band_lines(tiles[n - 1], w, ts, tcols, ts as int)
    }
}

/// The whole tiled rendering, closed by a final `=` border line.
pub open spec fn tiled_text<T: Number>(tiles: Seq<Seq<Seq<Seq<T>>>>, ts: nat) -> Seq<char> {
    bands_text(tiles, tiles_width(tiles), ts, tiles[0].len() as int, tiles.len() as int)
        + sep_line("="@, tiles_width(tiles), ts, tiles[0].len() as int)
}

/// Appends one border line: `+`, then per tile-column `(1 + w) * ts`
/// border characters and `+`, then a newline.
fn append_sep_line(s: &mut String, unit: &str, w: usize, ts: usize, tcols: usize)
    ensures
        final(s)@ == old(s)@ + sep_line(unit@, w as nat, ts as nat, tcols as int),
{
    s.append("+");
    let mut tc: usize = 0;
    while tc < tcols
        invariant
            tc <= tcols,
            s@ == old(s)@ + "+"@ + sep_cols(unit@, w as nat, ts as nat, tc as int),
        decreases tcols - tc,
    {
        let ghost base = s@;
        let mut a: usize = 0;
        while a < ts
            invariant
                a <= ts,
                s@ == base + repeat_text(unit@, (1 + w as nat) * (a as nat)),
            decreases ts - a,
        {
            let ghost before = s@;
            s.append(unit);
            let mut b: usize = 0;
            while b < w
                invariant
                    b <= w,
                    s@ == before + unit@ + repeat_text(unit@, b as nat),
                decreases w - b,
            {
                s.append(unit);
                proof {
                    assert(s@ =~= before + unit@ + repeat_text(unit@, (b + 1) as nat));
                }
                b = b + 1;
            }
            proof {
                crate::text::lemma_repeat_text_add(unit@, ((1 + w as nat) * (a as nat)) as nat, (1
                    + w as nat) as nat);
                assert((1 + w as nat) * ((a + 1) as nat) == (1 + w as nat) * (a as nat) + (1
                    + w as nat)) by (nonlinear_arith);
                assert(unit@ + repeat_text(unit@, w as nat) =~= repeat_text(
                    unit@,
                    (1 + w as nat) as nat,
                )) by {
                    crate::text::lemma_repeat_text_add(unit@, 1, w as nat);
                    assert(repeat_text(unit@, 1) =~= unit@);
                }
                assert(s@ =~= base + repeat_text(unit@, (1 + w as nat) * ((a + 1) as nat)));
            }
            a = a + 1;
        }
        s.append("+");
        proof {
            assert(s@ =~= old(s)@ + "+"@ + sep_cols(unit@, w as nat, ts as nat, tc + 1));
        }
        tc = tc + 1;
    }
    s.append("\n");
    proof {
        assert(s@ =~= old(s)@ + sep_line(unit@, w as nat, ts as nat, tcols as int));
    }
}

impl<T: Number> TiledMatrix<T> {
    /// The shared column width of the tiled rendering: the longest element
    /// text across every tile, minimum two.
    pub fn column_width(&self) -> (w: usize)
        requires
            self.wf(),
        ensures
            w as nat == tiles_width(self@),
    {
        let mut maxw: usize = 0;
        let mut tr: usize = 0;
        let nrows = self.tiles.len();
        while tr < nrows
            invariant
                self.wf(),
                nrows == self.tiles@.len(),
                tr <= nrows,
                maxw as nat == tiles_text_max(self@.take(tr as int)),
            decreases nrows - tr,
        {
            let ncols = self.tiles[tr].len();
            let mut tc: usize = 0;
            while tc < ncols
                invariant
                    self.wf(),
                    nrows == self.tiles@.len(),
                    tr < nrows,
                    ncols == self.tiles@[tr as int]@.len(),
                    tc <= ncols,
                    maxw as nat == nat_max(
                        tiles_text_max(self@.take(tr as int)),
                        band_text_max(self@[tr as int].take(tc as int)),
                    ),
                decreases ncols - tc,
            {
                proof {
                    assert(self@[tr as int][tc as int] == self.tiles@[tr as int]@[tc as int]@);
                }
                let m = self.tiles[tr][tc].text_max();
                if m > maxw {
                    maxw = m;
                }
                proof {
                    let band = self@[tr as int];
                    assert(band.take(tc + 1).drop_last() =~= band.take(tc as int));
                    assert(band.take(tc + 1).last() == band[tc as int]);
                }
                tc = tc + 1;
            }
            proof {
                assert(self@[tr as int].take(ncols as int) =~= self@[tr as int]);
                assert(self@.take(tr + 1).drop_last() =~= self@.take(tr as int));
                assert(self@.take(tr + 1).last() == self@[tr as int]);
            }
            tr = tr + 1;
        }
        proof {
            assert(self@.take(self.tiles@.len() as int) =~= self@);
        }
        if maxw < 2 {
            2
        } else {
            maxw
        }
    }

    /// The tiled rendering: `=` border lines before the first band and
    /// after the last, `-` border lines between bands, each tile-column
    /// bounded by `|`, every element right-aligned to the shared column
    /// width. Purely a function of the tiles, so equal decompositions
    /// render to byte-identical text.
    pub fn to_display_string(&self) -> (r: String)
        requires
            self.wf(),
        ensures
            r@ == tiled_text(self@, self.tile_size as nat),
    {
        let w = self.column_width();
        let ts = self.tile_size;
        let nrows = self.tiles.len();
        let tcols = self.tiles[0].len();
        let mut s = String::new();
        let mut tr: usize = 0;
        while tr < nrows
            invariant
                self.wf(),
                ts == self.tile_size,
                nrows == self.tiles@.len(),
                tcols == self.tiles@[0]@.len(),
                tr <= nrows,
                w as nat == tiles_width(self@),
                s@ == bands_text(self@, w as nat, ts as nat, tcols as int, tr as int),
            decreases nrows - tr,
        {
            if tr == 0 {
                append_sep_line(&mut s, "=", w, ts, tcols);
            } else {
                append_sep_line(&mut s, "-", w, ts, tcols);
            }
            let ghost band_base = s@;
            let mut rwt: usize = 0;
            while rwt < ts
                invariant
                    self.wf(),
                    ts == self.tile_size,
                    nrows == self.tiles@.len(),
                    tcols == self.tiles@[0]@.len(),
                    tr < nrows,
                    rwt <= ts,
                    w as nat == tiles_width(self@),
                    s@ == band_base + band_lines(
                        self@[tr as int],
                        w as nat,
                        ts as nat,
                        tcols as int,
                        rwt as int,
                    ),
                decreases ts - rwt,
            {
                s.append("|");
                let ghost line_base = s@;
                let mut tc: usize = 0;
                while tc < tcols
                    invariant
                        self.wf(),
                        ts == self.tile_size,
                        nrows == self.tiles@.len(),
                        tcols == self.tiles@[0]@.len(),
                        tr < nrows,
                        rwt < ts,
                        tc <= tcols,
                        w as nat == tiles_width(self@),
                        s@ == line_base + band_cols(
                            self@[tr as int],
                            rwt as int,
                            w as nat,
                            ts as nat,
                            tc as int,
                        ),
                    decreases tcols - tc,
                {
                    let ghost cells_base = s@;
                    let ghost tile_view = self@[tr as int][tc as int];
                    proof {
                        assert(self.tiles@[tr as int]@.len() == tcols);
                        assert(tile_view == self.tiles@[tr as int]@[tc as int]@);
                    }
                    let mut cwt: usize = 0;
                    while cwt < ts
                        invariant
                            self.wf(),
                            ts == self.tile_size,
                            nrows == self.tiles@.len(),
                            tr < nrows,
                            tc < self.tiles@[tr as int]@.len(),
                            rwt < ts,
                            cwt <= ts,
                            w as nat == tiles_width(self@),
                            tile_view == self@[tr as int][tc as int],
                            tile_view == self.tiles@[tr as int]@[tc as int]@,
                            s@ == cells_base + tile_cells(
                                tile_view,
                                rwt as int,
                                w as nat,
                                cwt as int,
                            ),
                        decreases ts - cwt,
                    {
                        s.append(" ");
                        proof {
                            let tile = self.tiles@[tr as int]@[tc as int];
                            assert(tile.wf());
                            assert(tile@[rwt as int] == tile.data@[rwt as int]@);
                            assert(tile@[rwt as int].len() == ts);
                            lemma_grid_text_max_ge(tile_view, rwt as int, cwt as int);
                            lemma_band_text_max_ge(self@[tr as int], tc as int);
                            lemma_tiles_text_max_ge(self@, tr as int);
                        }
                        let t = self.tiles[tr][tc].data[rwt][cwt].to_text();
                        append_padded(&mut s, &t, w);
                        proof {
                            assert(s@ =~= cells_base + tile_cells(
                                tile_view,
                                rwt as int,
                                w as nat,
                                cwt + 1,
                            ));
                        }
                        cwt = cwt + 1;
                    }
                    s.append("|");
                    proof {
                        assert(s@ =~= line_base + band_cols(
                            self@[tr as int],
                            rwt as int,
                            w as nat,
                            ts as nat,
                            tc + 1,
                        ));
                    }
                    tc = tc + 1;
                }
                s.append("\n");
                proof {
                    assert(s@ =~= band_base + band_lines(
                        self@[tr as int],
                        w as nat,
                        ts as nat,
                        tcols as int,
                        rwt + 1,
                    ));
                }
                rwt = rwt + 1;
            }
            proof {
                assert(s@ =~= bands_text(self@, w as nat, ts as nat, tcols as int, tr + 1));
            }
            tr = tr + 1;
        }
        append_sep_line(&mut s, "=", w, ts, tcols);
        proof {
            assert(self@[0].len() == self.tiles@[0]@.len());
            assert(s@ =~= tiled_text(self@, self.tile_size as nat));
        }
        s
    }
}

} // verus!
